//! Threads: what is kept of a conversation, and what those who follow it are told.

use rand::distributions::Alphanumeric;
use rand::Rng;
use time::format_description::well_known::Rfc3339;
use time::OffsetDateTime;
use vstd::prelude::*;
use crate::core_lib::error::CoreError;
use crate::core_lib::generation::{drop_system, without_system};
use crate::core_lib::sessions::{strip_suffix, SESSION_INFO_FILENAME};
use crate::protocol::{GetThreadMessagesRequest, Message, MessageModel, MessageRole, ToolCall};
use crate::text::{
    before, chars_of, concat, is_ascii_alphanumeric, lemma_before_asymmetric,
    lemma_not_before_transitive, opt_text, same, starts_with,
};

verus! {

broadcast use vstd::string::group_string_axioms;

/// How long a thread is kept after it was touched last, where the configuration does not say.
pub const DEFAULT_THREAD_TTL_SECS: u64 = 1209600;

/// A thread that is kept.
#[derive(Debug)]
pub struct ThreadInfo {
    pub id: String,
    /// When it was touched last.
    pub modified: Option<String>,
}

/// What a [`ThreadInfo`] says.
#[verifier::ext_equal]
pub ghost struct ThreadInfoModel {
    pub id: Seq<char>,
    pub modified: Option<Seq<char>>,
}

impl DeepView for ThreadInfo {
    type V = ThreadInfoModel;

    open spec fn deep_view(&self) -> ThreadInfoModel {
        ThreadInfoModel { id: self.id@, modified: self.modified.deep_view() }
    }
}

/// What those who follow a thread are told.
#[derive(Debug)]
pub enum ThreadEvent {
    Start { current_subscribers: Option<Vec<String>> },
    NewThread { thread_id: String },
    NewSubscriber { client_id: String },
    Message { message: Message },
}

/// What a [`ThreadEvent`] says.
#[verifier::ext_equal]
pub ghost enum ThreadEventModel {
    Start { current_subscribers: Option<Seq<Seq<char>>> },
    NewThread { thread_id: Seq<char> },
    NewSubscriber { client_id: Seq<char> },
    Message { message: MessageModel },
}

impl DeepView for ThreadEvent {
    type V = ThreadEventModel;

    open spec fn deep_view(&self) -> ThreadEventModel {
        match self {
            ThreadEvent::Start { current_subscribers } => ThreadEventModel::Start {
                current_subscribers: current_subscribers.deep_view(),
            },
            ThreadEvent::NewThread { thread_id } => ThreadEventModel::NewThread {
                thread_id: thread_id@,
            },
            ThreadEvent::NewSubscriber { client_id } => ThreadEventModel::NewSubscriber {
                client_id: client_id@,
            },
            ThreadEvent::Message { message } => ThreadEventModel::Message {
                message: message.deep_view(),
            },
        }
    }
}

// ---------------------------------------------------------------------------------------------
// Names and ages.

/// The name of the file of a thread.
pub fn thread_file_name(id: &str) -> (r: String)
    ensures
        r@ == id@ + ".json"@,
{
    concat(id, ".json")
}

/// How long threads are kept.
pub fn thread_ttl_secs(configured: Option<u64>) -> (r: u64)
    ensures
        r == (match configured {
            Some(secs) => secs,
            None => DEFAULT_THREAD_TTL_SECS,
        }),
{
    match configured {
        Some(secs) => secs,
        None => DEFAULT_THREAD_TTL_SECS,
    }
}

/// Whether a file holds a thread, by the extension of its name.
pub fn is_thread_file(extension: Option<&str>) -> (r: bool)
    ensures
        r == (extension matches Some(e) && e@ == "json"@),
{
    match extension {
        Some(e) => same(e, "json"),
        None => false,
    }
}

/// Whether a thread is to be removed: its age is more than its time to live. The age is given in
/// whole seconds and the nanoseconds beyond.
pub fn is_thread_old(age_secs: u64, age_nanos: u32, ttl_secs: u64) -> (r: bool)
    ensures
        r == (age_secs > ttl_secs || (age_secs == ttl_secs && age_nanos > 0)),
{
    age_secs > ttl_secs || (age_secs == ttl_secs && age_nanos > 0)
}

/// `rand::distributions::Alphanumeric` gives ASCII letters and digits; which, is left to chance.
#[verifier::external_body]
fn random_alphanumeric(len: usize) -> (r: String)
    ensures
        r@.len() == len,
        forall|i: int| 0 <= i < r@.len() ==> is_ascii_alphanumeric(#[trigger] r@[i]),
{
    rand::thread_rng().sample_iter(&Alphanumeric).take(len).map(char::from).collect()
}

/// Whether the text is a year of four digits, a month, a day, an hour and a minute of two digits each,
/// as in `2024-01-31_23-59`.
pub open spec fn is_minute(s: Seq<char>) -> bool {
    &&& s.len() == 16
    &&& s[4] == '-' && s[7] == '-' && s[10] == '_' && s[13] == '-'
    &&& forall|i: int|
        0 <= i < 16 && i != 4 && i != 7 && i != 10 && i != 13 ==> '0' <= #[trigger] s[i] <= '9'
}

/// Whether the text is the time of a thread. A negative year has a minus sign.
pub open spec fn is_thread_time(s: Seq<char>) -> bool {
    is_minute(s) || (s.len() == 17 && s[0] == '-' && is_minute(s.skip(1)))
}

/// How the time at which a thread begins is written in its id.
pub const THREAD_TIME_FORMAT: &'static str = "[year]-[month]-[day]_[hour]-[minute]";

/// `time::OffsetDateTime::now_local`, written in that format. Under [`THREAD_TIME_FORMAT`] that is
/// date, hour and minute, each filled up with zeros. Nothing, where the local offset is not known, or
/// the format is none. Which time it is depends on the clock.
#[verifier::external_body]
fn local_time_text(format: &str) -> (r: Option<String>)
    ensures
        format@ == THREAD_TIME_FORMAT@ ==> (r matches Some(time) ==> is_thread_time(time@)),
{
    let now = OffsetDateTime::now_local().ok()?;
    let format = time::format_description::parse(format).ok()?;
    now.format(&format).ok()
}

/// The id of a thread that begins at that time, with a random part.
pub fn thread_id_at(time: &str, random_part: &str) -> (r: String)
    ensures
        r@ == time@ + "_"@ + random_part@,
{
    concat(concat(time, "_").as_str(), random_part)
}

/// The id of a thread that begins at that time, with a random part. Nothing, where the time is not
/// known.
pub fn thread_id_from(time: Option<String>, random_part: &str) -> (r: Option<String>)
    ensures
        r.deep_view() == (match time {
            Some(time) => Some(time@ + "_"@ + random_part@),
            None => None,
        }),
{
    match time {
        Some(time) => Some(thread_id_at(time.as_str(), random_part)),
        None => None,
    }
}

/// Whether the text is a time, an underscore and eight letters or digits.
pub open spec fn is_new_thread_id(id: Seq<char>) -> bool {
    exists|time: Seq<char>, random: Seq<char>|
        id == #[trigger] (time + "_"@ + random) && is_thread_time(time) && random.len() == 8
            && forall|i: int| 0 <= i < random.len() ==> is_ascii_alphanumeric(#[trigger] random[i])
}

/// An id for a thread that begins now. Nothing, where the local time is not known.
pub fn new_thread_id() -> (r: Option<String>)
    ensures
        r matches Some(id) ==> is_new_thread_id(id@),
{
    let random_part = random_alphanumeric(8);
    let time = local_time_text(THREAD_TIME_FORMAT);
    let ghost told = time.deep_view();
    let r = thread_id_from(time, random_part.as_str());
    assert(told is Some ==> r.deep_view() == Some(told->0 + "_"@ + random_part@));
    r
}

/// A time, given in nanoseconds since the Unix epoch, in the form of RFC 3339. Nothing, where the form
/// has no room for its year.
pub uninterp spec fn rfc3339_text(nanos_since_epoch: int) -> Option<Seq<char>>;

/// `OffsetDateTime::from_unix_timestamp_nanos`, and `OffsetDateTime::format` in the form `Rfc3339`:
/// the text is a function of the time.
#[verifier::external_body]
fn rfc3339(nanos_since_epoch: i128) -> (r: Option<String>)
    ensures
        opt_text(r) == rfc3339_text(nanos_since_epoch as int),
{
    OffsetDateTime::from_unix_timestamp_nanos(nanos_since_epoch).ok()?.format(&Rfc3339).ok()
}

/// The time at which a thread was touched, as it is shown: so many seconds and nanoseconds after the
/// Unix epoch, or before it.
pub fn modified_text(is_before_epoch: bool, secs: u64, nanos: u32) -> (r: Option<String>)
    ensures
        opt_text(r) == rfc3339_text(
            if is_before_epoch {
                -(secs * 1_000_000_000 + nanos)
            } else {
                secs * 1_000_000_000 + nanos
            },
        ),
{
    let distance: i128 = secs as i128 * 1_000_000_000 + nanos as i128;
    if is_before_epoch {
        rfc3339(-distance)
    } else {
        rfc3339(distance)
    }
}

// ---------------------------------------------------------------------------------------------
// The list of threads.

/// Whether the first time comes before the second. A time that is not known comes first.
pub open spec fn is_earlier(a: Option<Seq<char>>, b: Option<Seq<char>>) -> bool {
    match (a, b) {
        (Some(a), Some(b)) => before(a, b),
        (None, Some(_)) => true,
        (_, None) => false,
    }
}

/// The threads with one more, before those that are not later.
pub open spec fn inserted(infos: Seq<ThreadInfoModel>, info: ThreadInfoModel) -> Seq<ThreadInfoModel>
    decreases infos.len(),
{
    if infos.len() == 0 {
        seq![info]
    } else if is_earlier(info.modified, infos[0].modified) {
        seq![infos[0]] + inserted(infos.drop_first(), info)
    } else {
        seq![info] + infos
    }
}

/// The threads with the latest first. Of two that were touched at the same time, the one that
/// stands later comes first.
pub open spec fn latest_first(infos: Seq<ThreadInfoModel>) -> Seq<ThreadInfoModel>
    decreases infos.len(),
{
    if infos.len() == 0 {
        Seq::empty()
    } else {
        inserted(latest_first(infos.drop_last()), infos.last())
    }
}

/// Whether the first text comes before the second in the order of their characters.
pub fn comes_before(a: &str, b: &str) -> (r: bool)
    ensures
        r == before(a@, b@),
{
    let left = chars_of(a);
    let right = chars_of(b);
    let mut i: usize = 0;
    assert(a@.skip(0) =~= a@);
    assert(b@.skip(0) =~= b@);
    while i < left.len() && i < right.len()
        invariant
            left@ == a@,
            right@ == b@,
            i <= left@.len(),
            i <= right@.len(),
            before(a@, b@) == before(a@.skip(i as int), b@.skip(i as int)),
        decreases left.len() - i,
    {
        assert(a@.skip(i as int)[0] == left@[i as int]);
        assert(b@.skip(i as int)[0] == right@[i as int]);
        if left[i] != right[i] {
            return left[i] < right[i];
        }
        assert(a@.skip(i as int).drop_first() =~= a@.skip(i + 1));
        assert(b@.skip(i as int).drop_first() =~= b@.skip(i + 1));
        i = i + 1;
    }
    i < right.len()
}

/// Whether the first time comes before the second. A time that is not known comes first.
fn earlier(a: &Option<String>, b: &Option<String>) -> (r: bool)
    ensures
        r == is_earlier(a.deep_view(), b.deep_view()),
{
    match (a, b) {
        (Some(a), Some(b)) => comes_before(a.as_str(), b.as_str()),
        (None, Some(_)) => true,
        (_, None) => false,
    }
}

/// Puts a thread before those that are not later.
fn insert_info(infos: &mut Vec<ThreadInfo>, info: ThreadInfo)
    ensures
        final(infos).deep_view() == inserted(old(infos).deep_view(), info.deep_view()),
{
    let ghost all = infos.deep_view();
    let ghost added = info.deep_view();
    let mut i: usize = 0;
    assert(all.take(0) + inserted(all.skip(0), added) =~= inserted(all, added)) by {
        assert(all.skip(0) =~= all);
    }
    while i < infos.len() && earlier(&info.modified, &infos[i].modified)
        invariant
            i <= infos@.len(),
            *infos == *old(infos),
            all == infos.deep_view(),
            added == info.deep_view(),
            all.take(i as int) + inserted(all.skip(i as int), added) == inserted(all, added),
        decreases infos.len() - i,
    {
        let ghost rest = all.skip(i as int);
        assert(rest[0] == infos@[i as int].deep_view());
        assert(rest.drop_first() =~= all.skip(i + 1));
        assert(all.take(i + 1) =~= all.take(i as int).push(rest[0]));
        assert(all.take(i as int) + (seq![rest[0]] + inserted(rest.drop_first(), added)) =~= all.take(
            i + 1,
        ) + inserted(all.skip(i + 1), added));
        i = i + 1;
    }
    let ghost rest = all.skip(i as int);
    proof {
        if i < infos@.len() {
            assert(rest[0] == infos@[i as int].deep_view());
        } else {
            assert(seq![added] + rest =~= seq![added]);
        }
        assert(inserted(rest, added) == seq![added] + rest);
    }
    infos.insert(i, info);
    assert(infos.deep_view() =~= all.take(i as int) + (seq![added] + rest));
}

/// Puts the threads into order: the latest first. Of two that were touched at the same time, the
/// one that stands later comes first.
pub fn sort_thread_infos(infos: Vec<ThreadInfo>) -> (r: Vec<ThreadInfo>)
    ensures
        r.deep_view() == latest_first(infos.deep_view()),
{
    let ghost all = infos.deep_view();
    let mut infos = infos;
    let mut waiting: Vec<ThreadInfo> = Vec::new();
    assert(all.take(all.len() as int) =~= all);
    while infos.len() > 0
        invariant
            infos@.len() <= all.len(),
            infos.deep_view() == all.take(infos@.len() as int),
            waiting@.len() == all.len() - infos@.len(),
            forall|k: int|
                0 <= k < waiting@.len() ==> #[trigger] waiting@[k].deep_view() == all[all.len() - 1 - k],
        decreases infos.len(),
    {
        let ghost n = infos@.len();
        assert(infos.deep_view()[n - 1] == infos@.last().deep_view());
        if let Some(info) = infos.pop() {
            waiting.push(info);
        }
        assert(infos.deep_view() =~= all.take(n - 1));
    }
    let mut r: Vec<ThreadInfo> = Vec::new();
    assert(r.deep_view() =~= latest_first(all.take(0)));
    while waiting.len() > 0
        invariant
            waiting@.len() <= all.len(),
            forall|k: int|
                0 <= k < waiting@.len() ==> #[trigger] waiting@[k].deep_view() == all[all.len() - 1 - k],
            r.deep_view() == latest_first(all.take(all.len() - waiting@.len())),
        decreases waiting.len(),
    {
        let ghost done = all.len() - waiting@.len();
        assert(waiting@.last().deep_view() == all[done]);
        assert(all.take(done + 1).drop_last() =~= all.take(done));
        if let Some(info) = waiting.pop() {
            insert_info(&mut r, info);
        }
    }
    assert(all.take(all.len() as int) =~= all);
    r
}

/// The threads of the project, or else those of the user.
pub fn choose_thread_infos(project: Option<Vec<ThreadInfo>>, home: Option<Vec<ThreadInfo>>) -> (r: Vec<
    ThreadInfo,
>)
    ensures
        r.deep_view() == (match (project.deep_view(), home.deep_view()) {
            (Some(infos), home) => if infos.len() > 0 || home is None {
                infos
            } else {
                home->0
            },
            (None, Some(infos)) => infos,
            (None, None) => Seq::empty(),
        }),
{
    if let Some(infos) = project {
        assert(infos.deep_view().len() == infos@.len());
        if infos.len() > 0 {
            return infos;
        }
        assert(infos.deep_view() =~= Seq::<ThreadInfoModel>::empty());
    }
    match home {
        Some(infos) => infos,
        None => {
            let none: Vec<ThreadInfo> = Vec::new();
            assert(none.deep_view() =~= Seq::<ThreadInfoModel>::empty());
            none
        },
    }
}

/// The thread that was touched last.
pub fn last_thread_info(infos: Vec<ThreadInfo>) -> (r: ThreadInfo)
    requires
        infos@.len() > 0,
    ensures
        r.deep_view() == infos.deep_view()[0],
{
    let mut infos = infos;
    infos.remove(0)
}

// ---------------------------------------------------------------------------------------------
// Messages.

/// What is stored of a thread: the messages that do not have the system role.
pub fn messages_to_store(messages: &Vec<Message>) -> (r: Vec<Message>)
    ensures
        r.deep_view() == without_system(messages.deep_view()),
{
    drop_system(messages)
}

/// The thread with the reply of the model, and its id, if the thread is to be saved.
pub fn thread_with_reply(
    client_id: Option<String>,
    new_text: String,
    tool_calls: Option<Vec<ToolCall>>,
    messages: Option<Vec<Message>>,
    existing_thread_id: Option<String>,
    fresh_thread_id: Option<String>,
) -> (r: Option<(String, Vec<Message>)>)
    requires
        messages is Some && existing_thread_id is None ==> fresh_thread_id is Some,
    ensures
        match messages {
            Some(messages) => {
                &&& r matches Some(saved)
                &&& saved.0 == (match existing_thread_id {
                    Some(id) => id,
                    None => fresh_thread_id->0,
                })
                &&& saved.1.deep_view() == messages.deep_view().push(
                    MessageModel {
                        client_id: client_id.deep_view(),
                        role: MessageRole::Assistant,
                        content: Some(new_text@),
                        tool_calls: tool_calls.deep_view(),
                        tool_call_results: None,
                    },
                )
            },
            None => r is None,
        },
{
    match messages {
        Some(messages) => {
            let ghost earlier = messages.deep_view();
            let mut messages = messages;
            let message = Message {
                client_id,
                role: MessageRole::Assistant,
                content: Some(new_text),
                tool_calls,
                tool_call_results: None,
            };
            let ghost said = message.deep_view();
            messages.push(message);
            assert(messages.deep_view() =~= earlier.push(said));
            let thread_id = match existing_thread_id {
                Some(id) => id,
                None => fresh_thread_id.unwrap(),
            };
            Some((thread_id, messages))
        },
        None => None,
    }
}

/// Where the id of a thread comes from.
#[derive(Debug)]
pub enum ThreadSource {
    Thread(String),
    /// The session of that id, under that tag.
    Session(String, String),
}

/// Where the id of the thread that is asked for comes from.
pub fn thread_source(request: &GetThreadMessagesRequest) -> (r: Result<ThreadSource, CoreError>)
    ensures
        match (request.thread_id, request.session_id, request.session_tag) {
            (Some(id), _, _) => r matches Ok(ThreadSource::Thread(found)) && found@ == id@,
            (None, Some(session), Some(tag)) => r matches Ok(ThreadSource::Session(s, t)) && s@ == session@
                && t@ == tag@,
            _ => r == Err::<ThreadSource, _>(CoreError::ThreadNotFound),
        },
{
    match &request.thread_id {
        Some(id) => Ok(ThreadSource::Thread(id.clone())),
        None => match (&request.session_id, &request.session_tag) {
            (Some(session), Some(tag)) => Ok(ThreadSource::Session(session.clone(), tag.clone())),
            _ => Err(CoreError::ThreadNotFound),
        },
    }
}

/// The thread that a session goes on with: the one that it knows of, if that is still stored. Else
/// a new one is to be started.
pub fn session_thread(known: Option<String>, is_stored: bool) -> (r: Option<String>)
    ensures
        r == (if is_stored {
            known
        } else {
            None
        }),
{
    if is_stored {
        known
    } else {
        None
    }
}

// ---------------------------------------------------------------------------------------------
// Following a thread.

/// What happened to a file.
#[derive(Clone, Copy, Debug, PartialEq, Eq, Structural)]
pub enum FileChange {
    Modified,
    Created,
    Other,
}

/// Whether a change of a file in a session's directory may bring results of calls: only subscribers
/// bring them, and not what the session knows of itself.
pub fn is_result_file(change: FileChange, filename: &str) -> (r: bool)
    ensures
        r == (change == FileChange::Modified && filename@ != SESSION_INFO_FILENAME@),
{
    change == FileChange::Modified && !same(filename, SESSION_INFO_FILENAME)
}

/// What is to be looked at after a file changed.
#[derive(Debug)]
pub enum Look {
    /// What the session knows of itself.
    SessionInfo,
    /// The messages of the thread.
    Messages,
    /// A subscriber has come.
    Subscriber(String),
    Nothing,
}

/// One who follows a thread.
#[derive(Debug)]
pub struct ThreadFollower {
    pub client_id: String,
    pub thread_id: String,
    pub has_session: bool,
    /// How many messages of the thread are known.
    pub last_count: usize,
}

/// The messages that the client did not send itself, as events.
pub open spec fn foreign_messages(messages: Seq<MessageModel>, client_id: Seq<char>) -> Seq<
    ThreadEventModel,
>
    decreases messages.len(),
{
    if messages.len() == 0 {
        Seq::empty()
    } else {
        let earlier = foreign_messages(messages.drop_last(), client_id);
        if messages.last().client_id == Some(client_id) {
            earlier
        } else {
            earlier.push(ThreadEventModel::Message { message: messages.last() })
        }
    }
}

/// What one who knew the first `known` messages is told when the thread holds those messages.
pub open spec fn news(messages: Seq<MessageModel>, known: nat, client_id: Seq<char>) -> Seq<
    ThreadEventModel,
> {
    if messages.len() <= known {
        Seq::empty()
    } else {
        foreign_messages(messages.skip(known as int), client_id)
    }
}

/// How many messages are known after a thread of that many was read.
pub open spec fn known_after(known: nat, count: nat) -> nat {
    if count <= known {
        known
    } else {
        count
    }
}

impl ThreadFollower {
    /// What is to be looked at after a file changed.
    pub fn on_file(&self, change: FileChange, filename: &str) -> (r: Look)
        ensures
            ({
                let is_info = filename@ == SESSION_INFO_FILENAME@;
                let is_thread = self.thread_id@.is_prefix_of(filename@);
                match change {
                    FileChange::Modified => if is_info && self.has_session {
                        r is SessionInfo
                    } else if is_thread {
                        r is Messages
                    } else {
                        r is Nothing
                    },
                    FileChange::Created => if !is_info && !is_thread && ".json"@.is_suffix_of(filename@) {
                        r matches Look::Subscriber(client) && filename@ == client@ + ".json"@
                    } else {
                        r is Nothing
                    },
                    FileChange::Other => r is Nothing,
                }
            }),
    {
        match change {
            FileChange::Modified => {
                if same(filename, SESSION_INFO_FILENAME) && self.has_session {
                    Look::SessionInfo
                } else if starts_with(filename, self.thread_id.as_str()) {
                    Look::Messages
                } else {
                    Look::Nothing
                }
            },
            FileChange::Created => {
                if same(filename, SESSION_INFO_FILENAME) || starts_with(
                    filename,
                    self.thread_id.as_str(),
                ) {
                    return Look::Nothing;
                }
                match strip_suffix(filename, ".json") {
                    Some(client_id) => {
                        assert(".json"@.is_suffix_of(filename@)) by {
                            assert(filename@.subrange(client_id@.len() as int, filename@.len() as int)
                                =~= ".json"@);
                        }
                        Look::Subscriber(client_id)
                    },
                    None => Look::Nothing,
                }
            },
            FileChange::Other => Look::Nothing,
        }
    }

    /// Takes up what the session knows of itself: tells of a new thread, and goes on with it.
    pub fn on_session_info(&mut self, thread_id: Option<String>) -> (r: Option<ThreadEvent>)
        ensures
            final(self).client_id == old(self).client_id,
            final(self).has_session == old(self).has_session,
            final(self).last_count == old(self).last_count,
            match thread_id {
                Some(id) => final(self).thread_id@ == id@ && (if id@ == old(self).thread_id@ {
                    r is None
                } else {
                    r.deep_view() == Some(ThreadEventModel::NewThread { thread_id: id@ })
                }),
                None => r is None && final(self).thread_id == old(self).thread_id,
            },
            r is Some <==> final(self).thread_id@ != old(self).thread_id@,
            r matches Some(event) ==> (event matches ThreadEvent::NewThread { thread_id: told } && told@
                == final(self).thread_id@),
    {
        match thread_id {
            Some(updated) => {
                if same(updated.as_str(), self.thread_id.as_str()) {
                    None
                } else {
                    self.thread_id = updated.clone();
                    Some(ThreadEvent::NewThread { thread_id: updated })
                }
            },
            None => None,
        }
    }

    /// Takes up the messages that the thread holds: tells of those that are new and not the
    /// client's own.
    pub fn on_messages(&mut self, messages: &Vec<Message>) -> (r: Vec<ThreadEvent>)
        ensures
            r.deep_view() == news(
                messages.deep_view(),
                old(self).last_count as nat,
                old(self).client_id@,
            ),
            final(self).last_count == known_after(old(self).last_count as nat, messages@.len()),
            final(self).client_id == old(self).client_id,
            final(self).thread_id == old(self).thread_id,
            final(self).has_session == old(self).has_session,
    {
        let ghost all = messages.deep_view();
        let ghost client = self.client_id@;
        let mut r: Vec<ThreadEvent> = Vec::new();
        if messages.len() <= self.last_count {
            assert(r.deep_view() =~= Seq::<ThreadEventModel>::empty());
            return r;
        }
        let start: usize = self.last_count;
        let ghost fresh = all.skip(start as int);
        let mut i: usize = start;
        assert(r.deep_view() =~= foreign_messages(fresh.take(0), client));
        while i < messages.len()
            invariant
                start <= i <= messages@.len(),
                *self == *old(self),
                start == self.last_count,
                all == messages.deep_view(),
                client == self.client_id@,
                fresh == all.skip(start as int),
                r.deep_view() == foreign_messages(fresh.take(i - start), client),
            decreases messages.len() - i,
        {
            let message = &messages[i];
            assert(fresh.take(i + 1 - start).drop_last() =~= fresh.take(i - start));
            assert(fresh.take(i + 1 - start).last() == message.deep_view());
            let own = match &message.client_id {
                Some(id) => same(id.as_str(), self.client_id.as_str()),
                None => false,
            };
            let ghost told = r.deep_view();
            if !own {
                r.push(ThreadEvent::Message { message: message.clone() });
                assert(r.deep_view() =~= told.push(
                    ThreadEventModel::Message { message: message.deep_view() },
                ));
            }
            i = i + 1;
        }
        assert(fresh.take(fresh.len() as int) =~= fresh);
        self.last_count = messages.len();
        r
    }
}

// ---------------------------------------------------------------------------------------------
// Laws.

proof fn lemma_filter_system(messages: Seq<MessageModel>)
    ensures
        without_system(messages).len() <= messages.len(),
        forall|i: int|
            0 <= i < without_system(messages).len() ==> (#[trigger] without_system(messages)[i]).role
                != MessageRole::System,
        (forall|i: int| 0 <= i < messages.len() ==> (#[trigger] messages[i]).role != MessageRole::System)
            ==> without_system(messages) == messages,
    decreases messages.len(),
{
    reveal(Seq::filter);
    if messages.len() > 0 {
        let rest = messages.drop_last();
        lemma_filter_system(rest);
        let kept = without_system(messages);
        assert forall|i: int| 0 <= i < kept.len() implies (#[trigger] kept[i]).role != MessageRole::System by {
            if i < without_system(rest).len() {
                assert(kept[i] == without_system(rest)[i]);
            }
        }
        if forall|i: int| 0 <= i < messages.len() ==> (#[trigger] messages[i]).role != MessageRole::System {
            assert forall|i: int| 0 <= i < rest.len() implies (#[trigger] rest[i]).role != MessageRole::System by {
                assert(rest[i] == messages[i]);
            }
            assert(messages[messages.len() - 1].role != MessageRole::System);
            assert(kept =~= messages);
        }
    } else {
        assert(without_system(messages) =~= messages);
    }
}

/// What is stored of a thread holds no message of the system role, and storing it again changes
/// nothing.
pub proof fn law_stored_thread_has_no_system_message(messages: Seq<MessageModel>)
    ensures
        forall|i: int|
            0 <= i < without_system(messages).len() ==> (#[trigger] without_system(messages)[i]).role
                != MessageRole::System,
        without_system(without_system(messages)) == without_system(messages),
{
    lemma_filter_system(messages);
    lemma_filter_system(without_system(messages));
}

/// One who follows a thread is never told of a message of its own.
pub proof fn law_own_messages_are_not_told(messages: Seq<MessageModel>, known: nat, client_id: Seq<char>)
    ensures
        forall|i: int|
            0 <= i < news(messages, known, client_id).len() ==> (#[trigger] news(
                messages,
                known,
                client_id,
            )[i] matches ThreadEventModel::Message { message } && message.client_id != Some(client_id)),
{
    if messages.len() > known {
        lemma_foreign(messages.skip(known as int), client_id);
    }
}

proof fn lemma_foreign(messages: Seq<MessageModel>, client_id: Seq<char>)
    ensures
        forall|i: int|
            0 <= i < foreign_messages(messages, client_id).len() ==> (#[trigger] foreign_messages(
                messages,
                client_id,
            )[i] matches ThreadEventModel::Message { message } && message.client_id != Some(client_id)),
    decreases messages.len(),
{
    if messages.len() > 0 {
        lemma_foreign(messages.drop_last(), client_id);
    }
}

proof fn lemma_foreign_sum(a: Seq<MessageModel>, b: Seq<MessageModel>, client_id: Seq<char>)
    ensures
        foreign_messages(a + b, client_id) == foreign_messages(a, client_id) + foreign_messages(
            b,
            client_id,
        ),
    decreases b.len(),
{
    if b.len() == 0 {
        assert(a + b =~= a);
        assert(foreign_messages(a, client_id) + Seq::<ThreadEventModel>::empty() =~= foreign_messages(
            a,
            client_id,
        ));
    } else {
        assert((a + b).drop_last() =~= a + b.drop_last());
        lemma_foreign_sum(a, b.drop_last(), client_id);
        assert(foreign_messages(a + b, client_id) =~= foreign_messages(a, client_id)
            + foreign_messages(b, client_id));
    }
}

/// However often the thread is read while it grows, one who follows it is told of each message once,
/// and in order: two reads tell what one read of the longer thread tells.
pub proof fn law_each_message_is_told_once(
    first: Seq<MessageModel>,
    more: Seq<MessageModel>,
    known: nat,
    client_id: Seq<char>,
)
    ensures
        news(first, known, client_id) + news(first + more, known_after(known, first.len()), client_id)
            == news(first + more, known, client_id),
        known_after(known_after(known, first.len()), (first + more).len()) == known_after(
            known,
            (first + more).len(),
        ),
{
    let all = first + more;
    if first.len() <= known {
        assert(Seq::<ThreadEventModel>::empty() + news(all, known, client_id) =~= news(
            all,
            known,
            client_id,
        ));
    } else {
        assert(all.skip(known as int) =~= first.skip(known as int) + more);
        assert(all.skip(first.len() as int) =~= more);
        lemma_foreign_sum(first.skip(known as int), more, client_id);
        if more.len() == 0 {
            assert(all =~= first);
            assert(news(first, known, client_id) + Seq::<ThreadEventModel>::empty() =~= news(
                first,
                known,
                client_id,
            ));
        }
    }
}

proof fn lemma_inserted(infos: Seq<ThreadInfoModel>, info: ThreadInfoModel)
    ensures
        inserted(infos, info).to_multiset() == infos.to_multiset().insert(info),
        inserted(infos, info).len() == infos.len() + 1,
    decreases infos.len(),
{
    broadcast use vstd::seq_lib::group_to_multiset_ensures;

    if infos.len() == 0 {
        assert(seq![info] =~= infos.push(info));
    } else if is_earlier(info.modified, infos[0].modified) {
        let rest = infos.drop_first();
        lemma_inserted(rest, info);
        assert(infos =~= seq![infos[0]] + rest);
        vstd::seq_lib::lemma_multiset_commutative(seq![infos[0]], rest);
        vstd::seq_lib::lemma_multiset_commutative(seq![infos[0]], inserted(rest, info));
        assert(inserted(infos, info).to_multiset() =~= infos.to_multiset().insert(info));
    } else {
        assert(seq![info] =~= Seq::<ThreadInfoModel>::empty().push(info));
        vstd::seq_lib::lemma_multiset_commutative(seq![info], infos);
        assert(inserted(infos, info).to_multiset() =~= infos.to_multiset().insert(info));
    }
}

/// The list of threads holds every thread that is stored, as often as it is stored, and no other.
pub proof fn law_no_thread_is_lost(infos: Seq<ThreadInfoModel>)
    ensures
        latest_first(infos).to_multiset() == infos.to_multiset(),
    decreases infos.len(),
{
    broadcast use vstd::seq_lib::group_to_multiset_ensures;

    if infos.len() > 0 {
        law_no_thread_is_lost(infos.drop_last());
        lemma_inserted(latest_first(infos.drop_last()), infos.last());
        assert(infos =~= infos.drop_last().push(infos.last()));
    } else {
        assert(latest_first(infos) =~= infos);
    }
}

/// Whether no thread of the list is earlier than one behind it.
pub open spec fn is_latest_first(infos: Seq<ThreadInfoModel>) -> bool {
    forall|i: int, j: int|
        0 <= i < j < infos.len() ==> !is_earlier(
            (#[trigger] infos[i]).modified,
            (#[trigger] infos[j]).modified,
        )
}

proof fn lemma_inserted_in_order(infos: Seq<ThreadInfoModel>, info: ThreadInfoModel)
    requires
        is_latest_first(infos),
    ensures
        is_latest_first(inserted(infos, info)),
        forall|k: int|
            0 <= k < inserted(infos, info).len() ==> (#[trigger] inserted(infos, info)[k]) == info
                || infos.contains(inserted(infos, info)[k]),
    decreases infos.len(),
{
    let after = inserted(infos, info);
    if infos.len() > 0 {
        let first = infos[0];
        let rest = infos.drop_first();
        if is_earlier(info.modified, first.modified) {
            assert forall|i: int, j: int| 0 <= i < j < rest.len() implies !is_earlier(
                (#[trigger] rest[i]).modified,
                (#[trigger] rest[j]).modified,
            ) by {
                assert(rest[i] == infos[i + 1]);
                assert(rest[j] == infos[j + 1]);
            }
            lemma_inserted_in_order(rest, info);
            let tail = inserted(rest, info);
            assert forall|k: int| 0 <= k < after.len() implies (#[trigger] after[k]) == info
                || infos.contains(after[k]) by {
                if k > 0 {
                    assert(after[k] == tail[k - 1]);
                    if tail[k - 1] != info {
                        let m = choose|m: int| 0 <= m < rest.len() && rest[m] == tail[k - 1];
                        assert(infos[m + 1] == after[k]);
                    }
                } else {
                    assert(infos[0] == after[0]);
                }
            }
            assert forall|i: int, j: int| 0 <= i < j < after.len() implies !is_earlier(
                (#[trigger] after[i]).modified,
                (#[trigger] after[j]).modified,
            ) by {
                assert(after[j] == tail[j - 1]);
                if i > 0 {
                    assert(after[i] == tail[i - 1]);
                } else if after[j] == info {
                    if let (Some(a), Some(b)) = (info.modified, first.modified) {
                        lemma_before_asymmetric(a, b);
                    }
                } else {
                    let m = choose|m: int| 0 <= m < rest.len() && rest[m] == tail[j - 1];
                    assert(infos[m + 1] == after[j]);
                }
            }
        } else {
            assert forall|k: int| 0 <= k < after.len() implies (#[trigger] after[k]) == info
                || infos.contains(after[k]) by {
                if k > 0 {
                    assert(after[k] == infos[k - 1]);
                }
            }
            assert forall|i: int, j: int| 0 <= i < j < after.len() implies !is_earlier(
                (#[trigger] after[i]).modified,
                (#[trigger] after[j]).modified,
            ) by {
                assert(after[j] == infos[j - 1]);
                if i > 0 {
                    assert(after[i] == infos[i - 1]);
                } else if j > 1 {
                    assert(!is_earlier(infos[0].modified, infos[j - 1].modified));
                    if let (Some(a), Some(b), Some(c)) = (
                        info.modified,
                        first.modified,
                        infos[j - 1].modified,
                    ) {
                        lemma_not_before_transitive(a, b, c);
                    }
                }
            }
        }
    }
}

/// In the list of threads none is earlier than one behind it.
pub proof fn law_threads_are_in_order(infos: Seq<ThreadInfoModel>)
    ensures
        is_latest_first(latest_first(infos)),
    decreases infos.len(),
{
    if infos.len() > 0 {
        law_threads_are_in_order(infos.drop_last());
        lemma_inserted_in_order(latest_first(infos.drop_last()), infos.last());
    }
}

/// A message that is new and not the client's own is told as it is, behind what was told before it; a
/// message that was known is not told.
pub proof fn law_messages_of_others_are_told(
    messages: Seq<MessageModel>,
    message: MessageModel,
    known: nat,
    client_id: Seq<char>,
)
    requires
        message.client_id != Some(client_id),
        known <= messages.len(),
    ensures
        news(messages.push(message), known, client_id) == news(messages, known, client_id).push(
            ThreadEventModel::Message { message },
        ),
        news(messages, messages.len(), client_id).len() == 0,
        known_after(known, messages.len()) == messages.len(),
{
    let more = messages.push(message);
    assert(more.skip(known as int).drop_last() =~= messages.skip(known as int));
    assert(more.skip(known as int).last() == message);
    assert(foreign_messages(more.skip(known as int), client_id) == foreign_messages(
        messages.skip(known as int),
        client_id,
    ).push(ThreadEventModel::Message { message }));
    if messages.len() <= known {
        assert(messages.skip(known as int) =~= Seq::empty());
        assert(foreign_messages(messages.skip(known as int), client_id) =~= Seq::empty());
    }
}

/// What is stored of a thread keeps every message that does not have the system role, as it is and in
/// order.
pub proof fn law_stored_thread_keeps_the_rest(messages: Seq<MessageModel>, message: MessageModel)
    ensures
        message.role != MessageRole::System ==> without_system(messages.push(message)) == without_system(
            messages,
        ).push(message),
        message.role == MessageRole::System ==> without_system(messages.push(message)) == without_system(
            messages,
        ),
        without_system(Seq::empty()).len() == 0,
{
    reveal(Seq::filter);
    assert(messages.push(message).drop_last() =~= messages);
}

/// In the list of threads a later time stands before an earlier one, and times that are not known stand
/// last. Of two threads of the same time the one that was stored later stands first.
pub proof fn law_latest_thread_comes_first(infos: Seq<ThreadInfoModel>, i: int, j: int)
    requires
        0 <= i < j < infos.len(),
    ensures
        latest_first(infos)[i].modified matches Some(a) ==> (latest_first(infos)[j].modified matches Some(
            b,
        ) ==> !before(a, b)),
        latest_first(infos)[i].modified is None ==> latest_first(infos)[j].modified is None,
{
    law_threads_are_in_order(infos);
    law_no_thread_is_lost(infos);
    assert(latest_first(infos).len() == infos.len()) by {
        latest_first(infos).to_multiset_ensures();
        infos.to_multiset_ensures();
    }
    let a = latest_first(infos)[i];
    let b = latest_first(infos)[j];
    assert(!is_earlier(a.modified, b.modified));
}

/// A thread that was touched later than all others is the first of the list, and so is the last of
/// those that were touched at that time.
pub proof fn law_thread_touched_last_is_first(infos: Seq<ThreadInfoModel>, info: ThreadInfoModel)
    requires
        forall|i: int|
            0 <= i < infos.len() ==> !is_earlier(info.modified, (#[trigger] infos[i]).modified),
    ensures
        latest_first(infos.push(info)) == seq![info] + latest_first(infos),
{
    assert(infos.push(info).drop_last() =~= infos);
    let sorted = latest_first(infos);
    if sorted.len() > 0 {
        law_no_thread_is_lost(infos);
        sorted.to_multiset_ensures();
        infos.to_multiset_ensures();
        assert(sorted.contains(sorted[0]));
        assert(sorted.to_multiset().count(sorted[0]) > 0);
        assert(infos.contains(sorted[0]));
        let k = choose|k: int| 0 <= k < infos.len() && infos[k] == sorted[0];
        assert(!is_earlier(info.modified, infos[k].modified));
    } else {
        assert(seq![info] + sorted =~= seq![info]);
    }
}

/// The threads of the project are listed where there are some; those of the user else.
pub proof fn law_threads_of_the_project_come_first(
    project: Option<Vec<ThreadInfo>>,
    home: Option<Vec<ThreadInfo>>,
    r: Vec<ThreadInfo>,
)
    requires
        call_ensures(choose_thread_infos, (project, home), r),
    ensures
        project matches Some(infos) ==> (infos@.len() > 0 ==> r.deep_view() == infos.deep_view()),
        (project matches Some(infos) ==> infos@.len() == 0) ==> (home matches Some(infos) ==> r.deep_view()
            == infos.deep_view()),
        (project matches Some(infos) ==> infos@.len() == 0) && home is None ==> r@.len() == 0,
{
    assert(r.deep_view().len() == r@.len());
    if let Some(infos) = project {
        assert(infos.deep_view().len() == infos@.len());
    }
}

/// A reply goes behind all messages of its thread, and they stay as they are. The thread keeps its id,
/// and one that has none gets the fresh one.
pub proof fn law_reply_goes_behind_its_thread(
    client_id: Option<String>,
    new_text: String,
    tool_calls: Option<Vec<ToolCall>>,
    messages: Vec<Message>,
    existing: Option<String>,
    fresh: Option<String>,
    r: Option<(String, Vec<Message>)>,
)
    requires
        existing is None ==> fresh is Some,
        call_ensures(
            thread_with_reply,
            (client_id, new_text, tool_calls, Some(messages), existing, fresh),
            r,
        ),
    ensures
        r matches Some((id, saved)) && {
            &&& existing matches Some(known) ==> id@ == known@
            &&& existing is None ==> id@ == fresh->0@
            &&& saved.deep_view().len() == messages@.len() + 1
            &&& saved.deep_view().drop_last() == messages.deep_view()
            &&& saved.deep_view().last().role == MessageRole::Assistant
            &&& saved.deep_view().last().content == Some(new_text@)
            &&& saved.deep_view().last().client_id == client_id.deep_view()
            &&& saved.deep_view().last().tool_calls == tool_calls.deep_view()
            &&& saved.deep_view().last().tool_call_results is None
        },
{
    let (id, saved) = r->0;
    assert(saved.deep_view().drop_last() =~= messages.deep_view());
}

/// A thread that is asked for by its id is that one, whatever the session is; else the session tells it,
/// and only with a tag.
pub proof fn law_thread_id_comes_before_session(
    request: GetThreadMessagesRequest,
    r: Result<ThreadSource, CoreError>,
)
    requires
        call_ensures(thread_source, (&request,), r),
    ensures
        request.thread_id matches Some(id) ==> (r matches Ok(ThreadSource::Thread(found)) && found@ == id@),
        request.thread_id is None && request.session_id is Some && request.session_tag is Some ==> (
        r matches Ok(ThreadSource::Session(s, t)) && s@ == request.session_id->0@ && t@
            == request.session_tag->0@),
        request.thread_id is None && (request.session_id is None || request.session_tag is None)
            ==> r is Err,
{
}

/// A thread is removed only when it is older than the time to live, and then with every greater age and
/// every shorter time to live too.
pub proof fn law_thread_stays_old(
    age: (u64, u32),
    later: (u64, u32),
    ttl: u64,
    shorter: u64,
    r: bool,
    s: bool,
)
    requires
        call_ensures(is_thread_old, (age.0, age.1, ttl), r),
        call_ensures(is_thread_old, (later.0, later.1, shorter), s),
        shorter <= ttl,
        age.0 < later.0 || (age.0 == later.0 && age.1 <= later.1),
    ensures
        r ==> s,
        age.0 < ttl || (age.0 == ttl && age.1 == 0) ==> !r,
        age.0 > ttl || (age.0 == ttl && age.1 > 0) ==> r,
{
}

/// The file of a thread is one that holds a thread, and tells its id.
pub proof fn law_file_of_a_thread_tells_its_id(id: &str, r: String, s: bool, extension: &str)
    requires
        call_ensures(thread_file_name, (id,), r),
        call_ensures(is_thread_file, (Some(extension),), s),
    ensures
        r@.take(id@.len() as int) == id@,
        r@.skip(id@.len() as int) == seq!['.', 'j', 's', 'o', 'n'],
        s <==> extension@ == seq!['j', 's', 'o', 'n'],
{
    reveal_strlit(".json");
    reveal_strlit("json");
    assert(r@.take(id@.len() as int) =~= id@);
    assert(r@.skip(id@.len() as int) =~= seq!['.', 'j', 's', 'o', 'n']);
    assert("json"@ =~= seq!['j', 's', 'o', 'n']);
}

/// The time at which a thread was touched is shown by its distance from the epoch in nanoseconds: so many
/// seconds and nanoseconds after it, or as many before it.
pub proof fn law_touched_time_is_shown(
    secs: u64,
    nanos: u32,
    total: int,
    after: Option<String>,
    ahead: Option<String>,
)
    requires
        call_ensures(modified_text, (false, secs, nanos), after),
        call_ensures(modified_text, (true, secs, nanos), ahead),
        total == secs * 1_000_000_000 + nanos,
    ensures
        opt_text(after) == rfc3339_text(total),
        opt_text(ahead) == rfc3339_text(0 - total),
{
}

/// Results of calls are looked for only where a file of a subscriber was changed.
pub proof fn law_results_come_from_subscribers(change: FileChange, filename: &str, r: bool)
    requires
        call_ensures(is_result_file, (change, filename), r),
    ensures
        change != FileChange::Modified ==> !r,
        filename@ == "info.json"@ ==> !r,
        change == FileChange::Modified && filename@ != "info.json"@ ==> r,
{
}

/// A session goes on with the thread that it knows of only while that is stored.
pub proof fn law_session_goes_on_with_a_stored_thread(known: Option<String>, is_stored: bool, r: Option<String>)
    requires
        call_ensures(session_thread, (known, is_stored), r),
    ensures
        is_stored ==> r == known,
        !is_stored ==> r is None,
{
}

/// The thread that was touched last is the first of the list.
pub proof fn law_last_thread_is_the_first_of_the_list(infos: Vec<ThreadInfo>, r: ThreadInfo)
    requires
        infos@.len() > 0,
        call_ensures(last_thread_info, (infos,), r),
    ensures
        r.deep_view() == infos@[0].deep_view(),
{
    assert(infos.deep_view()[0] == infos@[0].deep_view());
}

/// One who follows a thread looks at its messages when its file was changed, and takes up a subscriber
/// when the file of one has come. Other changes are not looked at.
pub proof fn law_follower_looks_where_something_changed(
    follower: ThreadFollower,
    change: FileChange,
    filename: &str,
    client: Seq<char>,
    r: Look,
)
    requires
        call_ensures(ThreadFollower::on_file, (&follower, change, filename), r),
        filename@ != "info.json"@,
    ensures
        change == FileChange::Modified && follower.thread_id@.is_prefix_of(filename@) ==> r is Messages,
        change == FileChange::Modified && !follower.thread_id@.is_prefix_of(filename@) ==> r is Nothing,
        change == FileChange::Created && filename@ == client + ".json"@ && !follower.thread_id@.is_prefix_of(
            filename@,
        ) ==> (r matches Look::Subscriber(found) && found@ == client),
        change == FileChange::Other ==> r is Nothing,
{
    if filename@ == client + ".json"@ {
        let n = ".json"@.len();
        assert(filename@.subrange(filename@.len() - n, filename@.len() as int) =~= ".json"@);
        if let Look::Subscriber(found) = r {
            if change == FileChange::Created {
                assert(found@ =~= (found@ + ".json"@).take((found@ + ".json"@).len() - n));
                assert(client =~= (client + ".json"@).take((client + ".json"@).len() - n));
            }
        }
    }
}

/// The id of a thread tells the time at which it began and a random part, by which threads of the same
/// time differ; and where no time can be told there is none.
pub proof fn law_ids_tell_when_a_thread_began(
    time: &str,
    random: &str,
    other: &str,
    r: String,
    s: String,
    told: Option<String>,
    t: Option<String>,
)
    requires
        call_ensures(thread_id_at, (time, random), r),
        call_ensures(thread_id_at, (time, other), s),
        call_ensures(thread_id_from, (told, random), t),
    ensures
        r@.take(time@.len() as int) == time@,
        r@[time@.len() as int] == '_',
        r@.skip(time@.len() as int + 1) == random@,
        r@ == s@ <==> random@ == other@,
        t is Some <==> told is Some,
        told matches Some(known) ==> (known@ == time@ ==> (t matches Some(id) && id@ == r@)),
{
    reveal_strlit("_");
    assert(r@.take(time@.len() as int) =~= time@);
    assert(r@.skip(time@.len() as int + 1) =~= random@);
    assert(s@.skip(time@.len() as int + 1) =~= other@);
}

/// A new id is made up of the year, the month, the day, the hour and the minute, all in digits, and
/// eight letters or digits.
pub proof fn law_new_ids_are_made_up_of_a_time_and_eight_characters(r: Option<String>)
    requires
        call_ensures(new_thread_id, (), r),
    ensures
        r matches Some(id) ==> {
            &&& id@.len() == 25 || (id@.len() == 26 && id@[0] == '-')
            &&& id@[id@.len() - 9] == '_'
            &&& id@[id@.len() - 12] == '-'
            &&& id@[id@.len() - 15] == '_'
            &&& id@[id@.len() - 18] == '-'
            &&& id@[id@.len() - 21] == '-'
            &&& forall|i: int|
                id@.len() - 8 <= i < id@.len() ==> is_ascii_alphanumeric(#[trigger] id@[i])
        },
{
    if let Some(id) = r {
        reveal_strlit("_");
        let (time, random) = choose|time: Seq<char>, random: Seq<char>|
            id@ == #[trigger] (time + "_"@ + random) && is_thread_time(time) && random.len() == 8
                && forall|i: int|
                0 <= i < random.len() ==> is_ascii_alphanumeric(#[trigger] random[i]);
        assert(id@.len() == time.len() + 9);
        assert forall|i: int| id@.len() - 8 <= i < id@.len() implies is_ascii_alphanumeric(
            #[trigger] id@[i],
        ) by {
            assert(id@[i] == random[i - (id@.len() - 8)]);
        }
        let n = time.len() - 16;
        assert(id@[n + 4] == time[n + 4] && id@[n + 7] == time[n + 7]);
        assert(id@[n + 10] == time[n + 10] && id@[n + 13] == time[n + 13]);
        assert(id@[0] == time[0]);
        if !is_minute(time) {
            assert(time.skip(1)[4] == time[5] && time.skip(1)[7] == time[8]);
            assert(time.skip(1)[10] == time[11] && time.skip(1)[13] == time[14]);
        }
    }
}

/// Threads are kept for the time that is set, and otherwise for two weeks.
pub proof fn law_threads_are_kept_for_two_weeks(configured: Option<u64>, secs: u64, r: u64)
    requires
        call_ensures(thread_ttl_secs, (configured,), r),
    ensures
        configured is None ==> r == 14 * 24 * 60 * 60,
        configured == Some(secs) ==> r == secs,
{
}

} // verus!
