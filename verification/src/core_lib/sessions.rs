//! Sessions: what subscribers offer and keep.

use serde_json::{Map as JsonMap, Value};
use vstd::prelude::*;
use vstd::utf8::{encode_utf8, encode_utf8_decode_utf8};
use crate::json::{
    as_object, clone_map, clone_value, json, map_get, map_insert, members, new_map, no_members,
    object_value, Json,
};
use crate::protocol::{
    SessionPromptParameter, SessionPromptParameterModel, Tool, ToolCallResult, ToolCallResultModel,
    ToolModel,
};
use crate::text::{chars_of, concat, ends_with, same, split, split_on, string_of, texts};

verus! {

broadcast use vstd::string::group_string_axioms;

/// The file that holds what a session knows of itself.
pub const SESSION_INFO_FILENAME: &'static str = "info.json";

/// After how many seconds without subscribers a session is forgotten.
pub const SESSION_INFO_EXPIRY_SECS: u64 = 300;

/// After how many seconds without a sign of life a subscriber is gone.
pub const MAX_SUB_AGE_SECS: u64 = 30;

/// What a session knows of itself.
#[derive(Debug)]
pub struct SessionInfo {
    pub thread_id: Option<String>,
}

impl Default for SessionInfo {
    fn default() -> (r: Self)
        ensures
            r.thread_id is None,
    {
        SessionInfo { thread_id: None }
    }
}

/// A session prompt parameter with its name, whose parts are separated by dots.
#[derive(Debug)]
pub struct NamedParameter {
    pub name: String,
    pub parameter: SessionPromptParameter,
}

/// What a [`NamedParameter`] says.
#[verifier::ext_equal]
pub ghost struct NamedParameterModel {
    pub name: Seq<char>,
    pub parameter: SessionPromptParameterModel,
}

impl DeepView for NamedParameter {
    type V = NamedParameterModel;

    open spec fn deep_view(&self) -> NamedParameterModel {
        NamedParameterModel {
            name: self.name@,
            parameter: self.parameter.deep_view(),
        }
    }
}

impl Clone for NamedParameter {
    fn clone(&self) -> (r: Self)
        ensures
            r.deep_view() == self.deep_view(),
    {
        NamedParameter {
            name: self.name.clone(),
            parameter: self.parameter.clone(),
        }
    }
}

/// What the session keeps of one subscriber. The prompt parameters stand in the order in which they
/// are taken up; no name stands twice.
#[derive(Debug)]
pub struct SessionSubscriberInfo {
    pub client_id: String,
    pub tools: Option<Vec<Tool>>,
    pub prompt_parameters: Vec<NamedParameter>,
    pub tool_call_results: Vec<ToolCallResult>,
}

/// What a [`SessionSubscriberInfo`] says.
#[verifier::ext_equal]
pub ghost struct SessionSubscriberInfoModel {
    pub client_id: Seq<char>,
    pub tools: Option<Seq<ToolModel>>,
    pub prompt_parameters: Seq<NamedParameterModel>,
    pub tool_call_results: Seq<ToolCallResultModel>,
}

impl DeepView for SessionSubscriberInfo {
    type V = SessionSubscriberInfoModel;

    open spec fn deep_view(&self) -> SessionSubscriberInfoModel {
        SessionSubscriberInfoModel {
            client_id: self.client_id@,
            tools: self.tools.deep_view(),
            prompt_parameters: self.prompt_parameters.deep_view(),
            tool_call_results: self.tool_call_results.deep_view(),
        }
    }
}

impl Clone for SessionSubscriberInfo {
    fn clone(&self) -> (r: Self)
        ensures
            r.deep_view() == self.deep_view(),
    {
        SessionSubscriberInfo {
            client_id: self.client_id.clone(),
            tools: self.tools.clone(),
            prompt_parameters: self.prompt_parameters.clone(),
            tool_call_results: self.tool_call_results.clone(),
        }
    }
}


// ---------------------------------------------------------------------------------------------
// Where a session is kept.

/// A hexadecimal digit.
pub open spec fn hex_digit(d: int) -> char {
    if d < 10 {
        (48 + d) as char
    } else {
        (55 + d) as char
    }
}

/// Whether a byte stays as it is in a form-urlencoded text.
pub open spec fn stays(b: u8) -> bool {
    ||| b == 0x2a
    ||| b == 0x2d
    ||| b == 0x2e
    ||| 0x30 <= b <= 0x39
    ||| 0x41 <= b <= 0x5a
    ||| b == 0x5f
    ||| 0x61 <= b <= 0x7a
}

/// A byte in a form-urlencoded text: itself, a plus sign for a space, or a percent sign and two
/// hexadecimal digits.
pub open spec fn encoded_byte(b: u8) -> Seq<char> {
    if stays(b) {
        seq![b as char]
    } else if b == 0x20 {
        seq!['+']
    } else {
        seq!['%', hex_digit(b as int / 16), hex_digit(b as int % 16)]
    }
}

/// Bytes as a form-urlencoded text.
pub open spec fn form_encoded(bytes: Seq<u8>) -> Seq<char>
    decreases bytes.len(),
{
    if bytes.len() == 0 {
        Seq::empty()
    } else {
        encoded_byte(bytes[0]) + form_encoded(bytes.drop_first())
    }
}

/// `url::form_urlencoded::byte_serialize` encodes the bytes one by one: `*`, `-`, `.`, `_`, digits
/// and letters of ASCII stay, a space becomes a plus sign, and any other byte becomes a percent sign
/// and two uppercase hexadecimal digits.
#[verifier::external_body]
fn byte_serialize(bytes: &[u8]) -> (r: String)
    ensures
        r@ == form_encoded(bytes@),
{
    url::form_urlencoded::byte_serialize(bytes).collect()
}

/// The directory of a session among those of all the sessions, and the directory of a tag in it.
pub fn session_path(id: &str, tag: &str) -> (r: (String, String))
    ensures
        r.0@ == form_encoded(encode_utf8(id@)),
        r.1@ == tag@,
{
    (byte_serialize(id.as_bytes()), tag.to_owned())
}

// ---------------------------------------------------------------------------------------------
// Subscribers.

/// The subscriber that a file in the directory of a session belongs to, if it belongs to one.
pub open spec fn subscriber_of_file(filename: Seq<char>) -> Option<Seq<char>> {
    if ".json"@.is_suffix_of(filename) && filename != SESSION_INFO_FILENAME@ {
        Some(filename.take(filename.len() - 5))
    } else {
        None
    }
}

/// The name of the file of a subscriber.
pub fn subscriber_file_name(client_id: &str) -> (r: String)
    ensures
        r@ == client_id@ + ".json"@,
{
    concat(client_id, ".json")
}

/// The text without the suffix, if it ends in it.
pub fn strip_suffix(s: &str, suffix: &str) -> (r: Option<String>)
    ensures
        match r {
            Some(rest) => s@ == rest@ + suffix@,
            None => !suffix@.is_suffix_of(s@),
        },
{
    if !ends_with(s, suffix) {
        return None;
    }
    let chars = chars_of(s);
    let end = chars_of(suffix);
    let rest = string_of(&chars, 0, chars.len() - end.len());
    assert(s@ =~= rest@ + suffix@);
    Some(rest)
}

/// The subscriber that a file in the directory of a session belongs to, if it belongs to one.
pub fn subscriber_id(filename: &str) -> (r: Option<String>)
    ensures
        r.deep_view() == subscriber_of_file(filename@),
{
    if same(filename, SESSION_INFO_FILENAME) {
        return None;
    }
    let r = strip_suffix(filename, ".json");
    proof {
        reveal_strlit(".json");
        if let Some(rest) = &r {
            assert(filename@.subrange(rest@.len() as int, filename@.len() as int) =~= ".json"@);
            assert(rest@ =~= filename@.take(filename@.len() - 5));
        }
    }
    r
}

/// Whether a subscriber whose file was touched that long ago is still there.
pub fn is_subscriber_alive(age_secs: u64) -> (r: bool)
    ensures
        r == (age_secs < MAX_SUB_AGE_SECS),
{
    age_secs < MAX_SUB_AGE_SECS
}

/// Whether what a session knows of itself still counts: there are subscribers, or it was touched not
/// more than the time of expiry ago. The age is given in whole seconds and the nanoseconds beyond.
pub fn is_session_info_current(has_subscribers: bool, age_secs: u64, age_nanos: u32) -> (r: bool)
    ensures
        r == (has_subscribers || age_secs < SESSION_INFO_EXPIRY_SECS || (age_secs
            == SESSION_INFO_EXPIRY_SECS && age_nanos == 0)),
{
    has_subscribers || age_secs < SESSION_INFO_EXPIRY_SECS || (age_secs == SESSION_INFO_EXPIRY_SECS
        && age_nanos == 0)
}

/// A subscriber that has just subscribed with those tools.
pub fn new_subscriber(tools: Option<Vec<Tool>>) -> (r: SessionSubscriberInfo)
    ensures
        r.client_id@.len() == 0,
        r.tools == tools,
        r.prompt_parameters@.len() == 0,
        r.tool_call_results@.len() == 0,
{
    SessionSubscriberInfo {
        client_id: String::new(),
        tools,
        prompt_parameters: Vec::new(),
        tool_call_results: Vec::new(),
    }
}

/// What a session knows of itself after a new thread was started in it.
pub fn start_new_thread_in_session(existing: Option<SessionInfo>, thread_id: &str) -> (r: SessionInfo)
    ensures
        r.thread_id.deep_view() == Some(thread_id@),
{
    match existing {
        Some(mut info) => {
            info.thread_id = Some(thread_id.to_owned());
            info
        },
        None => SessionInfo { thread_id: Some(thread_id.to_owned()) },
    }
}

// ---------------------------------------------------------------------------------------------
// Prompt parameters.

/// The parameters without the one of that name.
pub open spec fn without_parameter(
    parameters: Seq<NamedParameterModel>,
    name: Seq<char>,
) -> Seq<NamedParameterModel> {
    parameters.filter(|p: NamedParameterModel| p.name != name)
}

/// The parameters after one was set, or taken out.
pub open spec fn with_parameter(
    parameters: Seq<NamedParameterModel>,
    name: Seq<char>,
    parameter: Option<SessionPromptParameterModel>,
) -> Seq<NamedParameterModel> {
    match parameter {
        Some(parameter) => without_parameter(parameters, name).push(
            NamedParameterModel { name, parameter },
        ),
        None => without_parameter(parameters, name),
    }
}

/// Sets a prompt parameter of a subscriber, or takes it out.
pub fn store_session_prompt_parameter(
    info: &mut SessionSubscriberInfo,
    param_name: String,
    param_info: Option<SessionPromptParameter>,
)
    ensures
        final(info).deep_view() == (SessionSubscriberInfoModel {
            prompt_parameters: with_parameter(
                old(info).deep_view().prompt_parameters,
                param_name@,
                param_info.deep_view(),
            ),
            ..old(info).deep_view()
        }),
{
    let ghost all = info.deep_view().prompt_parameters;
    let ghost wanted = |p: NamedParameterModel| p.name != param_name@;
    let mut kept: Vec<NamedParameter> = Vec::new();
    let mut i: usize = 0;
    proof {
        reveal(Seq::filter);
    }
    assert(kept.deep_view() =~= all.take(0).filter(wanted));
    while i < info.prompt_parameters.len()
        invariant
            i <= info.prompt_parameters@.len(),
            *info == *old(info),
            all == info.deep_view().prompt_parameters,
            wanted == (|p: NamedParameterModel| p.name != param_name@),
            kept.deep_view() == all.take(i as int).filter(wanted),
        decreases info.prompt_parameters.len() - i,
    {
        proof {
            reveal(Seq::filter);
        }
        assert(all.take(i + 1).drop_last() =~= all.take(i as int));
        assert(all.take(i + 1).last() == info.prompt_parameters@[i as int].deep_view());
        let ghost before = kept.deep_view();
        if !same(info.prompt_parameters[i].name.as_str(), param_name.as_str()) {
            kept.push(info.prompt_parameters[i].clone());
            assert(kept.deep_view() =~= before.push(info.prompt_parameters@[i as int].deep_view()));
        }
        i = i + 1;
    }
    assert(all.take(all.len() as int) =~= all);
    let ghost before = kept.deep_view();
    if let Some(parameter) = param_info {
        let ghost model = NamedParameterModel { name: param_name@, parameter: parameter.deep_view() };
        kept.push(NamedParameter { name: param_name, parameter });
        assert(kept.deep_view() =~= before.push(model));
    }
    info.prompt_parameters = kept;
}

/// The object after the value was set at the place that the parts of its name lead to. Nothing,
/// where a part on the way leads to something else than an object.
pub open spec fn set_path(
    m: Map<Seq<char>, Json>,
    parts: Seq<Seq<char>>,
    value: Json,
) -> Option<Map<Seq<char>, Json>>
    decreases parts.len(),
{
    if parts.len() == 0 {
        None
    } else if parts.len() == 1 {
        Some(m.insert(parts[0], value))
    } else {
        let inner = if m.contains_key(parts[0]) {
            m[parts[0]]
        } else {
            Json::Object(no_members())
        };
        match inner {
            Json::Object(inner) => match set_path(inner, parts.drop_first(), value) {
                Some(inner) => Some(m.insert(parts[0], Json::Object(inner))),
                None => None,
            },
            _ => None,
        }
    }
}

/// The object after the parameters were set one after the other.
pub open spec fn set_parameters(
    m: Map<Seq<char>, Json>,
    parameters: Seq<NamedParameterModel>,
) -> Option<Map<Seq<char>, Json>>
    decreases parameters.len(),
{
    if parameters.len() == 0 {
        Some(m)
    } else {
        match set_parameters(m, parameters.drop_last()) {
            Some(m) => set_path(
                m,
                split(parameters.last().name, '.'),
                parameters.last().parameter.value,
            ),
            None => None,
        }
    }
}

/// The prompt parameters of all the subscribers in one object.
pub open spec fn session_parameters(infos: Seq<SessionSubscriberInfoModel>) -> Option<
    Map<Seq<char>, Json>,
>
    decreases infos.len(),
{
    if infos.len() == 0 {
        Some(no_members())
    } else {
        match session_parameters(infos.drop_last()) {
            Some(m) => set_parameters(m, infos.last().prompt_parameters),
            None => None,
        }
    }
}

/// Sets a value at the place that the parts from `at` on lead to. Gives whether it could; where it
/// could not, the object is left as it was.
fn set_at(m: &mut JsonMap<String, Value>, parts: &Vec<String>, at: usize, value: &Value) -> (r: bool)
    requires
        at < parts@.len(),
    ensures
        match set_path(members(*old(m)), texts(parts@).skip(at as int), json(*value)) {
            Some(after) => r && members(*final(m)) == after,
            None => !r && members(*final(m)) == members(*old(m)),
        },
    decreases parts@.len() - at,
{
    let ghost rest = texts(parts@).skip(at as int);
    assert(rest[0] == parts@[at as int]@);
    assert(rest.len() == parts@.len() - at);
    if at == parts.len() - 1 {
        map_insert(m, parts[at].clone(), clone_value(value));
        return true;
    }
    assert(rest.drop_first() =~= texts(parts@).skip(at + 1));
    let mut inner = match map_get(m, parts[at].as_str()) {
        Some(found) => match as_object(found) {
            Some(object) => clone_map(object),
            None => {
                return false;
            },
        },
        None => new_map(),
    };
    if set_at(&mut inner, parts, at + 1, value) {
        map_insert(m, parts[at].clone(), object_value(inner));
        true
    } else {
        false
    }
}

/// The prompt parameters of all the subscribers in one object. Nothing, where the name of one leads
/// through the value of another that is no object.
pub fn try_session_prompt_parameters(subscribers: &Vec<SessionSubscriberInfo>) -> (r: Option<
    JsonMap<String, Value>,
>)
    ensures
        match r {
            Some(m) => session_parameters(subscribers.deep_view()) == Some(members(m)),
            None => session_parameters(subscribers.deep_view()) is None,
        },
{
    let ghost infos = subscribers.deep_view();
    let mut m = new_map();
    let mut i: usize = 0;
    while i < subscribers.len()
        invariant
            i <= subscribers@.len(),
            infos == subscribers.deep_view(),
            session_parameters(infos.take(i as int)) == Some(members(m)),
        decreases subscribers.len() - i,
    {
        assert(infos.take(i + 1).drop_last() =~= infos.take(i as int));
        assert(infos.take(i + 1).last() == subscribers@[i as int].deep_view());
        let parameters = &subscribers[i].prompt_parameters;
        let ghost all = parameters.deep_view();
        let ghost start = members(m);
        let mut j: usize = 0;
        while j < parameters.len()
            invariant
                i < subscribers@.len(),
                infos == subscribers.deep_view(),
                infos.take(i + 1).drop_last() == infos.take(i as int),
                infos.take(i + 1).last().prompt_parameters == all,
                session_parameters(infos.take(i as int)) == Some(start),
                j <= parameters@.len(),
                all == parameters.deep_view(),
                set_parameters(start, all.take(j as int)) == Some(members(m)),
            decreases parameters.len() - j,
        {
            assert(all.take(j + 1).drop_last() =~= all.take(j as int));
            assert(all.take(j + 1).last() == parameters@[j as int].deep_view());
            let parts = split_on(parameters[j].name.as_str(), '.');
            assert(texts(parts@).skip(0) =~= texts(parts@));
            if !set_at(&mut m, &parts, 0, &parameters[j].parameter.value) {
                proof {
                    lemma_parameters_fail(start, all, j + 1);
                    lemma_session_fails(infos, i + 1);
                }
                return None;
            }
            j = j + 1;
        }
        assert(all.take(all.len() as int) =~= all);
        i = i + 1;
    }
    assert(infos.take(infos.len() as int) =~= infos);
    Some(m)
}

/// The prompt parameters of all the subscribers in one object. A dot in the name of a parameter
/// leads into an object.
pub fn get_session_prompt_parameters(subscribers: &Vec<SessionSubscriberInfo>) -> (r: JsonMap<
    String,
    Value,
>)
    requires
        session_parameters(subscribers.deep_view()) is Some,
    ensures
        session_parameters(subscribers.deep_view()) == Some(members(r)),
{
    match try_session_prompt_parameters(subscribers) {
        Some(m) => m,
        None => new_map(),
    }
}

proof fn lemma_parameters_fail(
    m: Map<Seq<char>, Json>,
    parameters: Seq<NamedParameterModel>,
    n: int,
)
    requires
        0 <= n <= parameters.len(),
        set_parameters(m, parameters.take(n)) is None,
    ensures
        set_parameters(m, parameters) is None,
    decreases parameters.len(),
{
    if n == parameters.len() {
        assert(parameters.take(n) =~= parameters);
    } else {
        assert(parameters.drop_last().take(n) =~= parameters.take(n));
        lemma_parameters_fail(m, parameters.drop_last(), n);
    }
}

proof fn lemma_session_fails(infos: Seq<SessionSubscriberInfoModel>, n: int)
    requires
        0 <= n <= infos.len(),
        session_parameters(infos.take(n)) is None,
    ensures
        session_parameters(infos) is None,
    decreases infos.len(),
{
    if n == infos.len() {
        assert(infos.take(n) =~= infos);
    } else {
        assert(infos.drop_last().take(n) =~= infos.take(n));
        lemma_session_fails(infos.drop_last(), n);
    }
}

// ---------------------------------------------------------------------------------------------
// Laws.

proof fn lemma_form_encoding(a: Seq<u8>, b: Seq<u8>)
    requires
        form_encoded(a) == form_encoded(b),
    ensures
        a == b,
    decreases a.len(),
{
    if a.len() == 0 {
        if b.len() > 0 {
            assert(encoded_byte(b[0]).len() > 0);
        }
        assert(a =~= b);
    } else if b.len() == 0 {
        assert(encoded_byte(a[0]).len() > 0);
    } else {
        let ea = encoded_byte(a[0]);
        let eb = encoded_byte(b[0]);
        let fa = form_encoded(a);
        let fb = form_encoded(b);
        assert(fa[0] == ea[0]);
        assert(fb[0] == eb[0]);
        if ea[0] == '%' {
            assert(fa[1] == ea[1] && fa[2] == ea[2]);
            assert(fb[1] == eb[1] && fb[2] == eb[2]);
        }
        assert(a[0] == b[0]);
        assert(fa.skip(ea.len() as int) =~= form_encoded(a.drop_first()));
        assert(fb.skip(eb.len() as int) =~= form_encoded(b.drop_first()));
        lemma_form_encoding(a.drop_first(), b.drop_first());
        assert(a =~= seq![a[0]] + a.drop_first());
        assert(b =~= seq![b[0]] + b.drop_first());
    }
}

/// Sessions with different ids are kept in different directories.
pub proof fn law_sessions_are_apart(a: Seq<char>, b: Seq<char>)
    requires
        form_encoded(encode_utf8(a)) == form_encoded(encode_utf8(b)),
    ensures
        a == b,
{
    lemma_form_encoding(encode_utf8(a), encode_utf8(b));
    encode_utf8_decode_utf8(a);
    encode_utf8_decode_utf8(b);
}

/// The file of a subscriber belongs to that subscriber, unless its id makes it the file that holds
/// what the session knows of itself.
pub proof fn law_subscriber_owns_its_file(client_id: Seq<char>)
    requires
        client_id + ".json"@ != SESSION_INFO_FILENAME@,
    ensures
        subscriber_of_file(client_id + ".json"@) == Some(client_id),
{
    let filename = client_id + ".json"@;
    reveal_strlit(".json");
    assert(filename.subrange(client_id.len() as int, filename.len() as int) =~= ".json"@);
    assert(filename.take(filename.len() - 5) =~= client_id);
}

/// A parameter whose name has no dot is found under its name, with the value that was set last.
pub proof fn law_parameter_is_found(
    m: Map<Seq<char>, Json>,
    name: Seq<char>,
    value: Json,
)
    requires
        !name.contains('.'),
    ensures
        set_path(m, split(name, '.'), value) == Some(m.insert(name, value)),
{
    crate::text::lemma_split_whole(name, '.');
}

/// What stands at the place in a document that the parts of a name lead to.
pub open spec fn found_at(j: Json, parts: Seq<Seq<char>>) -> Option<Json>
    decreases parts.len(),
{
    if parts.len() == 0 {
        Some(j)
    } else {
        match j.member(parts[0]) {
            Some(inner) => found_at(inner, parts.drop_first()),
            None => None,
        }
    }
}

/// A value that was set is found at the place that the parts of its name lead to. It can always be set
/// where nothing stands yet under the first part.
pub proof fn law_set_value_is_found(m: Map<Seq<char>, Json>, parts: Seq<Seq<char>>, value: Json)
    requires
        parts.len() > 0,
    ensures
        set_path(m, parts, value) matches Some(after) ==> found_at(Json::Object(after), parts) == Some(
            value,
        ),
        !m.contains_key(parts[0]) ==> set_path(m, parts, value) is Some,
    decreases parts.len(),
{
    reveal_with_fuel(found_at, 2);
    if parts.len() > 1 {
        let inner = if m.contains_key(parts[0]) {
            m[parts[0]]
        } else {
            Json::Object(no_members())
        };
        if let Json::Object(inner) = inner {
            law_set_value_is_found(inner, parts.drop_first(), value);
        }
    }
}

/// A value that is set changes nothing at places that its name does not lead to or through, and that do
/// not lead through it.
pub proof fn law_other_values_stay(
    m: Map<Seq<char>, Json>,
    parts: Seq<Seq<char>>,
    value: Json,
    other: Seq<Seq<char>>,
)
    requires
        parts.len() > 0,
        !parts.is_prefix_of(other),
        !other.is_prefix_of(parts),
    ensures
        set_path(m, parts, value) matches Some(after) ==> found_at(Json::Object(after), other)
            == found_at(Json::Object(m), other),
    decreases parts.len(),
{
    if other.len() == 0 {
        assert(parts.take(0) =~= other);
    } else if other[0] == parts[0] {
        if parts.len() == 1 {
            assert(other.take(1) =~= parts);
        } else {
            let p = parts.drop_first();
            let o = other.drop_first();
            assert(!p.is_prefix_of(o)) by {
                if p.is_prefix_of(o) {
                    assert(other.take(parts.len() as int) =~= parts) by {
                        assert(o.take(p.len() as int) =~= p);
                        assert forall|i: int| 0 < i < parts.len() implies other[i] == parts[i] by {
                            assert(o.take(p.len() as int)[i - 1] == o[i - 1]);
                        }
                    }
                }
            }
            assert(!o.is_prefix_of(p)) by {
                if o.is_prefix_of(p) {
                    assert(parts.take(other.len() as int) =~= other) by {
                        assert(p.take(o.len() as int) =~= o);
                        assert forall|i: int| 0 < i < other.len() implies other[i] == parts[i] by {
                            assert(p.take(o.len() as int)[i - 1] == p[i - 1]);
                        }
                    }
                }
            }
            let inner = if m.contains_key(parts[0]) {
                m[parts[0]]
            } else {
                Json::Object(no_members())
            };
            if let Json::Object(inner) = inner {
                law_other_values_stay(inner, p, value, o);
                if !m.contains_key(parts[0]) {
                    if o.len() == 0 {
                        assert(p.take(0) =~= o);
                    }
                    assert(found_at(Json::Object(inner), o) is None);
                }
            }
        }
    }
}

/// The parameters of a session hold what a subscriber has set last, at the place that its name leads
/// to, whatever was set before it.
pub proof fn law_session_holds_its_parameters(
    infos: Seq<SessionSubscriberInfoModel>,
    info: SessionSubscriberInfoModel,
    all: Map<Seq<char>, Json>,
)
    requires
        info.prompt_parameters.len() > 0,
        session_parameters(infos.push(info)) == Some(all),
    ensures
        found_at(Json::Object(all), split(info.prompt_parameters.last().name, '.')) == Some(
            info.prompt_parameters.last().parameter.value,
        ),
{
    assert(infos.push(info).drop_last() =~= infos);
    let before = session_parameters(infos)->0;
    let earlier = set_parameters(before, info.prompt_parameters.drop_last())->0;
    let parts = split(info.prompt_parameters.last().name, '.');
    crate::text::lemma_split_nonempty(info.prompt_parameters.last().name, '.');
    law_set_value_is_found(earlier, parts, info.prompt_parameters.last().parameter.value);
}

/// A parameter that is set stands among the parameters once, with its new value, and one that is taken
/// out does not stand there. Every other parameter stays as it is.
pub proof fn law_parameter_stands_once(
    parameters: Seq<NamedParameterModel>,
    name: Seq<char>,
    parameter: SessionPromptParameterModel,
    other: NamedParameterModel,
)
    requires
        other.name != name,
    ensures
        ({
            let set = with_parameter(parameters, name, Some(parameter));
            let unset = with_parameter(parameters, name, None);
            &&& set.len() > 0 && set.last().name == name && set.last().parameter == parameter
            &&& forall|i: int| 0 <= i < set.len() - 1 ==> (#[trigger] set[i]).name != name
            &&& forall|i: int| 0 <= i < unset.len() ==> (#[trigger] unset[i]).name != name
            &&& parameters.contains(other) ==> set.contains(other) && unset.contains(other)
            &&& unset.contains(other) ==> parameters.contains(other)
            &&& with_parameter(parameters.push(other), name, None) == unset.push(other)
        }),
{
    let wanted = |p: NamedParameterModel| p.name != name;
    let kept = without_parameter(parameters, name);
    broadcast use vstd::seq_lib::group_filter_ensures;

    if kept.contains(other) {
        parameters.lemma_filter_contains_rev(wanted, other);
    }
    let set = with_parameter(parameters, name, Some(parameter));
    assert forall|i: int| 0 <= i < kept.len() implies (#[trigger] kept[i]).name != name by {
        assert(wanted(kept[i]));
    }
    assert forall|i: int| 0 <= i < set.len() - 1 implies (#[trigger] set[i]).name != name by {
        assert(set[i] == kept[i]);
    }
    if parameters.contains(other) {
        let k = choose|k: int| 0 <= k < parameters.len() && parameters[k] == other;
        assert(wanted(parameters[k]));
        assert(kept.contains(other));
        let i = choose|i: int| 0 <= i < kept.len() && kept[i] == other;
        assert(set[i] == other);
    }
    reveal(Seq::filter);
    assert(parameters.push(other).drop_last() =~= parameters);
}

/// A subscriber is there while its file was touched within half a minute, and then with every lesser age
/// too. What a session knows of itself counts while there are subscribers, and for five minutes more.
pub proof fn law_sessions_end_when_nobody_is_there(
    age: u64,
    nanos: u32,
    has_subscribers: bool,
    alive: bool,
    current: bool,
)
    requires
        call_ensures(is_subscriber_alive, (age,), alive),
        call_ensures(is_session_info_current, (has_subscribers, age, nanos), current),
    ensures
        alive <==> age <= 29,
        has_subscribers ==> current,
        !has_subscribers && (age <= 299 || (age == 300 && nanos == 0)) ==> current,
        !has_subscribers && (age > 300 || (age == 300 && nanos > 0)) ==> !current,
{
}

/// A session knows of the thread that was started in it last.
pub proof fn law_session_knows_its_new_thread(
    existing: Option<SessionInfo>,
    thread_id: &str,
    r: SessionInfo,
)
    requires
        call_ensures(start_new_thread_in_session, (existing, thread_id), r),
    ensures
        r.thread_id matches Some(id) && id@ == thread_id@,
{
}

/// The directory of a session tells its id, and that of a tag is called by the tag.
pub proof fn law_tags_have_their_own_directories(
    id: &str,
    tag: &str,
    other: &str,
    r: (String, String),
    s: (String, String),
)
    requires
        call_ensures(session_path, (id, tag), r),
        call_ensures(session_path, (id, other), s),
    ensures
        r.0@ == s.0@,
        r.1@ == s.1@ <==> tag@ == other@,
{
}

/// The file of a subscriber tells its id, by which two of them differ.
pub proof fn law_subscribers_have_their_own_files(id: &str, other: &str, r: String, s: String)
    requires
        call_ensures(subscriber_file_name, (id,), r),
        call_ensures(subscriber_file_name, (other,), s),
    ensures
        r@.take(id@.len() as int) == id@,
        r@.skip(id@.len() as int) == seq!['.', 'j', 's', 'o', 'n'],
        r@ == s@ <==> id@ == other@,
{
    reveal_strlit(".json");
    assert(r@.take(id@.len() as int) =~= id@);
    assert(r@.skip(id@.len() as int) =~= seq!['.', 'j', 's', 'o', 'n']);
    if r@ == s@ {
        assert(id@.len() == other@.len());
        assert(s@.take(other@.len() as int) =~= other@);
    }
}

/// The letters and digits of ASCII stay in the name of a directory, a space becomes a plus sign, and any
/// other byte is told by a percent sign and two digits to the base of sixteen.
pub proof fn law_letters_and_digits_stay(b: u8, c: char)
    requires
        c as int == b,
    ensures
        ('0' <= c <= '9' || 'A' <= c <= 'Z' || 'a' <= c <= 'z') ==> encoded_byte(b) == seq![c],
        (c == '*' || c == '-' || c == '.' || c == '_') ==> encoded_byte(b) == seq![c],
        c == ' ' ==> encoded_byte(b) == seq!['+'],
        (c == '/' || c == '%' || c == '+') ==> encoded_byte(b).len() == 3 && encoded_byte(b)[0] == '%'
            && encoded_byte(b)[1] == '2',
        b >= 0x80 ==> encoded_byte(b).len() == 3 && encoded_byte(b)[0] == '%',
{
    if b as int / 16 == 2 {
        assert(hex_digit(2) == '2');
    }
}

/// The digits to the base of sixteen are those of ten and the first six letters.
pub proof fn law_digits_to_the_base_of_sixteen(d: int)
    requires
        0 <= d < 16,
    ensures
        d <= 9 ==> '0' <= hex_digit(d) <= '9' && hex_digit(d) as int == '0' as int + d,
        d >= 10 ==> 'A' <= hex_digit(d) <= 'F' && hex_digit(d) as int == 'A' as int + (d - 10),
{
}

} // verus!
