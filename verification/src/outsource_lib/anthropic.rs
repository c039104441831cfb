//! The API of Anthropic: what is asked, and how replies are read.

use serde_json::{Map as JsonMap, Value};
use vstd::prelude::*;
use crate::json::{
    array_value, as_str, bool_value, clone_value, depth_limit, documents, is_plain_name, json,
    lemma_three_members, map_insert, members, members_text, members_written, new_map, no_members,
    null_value, object_value, opt_json, parse, parsed, spell, spelled, text_depth, text_value, u64_value,
    Json, Written,
};
use crate::outsource_lib::error::OutsourceError;
use crate::outsource_lib::stream::{
    byte_lines, law_lines_do_not_depend_on_pieces, law_unfinished_line_is_held_back, line_text, lines,
    rest, text_of, LineBuffer,
};
use crate::protocol::{
    BackendGenerationRequest, BackendGenerationRequestModel, BackendGenerationResponse,
    BackendGenerationResponseModel, BackendMessage, BackendMessageModel, BackendToolCall,
    BackendToolCallModel, MessageRole, ModelDescription, ToolCallResult, ToolCallResultModel,
};
use crate::text::{concat, cut, cut_off, lemma_ascii_byte, same, strip_prefix, trimmed};

verus! {

/// Where requests go.
pub const ANTHROPIC_CHAT_COMPLETION_ENDPOINT: &'static str = "https://api.anthropic.com/v1/messages";

/// The header of the key.
pub const AUTH_HEADER: &'static str = "x-api-key";

/// The header of the version of the API.
pub const VERSION_HEADER: &'static str = "anthropic-version";

/// The version of the API.
pub const VERSION_VALUE: &'static str = "2023-06-01";

// ---------------------------------------------------------------------------------------------
// What is asked.

/// An object of two members.
pub open spec fn object2(a: Seq<char>, x: Json, b: Seq<char>, y: Json) -> Json {
    Json::Object(no_members().insert(a, x).insert(b, y))
}

/// A piece of text in a message.
pub open spec fn text_entry(text: Seq<char>) -> Json {
    object2("type"@, Json::Text("text"@), "text"@, Json::Text(text))
}

/// What is said of the result of a call: a text as it is, anything else spelled out.
pub open spec fn result_text(result: Json) -> Seq<char> {
    match result {
        Json::Text(s) => s,
        other => spelled(other),
    }
}

/// The result of a call in a message.
pub open spec fn result_entry(result: ToolCallResultModel) -> Json {
    let base = no_members().insert("type"@, Json::Text("tool_result"@)).insert(
        "tool_use_id"@,
        Json::Text(result.id),
    );
    Json::Object(
        match result.result {
            Some(j) => base.insert("content"@, Json::Text(result_text(j))),
            None => base,
        },
    )
}

/// A call in a message.
pub open spec fn call_entry(call: BackendToolCallModel) -> Json {
    Json::Object(
        no_members().insert("type"@, Json::Text("tool_use"@)).insert("id"@, Json::Text(call.id)).insert(
            "name"@,
            Json::Text(call.name),
        ).insert("input"@, call.arguments),
    )
}

/// The text of a message as pieces: one, or none where there is no text.
pub open spec fn text_entries(content: Option<Seq<char>>) -> Seq<Json> {
    match content {
        Some(text) => seq![text_entry(text)],
        None => Seq::empty(),
    }
}

/// The content of a message: results of calls and then the text, or the text and then calls, or the
/// text alone.
pub open spec fn message_content(message: BackendMessageModel) -> Json {
    match (message.tool_call_results, message.tool_calls) {
        (Some(results), _) => Json::Array(
            results.map_values(|r: ToolCallResultModel| result_entry(r)) + text_entries(message.content),
        ),
        (None, Some(calls)) => Json::Array(
            text_entries(message.content) + calls.map_values(
                |c: BackendToolCallModel| call_entry(c),
            ),
        ),
        (None, None) => Json::Text(
            match message.content {
                Some(text) => text,
                None => ""@,
            },
        ),
    }
}

/// A message as it is sent.
pub open spec fn anthropic_message(message: BackendMessageModel) -> Json {
    object2(
        "role"@,
        Json::Text(message.role.spec_name()),
        "content"@,
        message_content(message),
    )
}

/// The messages that are sent as such: those that do not have the system role.
pub open spec fn spoken(messages: Seq<BackendMessageModel>) -> Seq<BackendMessageModel> {
    messages.filter(|m: BackendMessageModel| m.role != MessageRole::System)
}

/// The last message of the system role.
pub open spec fn last_system(messages: Seq<BackendMessageModel>) -> Option<BackendMessageModel>
    decreases messages.len(),
{
    if messages.len() == 0 {
        None
    } else if messages.last().role == MessageRole::System {
        Some(messages.last())
    } else {
        last_system(messages.drop_last())
    }
}

/// A text that may be missing, as a document.
pub open spec fn text_or_null(s: Option<Seq<char>>) -> Json {
    match s {
        Some(s) => Json::Text(s),
        None => Json::Null,
    }
}

/// The messages of a request with the one that it adds.
pub open spec fn asked_messages(request: BackendGenerationRequestModel) -> Seq<BackendMessageModel> {
    spoken(
        match request.thread_messages {
            Some(messages) => messages,
            None => Seq::empty(),
        },
    ).push(
        BackendMessageModel {
            role: MessageRole::User,
            content: request.prompt,
            tool_calls: None,
            tool_call_results: request.tool_call_results,
        },
    )
}

/// The body of a request.
pub open spec fn body_of(
    request: BackendGenerationRequestModel,
    model_name: Seq<char>,
    should_stream: bool,
) -> Map<Seq<char>, Json> {
    let base = match request.model_parameters {
        Some(m) => m,
        None => no_members(),
    };
    let with_model = base.insert("model"@, Json::Text(model_name)).insert(
        "max_tokens"@,
        Json::Int(request.max_tokens as int),
    );
    let with_tools = match request.tools {
        Some(tools) => with_model.insert("tools"@, tools),
        None => with_model,
    };
    let with_system = match request.thread_messages {
        Some(messages) => match last_system(messages) {
            Some(message) => with_tools.insert("system"@, text_or_null(message.content)),
            None => with_tools,
        },
        None => with_tools,
    };
    let with_messages = with_system.insert(
        "messages"@,
        Json::Array(
            asked_messages(request).map_values(|m: BackendMessageModel| anthropic_message(m)),
        ),
    );
    if should_stream {
        with_messages.insert("stream"@, Json::Bool(true))
    } else {
        with_messages
    }
}

/// A piece of text in a message.
fn text_entry_value(text: String) -> (r: Value)
    ensures
        json(r) == text_entry(text@),
{
    let mut m = new_map();
    map_insert(&mut m, "type".to_owned(), text_value("text".to_owned()));
    map_insert(&mut m, "text".to_owned(), text_value(text));
    object_value(m)
}

/// The result of a call in a message.
fn result_entry_value(result: &ToolCallResult) -> (r: Value)
    ensures
        json(r) == result_entry(result.deep_view()),
{
    let mut m = new_map();
    map_insert(&mut m, "type".to_owned(), text_value("tool_result".to_owned()));
    map_insert(&mut m, "tool_use_id".to_owned(), text_value(result.id.clone()));
    if let Some(v) = &result.result {
        let content = match as_str(v) {
            Some(s) => s.to_owned(),
            None => spell(v),
        };
        map_insert(&mut m, "content".to_owned(), text_value(content));
    }
    object_value(m)
}

/// A call in a message.
fn call_entry_value(call: &BackendToolCall) -> (r: Value)
    ensures
        json(r) == call_entry(call.deep_view()),
{
    let mut m = new_map();
    map_insert(&mut m, "type".to_owned(), text_value("tool_use".to_owned()));
    map_insert(&mut m, "id".to_owned(), text_value(call.id.clone()));
    map_insert(&mut m, "name".to_owned(), text_value(call.name.clone()));
    map_insert(&mut m, "input".to_owned(), clone_value(&call.arguments));
    object_value(m)
}

/// The content of a message.
fn message_content_value(message: &BackendMessage) -> (r: Value)
    ensures
        json(r) == message_content(message.deep_view()),
{
    let ghost said = message.deep_view();
    if let Some(results) = &message.tool_call_results {
        let ghost all = results.deep_view();
        let mut entries: Vec<Value> = Vec::new();
        let mut i: usize = 0;
        while i < results.len()
            invariant
                i <= results@.len(),
                all == results.deep_view(),
                entries@.len() == i,
                forall|k: int| 0 <= k < i ==> json(#[trigger] entries@[k]) == result_entry(all[k]),
            decreases results.len() - i,
        {
            entries.push(result_entry_value(&results[i]));
            assert(json(entries@[i as int]) == result_entry(all[i as int]));
            i = i + 1;
        }
        let ghost first = all.map_values(|r: ToolCallResultModel| result_entry(r));
        assert(documents(entries@) =~= first);
        if let Some(content) = &message.content {
            entries.push(text_entry_value(content.clone()));
        }
        assert(documents(entries@) =~= first + text_entries(said.content));
        array_value(entries)
    } else if let Some(calls) = &message.tool_calls {
        let ghost all = calls.deep_view();
        let mut entries: Vec<Value> = Vec::new();
        if let Some(content) = &message.content {
            entries.push(text_entry_value(content.clone()));
        }
        let ghost first = text_entries(said.content);
        assert(documents(entries@) =~= first);
        let mut i: usize = 0;
        while i < calls.len()
            invariant
                i <= calls@.len(),
                all == calls.deep_view(),
                entries@.len() == first.len() + i,
                forall|k: int| 0 <= k < first.len() ==> json(#[trigger] entries@[k]) == first[k],
                forall|k: int|
                    first.len() <= k < first.len() + i ==> json(#[trigger] entries@[k]) == call_entry(
                        all[k - first.len()],
                    ),
            decreases calls.len() - i,
        {
            entries.push(call_entry_value(&calls[i]));
            assert(json(entries@[first.len() + i]) == call_entry(all[i as int]));
            i = i + 1;
        }
        assert(documents(entries@) =~= first + all.map_values(
            |c: BackendToolCallModel| call_entry(c),
        ));
        array_value(entries)
    } else {
        match &message.content {
            Some(content) => text_value(content.clone()),
            None => text_value("".to_owned()),
        }
    }
}

/// A message as it is sent.
fn anthropic_message_value(message: &BackendMessage) -> (r: Value)
    ensures
        json(r) == anthropic_message(message.deep_view()),
{
    let mut m = new_map();
    map_insert(&mut m, "role".to_owned(), text_value(message.role.name().to_owned()));
    map_insert(&mut m, "content".to_owned(), message_content_value(message));
    object_value(m)
}

/// The body of a request.
pub fn request_body(
    request: BackendGenerationRequest,
    model_description: &ModelDescription,
    should_stream: bool,
) -> (r: JsonMap<String, Value>)
    ensures
        members(r) == body_of(request.deep_view(), model_description.model_name@, should_stream),
{
    let ghost asked = request.deep_view();
    let mut body = match request.model_parameters {
        Some(m) => m,
        None => new_map(),
    };
    map_insert(&mut body, "model".to_owned(), text_value(model_description.model_name.clone()));
    map_insert(&mut body, "max_tokens".to_owned(), u64_value(request.max_tokens));
    if let Some(tools) = request.tools {
        map_insert(&mut body, "tools".to_owned(), tools);
    }
    let messages = match request.thread_messages {
        Some(messages) => messages,
        None => Vec::new(),
    };
    let ghost all = messages.deep_view();
    let ghost wanted = |m: BackendMessageModel| m.role != MessageRole::System;
    let ghost start = members(body);
    let mut spoken_values: Vec<Value> = Vec::new();
    let mut i: usize = 0;
    proof {
        reveal(Seq::filter);
    }
    while i < messages.len()
        invariant
            i <= messages@.len(),
            all == messages.deep_view(),
            wanted == (|m: BackendMessageModel| m.role != MessageRole::System),
            members(body) == (match last_system(all.take(i as int)) {
                Some(message) => start.insert("system"@, text_or_null(message.content)),
                None => start,
            }),
            documents(spoken_values@) == all.take(i as int).filter(wanted).map_values(
                |m: BackendMessageModel| anthropic_message(m),
            ),
        decreases messages.len() - i,
    {
        proof {
            reveal(Seq::filter);
        }
        let message = &messages[i];
        let ghost said = message.deep_view();
        assert(all.take(i + 1).drop_last() =~= all.take(i as int));
        assert(all.take(i + 1).last() == said);
        if message.role == MessageRole::System {
            let content = match &message.content {
                Some(text) => text_value(text.clone()),
                None => null_value(),
            };
            let ghost before = members(body);
            map_insert(&mut body, "system".to_owned(), content);
            assert(members(body) =~= start.insert("system"@, text_or_null(said.content)));
        } else {
            let ghost earlier = documents(spoken_values@);
            spoken_values.push(anthropic_message_value(message));
            assert(documents(spoken_values@) =~= earlier.push(anthropic_message(said)));
            assert(documents(spoken_values@) =~= all.take(i + 1).filter(wanted).map_values(
                |m: BackendMessageModel| anthropic_message(m),
            ));
        }
        i = i + 1;
    }
    assert(all.take(all.len() as int) =~= all);
    let added = BackendMessage {
        role: MessageRole::User,
        content: request.prompt,
        tool_calls: None,
        tool_call_results: request.tool_call_results,
    };
    let ghost earlier = documents(spoken_values@);
    spoken_values.push(anthropic_message_value(&added));
    assert(documents(spoken_values@) =~= earlier.push(anthropic_message(added.deep_view())));
    proof {
        let given = match asked.thread_messages {
            Some(messages) => messages,
            None => Seq::empty(),
        };
        assert(given =~= all);
        assert(asked_messages(asked) == all.filter(wanted).push(added.deep_view()));
        assert(documents(spoken_values@) =~= asked_messages(asked).map_values(
            |m: BackendMessageModel| anthropic_message(m),
        ));
    }
    map_insert(&mut body, "messages".to_owned(), array_value(spoken_values));
    if should_stream {
        map_insert(&mut body, "stream".to_owned(), bool_value(true));
    }
    body
}

// ---------------------------------------------------------------------------------------------
// Whole replies.

/// A piece of a reply.
#[derive(Debug)]
pub struct ContentEntry {
    pub entry_type: String,
    pub text: Option<String>,
    pub id: Option<String>,
    pub name: Option<String>,
    pub input: Option<Value>,
    pub partial_json: Option<String>,
}

/// What a [`ContentEntry`] says.
#[verifier::ext_equal]
pub ghost struct ContentEntryModel {
    pub entry_type: Seq<char>,
    pub text: Option<Seq<char>>,
    pub id: Option<Seq<char>>,
    pub name: Option<Seq<char>>,
    pub input: Option<Json>,
    pub partial_json: Option<Seq<char>>,
}

impl DeepView for ContentEntry {
    type V = ContentEntryModel;

    open spec fn deep_view(&self) -> ContentEntryModel {
        ContentEntryModel {
            entry_type: self.entry_type@,
            text: self.text.deep_view(),
            id: self.id.deep_view(),
            name: self.name.deep_view(),
            input: opt_json(self.input),
            partial_json: self.partial_json.deep_view(),
        }
    }
}

/// The text that may be missing.
pub open spec fn text_or_empty(s: Option<Seq<char>>) -> Seq<char> {
    match s {
        Some(s) => s,
        None => ""@,
    }
}

/// The call that a piece of a reply makes, if it says which.
pub open spec fn entry_call(entry: ContentEntryModel) -> Option<BackendToolCallModel> {
    match (entry.id, entry.name) {
        (Some(id), Some(name)) => Some(
            BackendToolCallModel {
                id,
                name,
                arguments: match entry.input {
                    Some(j) => j,
                    None => Json::Object(no_members()),
                },
            },
        ),
        _ => None,
    }
}

/// Whether a piece of a reply is a call.
pub open spec fn is_call(entry: ContentEntryModel) -> bool {
    entry.entry_type == "tool_use"@
}

/// The text of a reply.
pub open spec fn reply_text(entries: Seq<ContentEntryModel>) -> Seq<char>
    decreases entries.len(),
{
    if entries.len() == 0 {
        Seq::empty()
    } else {
        let before = reply_text(entries.drop_last());
        if entries.last().entry_type == "text"@ {
            before + text_or_empty(entries.last().text)
        } else {
            before
        }
    }
}

/// The calls of a reply, if each says which call it is.
pub open spec fn reply_calls(entries: Seq<ContentEntryModel>) -> Option<Seq<BackendToolCallModel>>
    decreases entries.len(),
{
    if entries.len() == 0 {
        Some(Seq::empty())
    } else {
        match reply_calls(entries.drop_last()) {
            Some(calls) => if is_call(entries.last()) {
                match entry_call(entries.last()) {
                    Some(call) => Some(calls.push(call)),
                    None => None,
                }
            } else {
                Some(calls)
            },
            None => None,
        }
    }
}

/// The call that a piece of a reply makes, if it says which.
fn call_of_entry(entry: &ContentEntry) -> (r: Result<BackendToolCall, OutsourceError>)
    ensures
        match entry_call(entry.deep_view()) {
            Some(call) => r matches Ok(found) && found.deep_view() == call,
            None => r == Err::<BackendToolCall, _>(OutsourceError::InvalidToolCall),
        },
{
    match (&entry.id, &entry.name) {
        (Some(id), Some(name)) => Ok(
            BackendToolCall {
                id: id.clone(),
                name: name.clone(),
                arguments: match &entry.input {
                    Some(v) => clone_value(v),
                    None => object_value(new_map()),
                },
            },
        ),
        _ => Err(OutsourceError::InvalidToolCall),
    }
}

proof fn lemma_reply_calls_fail(entries: Seq<ContentEntryModel>, n: int)
    requires
        0 <= n <= entries.len(),
        reply_calls(entries.take(n)) is None,
    ensures
        reply_calls(entries) is None,
    decreases entries.len(),
{
    if n == entries.len() {
        assert(entries.take(n) =~= entries);
    } else {
        assert(entries.drop_last().take(n) =~= entries.take(n));
        lemma_reply_calls_fail(entries.drop_last(), n);
    }
}

/// The response that a whole reply makes. A reply needs pieces, and text.
pub fn generate(content: Vec<ContentEntry>) -> (r: Result<BackendGenerationResponse, OutsourceError>)
    ensures
        ({
            let entries = content.deep_view();
            if entries.len() == 0 {
                r == Err::<BackendGenerationResponse, _>(OutsourceError::NoTextInResponse)
            } else {
                match reply_calls(entries) {
                    None => r == Err::<BackendGenerationResponse, _>(OutsourceError::InvalidToolCall),
                    Some(calls) => if reply_text(entries).len() == 0 {
                        r == Err::<BackendGenerationResponse, _>(OutsourceError::NoTextInResponse)
                    } else {
                        r matches Ok(response) && response.deep_view() == (
                        BackendGenerationResponseModel {
                            response: Some(reply_text(entries)),
                            tool_call_part: None,
                            tool_calls: if calls.len() == 0 {
                                None
                            } else {
                                Some(calls)
                            },
                        })
                    },
                }
            }
        }),
{
    let ghost entries = content.deep_view();
    assert(entries.len() == content@.len());
    if content.len() == 0 {
        return Err(OutsourceError::NoTextInResponse);
    }
    let mut text = String::new();
    let mut calls: Vec<BackendToolCall> = Vec::new();
    let mut i: usize = 0;
    assert(entries.take(0) =~= Seq::<ContentEntryModel>::empty());
    assert(calls.deep_view() =~= Seq::<BackendToolCallModel>::empty());
    proof {
        reveal_strlit("text");
        reveal_strlit("tool_use");
        assert("text"@.len() != "tool_use"@.len());
    }
    while i < content.len()
        invariant
            "text"@ != "tool_use"@,
            i <= content@.len(),
            entries == content.deep_view(),
            text@ == reply_text(entries.take(i as int)),
            reply_calls(entries.take(i as int)) == Some(calls.deep_view()),
        decreases content.len() - i,
    {
        let entry = &content[i];
        assert(entries.take(i + 1).drop_last() =~= entries.take(i as int));
        assert(entries.take(i + 1).last() == entry.deep_view());
        if same(entry.entry_type.as_str(), "text") {
            match &entry.text {
                Some(more) => text.append(more.as_str()),
                None => text.append(""),
            }
        } else if same(entry.entry_type.as_str(), "tool_use") {
            let ghost before = calls.deep_view();
            match call_of_entry(entry) {
                Ok(call) => {
                    let ghost made = call.deep_view();
                    calls.push(call);
                    assert(calls.deep_view() =~= before.push(made));
                },
                Err(e) => {
                    proof {
                        lemma_reply_calls_fail(entries, i + 1);
                    }
                    return Err(e);
                },
            }
        }
        i = i + 1;
    }
    assert(entries.take(entries.len() as int) =~= entries);
    assert(calls.deep_view().len() == calls@.len());
    if text.as_str().is_empty() {
        return Err(OutsourceError::NoTextInResponse);
    }
    Ok(
        BackendGenerationResponse {
            response: Some(text),
            tool_call_part: None,
            tool_calls: if calls.len() == 0 {
                None
            } else {
                Some(calls)
            },
        },
    )
}

// ---------------------------------------------------------------------------------------------
// Replies that come in events.

/// What has come of the calls of a reply.
#[verifier::ext_equal]
pub ghost struct CallsSoFar {
    /// The arguments of the last call so far, spelled out, while they are coming.
    pub pending: Option<Seq<char>>,
    pub calls: Option<Seq<BackendToolCallModel>>,
}

/// A call, spelled out in full.
pub open spec fn call_text(call: BackendToolCallModel) -> Seq<char> {
    "{\"id\":"@ + spelled(Json::Text(call.id)) + ",\"name\":"@ + spelled(Json::Text(call.name))
        + ",\"arguments\":"@ + spelled(call.arguments) + "}"@
}

/// A call, spelled out up to its arguments.
pub open spec fn call_opening(call: BackendToolCallModel) -> Seq<char> {
    "{\"id\":"@ + spelled(Json::Text(call.id)) + ",\"name\":"@ + spelled(Json::Text(call.name))
        + ",\"arguments\":"@
}

/// What is passed on when a call begins: the call spelled out, without the three bytes at its end
/// that empty arguments and the end of the object make. Nothing, where these bytes are not whole
/// characters.
pub open spec fn call_start(call: BackendToolCallModel) -> Option<Seq<char>> {
    if call.arguments == Json::Object(no_members()) {
        Some(call_opening(call))
    } else {
        cut(call_text(call), 3)
    }
}

/// A response that passes on a part of a call.
pub open spec fn part_response(part: Seq<char>) -> BackendGenerationResponseModel {
    BackendGenerationResponseModel {
        response: None,
        tool_call_part: Some(part),
        tool_calls: None,
    }
}

/// The calls with one more.
pub open spec fn one_more_call(
    calls: Option<Seq<BackendToolCallModel>>,
    call: BackendToolCallModel,
) -> Option<Seq<BackendToolCallModel>> {
    match calls {
        Some(calls) => Some(calls.push(call)),
        None => Some(seq![call]),
    }
}

/// What comes of a piece of a reply: what is passed on, and what has come of the calls then.
pub open spec fn on_entry(entry: ContentEntryModel, so_far: CallsSoFar) -> (
    Result<BackendGenerationResponseModel, OutsourceError>,
    CallsSoFar,
) {
    if is_call(entry) {
        match entry_call(entry) {
            Some(call) => (
                Ok(part_response(call_start(call)->0)),
                CallsSoFar { pending: Some(Seq::empty()), calls: one_more_call(so_far.calls, call) },
            ),
            None => (Err(OutsourceError::InvalidToolCall), so_far),
        }
    } else if entry.entry_type == "input_json_delta"@ {
        match (so_far.pending, entry.partial_json) {
            (Some(pending), Some(partial)) => (
                Ok(part_response(partial)),
                CallsSoFar { pending: Some(pending + partial), ..so_far },
            ),
            _ => (Err(OutsourceError::InvalidToolCall), so_far),
        }
    } else if entry.entry_type == "text"@ || entry.entry_type == "text_delta"@ {
        (
            Ok(
                BackendGenerationResponseModel {
                    response: Some(text_or_empty(entry.text)),
                    tool_call_part: None,
                    tool_calls: None,
                },
            ),
            so_far,
        )
    } else {
        (Err(OutsourceError::NoTextInResponse), so_far)
    }
}

/// Whether the beginning of a call can be passed on.
pub open spec fn can_pass_on(entry: ContentEntryModel) -> bool {
    is_call(entry) ==> (entry_call(entry) matches Some(call) ==> call_start(call) is Some)
}

/// What is passed on when a call begins.
fn start_of_call(call: &BackendToolCall) -> (r: Option<String>)
    ensures
        r.deep_view() == call_start(call.deep_view()),
{
    let mut full = concat("{\"id\":", spell(&text_value(call.id.clone())).as_str());
    full.append(",\"name\":");
    full.append(spell(&text_value(call.name.clone())).as_str());
    full.append(",\"arguments\":");
    let ghost opening = full@;
    assert(opening == call_opening(call.deep_view()));
    full.append(spell(&call.arguments).as_str());
    full.append("}");
    proof {
        if json(call.arguments) == Json::Object(no_members()) {
            reveal_strlit("{}");
            reveal_strlit("}");
            assert(full@ =~= opening + seq!['{', '}', '}']);
            lemma_cut_three(opening);
        }
    }
    cut_off(full.as_str(), 3)
}

/// Three braces are three bytes.
proof fn lemma_cut_three(s: Seq<char>)
    ensures
        cut(s + seq!['{', '}', '}'], 3) == Some(s),
{
    let whole = s + seq!['{', '}', '}'];
    lemma_ascii_byte('{');
    lemma_ascii_byte('}');
    assert(whole.drop_last() =~= s + seq!['{', '}']);
    assert(whole.drop_last().drop_last() =~= s + seq!['{']);
    assert(whole.drop_last().drop_last().drop_last() =~= s);
    reveal_with_fuel(cut, 4);
}

/// Whether a result that was handed out is the one that was meant.
pub open spec fn is_result(
    r: Result<BackendGenerationResponse, OutsourceError>,
    meant: Result<BackendGenerationResponseModel, OutsourceError>,
) -> bool {
    match meant {
        Ok(response) => r matches Ok(found) && found.deep_view() == response,
        Err(e) => r == Err::<BackendGenerationResponse, _>(e),
    }
}

/// Takes up a piece of a reply. Gives what is passed on.
pub fn extract_response_from_stream_event(
    entry: ContentEntry,
    pending_tool_call_input_string: &mut Option<String>,
    tool_calls: &mut Option<Vec<BackendToolCall>>,
) -> (r: Result<BackendGenerationResponse, OutsourceError>)
    requires
        can_pass_on(entry.deep_view()),
    ensures
        ({
            let so_far = CallsSoFar {
                pending: old(pending_tool_call_input_string).deep_view(),
                calls: old(tool_calls).deep_view(),
            };
            let (meant, after) = on_entry(entry.deep_view(), so_far);
            &&& is_result(r, meant)
            &&& final(pending_tool_call_input_string).deep_view() == after.pending
            &&& final(tool_calls).deep_view() == after.calls
        }),
{
    if same(entry.entry_type.as_str(), "tool_use") {
        let tool_call = match call_of_entry(&entry) {
            Ok(call) => call,
            Err(e) => {
                return Err(e);
            },
        };
        let ghost made = tool_call.deep_view();
        let partial = start_of_call(&tool_call);
        *pending_tool_call_input_string = Some(String::new());
        let mut calls = match tool_calls.take() {
            Some(calls) => calls,
            None => Vec::new(),
        };
        let ghost before = calls.deep_view();
        calls.push(tool_call);
        assert(calls.deep_view() =~= before.push(made));
        assert(*old(tool_calls) is None ==> calls.deep_view() =~= seq![made]);
        *tool_calls = Some(calls);
        Ok(BackendGenerationResponse { response: None, tool_call_part: partial, tool_calls: None })
    } else if same(entry.entry_type.as_str(), "input_json_delta") {
        match (pending_tool_call_input_string.take(), entry.partial_json) {
            (Some(pending), Some(partial)) => {
                let mut longer = pending;
                longer.append(partial.as_str());
                *pending_tool_call_input_string = Some(longer);
                Ok(
                    BackendGenerationResponse {
                        response: None,
                        tool_call_part: Some(partial),
                        tool_calls: None,
                    },
                )
            },
            (pending, _) => {
                *pending_tool_call_input_string = pending;
                Err(OutsourceError::InvalidToolCall)
            },
        }
    } else if same(entry.entry_type.as_str(), "text") || same(entry.entry_type.as_str(), "text_delta") {
        let text = match entry.text {
            Some(text) => text,
            None => "".to_owned(),
        };
        Ok(BackendGenerationResponse { response: Some(text), tool_call_part: None, tool_calls: None })
    } else {
        Err(OutsourceError::NoTextInResponse)
    }
}

/// Whether the beginning of a call can be passed on.
pub fn can_extract_response(entry: &ContentEntry) -> (r: bool)
    ensures
        r == can_pass_on(entry.deep_view()),
{
    if !same(entry.entry_type.as_str(), "tool_use") {
        return true;
    }
    match call_of_entry(entry) {
        Ok(call) => start_of_call(&call).is_some(),
        Err(_) => true,
    }
}

/// What comes of the end of a call: what is passed on, and what has come of the calls then. The
/// arguments that came are those of the call, if any came.
pub open spec fn on_call_end(so_far: CallsSoFar) -> (
    Result<Result<BackendGenerationResponseModel, OutsourceError>, Seq<char>>,
    CallsSoFar,
) {
    let done = CallsSoFar { pending: None, ..so_far };
    match so_far.calls {
        Some(calls) => if calls.len() == 0 {
            (Ok(Err(OutsourceError::InvalidToolCall)), so_far)
        } else if so_far.pending->0.len() == 0 {
            (Ok(Ok(part_response("{}}\n"@))), done)
        } else {
            match parsed(so_far.pending->0) {
                Ok(arguments) => (
                    Ok(Ok(part_response("}\n"@))),
                    CallsSoFar {
                        pending: None,
                        calls: Some(
                            calls.drop_last().push(
                                BackendToolCallModel { arguments, ..calls.last() },
                            ),
                        ),
                    },
                ),
                Err(error) => (Err(error), done),
            }
        },
        None => (Ok(Err(OutsourceError::InvalidToolCall)), so_far),
    }
}

/// Whether a result that was handed out is the one that was meant, or tells why arguments cannot be read.
pub open spec fn is_end_result(
    r: Result<BackendGenerationResponse, OutsourceError>,
    meant: Result<Result<BackendGenerationResponseModel, OutsourceError>, Seq<char>>,
) -> bool {
    match meant {
        Ok(meant) => is_result(r, meant),
        Err(error) => r matches Err(OutsourceError::Serialization(e)) && e@ == error,
    }
}

/// Takes up the end of a call. Gives what is passed on.
pub fn finalize_streamed_tool_call(
    pending_tool_call_input_string: &mut Option<String>,
    tool_calls: &mut Option<Vec<BackendToolCall>>,
) -> (r: Result<BackendGenerationResponse, OutsourceError>)
    requires
        *old(pending_tool_call_input_string) is Some,
    ensures
        ({
            let so_far = CallsSoFar {
                pending: old(pending_tool_call_input_string).deep_view(),
                calls: old(tool_calls).deep_view(),
            };
            let (meant, after) = on_call_end(so_far);
            &&& is_end_result(r, meant)
            &&& final(pending_tool_call_input_string).deep_view() == after.pending
            &&& final(tool_calls).deep_view() == after.calls
        }),
{
    let mut calls = match tool_calls.take() {
        Some(calls) => calls,
        None => {
            return Err(OutsourceError::InvalidToolCall);
        },
    };
    let ghost before = calls.deep_view();
    assert(before.len() == calls@.len());
    if calls.len() == 0 {
        *tool_calls = Some(calls);
        return Err(OutsourceError::InvalidToolCall);
    }
    let input = pending_tool_call_input_string.take().unwrap();
    let part = if input.as_str().is_empty() {
        "{}}\n".to_owned()
    } else {
        match parse(input.as_str()) {
            Ok(arguments) => {
                let last: usize = calls.len() - 1;
                assert(before[last as int] == calls@[last as int].deep_view());
                calls[last].arguments = arguments;
                assert(calls.deep_view() =~= before.drop_last().push(
                    BackendToolCallModel { arguments: json(arguments), ..before.last() },
                ));
                "}\n".to_owned()
            },
            Err(e) => {
                *tool_calls = Some(calls);
                return Err(OutsourceError::Serialization(e));
            },
        }
    };
    *tool_calls = Some(calls);
    Ok(BackendGenerationResponse { response: None, tool_call_part: Some(part), tool_calls: None })
}

/// What the lines of a reply tell.
#[derive(Debug)]
pub enum LineEvent {
    /// A block of content has ended.
    BlockEnd,
    /// A piece of the reply has come, spelled out.
    Payload(String),
}

/// What a [`LineEvent`] says.
#[verifier::ext_equal]
pub ghost enum LineEventModel {
    BlockEnd,
    Payload(Seq<char>),
}

impl DeepView for LineEvent {
    type V = LineEventModel;

    open spec fn deep_view(&self) -> LineEventModel {
        match self {
            LineEvent::BlockEnd => LineEventModel::BlockEnd,
            LineEvent::Payload(payload) => LineEventModel::Payload(payload@),
        }
    }
}

/// The name of the event that a line announces, if it announces one.
pub open spec fn announced_event(line: Seq<char>) -> Option<Seq<char>> {
    if "event: "@.is_prefix_of(line) {
        Some(trimmed(line.skip(7)))
    } else {
        None
    }
}

/// The data that a line carries, if it carries any.
pub open spec fn line_data(line: Seq<char>) -> Option<Seq<char>> {
    if "data: "@.is_prefix_of(line) {
        Some(trimmed(line.skip(6)))
    } else {
        None
    }
}

/// Whether the data of an event are a piece of the reply.
pub open spec fn has_content(event: Seq<char>) -> bool {
    event == "content_block_delta"@ || event == "content_block_start"@
}

/// What a line tells, and whether the next data are to be skipped then. The line of an event decides
/// whether its data count. A line of data is a piece of the reply if it counts.
pub open spec fn line_event(line: Seq<char>, skip: bool) -> (Option<LineEventModel>, bool) {
    match announced_event(line) {
        Some(event) => (
            if event == "content_block_stop"@ {
                Some(LineEventModel::BlockEnd)
            } else {
                None
            },
            skip || !has_content(event),
        ),
        None => match line_data(line) {
            Some(data) => (
                if skip {
                    None
                } else {
                    Some(LineEventModel::Payload(data))
                },
                false,
            ),
            None => (None, skip),
        },
    }
}

/// What lines tell, one after the other, and whether the next data are to be skipped then. A line that
/// is no text tells nothing.
pub open spec fn events_in(lines: Seq<Seq<u8>>, skip: bool) -> (Seq<LineEventModel>, bool)
    decreases lines.len(),
{
    if lines.len() == 0 {
        (Seq::empty(), skip)
    } else {
        let (earlier, before) = events_in(lines.drop_last(), skip);
        match text_of(lines.last()) {
            Some(line) => match line_event(line, before) {
                (Some(event), after) => (earlier.push(event), after),
                (None, after) => (earlier, after),
            },
            None => (earlier, before),
        }
    }
}

/// The lines of a reply that comes in events.
#[derive(Debug)]
pub struct EventReader {
    pub buffer: LineBuffer,
    pub skip_next_event_payload: bool,
}

impl EventReader {
    /// A reply of which no line has come.
    pub fn new() -> (r: Self)
        ensures
            r.buffer.bytes@.len() == 0,
            !r.skip_next_event_payload,
    {
        EventReader { buffer: LineBuffer::new(), skip_next_event_payload: false }
    }

    /// Takes up a line. Gives what it tells, if it tells something.
    pub fn on_line(&mut self, line: &str) -> (r: Option<LineEvent>)
        ensures
            (r.deep_view(), final(self).skip_next_event_payload) == line_event(
                line@,
                old(self).skip_next_event_payload,
            ),
            final(self).buffer == old(self).buffer,
    {
        proof {
            reveal_strlit("event: ");
            reveal_strlit("data: ");
        }
        if let Some(rest) = strip_prefix(line, "event: ") {
            assert(line@.skip(7) =~= rest@);
            assert("event: "@.is_prefix_of(line@));
            let event = rest.as_str().trim();
            if !same(event, "content_block_delta") && !same(event, "content_block_start") {
                self.skip_next_event_payload = true;
            }
            if same(event, "content_block_stop") {
                return Some(LineEvent::BlockEnd);
            }
            return None;
        }
        if let Some(rest) = strip_prefix(line, "data: ") {
            assert(line@.skip(6) =~= rest@);
            assert("data: "@.is_prefix_of(line@));
            if self.skip_next_event_payload {
                self.skip_next_event_payload = false;
                return None;
            }
            return Some(LineEvent::Payload(rest.as_str().trim().to_owned()));
        }
        None
    }

    /// Takes up bytes. Gives what the lines tell that are whole now.
    pub fn push(&mut self, more: &[u8]) -> (r: Vec<LineEvent>)
        ensures
            (r.deep_view(), final(self).skip_next_event_payload) == events_in(
                lines(old(self).buffer.bytes@ + more@),
                old(self).skip_next_event_payload,
            ),
            final(self).buffer.bytes@ == rest(old(self).buffer.bytes@ + more@),
    {
        let ghost skip = self.skip_next_event_payload;
        let found = self.buffer.push(more);
        let ghost all = byte_lines(found@);
        let ghost held = self.buffer;
        let mut r: Vec<LineEvent> = Vec::new();
        let mut i: usize = 0;
        assert(all.take(0) =~= Seq::<Seq<u8>>::empty());
        assert(r.deep_view() =~= Seq::<LineEventModel>::empty());
        while i < found.len()
            invariant
                i <= found@.len(),
                all == byte_lines(found@),
                self.buffer == held,
                (r.deep_view(), self.skip_next_event_payload) == events_in(all.take(i as int), skip),
            decreases found.len() - i,
        {
            assert(all.take(i + 1).drop_last() =~= all.take(i as int));
            assert(all.take(i + 1).last() == found@[i as int]@);
            if let Some(line) = line_text(found[i].as_slice()) {
                if let Some(event) = self.on_line(line.as_str()) {
                    let ghost earlier = r.deep_view();
                    let ghost told = event.deep_view();
                    r.push(event);
                    assert(r.deep_view() =~= earlier.push(told));
                }
            }
            i = i + 1;
        }
        assert(all.take(all.len() as int) =~= all);
        r
    }
}

/// What the lines of a reply tell, with the pieces of the reply read.
#[derive(Debug)]
pub enum ReadEvent {
    BlockEnd,
    /// A piece of the reply, or why it cannot be read.
    Entry(Result<ContentEntry, OutsourceError>),
}

/// What a [`ReadEvent`] says.
#[verifier::ext_equal]
pub ghost enum ReadEventModel {
    BlockEnd,
    Entry(Result<ContentEntryModel, OutsourceError>),
}

impl DeepView for ReadEvent {
    type V = ReadEventModel;

    open spec fn deep_view(&self) -> ReadEventModel {
        match self {
            ReadEvent::BlockEnd => ReadEventModel::BlockEnd,
            ReadEvent::Entry(Ok(entry)) => ReadEventModel::Entry(Ok(entry.deep_view())),
            ReadEvent::Entry(Err(e)) => ReadEventModel::Entry(Err(*e)),
        }
    }
}

/// A reply that comes in events.
#[derive(Debug)]
pub struct EventStream {
    pub pending_tool_call_input_string: Option<String>,
    pub tool_calls: Option<Vec<BackendToolCall>>,
}

/// What comes of an event: what is passed on, if something is, and what has come of the calls then.
/// The end of a block ends a call that is coming.
pub open spec fn on_event(event: ReadEventModel, so_far: CallsSoFar) -> (
    Option<Result<Result<BackendGenerationResponseModel, OutsourceError>, Seq<char>>>,
    CallsSoFar,
) {
    match event {
        ReadEventModel::BlockEnd => if so_far.pending is Some {
            let (meant, after) = on_call_end(so_far);
            (Some(meant), after)
        } else {
            (None, so_far)
        },
        ReadEventModel::Entry(Ok(entry)) => {
            let (meant, after) = on_entry(entry, so_far);
            (Some(Ok(meant)), after)
        },
        ReadEventModel::Entry(Err(e)) => (Some(Ok(Err(e))), so_far),
    }
}

/// Whether the beginning of a call that an event brings can be passed on.
pub open spec fn can_take_up(event: ReadEventModel) -> bool {
    event matches ReadEventModel::Entry(Ok(entry)) ==> can_pass_on(entry)
}

impl EventStream {
    /// What has come of the calls.
    pub open spec fn so_far(self) -> CallsSoFar {
        CallsSoFar {
            pending: self.pending_tool_call_input_string.deep_view(),
            calls: self.tool_calls.deep_view(),
        }
    }

    /// A reply of which nothing has come.
    pub fn new() -> (r: Self)
        ensures
            r.so_far() == (CallsSoFar { pending: None, calls: None }),
    {
        EventStream { pending_tool_call_input_string: None, tool_calls: None }
    }

    /// Takes up an event. Gives what is passed on, if something is.
    pub fn take_up(&mut self, event: ReadEvent) -> (r: Option<
        Result<BackendGenerationResponse, OutsourceError>,
    >)
        requires
            can_take_up(event.deep_view()),
        ensures
            ({
                let (meant, after) = on_event(event.deep_view(), old(self).so_far());
                &&& match meant {
                    Some(meant) => r matches Some(found) && is_end_result(found, meant),
                    None => r is None,
                }
                &&& final(self).so_far() == after
            }),
    {
        match event {
            ReadEvent::BlockEnd => if self.pending_tool_call_input_string.is_some() {
                Some(
                    finalize_streamed_tool_call(
                        &mut self.pending_tool_call_input_string,
                        &mut self.tool_calls,
                    ),
                )
            } else {
                None
            },
            ReadEvent::Entry(Ok(entry)) => Some(self.on_entry(entry)),
            ReadEvent::Entry(Err(e)) => Some(Err(e)),
        }
    }

    /// Takes up a piece of the reply. Gives what is passed on.
    pub fn on_entry(&mut self, entry: ContentEntry) -> (r: Result<
        BackendGenerationResponse,
        OutsourceError,
    >)
        requires
            can_pass_on(entry.deep_view()),
        ensures
            ({
                let (meant, after) = on_entry(entry.deep_view(), old(self).so_far());
                &&& is_result(r, meant)
                &&& final(self).so_far() == after
            }),
    {
        extract_response_from_stream_event(
            entry,
            &mut self.pending_tool_call_input_string,
            &mut self.tool_calls,
        )
    }

    /// What is passed on at the end: the calls, if there were any.
    pub fn finish(self) -> (r: Option<BackendGenerationResponse>)
        ensures
            match self.tool_calls {
                Some(calls) => r matches Some(response) && response.deep_view() == (
                BackendGenerationResponseModel {
                    response: None,
                    tool_call_part: None,
                    tool_calls: Some(calls.deep_view()),
                }),
                None => r is None,
            },
    {
        match self.tool_calls {
            Some(calls) => Some(
                BackendGenerationResponse {
                    response: None,
                    tool_call_part: None,
                    tool_calls: Some(calls),
                },
            ),
            None => None,
        }
    }
}

// ---------------------------------------------------------------------------------------------
// Laws.

proof fn lemma_spoken(messages: Seq<BackendMessageModel>)
    ensures
        forall|i: int|
            0 <= i < spoken(messages).len() ==> (#[trigger] spoken(messages)[i]).role
                != MessageRole::System,
    decreases messages.len(),
{
    reveal(Seq::filter);
    if messages.len() > 0 {
        lemma_spoken(messages.drop_last());
        let kept = spoken(messages);
        assert forall|i: int| 0 <= i < kept.len() implies (#[trigger] kept[i]).role != MessageRole::System by {
            if i < spoken(messages.drop_last()).len() {
                assert(kept[i] == spoken(messages.drop_last())[i]);
            }
        }
    }
}

/// No message that is sent has the system role.
pub proof fn law_no_system_message_is_sent(request: BackendGenerationRequestModel)
    ensures
        forall|i: int|
            0 <= i < asked_messages(request).len() ==> (#[trigger] asked_messages(request)[i]).role
                != MessageRole::System,
{
    lemma_spoken(
        match request.thread_messages {
            Some(messages) => messages,
            None => Seq::empty(),
        },
    );
}

/// The arguments of a call do not depend on the pieces in which they come.
pub proof fn law_arguments_do_not_depend_on_pieces(
    entry: ContentEntryModel,
    first: Seq<char>,
    second: Seq<char>,
    so_far: CallsSoFar,
)
    requires
        entry.entry_type == "input_json_delta"@,
        so_far.pending is Some,
    ensures
        ({
            let one = ContentEntryModel { partial_json: Some(first), ..entry };
            let other = ContentEntryModel { partial_json: Some(second), ..entry };
            let both = ContentEntryModel { partial_json: Some(first + second), ..entry };
            on_entry(other, on_entry(one, so_far).1).1 == on_entry(both, so_far).1
        }),
{
    reveal_strlit("input_json_delta");
    reveal_strlit("tool_use");
    assert("input_json_delta"@.len() != "tool_use"@.len());
    let pending = so_far.pending->0;
    assert(pending + first + second =~= pending + (first + second));
}

/// A call as a document.
pub open spec fn call_document(call: BackendToolCallModel) -> Json {
    Json::Object(
        no_members().insert("id"@, Json::Text(call.id)).insert("name"@, Json::Text(call.name)).insert(
            "arguments"@,
            call.arguments,
        ),
    )
}

/// A piece of a reply that brings a part of the arguments of a call.
pub open spec fn delta_entry(part: Seq<char>) -> ContentEntryModel {
    ContentEntryModel {
        entry_type: "input_json_delta"@,
        text: None,
        id: None,
        name: None,
        input: None,
        partial_json: Some(part),
    }
}

/// What has come of the calls after parts of the arguments of one.
pub open spec fn after_deltas(parts: Seq<Seq<char>>, so_far: CallsSoFar) -> CallsSoFar
    decreases parts.len(),
{
    if parts.len() == 0 {
        so_far
    } else {
        on_entry(delta_entry(parts.last()), after_deltas(parts.drop_last(), so_far)).1
    }
}

proof fn lemma_delta(part: Seq<char>, so_far: CallsSoFar)
    requires
        so_far.pending is Some,
    ensures
        on_entry(delta_entry(part), so_far) == (
            Ok::<_, OutsourceError>(part_response(part)),
            (CallsSoFar { pending: Some(so_far.pending->0 + part), ..so_far }),
        ),
{
    reveal_strlit("input_json_delta");
    reveal_strlit("tool_use");
    assert("input_json_delta"@.len() != "tool_use"@.len());
}

proof fn lemma_deltas(parts: Seq<Seq<char>>, so_far: CallsSoFar)
    requires
        so_far.pending == Some(Seq::<char>::empty()),
    ensures
        after_deltas(parts, so_far) == (CallsSoFar { pending: Some(parts.flatten()), ..so_far }),
    decreases parts.len(),
{
    if parts.len() > 0 {
        let earlier = parts.drop_last();
        lemma_deltas(earlier, so_far);
        lemma_delta(parts.last(), after_deltas(earlier, so_far));
        earlier.lemma_flatten_push(parts.last());
        assert(earlier.push(parts.last()) =~= parts);
    } else {
        assert(parts.flatten() =~= Seq::<char>::empty());
    }
}

/// A call as it is passed on in parts, where its arguments came as that text.
pub open spec fn streamed_call(call: BackendToolCallModel, arguments: Seq<char>) -> Written {
    Written::Members(
        seq![
            ("id"@, Written::Whole(Json::Text(call.id))),
            ("name"@, Written::Whole(Json::Text(call.name))),
            (
                "arguments"@,
                if arguments.len() == 0 {
                    Written::Members(Seq::empty())
                } else {
                    Written::Given(arguments)
                },
            ),
        ],
    )
}

/// How a call that is passed on in parts ends.
pub open spec fn call_ending(arguments: Seq<char>) -> Seq<char> {
    if arguments.len() == 0 {
        "{}}\n"@
    } else {
        "}\n"@
    }
}

proof fn lemma_streamed_call(call: BackendToolCallModel, arguments: Seq<char>)
    ensures
        call_opening(call) + arguments + call_ending(arguments) == streamed_call(call, arguments).text()
            + "\n"@,
        arguments.len() == 0 ==> streamed_call(call, arguments).document() == call_document(
            BackendToolCallModel { arguments: Json::Object(no_members()), ..call },
        ),
        parsed(arguments) is Ok && arguments.len() > 0 ==> streamed_call(call, arguments).document()
            == call_document(BackendToolCallModel { arguments: parsed(arguments)->Ok_0, ..call }),
        arguments.len() == 0 || (parsed(arguments) is Ok && text_depth(arguments).deepest
            < depth_limit()) ==> streamed_call(call, arguments).is_plain(depth_limit()),
{
    let value = if arguments.len() == 0 {
        Written::Members(Seq::empty())
    } else {
        Written::Given(arguments)
    };
    let a = ("id"@, Written::Whole(Json::Text(call.id)));
    let b = ("name"@, Written::Whole(Json::Text(call.name)));
    let c = ("arguments"@, value);
    let list = seq![a, b, c];
    lemma_three_members(a, b, c);
    reveal_strlit("{");
    reveal_strlit("}");
    reveal_strlit("\"");
    reveal_strlit("\":");
    reveal_strlit(",\"");
    reveal_strlit("\n");
    reveal_strlit("id");
    reveal_strlit("name");
    reveal_strlit("arguments");
    reveal_strlit("{\"id\":");
    reveal_strlit(",\"name\":");
    reveal_strlit(",\"arguments\":");
    reveal_strlit("{}}\n");
    reveal_strlit("}\n");
    let none = Seq::<(Seq<char>, Written)>::empty();
    assert(members_text(none) =~= Seq::<char>::empty());
    assert(members_written(none) == no_members());
    assert("{"@ + "\""@ + "id"@ + "\":"@ =~= "{\"id\":"@);
    assert(",\""@ + "name"@ + "\":"@ =~= ",\"name\":"@);
    assert(",\""@ + "arguments"@ + "\":"@ =~= ",\"arguments\":"@);
    let opening = call_opening(call);
    assert("{"@ + members_text(list) == opening + value.text());
    assert(streamed_call(call, arguments).text() == opening + value.text() + "}"@);
    if arguments.len() == 0 {
        assert(value.text() =~= "{"@ + "}"@);
        assert(opening + arguments + call_ending(arguments) =~= opening + value.text() + "}"@ + "\n"@);
    } else {
        assert(opening + arguments + call_ending(arguments) =~= opening + value.text() + "}"@ + "\n"@);
    }
    let depth = depth_limit();
    if arguments.len() == 0 || (parsed(arguments) is Ok && text_depth(arguments).deepest < depth) {
        assert(value.is_plain((depth - 1) as nat));
        assert forall|i: int| 0 <= i < list.len() implies is_plain_name((#[trigger] list[i]).0)
            && list[i].1.is_plain((depth - 1) as nat) by {
            if i == 0 {
                assert(is_plain_name("id"@));
            } else if i == 1 {
                assert(is_plain_name("name"@));
            } else {
                assert(is_plain_name("arguments"@));
            }
        }
    }
}

/// The parts in which a call is passed on make up the call: from its start, with empty arguments or
/// none, over parts of its arguments that together are empty or a text of JSON, to its end, they are an
/// object and a line break, and the object is the finished call. Earlier calls stay as they are. The
/// object is read back as far as it does not go too deep.
pub proof fn law_parts_of_a_call_make_up_the_call(
    entry: ContentEntryModel,
    parts: Seq<Seq<char>>,
    so_far: CallsSoFar,
)
    requires
        is_call(entry),
        entry_call(entry) is Some,
        entry_call(entry)->0.arguments == Json::Object(no_members()),
        parts.flatten().len() == 0 || parsed(parts.flatten()) is Ok,
    ensures
        ({
            let call = entry_call(entry)->0;
            let arguments = parts.flatten();
            let (first, begun) = on_entry(entry, so_far);
            let come = after_deltas(parts, begun);
            let (last, done) = on_call_end(come);
            let start = call_opening(call);
            let end = call_ending(arguments);
            let whole = streamed_call(call, arguments);
            &&& first == Ok::<_, OutsourceError>(part_response(start))
            &&& forall|i: int|
                0 <= i < parts.len() ==> on_entry(
                    delta_entry(#[trigger] parts[i]),
                    after_deltas(parts.take(i), begun),
                ).0 == Ok::<_, OutsourceError>(part_response(parts[i]))
            &&& last == Ok::<_, Seq<char>>(Ok::<_, OutsourceError>(part_response(end)))
            &&& start + arguments + end == whole.text() + "\n"@
            &&& done.pending is None
            &&& done.calls matches Some(calls) && calls.len() > 0 && whole.document() == call_document(
                calls.last(),
            ) && calls.drop_last() == (match so_far.calls {
                Some(earlier) => earlier,
                None => Seq::empty(),
            })
            &&& text_depth(arguments).deepest < depth_limit() ==> whole.is_plain(depth_limit())
        }),
{
    let call = entry_call(entry)->0;
    let arguments = parts.flatten();
    let begun = on_entry(entry, so_far).1;
    lemma_deltas(parts, begun);
    assert forall|i: int| 0 <= i < parts.len() implies on_entry(
        delta_entry(#[trigger] parts[i]),
        after_deltas(parts.take(i), begun),
    ).0 == Ok::<_, OutsourceError>(part_response(parts[i])) by {
        lemma_deltas(parts.take(i), begun);
        lemma_delta(parts[i], after_deltas(parts.take(i), begun));
    }
    lemma_streamed_call(call, arguments);
    let calls = begun.calls->0;
    let earlier = match so_far.calls {
        Some(earlier) => earlier,
        None => Seq::empty(),
    };
    assert(calls =~= earlier.push(call));
    assert(calls.drop_last() =~= earlier);
    let done = on_call_end(after_deltas(parts, begun)).1;
    assert(done.calls->0.drop_last() =~= earlier);
}

/// What comes of events, one after the other: what is passed on, and what has come of the calls then.
pub open spec fn on_events(events: Seq<ReadEventModel>, so_far: CallsSoFar) -> (
    Seq<Result<Result<BackendGenerationResponseModel, OutsourceError>, Seq<char>>>,
    CallsSoFar,
)
    decreases events.len(),
{
    if events.len() == 0 {
        (Seq::empty(), so_far)
    } else {
        let (earlier, before) = on_events(events.drop_last(), so_far);
        match on_event(events.last(), before) {
            (Some(meant), after) => (earlier.push(meant), after),
            (None, after) => (earlier, after),
        }
    }
}

/// The events with the pieces of the reply read.
pub open spec fn read_all(
    events: Seq<LineEventModel>,
    read: spec_fn(Seq<char>) -> Result<ContentEntryModel, OutsourceError>,
) -> Seq<ReadEventModel> {
    events.map_values(
        |event: LineEventModel|
            match event {
                LineEventModel::BlockEnd => ReadEventModel::BlockEnd,
                LineEventModel::Payload(payload) => ReadEventModel::Entry(read(payload)),
            },
    )
}

/// How far a reply has come: the bytes that are held back, whether the next data are to be skipped,
/// what has come of the calls, and what was passed on.
#[verifier::ext_equal]
pub ghost struct StreamState {
    pub held: Seq<u8>,
    pub skip: bool,
    pub so_far: CallsSoFar,
    pub passed_on: Seq<Result<Result<BackendGenerationResponseModel, OutsourceError>, Seq<char>>>,
}

/// A reply of which nothing has come.
pub open spec fn stream_start() -> StreamState {
    StreamState {
        held: Seq::empty(),
        skip: false,
        so_far: CallsSoFar { pending: None, calls: None },
        passed_on: Seq::empty(),
    }
}

/// How far a reply has come with one more piece, of which [`EventReader::push`] gives the events and
/// [`EventStream::take_up`] takes up each.
pub open spec fn after_piece(
    state: StreamState,
    piece: Seq<u8>,
    read: spec_fn(Seq<char>) -> Result<ContentEntryModel, OutsourceError>,
) -> StreamState {
    let (events, skip) = events_in(lines(state.held + piece), state.skip);
    let (passed_on, so_far) = on_events(read_all(events, read), state.so_far);
    StreamState {
        held: rest(state.held + piece),
        skip,
        so_far,
        passed_on: state.passed_on + passed_on,
    }
}

/// How far a reply has come with pieces that come one after the other.
pub open spec fn after_pieces(
    pieces: Seq<Seq<u8>>,
    read: spec_fn(Seq<char>) -> Result<ContentEntryModel, OutsourceError>,
) -> StreamState
    decreases pieces.len(),
{
    if pieces.len() == 0 {
        stream_start()
    } else {
        after_piece(after_pieces(pieces.drop_last(), read), pieces.last(), read)
    }
}

proof fn lemma_events_sum(a: Seq<Seq<u8>>, b: Seq<Seq<u8>>, skip: bool)
    ensures
        ({
            let (first, between) = events_in(a, skip);
            let (second, after) = events_in(b, between);
            events_in(a + b, skip) == (first + second, after)
        }),
    decreases b.len(),
{
    let (first, between) = events_in(a, skip);
    if b.len() > 0 {
        lemma_events_sum(a, b.drop_last(), skip);
        assert((a + b).drop_last() =~= a + b.drop_last());
        assert((a + b).last() == b.last());
        let (earlier, before) = events_in(b.drop_last(), between);
        if let Some(line) = text_of(b.last()) {
            if let Some(event) = line_event(line, before).0 {
                assert((first + earlier).push(event) =~= first + earlier.push(event));
            }
        }
    } else {
        assert(a + b =~= a);
        assert(first + Seq::<LineEventModel>::empty() =~= first);
    }
}

proof fn lemma_passed_on_sum(a: Seq<ReadEventModel>, b: Seq<ReadEventModel>, so_far: CallsSoFar)
    ensures
        ({
            let (first, between) = on_events(a, so_far);
            let (second, after) = on_events(b, between);
            on_events(a + b, so_far) == (first + second, after)
        }),
    decreases b.len(),
{
    let (first, between) = on_events(a, so_far);
    if b.len() > 0 {
        lemma_passed_on_sum(a, b.drop_last(), so_far);
        assert((a + b).drop_last() =~= a + b.drop_last());
        assert((a + b).last() == b.last());
        let (earlier, before) = on_events(b.drop_last(), between);
        if let Some(meant) = on_event(b.last(), before).0 {
            assert((first + earlier).push(meant) =~= first + earlier.push(meant));
        }
    } else {
        assert(a + b =~= a);
        assert(first + on_events(b, between).0 =~= first);
    }
}

/// Two pieces of a reply and the two as one bring it equally far.
proof fn lemma_two_pieces(
    state: StreamState,
    a: Seq<u8>,
    b: Seq<u8>,
    read: spec_fn(Seq<char>) -> Result<ContentEntryModel, OutsourceError>,
)
    ensures
        after_piece(after_piece(state, a, read), b, read) == after_piece(state, a + b, read),
{
    let all = state.held + a;
    assert(all + b =~= state.held + (a + b));
    law_lines_do_not_depend_on_pieces(all, b);
    let (first, between) = events_in(lines(all), state.skip);
    let more = lines(rest(all) + b);
    let second = events_in(more, between).0;
    lemma_events_sum(lines(all), more, state.skip);
    assert(read_all(first + second, read) =~= read_all(first, read) + read_all(second, read));
    lemma_passed_on_sum(read_all(first, read), read_all(second, read), state.so_far);
    let one = on_events(read_all(first, read), state.so_far).0;
    let other = on_events(read_all(second, read), on_events(read_all(first, read), state.so_far).1).0;
    assert(state.passed_on + one + other =~= state.passed_on + (one + other));
}

/// Whatever the pieces in which a reply comes, it comes as far as it would in one piece, and the same
/// is passed on. Bytes behind the last line break change nothing but what is held back. How a piece of
/// the reply is read does not matter, as long as its text decides.
pub proof fn law_what_is_passed_on_does_not_depend_on_pieces(
    pieces: Seq<Seq<u8>>,
    tail: Seq<u8>,
    read: spec_fn(Seq<char>) -> Result<ContentEntryModel, OutsourceError>,
)
    requires
        forall|i: int| 0 <= i < tail.len() ==> #[trigger] tail[i] != 10,
    ensures
        after_pieces(pieces, read) == after_piece(stream_start(), pieces.flatten(), read),
        after_pieces(pieces.push(tail), read) == (StreamState {
            held: after_pieces(pieces, read).held + tail,
            ..after_pieces(pieces, read)
        }),
    decreases pieces.len(),
{
    let start = stream_start();
    if pieces.len() > 0 {
        let earlier = pieces.drop_last();
        law_what_is_passed_on_does_not_depend_on_pieces(earlier, tail, read);
        earlier.lemma_flatten_push(pieces.last());
        assert(earlier.push(pieces.last()) =~= pieces);
        lemma_two_pieces(start, earlier.flatten(), pieces.last(), read);
    } else {
        assert(pieces.flatten() =~= Seq::<u8>::empty());
        assert(start.held + Seq::<u8>::empty() =~= Seq::<u8>::empty());
        assert(lines(Seq::<u8>::empty()) =~= Seq::<Seq<u8>>::empty());
        assert(read_all(Seq::empty(), read) =~= Seq::<ReadEventModel>::empty());
        assert(start.passed_on + Seq::empty() =~= start.passed_on);
        assert(after_piece(start, pieces.flatten(), read) =~= start);
    }
    let state = after_pieces(pieces, read);
    let whole = pieces.flatten();
    assert(pieces.push(tail).drop_last() =~= pieces);
    assert(start.held + whole =~= whole);
    law_unfinished_line_is_held_back(whole, tail);
    law_lines_do_not_depend_on_pieces(whole, tail);
    let more = lines(state.held + tail);
    assert(lines(whole) + more == lines(whole));
    assert(more.len() == 0);
    assert(read_all(Seq::empty(), read) =~= Seq::<ReadEventModel>::empty());
    assert(state.passed_on + Seq::empty() =~= state.passed_on);
}

/// The names of members that bodies and messages have are told apart.
proof fn lemma_names_differ()
    ensures
        "model"@ != "max_tokens"@ && "model"@ != "tools"@ && "model"@ != "system"@ && "model"@
            != "messages"@ && "model"@ != "stream"@,
        "max_tokens"@ != "tools"@ && "max_tokens"@ != "system"@ && "max_tokens"@ != "messages"@
            && "max_tokens"@ != "stream"@,
        "tools"@ != "system"@ && "tools"@ != "messages"@ && "tools"@ != "stream"@,
        "system"@ != "messages"@ && "system"@ != "stream"@ && "messages"@ != "stream"@,
        "role"@ != "content"@,
        "type"@ != "text"@ && "type"@ != "tool_use_id"@ && "type"@ != "content"@ && "type"@ != "id"@
            && "type"@ != "name"@ && "type"@ != "input"@,
        "tool_use_id"@ != "content"@,
        "id"@ != "name"@ && "id"@ != "input"@ && "name"@ != "input"@,
{
    reveal_strlit("model");
    reveal_strlit("max_tokens");
    reveal_strlit("tools");
    reveal_strlit("system");
    reveal_strlit("messages");
    reveal_strlit("stream");
    reveal_strlit("role");
    reveal_strlit("content");
    reveal_strlit("type");
    reveal_strlit("text");
    reveal_strlit("tool_use_id");
    reveal_strlit("id");
    reveal_strlit("name");
    reveal_strlit("input");
    assert("model"@.len() == 5 && "max_tokens"@.len() == 10 && "tools"@.len() == 5);
    assert("system"@.len() == 6 && "messages"@.len() == 8 && "stream"@.len() == 6);
    assert("role"@.len() == 4 && "content"@.len() == 7 && "type"@.len() == 4 && "text"@.len() == 4);
    assert("tool_use_id"@.len() == 11 && "id"@.len() == 2 && "name"@.len() == 4 && "input"@.len() == 5);
    assert("model"@[0] == 'm' && "tools"@[0] == 't');
    assert("system"@[1] == 'y' && "stream"@[1] == 't');
    assert("type"@[1] == 'y' && "text"@[1] == 'e' && "name"@[0] == 'n' && "type"@[0] == 't');
}

/// A message goes with its role. Without calls and results of calls its text is its content, exactly.
pub proof fn law_text_of_a_message_is_sent(message: BackendMessageModel)
    ensures
        anthropic_message(message).member("role"@) == Some(
            Json::Text(
                match message.role {
                    MessageRole::System => "system"@,
                    MessageRole::User => "user"@,
                    MessageRole::Assistant => "assistant"@,
                },
            ),
        ),
        message.tool_calls is None && message.tool_call_results is None ==> {
            &&& message.content matches Some(text) ==> anthropic_message(message).member("content"@)
                == Some(Json::Text(text))
            &&& message.content is None ==> anthropic_message(message).member("content"@) == Some(
                Json::Text(Seq::empty()),
            )
        },
{
    lemma_names_differ();
    reveal_strlit("");
    assert(""@ =~= Seq::<char>::empty());
}

/// A message with results of calls has a piece for each of them, in order, and then one for its text,
/// where it has one. A result goes under the id of its call: as the text that it is, or else spelled
/// out.
pub proof fn law_results_of_calls_are_sent(
    message: BackendMessageModel,
    results: Seq<ToolCallResultModel>,
)
    requires
        message.tool_call_results == Some(results),
    ensures
        ({
            &&& anthropic_message(message).member("content"@) matches Some(Json::Array(pieces))
            &&& pieces.len() == results.len() + if message.content is Some {
                1int
            } else {
                0
            }
            &&& forall|i: int|
                0 <= i < results.len() ==> {
                    &&& (#[trigger] pieces[i]).member("type"@) == Some(Json::Text("tool_result"@))
                    &&& pieces[i].member("tool_use_id"@) == Some(Json::Text(results[i].id))
                    &&& results[i].result matches Some(Json::Text(text)) ==> pieces[i].member("content"@)
                        == Some(Json::Text(text))
                    &&& results[i].result matches Some(other) ==> (!(other is Text) ==> pieces[i].member(
                        "content"@,
                    ) == Some(Json::Text(spelled(other))))
                    &&& results[i].result is None ==> pieces[i].member("content"@) is None
                }
            &&& message.content matches Some(text) ==> pieces.last().member("type"@) == Some(
                Json::Text("text"@),
            ) && pieces.last().member("text"@) == Some(Json::Text(text))
        }),
{
    lemma_names_differ();
    let sent = results.map_values(|r: ToolCallResultModel| result_entry(r));
    let pieces = message_content(message)->Array_0;
    assert(pieces == sent + text_entries(message.content));
    assert forall|i: int| 0 <= i < results.len() implies #[trigger] pieces[i] == result_entry(
        results[i],
    ) by {
        assert(sent[i] == result_entry(results[i]));
    }
}

/// A message with calls has a piece for its text, where it has one, and then one for each call, in
/// order, with the id, the name and the arguments of the call.
pub proof fn law_calls_are_sent(message: BackendMessageModel, calls: Seq<BackendToolCallModel>)
    requires
        message.tool_call_results is None,
        message.tool_calls == Some(calls),
    ensures
        ({
            let first = if message.content is Some {
                1int
            } else {
                0
            };
            &&& anthropic_message(message).member("content"@) matches Some(Json::Array(pieces))
            &&& pieces.len() == first + calls.len()
            &&& message.content matches Some(text) ==> pieces[0].member("type"@) == Some(
                Json::Text("text"@),
            ) && pieces[0].member("text"@) == Some(Json::Text(text))
            &&& forall|i: int|
                #![trigger calls[i]]
                0 <= i < calls.len() ==> {
                    &&& pieces[first + i].member("type"@) == Some(Json::Text("tool_use"@))
                    &&& pieces[first + i].member("id"@) == Some(Json::Text(calls[i].id))
                    &&& pieces[first + i].member("name"@) == Some(Json::Text(calls[i].name))
                    &&& pieces[first + i].member("input"@) == Some(calls[i].arguments)
                }
        }),
{
    lemma_names_differ();
    let sent = calls.map_values(|c: BackendToolCallModel| call_entry(c));
    let pieces = message_content(message)->Array_0;
    assert(pieces == text_entries(message.content) + sent);
    let first = text_entries(message.content).len() as int;
    assert forall|i: int| 0 <= i < calls.len() implies pieces[first + i] == call_entry(
        #[trigger] calls[i],
    ) by {
        assert(sent[i] == call_entry(calls[i]));
    }
}

/// A thread without messages of the system role is sent whole and in order, and behind it goes the
/// message that the request adds: of the user, with the prompt and the results of calls.
pub proof fn law_thread_is_sent_before_the_prompt(
    request: BackendGenerationRequestModel,
    thread: Seq<BackendMessageModel>,
)
    requires
        request.thread_messages == Some(thread) || (request.thread_messages is None && thread.len() == 0),
        forall|i: int| 0 <= i < thread.len() ==> (#[trigger] thread[i]).role != MessageRole::System,
    ensures
        asked_messages(request).drop_last() == thread,
        asked_messages(request).last().role == MessageRole::User,
        asked_messages(request).last().content == request.prompt,
        asked_messages(request).last().tool_call_results == request.tool_call_results,
        asked_messages(request).last().tool_calls is None,
{
    lemma_all_spoken(thread);
    assert(Seq::<BackendMessageModel>::empty() =~= thread || request.thread_messages is Some);
    assert(asked_messages(request).drop_last() =~= spoken(thread));
}

proof fn lemma_all_spoken(thread: Seq<BackendMessageModel>)
    requires
        forall|i: int| 0 <= i < thread.len() ==> (#[trigger] thread[i]).role != MessageRole::System,
    ensures
        spoken(thread) == thread,
    decreases thread.len(),
{
    reveal(Seq::filter);
    if thread.len() > 0 {
        assert forall|i: int| 0 <= i < thread.drop_last().len() implies (
        #[trigger] thread.drop_last()[i]).role != MessageRole::System by {
            assert(thread.drop_last()[i] == thread[i]);
        }
        lemma_all_spoken(thread.drop_last());
        assert(thread[thread.len() - 1].role != MessageRole::System);
        assert(thread.drop_last().push(thread.last()) =~= thread);
    } else {
        assert(thread =~= Seq::empty());
    }
}

proof fn lemma_spoken_sum(a: Seq<BackendMessageModel>, b: Seq<BackendMessageModel>)
    ensures
        spoken(a + b) == spoken(a) + spoken(b),
    decreases b.len(),
{
    reveal(Seq::filter);
    if b.len() > 0 {
        lemma_spoken_sum(a, b.drop_last());
        assert((a + b).drop_last() =~= a + b.drop_last());
        assert(spoken(a + b) =~= spoken(a) + spoken(b));
    } else {
        assert(a + b =~= a);
        assert(spoken(a) + spoken(b) =~= spoken(a));
    }
}

proof fn lemma_last_system(a: Seq<BackendMessageModel>, b: Seq<BackendMessageModel>)
    requires
        forall|i: int| 0 <= i < b.len() ==> (#[trigger] b[i]).role != MessageRole::System,
    ensures
        last_system(a + b) == last_system(a),
    decreases b.len(),
{
    if b.len() > 0 {
        assert forall|i: int| 0 <= i < b.drop_last().len() implies (#[trigger] b.drop_last()[i]).role
            != MessageRole::System by {
            assert(b.drop_last()[i] == b[i]);
        }
        lemma_last_system(a, b.drop_last());
        assert(b[b.len() - 1].role != MessageRole::System);
        assert((a + b).drop_last() =~= a + b.drop_last());
    } else {
        assert(a + b =~= a);
    }
}

/// A message of the system role leaves the thread, and changes nothing of the other messages that are
/// sent. The text of the last of them is the system text of the request.
pub proof fn law_system_message_is_sent_apart(
    request: BackendGenerationRequestModel,
    before: Seq<BackendMessageModel>,
    message: BackendMessageModel,
    after: Seq<BackendMessageModel>,
    model_name: Seq<char>,
    should_stream: bool,
    text: Seq<char>,
)
    requires
        request.thread_messages == Some(before.push(message) + after),
        message.role == MessageRole::System,
        message.content == Some(text),
        forall|i: int| 0 <= i < after.len() ==> (#[trigger] after[i]).role != MessageRole::System,
    ensures
        ({
            let without = BackendGenerationRequestModel {
                thread_messages: Some(before + after),
                ..request
            };
            let body = body_of(request, model_name, should_stream);
            &&& asked_messages(request) == asked_messages(without)
            &&& body.contains_key("system"@) && body["system"@] == Json::Text(text)
        }),
{
    reveal(Seq::filter);
    lemma_names_differ();
    lemma_spoken_sum(before.push(message), after);
    lemma_spoken_sum(before, after);
    assert(before.push(message).drop_last() =~= before);
    lemma_last_system(before.push(message), after);
}

/// Every model parameter of a request stands in the body with its value, but where its name is one that
/// the body sets itself; and the body holds nothing else.
pub proof fn law_model_parameters_are_sent(
    request: BackendGenerationRequest,
    model_description: ModelDescription,
    should_stream: bool,
    r: JsonMap<String, Value>,
    name: Seq<char>,
)
    requires
        call_ensures(request_body, (request, &model_description, should_stream), r),
        name != "model"@,
        name != "max_tokens"@,
        name != "messages"@,
        request.tools is Some ==> name != "tools"@,
        request.thread_messages is Some ==> name != "system"@,
        should_stream ==> name != "stream"@,
    ensures
        match request.model_parameters {
            Some(given) => members(r).contains_key(name) == members(given).contains_key(name) && (
            members(given).contains_key(name) ==> members(r)[name] == members(given)[name]),
            None => !members(r).contains_key(name),
        },
{
}

/// The body of a request names the model and the number of tokens, offers the tools, and asks for a
/// stream where one is wanted, whatever the model parameters say.
pub proof fn law_body_names_the_model(
    request: BackendGenerationRequest,
    model_description: ModelDescription,
    should_stream: bool,
    r: JsonMap<String, Value>,
)
    requires
        call_ensures(request_body, (request, &model_description, should_stream), r),
    ensures
        members(r).contains_key("model"@) && members(r)["model"@] == Json::Text(
            model_description.model_name@,
        ),
        members(r).contains_key("max_tokens"@) && members(r)["max_tokens"@] == Json::Int(
            request.max_tokens as int,
        ),
        request.tools matches Some(tools) ==> members(r).contains_key("tools"@) && members(r)["tools"@]
            == json(tools),
        should_stream ==> members(r).contains_key("stream"@) && members(r)["stream"@] == Json::Bool(
            true,
        ),
{
    lemma_names_differ();
}

/// What a request asks is sent: the messages of its body are those of the thread that do not have the
/// system role, and the prompt is the text of the last of them. Without results of calls the prompt is
/// its whole content.
pub proof fn law_prompt_is_sent_last(
    request: BackendGenerationRequest,
    model_description: ModelDescription,
    should_stream: bool,
    r: JsonMap<String, Value>,
    prompt: String,
)
    requires
        call_ensures(request_body, (request, &model_description, should_stream), r),
        request.prompt == Some(prompt),
    ensures
        ({
            let asked = asked_messages(request.deep_view());
            &&& members(r).contains_key("messages"@)
            &&& members(r)["messages"@] matches Json::Array(sent)
            &&& sent.len() == asked.len() && sent.len() > 0
            &&& forall|i: int| 0 <= i < sent.len() ==> #[trigger] sent[i] == anthropic_message(asked[i])
            &&& sent.last().member("role"@) == Some(Json::Text("user"@))
            &&& request.tool_call_results is None ==> sent.last().member("content"@) == Some(
                Json::Text(prompt@),
            )
        }),
{
    lemma_names_differ();
    let asked = asked_messages(request.deep_view());
    let sent = members(r)["messages"@]->Array_0;
    assert(sent == asked.map_values(|m: BackendMessageModel| anthropic_message(m)));
    law_text_of_a_message_is_sent(asked.last());
}

/// Pieces of text make up the text of a reply, in order, and pieces that are calls its calls, in order,
/// each with its id, its name and its arguments. Calls do not change the text, nor texts the calls.
pub proof fn law_reply_is_made_up_of_its_pieces(
    before: Seq<ContentEntryModel>,
    entry: ContentEntryModel,
    calls: Seq<BackendToolCallModel>,
)
    requires
        reply_calls(before) == Some(calls),
    ensures
        reply_text(Seq::empty()).len() == 0,
        reply_calls(Seq::empty()) == Some(Seq::<BackendToolCallModel>::empty()),
        entry.entry_type == "text"@ ==> {
            &&& entry.text matches Some(text) ==> reply_text(before.push(entry)) == reply_text(before)
                + text
            &&& reply_calls(before.push(entry)) == Some(calls)
        },
        entry.entry_type == "tool_use"@ ==> {
            &&& reply_text(before.push(entry)) == reply_text(before)
            &&& (entry.id is None || entry.name is None) ==> reply_calls(before.push(entry)) is None
            &&& entry.id is Some && entry.name is Some ==> {
                &&& reply_calls(before.push(entry)) matches Some(all)
                &&& all.len() == calls.len() + 1 && all.drop_last() == calls
                &&& all.last().id == entry.id->0 && all.last().name == entry.name->0
                &&& entry.input matches Some(input) ==> all.last().arguments == input
                &&& entry.input is None ==> all.last().arguments == Json::Object(no_members())
            }
        },
{
    reveal_strlit("text");
    reveal_strlit("tool_use");
    assert("text"@.len() == 4);
    assert("tool_use"@.len() == 8);
    assert(before.push(entry).drop_last() =~= before);
    if entry.entry_type == "tool_use"@ && entry.id is Some && entry.name is Some {
        assert(reply_calls(before.push(entry))->0.drop_last() =~= calls);
    }
}

/// A whole reply with text is handed on with all of its text and its calls, if it makes some; one
/// without text, or with a call that does not say which it is, is refused.
pub proof fn law_reply_is_handed_on(
    content: Vec<ContentEntry>,
    r: Result<BackendGenerationResponse, OutsourceError>,
)
    requires
        call_ensures(generate, (content,), r),
    ensures
        ({
            let entries = content.deep_view();
            let text = reply_text(entries);
            &&& r is Ok <==> text.len() > 0 && reply_calls(entries) is Some
            &&& r matches Ok(response) ==> {
                &&& response.response.deep_view() == Some(text)
                &&& response.tool_call_part is None
                &&& reply_calls(entries)->0.len() == 0 ==> response.tool_calls is None
                &&& reply_calls(entries)->0.len() > 0 ==> response.tool_calls.deep_view() == reply_calls(
                    entries,
                )
            }
        }),
{
}

/// A piece of text is passed on as it comes, and changes nothing of the calls. Arguments that come
/// while no call is coming are refused, and so are pieces of other types.
pub proof fn law_text_is_passed_on(entry: ContentEntryModel, text: Seq<char>, so_far: CallsSoFar)
    ensures
        (entry.entry_type == "text"@ || entry.entry_type == "text_delta"@) && entry.text == Some(text) ==> {
            &&& on_entry(entry, so_far).0 matches Ok(passed)
            &&& passed.response == Some(text)
            &&& passed.tool_call_part is None && passed.tool_calls is None
            &&& on_entry(entry, so_far).1 == so_far
        },
        entry.entry_type == "input_json_delta"@ && so_far.pending is None ==> on_entry(
            entry,
            so_far,
        ).0 is Err && on_entry(entry, so_far).1 == so_far,
        entry.entry_type == "tool_use"@ && (entry.id is None || entry.name is None) ==> on_entry(
            entry,
            so_far,
        ).0 is Err && on_entry(entry, so_far).1 == so_far,
{
    reveal_strlit("text");
    reveal_strlit("text_delta");
    reveal_strlit("tool_use");
    reveal_strlit("input_json_delta");
    assert("text"@.len() == 4);
    assert("text_delta"@.len() == 10);
    assert("tool_use"@.len() == 8);
    assert("input_json_delta"@.len() == 16);
}

/// The data of an event that starts a block of content or goes on with one are a piece of the reply,
/// whole and without the white space round them; those of any other event are not, and the next event
/// counts again. The end of a block is told. Lines of other kinds change nothing.
pub proof fn law_data_of_content_events_count(name: Seq<char>, data: Seq<char>, line: Seq<char>, skip: bool)
    ensures
        ({
            let event = "event: "@ + name;
            let payload = "data: "@ + data;
            let counts = trimmed(name) == "content_block_delta"@ || trimmed(name)
                == "content_block_start"@;
            &&& counts ==> line_event(event, false) == (None::<LineEventModel>, false)
            &&& !counts ==> line_event(event, skip).1
            &&& trimmed(name) == "content_block_stop"@ ==> line_event(event, skip).0 == Some(
                LineEventModel::BlockEnd,
            )
            &&& trimmed(name) != "content_block_stop"@ ==> line_event(event, skip).0 is None
            &&& line_event(payload, false) == (
                Some(LineEventModel::Payload(trimmed(data))),
                false,
            )
            &&& line_event(payload, true) == (None::<LineEventModel>, false)
            &&& !"event: "@.is_prefix_of(line) && !"data: "@.is_prefix_of(line) ==> line_event(line, skip)
                == (None::<LineEventModel>, skip)
        }),
{
    reveal_strlit("event: ");
    reveal_strlit("data: ");
    reveal_strlit("content_block_delta");
    reveal_strlit("content_block_start");
    reveal_strlit("content_block_stop");
    let event = "event: "@ + name;
    let payload = "data: "@ + data;
    assert("event: "@.len() == 7 && "data: "@.len() == 6);
    assert(event.skip(7) =~= name);
    assert(event.take(7) =~= "event: "@);
    assert(payload.skip(6) =~= data);
    assert(payload.take(6) =~= "data: "@);
    assert("event: "@[0] == 'e' && payload[0] == 'd');
    assert(!"event: "@.is_prefix_of(payload)) by {
        if "event: "@.is_prefix_of(payload) {
            assert(payload.take(7)[0] == payload[0]);
        }
    }
    assert("content_block_stop"@.len() == 18);
    assert("content_block_delta"@.len() == 19);
    assert("content_block_start"@.len() == 19);
}

/// The lines of a reply tell what they tell one after the other: what a line tells goes behind what
/// those before it told.
pub proof fn law_lines_tell_in_order(before: Seq<Seq<u8>>, line: Seq<u8>, text: Seq<char>, skip: bool)
    requires
        text_of(line) == Some(text),
    ensures
        events_in(Seq::empty(), skip) == (Seq::<LineEventModel>::empty(), skip),
        ({
            let (told, then_skip) = events_in(before, skip);
            let (more, after) = line_event(text, then_skip);
            &&& events_in(before.push(line), skip).1 == after
            &&& more matches Some(event) ==> events_in(before.push(line), skip).0 == told.push(event)
            &&& more is None ==> events_in(before.push(line), skip).0 == told
        }),
{
    assert(before.push(line).drop_last() =~= before);
}

/// At the end the calls are handed on that have come, all of them, and nothing where none has come.
pub proof fn law_calls_are_handed_on_at_the_end(stream: EventStream, r: Option<BackendGenerationResponse>)
    requires
        call_ensures(EventStream::finish, (stream,), r),
    ensures
        r is Some <==> stream.tool_calls is Some,
        r matches Some(last) ==> last.tool_calls.deep_view() == stream.tool_calls.deep_view()
            && last.response is None && last.tool_call_part is None,
{
}

/// Why arguments cannot be read is told in the words that come with it, and what is meant to be passed on
/// is passed on.
pub proof fn law_unreadable_arguments_are_told(
    r: Result<BackendGenerationResponse, OutsourceError>,
    error: Seq<char>,
    meant: BackendGenerationResponseModel,
)
    ensures
        is_end_result(r, Err(error)) ==> (r matches Err(OutsourceError::Serialization(text)) && text@
            == error),
        is_end_result(r, Ok(Ok(meant))) ==> (r matches Ok(passed) && passed.deep_view() == meant),
{
}

/// The end of a block ends the call that is coming, and is nothing else: without one it passes nothing
/// on. A piece that cannot be read is told, and changes nothing.
pub proof fn law_ends_of_blocks_end_calls(so_far: CallsSoFar, error: OutsourceError, entry: ContentEntryModel)
    ensures
        so_far.pending is None ==> on_event(ReadEventModel::BlockEnd, so_far).0 is None && on_event(
            ReadEventModel::BlockEnd,
            so_far,
        ).1 == so_far,
        so_far.pending is Some && so_far.calls is Some && so_far.calls->0.len() > 0 ==> on_event(
            ReadEventModel::BlockEnd,
            so_far,
        ).1.pending is None,
        on_event(ReadEventModel::Entry(Err(error)), so_far).1 == so_far,
        on_event(ReadEventModel::Entry(Err(error)), so_far).0 == Some(
            Ok::<Result<BackendGenerationResponseModel, OutsourceError>, Seq<char>>(Err(error)),
        ),
        on_event(ReadEventModel::Entry(Ok(entry)), so_far).1 == on_entry(entry, so_far).1,
        on_event(ReadEventModel::Entry(Ok(entry)), so_far).0 == Some(
            Ok::<Result<BackendGenerationResponseModel, OutsourceError>, Seq<char>>(
                on_entry(entry, so_far).0,
            ),
        ),
{
}

/// A text can always be passed on, and so can a call without arguments, or one whose id or name has not
/// come.
pub proof fn law_texts_can_be_passed_on(entry: ContentEntry, r: bool)
    requires
        call_ensures(can_extract_response, (&entry,), r),
    ensures
        entry.entry_type@ != "tool_use"@ ==> r,
        entry.id is None || entry.name is None ==> r,
        entry.input is None ==> r,
{
    let said = entry.deep_view();
    assert(said.entry_type == entry.entry_type@);
    assert(said.id == entry.id.deep_view());
    assert(said.name == entry.name.deep_view());
    assert(said.input == opt_json(entry.input));
}

/// A part of a call is handed on as it is, and nothing with it.
pub proof fn law_parts_of_calls_are_handed_on(part: Seq<char>)
    ensures
        part_response(part).tool_call_part == Some(part),
        part_response(part).response is None && part_response(part).tool_calls is None,
{
}

/// A call that is told at once reads like one whose arguments come in pieces: its opening, its arguments
/// and a closing bracket.
pub proof fn law_whole_call_reads_like_a_streamed_one(call: BackendToolCallModel)
    ensures
        call_text(call) == call_opening(call) + spelled(call.arguments) + "}"@,
        call_opening(call).is_prefix_of(call_text(call)),
{
    assert(call_text(call) =~= call_opening(call) + spelled(call.arguments) + "}"@);
}

/// What was meant is what came out, whether it is a response or an error.
pub proof fn law_errors_are_passed_on(
    r: Result<BackendGenerationResponse, OutsourceError>,
    error: OutsourceError,
    response: BackendGenerationResponseModel,
)
    ensures
        is_result(r, Err(error)) ==> (r matches Err(told) && told == error),
        is_result(r, Ok(response)) ==> (r matches Ok(passed) && passed.deep_view() == response),
{
}

} // verus!
