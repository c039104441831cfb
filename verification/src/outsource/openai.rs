//! The API of OpenAI: what is asked, and how replies are read.

use serde_json::{Map as JsonMap, Value};
use vstd::prelude::*;
use crate::json::{
    array_value, bool_value, documents, json, map_insert, members, new_map, no_members, object_value,
    text_value, u64_value, Json,
};
use crate::outsource_lib::anthropic::object2;
use crate::outsource_lib::error::OutsourceError;
use crate::outsource_lib::stream::{
    byte_lines, law_lines_do_not_depend_on_pieces, law_pieces_give_the_lines_of_the_whole,
    law_unfinished_line_is_held_back, line_text, lines, lines_of_pieces, rest, text_of, LineBuffer,
};
use crate::outsource_lib::util::{join_url, joined_url};
use crate::proto::{
    BackendGenerationRequest, BackendGenerationRequestModel, Message, MessageModel, MessageRole,
};
use crate::text::{opt_text, starts_with, strip_prefix, texts};

verus! {

/// Where the API is.
pub const OPENAI_API_HOST: &'static str = "https://api.openai.com";

/// Where chats go.
pub const CHAT_COMPLETION_ENDPOINT: &'static str = "/v1/chat/completions";

/// Where texts go.
pub const COMPLETION_ENDPOINT: &'static str = "/v1/completions";

/// The address of a request.
pub fn request_url(is_chat_model: bool) -> (r: Option<String>)
    ensures
        opt_text(r) == joined_url(
            OPENAI_API_HOST@,
            if is_chat_model {
                CHAT_COMPLETION_ENDPOINT@
            } else {
                COMPLETION_ENDPOINT@
            },
        ),
{
    if is_chat_model {
        join_url(OPENAI_API_HOST, CHAT_COMPLETION_ENDPOINT)
    } else {
        join_url(OPENAI_API_HOST, COMPLETION_ENDPOINT)
    }
}

/// A message as it is sent.
pub open spec fn openai_message(message: MessageModel) -> Json {
    object2(
        "role"@,
        Json::Text(message.role.spec_name()),
        "content"@,
        Json::Text(message.content),
    )
}

/// The messages of a chat with the prompt behind them.
pub open spec fn asked_messages(request: BackendGenerationRequestModel) -> Seq<MessageModel> {
    (match request.chat_thread_messages {
        Some(messages) => messages,
        None => Seq::empty(),
    }).push(MessageModel { role: MessageRole::User, content: request.prompt })
}

/// The body of a request.
pub open spec fn body_of(
    request: BackendGenerationRequestModel,
    model_name: Seq<char>,
    is_chat_model: bool,
    should_stream: bool,
) -> Map<Seq<char>, Json> {
    let base = match request.model_parameters {
        Some(m) => m,
        None => no_members(),
    };
    let with_model = base.insert("model"@, Json::Text(model_name)).insert(
        "max_tokens"@,
        Json::Int(request.max_tokens as int),
    );
    let with_prompt = if is_chat_model {
        with_model.insert(
            "messages"@,
            Json::Array(asked_messages(request).map_values(|m: MessageModel| openai_message(m))),
        )
    } else {
        with_model.insert("prompt"@, Json::Text(request.prompt))
    };
    if should_stream {
        with_prompt.insert("stream"@, Json::Bool(true))
    } else {
        with_prompt
    }
}

/// A message as it is sent.
fn openai_message_value(message: &Message) -> (r: Value)
    ensures
        json(r) == openai_message(message.deep_view()),
{
    let mut m = new_map();
    map_insert(&mut m, "role".to_owned(), text_value(message.role.name().to_owned()));
    map_insert(&mut m, "content".to_owned(), text_value(message.content.clone()));
    object_value(m)
}

/// The body of a request.
pub fn request_body(
    request: BackendGenerationRequest,
    model_name: &str,
    is_chat_model: bool,
    should_stream: bool,
) -> (r: JsonMap<String, Value>)
    ensures
        members(r) == body_of(request.deep_view(), model_name@, is_chat_model, should_stream),
{
    let ghost asked = request.deep_view();
    let mut body = match request.model_parameters {
        Some(m) => m,
        None => new_map(),
    };
    map_insert(&mut body, "model".to_owned(), text_value(model_name.to_owned()));
    map_insert(&mut body, "max_tokens".to_owned(), u64_value(request.max_tokens));
    if is_chat_model {
        let mut messages = match request.chat_thread_messages {
            Some(messages) => messages,
            None => Vec::new(),
        };
        let ghost before = messages.deep_view();
        let added = Message { role: MessageRole::User, content: request.prompt };
        let ghost said = added.deep_view();
        messages.push(added);
        let ghost all = asked_messages(asked);
        assert(messages.deep_view() =~= all) by {
            assert(asked.chat_thread_messages is None ==> before =~= Seq::<MessageModel>::empty());
            assert(messages.deep_view() =~= before.push(said));
        }
        let mut values: Vec<Value> = Vec::new();
        let mut i: usize = 0;
        while i < messages.len()
            invariant
                i <= messages@.len(),
                all == messages.deep_view(),
                values@.len() == i,
                forall|k: int| 0 <= k < i ==> json(#[trigger] values@[k]) == openai_message(all[k]),
            decreases messages.len() - i,
        {
            values.push(openai_message_value(&messages[i]));
            assert(json(values@[i as int]) == openai_message(all[i as int]));
            i = i + 1;
        }
        assert(documents(values@) =~= all.map_values(|m: MessageModel| openai_message(m)));
        map_insert(&mut body, "messages".to_owned(), array_value(values));
    } else {
        map_insert(&mut body, "prompt".to_owned(), text_value(request.prompt));
    }
    if should_stream {
        map_insert(&mut body, "stream".to_owned(), bool_value(true));
    }
    body
}

/// The text of a reply, or of a part of one: that of the last choice. A choice is needed; its text
/// may be missing.
pub fn extract_response(choices: Vec<Option<String>>) -> (r: Result<String, OutsourceError>)
    ensures
        if choices@.len() == 0 {
            r == Err::<String, _>(OutsourceError::NoTextInResponse)
        } else {
            r matches Ok(text) && text@ == (match choices@.last() {
                Some(text) => text@,
                None => ""@,
            })
        },
{
    let mut choices = choices;
    match choices.pop() {
        Some(Some(text)) => Ok(text),
        Some(None) => Ok("".to_owned()),
        None => Err(OutsourceError::NoTextInResponse),
    }
}

/// The part of a reply that a line carries, spelled out, if it carries one.
pub open spec fn payload_in(line: Seq<char>) -> Option<Seq<char>> {
    if "data: "@.is_prefix_of(line) && !"[DONE]"@.is_prefix_of(line.skip(6)) {
        Some(line.skip(6))
    } else {
        None
    }
}

/// The part of a reply that a line carries, spelled out, if it carries one.
pub fn line_payload(line: &str) -> (r: Option<String>)
    ensures
        opt_text(r) == payload_in(line@),
{
    proof {
        reveal_strlit("data: ");
    }
    match strip_prefix(line, "data: ") {
        Some(rest) => {
            assert(line@.skip(6) =~= rest@);
            assert("data: "@.is_prefix_of(line@));
            if starts_with(rest.as_str(), "[DONE]") {
                None
            } else {
                Some(rest)
            }
        },
        None => None,
    }
}

/// The parts of a reply that lines carry, spelled out. A line that is no text carries none.
pub open spec fn payloads_in(lines: Seq<Seq<u8>>) -> Seq<Seq<char>>
    decreases lines.len(),
{
    if lines.len() == 0 {
        Seq::empty()
    } else {
        let earlier = payloads_in(lines.drop_last());
        match text_of(lines.last()) {
            Some(line) => match payload_in(line) {
                Some(payload) => earlier.push(payload),
                None => earlier,
            },
            None => earlier,
        }
    }
}

/// Takes up bytes of a reply. Gives the parts, spelled out, that have come.
pub fn payloads_of(buffer: &mut LineBuffer, more: &[u8]) -> (r: Vec<String>)
    ensures
        texts(r@) == payloads_in(lines(old(buffer).bytes@ + more@)),
        final(buffer).bytes@ == rest(old(buffer).bytes@ + more@),
{
    let found = buffer.push(more);
    let ghost all = byte_lines(found@);
    let mut r: Vec<String> = Vec::new();
    let mut i: usize = 0;
    assert(all.take(0) =~= Seq::<Seq<u8>>::empty());
    assert(texts(r@) =~= Seq::<Seq<char>>::empty());
    while i < found.len()
        invariant
            i <= found@.len(),
            all == byte_lines(found@),
            texts(r@) == payloads_in(all.take(i as int)),
        decreases found.len() - i,
    {
        assert(all.take(i + 1).drop_last() =~= all.take(i as int));
        assert(all.take(i + 1).last() == found@[i as int]@);
        if let Some(line) = line_text(found[i].as_slice()) {
            if let Some(payload) = line_payload(line.as_str()) {
                let ghost earlier = texts(r@);
                let ghost said = payload@;
                r.push(payload);
                assert(texts(r@) =~= earlier.push(said));
            }
        }
        i = i + 1;
    }
    assert(all.take(all.len() as int) =~= all);
    r
}

// ---------------------------------------------------------------------------------------------
// Laws.

/// The parts that are given for pieces that come one after the other.
pub open spec fn payloads_of_pieces(pieces: Seq<Seq<u8>>) -> Seq<Seq<char>>
    decreases pieces.len(),
{
    if pieces.len() == 0 {
        Seq::empty()
    } else {
        let held = lines_of_pieces(pieces.drop_last()).1;
        payloads_of_pieces(pieces.drop_last()) + payloads_in(lines(held + pieces.last()))
    }
}

proof fn lemma_payloads_sum(a: Seq<Seq<u8>>, b: Seq<Seq<u8>>)
    ensures
        payloads_in(a + b) == payloads_in(a) + payloads_in(b),
    decreases b.len(),
{
    if b.len() > 0 {
        lemma_payloads_sum(a, b.drop_last());
        assert((a + b).drop_last() =~= a + b.drop_last());
        assert((a + b).last() == b.last());
        assert(payloads_in(a + b) =~= payloads_in(a) + payloads_in(b));
    } else {
        assert(a + b =~= a);
        assert(payloads_in(a) + payloads_in(b) =~= payloads_in(a));
    }
}

/// Whatever the pieces in which a reply comes, its parts are those of the whole; bytes behind the last
/// line break give none.
pub proof fn law_payloads_do_not_depend_on_pieces(pieces: Seq<Seq<u8>>, tail: Seq<u8>)
    requires
        forall|i: int| 0 <= i < tail.len() ==> #[trigger] tail[i] != 10,
    ensures
        payloads_of_pieces(pieces) == payloads_in(lines(pieces.flatten())),
        payloads_of_pieces(pieces.push(tail)) == payloads_of_pieces(pieces),
    decreases pieces.len(),
{
    law_pieces_give_the_lines_of_the_whole(pieces);
    if pieces.len() > 0 {
        law_payloads_do_not_depend_on_pieces(pieces.drop_last(), tail);
        law_pieces_give_the_lines_of_the_whole(pieces.drop_last());
        let held = lines_of_pieces(pieces.drop_last()).1;
        lemma_payloads_sum(lines_of_pieces(pieces.drop_last()).0, lines(held + pieces.last()));
    }
    let held = lines_of_pieces(pieces).1;
    assert(pieces.push(tail).drop_last() =~= pieces);
    law_lines_do_not_depend_on_pieces(pieces.flatten(), tail);
    law_unfinished_line_is_held_back(pieces.flatten(), tail);
    let more = lines(held + tail);
    assert(lines(pieces.flatten()) + more == lines(pieces.flatten()));
    assert(more.len() == 0);
    assert(payloads_of_pieces(pieces) + payloads_in(more) =~= payloads_of_pieces(pieces));
}

/// Every model parameter of a request stands in the body with its value, but where its name is one that
/// the body sets itself; and the body holds nothing else.
pub proof fn law_model_parameters_are_sent(
    request: BackendGenerationRequest,
    model_name: &str,
    is_chat_model: bool,
    should_stream: bool,
    r: JsonMap<String, Value>,
    name: Seq<char>,
)
    requires
        call_ensures(request_body, (request, model_name, is_chat_model, should_stream), r),
        name != "model"@,
        name != "max_tokens"@,
        is_chat_model ==> name != "messages"@,
        !is_chat_model ==> name != "prompt"@,
        should_stream ==> name != "stream"@,
    ensures
        match request.model_parameters {
            Some(given) => members(r).contains_key(name) == members(given).contains_key(name) && (
            members(given).contains_key(name) ==> members(r)[name] == members(given)[name]),
            None => !members(r).contains_key(name),
        },
{
}

/// The body of a request names the model and the number of tokens, and asks for a stream where one is
/// wanted, whatever the model parameters say.
pub proof fn law_body_names_the_model(
    request: BackendGenerationRequest,
    model_name: &str,
    is_chat_model: bool,
    should_stream: bool,
    r: JsonMap<String, Value>,
)
    requires
        call_ensures(request_body, (request, model_name, is_chat_model, should_stream), r),
    ensures
        members(r).contains_key("model"@) && members(r)["model"@] == Json::Text(model_name@),
        members(r).contains_key("max_tokens"@) && members(r)["max_tokens"@] == Json::Int(
            request.max_tokens as int,
        ),
        should_stream ==> members(r).contains_key("stream"@) && members(r)["stream"@] == Json::Bool(
            true,
        ),
        !is_chat_model ==> members(r).contains_key("prompt"@) && members(r)["prompt"@] == Json::Text(
            request.prompt@,
        ),
{
    reveal_strlit("model");
    reveal_strlit("max_tokens");
    reveal_strlit("messages");
    reveal_strlit("prompt");
    reveal_strlit("stream");
    assert("model"@.len() == 5);
    assert("max_tokens"@.len() == 10);
    assert("messages"@.len() == 8);
    assert("prompt"@.len() == 6 && "prompt"@[0] == 'p');
    assert("stream"@.len() == 6 && "stream"@[0] == 's');
}

/// A chat is sent whole and in order: each message of the thread with its role and its text, and then
/// the prompt as a message of the user.
pub proof fn law_chat_is_sent_in_order(
    request: BackendGenerationRequest,
    model_name: &str,
    should_stream: bool,
    r: JsonMap<String, Value>,
)
    requires
        call_ensures(request_body, (request, model_name, true, should_stream), r),
    ensures
        ({
            let thread = match request.chat_thread_messages {
                Some(messages) => messages@,
                None => Seq::empty(),
            };
            &&& members(r).contains_key("messages"@)
            &&& members(r)["messages"@] matches Json::Array(sent)
            &&& sent.len() == thread.len() + 1
            &&& forall|i: int|
                0 <= i < thread.len() ==> {
                    &&& (#[trigger] sent[i]).member("content"@) == Some(Json::Text(thread[i].content@))
                    &&& sent[i].member("role"@) == Some(
                        Json::Text(
                            match thread[i].role {
                                MessageRole::System => "system"@,
                                MessageRole::User => "user"@,
                                MessageRole::Assistant => "assistant"@,
                            },
                        ),
                    )
                }
            &&& sent.last().member("content"@) == Some(Json::Text(request.prompt@))
            &&& sent.last().member("role"@) == Some(Json::Text("user"@))
        }),
{
    reveal_strlit("messages");
    reveal_strlit("stream");
    reveal_strlit("role");
    reveal_strlit("content");
    assert("messages"@.len() == 8);
    assert("stream"@.len() == 6);
    assert("role"@.len() == 4);
    assert("content"@.len() == 7);
    let all = asked_messages(request.deep_view());
    let sent = members(r)["messages"@]->Array_0;
    assert(sent == all.map_values(|m: MessageModel| openai_message(m)));
    assert forall|i: int| 0 <= i < all.len() implies #[trigger] sent[i] == openai_message(all[i]) by {}
    if let Some(messages) = request.chat_thread_messages {
        assert forall|i: int| 0 <= i < messages@.len() implies #[trigger] all[i]
            == messages@[i].deep_view() by {
            assert(request.deep_view().chat_thread_messages == Some(messages.deep_view()));
        }
    }
}

/// The address of a request: the path of chats for a chat model, the path of texts else, at the host of
/// the API.
pub proof fn law_requests_go_to_the_api(is_chat_model: bool, r: Option<String>)
    requires
        call_ensures(request_url, (is_chat_model,), r),
    ensures
        is_chat_model ==> opt_text(r) == joined_url("https://api.openai.com"@, "/v1/chat/completions"@),
        !is_chat_model ==> opt_text(r) == joined_url("https://api.openai.com"@, "/v1/completions"@),
{
}

/// The text of a reply is that of its last choice; a choice without text gives an empty one, and
/// without a choice there is none.
pub proof fn law_last_choice_counts(
    choices: Vec<Option<String>>,
    last: Option<String>,
    r: Result<String, OutsourceError>,
)
    requires
        choices@.len() > 0,
        choices@.last() == last,
        call_ensures(extract_response, (choices,), r),
    ensures
        r matches Ok(text) && (last matches Some(said) ==> text@ == said@) && (last is None ==> text@.len()
            == 0),
{
    reveal_strlit("");
}

/// A line of data carries what stands behind its mark, exactly; the mark of the end and lines without
/// the mark of data carry nothing.
pub proof fn law_data_lines_carry_their_payload(payload: Seq<char>, line: Seq<char>)
    ensures
        !"[DONE]"@.is_prefix_of(payload) ==> payload_in("data: "@ + payload) == Some(payload),
        "[DONE]"@.is_prefix_of(payload) ==> payload_in("data: "@ + payload) is None,
        !"data: "@.is_prefix_of(line) ==> payload_in(line) is None,
{
    reveal_strlit("data: ");
    assert("data: "@.len() == 6);
    assert(("data: "@ + payload).skip(6) =~= payload);
    assert(("data: "@ + payload).take(6) =~= "data: "@);
}

/// Lines of data carry their payloads in order, and other lines between them, such as empty ones,
/// change nothing.
pub proof fn law_payloads_come_in_order(before: Seq<Seq<u8>>, line: Seq<u8>, payload: Seq<char>)
    ensures
        payloads_in(Seq::empty()) == Seq::<Seq<char>>::empty(),
        text_of(line) == Some("data: "@ + payload) && !"[DONE]"@.is_prefix_of(payload) ==> payloads_in(
            before.push(line),
        ) == payloads_in(before).push(payload),
        (text_of(line) matches Some(text) ==> !"data: "@.is_prefix_of(text)) ==> payloads_in(
            before.push(line),
        ) == payloads_in(before),
{
    assert(before.push(line).drop_last() =~= before);
    law_data_lines_carry_their_payload(payload, Seq::empty());
}

} // verus!
