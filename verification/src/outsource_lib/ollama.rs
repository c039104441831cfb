//! The API of ollama.

use serde_json::Value;
use vstd::prelude::*;
use crate::json::{
    bool_value, json, map_insert, new_map, no_members, null_value, object_value, text_value, Json,
};
use crate::outsource_lib::anthropic::text_or_null;
use crate::protocol::{
    BackendGenerationRequest, BackendGenerationResponse, BackendGenerationResponseModel,
};

verus! {

/// Where requests go if the configuration does not say.
pub const DEFAULT_ENDPOINT: &'static str = "http://127.0.0.1:11434/api/generate";

/// The template that hands the prompt to the model as it is.
pub const TEMPLATE: &'static str = "{{ .Prompt }}";

/// Where requests go.
pub fn request_url(endpoint: Option<&str>) -> (r: &str)
    ensures
        r@ == (match endpoint {
            Some(url) => url@,
            None => DEFAULT_ENDPOINT@,
        }),
{
    match endpoint {
        Some(url) => url,
        None => DEFAULT_ENDPOINT,
    }
}

/// The body of a request. The options stay empty, whatever the parameters of the model.
pub open spec fn body_of(model_name: Seq<char>, prompt: Option<Seq<char>>, stream: bool) -> Json {
    Json::Object(
        no_members().insert("model"@, Json::Text(model_name)).insert("prompt"@, text_or_null(prompt)).insert(
            "template"@,
            Json::Text(TEMPLATE@),
        ).insert("stream"@, Json::Bool(stream)).insert("options"@, Json::Null),
    )
}

/// The body of a request. The options stay empty, whatever the parameters of the model.
pub fn request_body(request: BackendGenerationRequest, model_name: &str, stream: bool) -> (r: Value)
    ensures
        json(r) == body_of(model_name@, request.prompt.deep_view(), stream),
{
    let mut body = new_map();
    map_insert(&mut body, "model".to_owned(), text_value(model_name.to_owned()));
    let prompt = match request.prompt {
        Some(text) => text_value(text),
        None => null_value(),
    };
    map_insert(&mut body, "prompt".to_owned(), prompt);
    map_insert(&mut body, "template".to_owned(), text_value(TEMPLATE.to_owned()));
    map_insert(&mut body, "stream".to_owned(), bool_value(stream));
    map_insert(&mut body, "options".to_owned(), null_value());
    object_value(body)
}

/// The response that the text of a reply, or of a part of one, makes.
pub fn text_response(response: String) -> (r: BackendGenerationResponse)
    ensures
        r.deep_view() == (BackendGenerationResponseModel {
            response: Some(response@),
            tool_call_part: None,
            tool_calls: None,
        }),
{
    BackendGenerationResponse { response: Some(response), tool_call_part: None, tool_calls: None }
}

// ---------------------------------------------------------------------------------------------
// Laws.

/// The body of a request names the model, holds the prompt as it is, and says whether a stream is wanted.
pub proof fn law_body_holds_the_prompt(
    request: BackendGenerationRequest,
    model_name: &str,
    stream: bool,
    r: Value,
)
    requires
        call_ensures(request_body, (request, model_name, stream), r),
    ensures
        json(r).member("model"@) == Some(Json::Text(model_name@)),
        request.prompt matches Some(prompt) ==> json(r).member("prompt"@) == Some(Json::Text(prompt@)),
        request.prompt is None ==> json(r).member("prompt"@) == Some(Json::Null),
        json(r).member("stream"@) == Some(Json::Bool(stream)),
        json(r).member("template"@) == Some(Json::Text("{{ .Prompt }}"@)),
        json(r).member("options"@) == Some(Json::Null),
{
    reveal_strlit("model");
    reveal_strlit("prompt");
    reveal_strlit("template");
    reveal_strlit("stream");
    reveal_strlit("options");
    assert("model"@.len() == 5 && "template"@.len() == 8 && "options"@.len() == 7);
    assert("prompt"@.len() == 6 && "prompt"@[0] == 'p');
    assert("stream"@.len() == 6 && "stream"@[0] == 's');
}

/// A reply is handed on with its text as it is.
pub proof fn law_reply_is_handed_on(response: String, r: BackendGenerationResponse)
    requires
        call_ensures(text_response, (response,), r),
    ensures
        r.response matches Some(text) && text@ == response@,
        r.tool_calls is None && r.tool_call_part is None,
{
    assert(r.deep_view().response == r.response.deep_view());
    assert(r.deep_view().tool_calls == r.tool_calls.deep_view());
    assert(r.deep_view().tool_call_part == r.tool_call_part.deep_view());
}

} // verus!
