//! The API of Hugging Face.

use serde_json::{Map as JsonMap, Value};
use vstd::prelude::*;
use crate::json::{
    bool_value, json, map_insert, new_map, no_members, object_value, text_value, u64_value, Json,
};
use crate::outsource_lib::util::{join_url, joined_url};
use crate::text::opt_text;

verus! {

/// Where models are hosted.
pub const DEFAULT_HUGGINGFACE_API_HOST: &'static str = "https://api-inference.huggingface.co";

/// Where the models are at the host.
pub const MODELS_ENDPOINT: &'static str = "models/";

/// The address of a model at the host, if its name can be part of one.
pub open spec fn model_url(model_name: Seq<char>) -> Option<Seq<char>> {
    match joined_url(DEFAULT_HUGGINGFACE_API_HOST@, MODELS_ENDPOINT@) {
        Some(models) => joined_url(models, model_name),
        None => None,
    }
}

/// The address of a model at the host, if its name can be part of one.
pub fn hosted_model_url(model_name: &str) -> (r: Option<String>)
    ensures
        opt_text(r) == model_url(model_name@),
{
    match join_url(DEFAULT_HUGGINGFACE_API_HOST, MODELS_ENDPOINT) {
        Some(models) => join_url(models.as_str(), model_name),
        None => None,
    }
}

/// The address of a request: the endpoint of the model, or else the address of the model at the
/// host, if its name can be part of one.
pub fn request_url(model_name: &str, endpoint: Option<String>) -> (r: Option<String>)
    ensures
        match endpoint {
            Some(url) => r == Some(url),
            None => opt_text(r) == model_url(model_name@),
        },
{
    match endpoint {
        Some(url) => Some(url),
        None => hosted_model_url(model_name),
    }
}

/// The body of a request.
pub open spec fn body_of(
    prompt: Seq<char>,
    max_tokens: u64,
    model_parameters: Option<Map<Seq<char>, Json>>,
) -> Json {
    let base = match model_parameters {
        Some(m) => m,
        None => no_members(),
    };
    Json::Object(
        no_members().insert("inputs"@, Json::Text(prompt)).insert(
            "parameters"@,
            Json::Object(
                base.insert("max_new_tokens"@, Json::Int(max_tokens as int)).insert(
                    "return_full_text"@,
                    Json::Bool(false),
                ),
            ),
        ),
    )
}

/// The body of a request.
pub fn request_body(prompt: String, max_tokens: u64, model_parameters: Option<JsonMap<String, Value>>) -> (r:
    Value)
    ensures
        json(r) == body_of(prompt@, max_tokens, crate::json::opt_members(model_parameters)),
{
    let mut parameters = match model_parameters {
        Some(m) => m,
        None => new_map(),
    };
    map_insert(&mut parameters, "max_new_tokens".to_owned(), u64_value(max_tokens));
    map_insert(&mut parameters, "return_full_text".to_owned(), bool_value(false));
    let mut body = new_map();
    map_insert(&mut body, "inputs".to_owned(), text_value(prompt));
    map_insert(&mut body, "parameters".to_owned(), object_value(parameters));
    object_value(body)
}

/// The text of a reply: the last of those that were generated.
pub fn reply_text(generated: Vec<String>) -> (r: String)
    requires
        generated@.len() > 0,
    ensures
        r == generated@.last(),
{
    let mut generated = generated;
    generated.pop().unwrap()
}

// ---------------------------------------------------------------------------------------------
// Laws.

/// The body of a request holds the prompt, and among the parameters every model parameter with its value,
/// but for the number of new tokens and that the prompt is not to be returned, which the body sets.
pub proof fn law_body_holds_prompt_and_parameters(
    prompt: String,
    max_tokens: u64,
    model_parameters: Option<JsonMap<String, Value>>,
    r: Value,
    name: Seq<char>,
)
    requires
        call_ensures(request_body, (prompt, max_tokens, model_parameters), r),
    ensures
        json(r).member("inputs"@) == Some(Json::Text(prompt@)),
        ({
            &&& json(r).member("parameters"@) matches Some(Json::Object(sent))
            &&& sent.contains_key("max_new_tokens"@) && sent["max_new_tokens"@] == Json::Int(
                max_tokens as int,
            )
            &&& sent.contains_key("return_full_text"@) && sent["return_full_text"@] == Json::Bool(false)
            &&& name != "max_new_tokens"@ && name != "return_full_text"@ ==> (match model_parameters {
                Some(given) => sent.contains_key(name) == crate::json::members(given).contains_key(name) && (
                crate::json::members(given).contains_key(name) ==> sent[name] == crate::json::members(
                    given,
                )[name]),
                None => !sent.contains_key(name),
            })
        }),
{
    reveal_strlit("inputs");
    reveal_strlit("parameters");
    reveal_strlit("max_new_tokens");
    reveal_strlit("return_full_text");
    assert("inputs"@.len() == 6 && "parameters"@.len() == 10);
    assert("max_new_tokens"@.len() == 14 && "return_full_text"@.len() == 16);
}

/// A model with an endpoint of its own is asked there, and any other at the host.
pub proof fn law_endpoint_comes_first(model_name: &str, endpoint: Option<String>, r: Option<String>)
    requires
        call_ensures(request_url, (model_name, endpoint), r),
    ensures
        endpoint matches Some(url) ==> (r matches Some(found) && found@ == url@),
        endpoint is None ==> (joined_url("https://api-inference.huggingface.co"@, "models/"@) matches Some(
            models,
        ) ==> opt_text(r) == joined_url(models, model_name@)),
{
}

} // verus!
