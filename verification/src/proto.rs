//! Requests and messages of text alone.

use serde_json::{Map as JsonMap, Value};
use vstd::prelude::*;
use crate::json::{opt_members, Json};
use crate::protocol::clone_opt_map;

verus! {

/// Who a message comes from.
#[derive(Clone, Copy, Debug, PartialEq, Eq, Structural)]
pub enum MessageRole {
    System,
    User,
    Assistant,
}

impl MessageRole {
    /// The name of the role in JSON.
    pub open spec fn spec_name(self) -> Seq<char> {
        match self {
            MessageRole::System => "system"@,
            MessageRole::User => "user"@,
            MessageRole::Assistant => "assistant"@,
        }
    }

    /// The name of the role in JSON.
    pub fn name(&self) -> (r: &'static str)
        ensures
            r@ == self.spec_name(),
    {
        match self {
            MessageRole::System => "system",
            MessageRole::User => "user",
            MessageRole::Assistant => "assistant",
        }
    }
}

/// A message of text.
#[derive(Debug)]
pub struct Message {
    pub role: MessageRole,
    pub content: String,
}

/// What a [`Message`] says.
#[verifier::ext_equal]
pub ghost struct MessageModel {
    pub role: MessageRole,
    pub content: Seq<char>,
}

impl DeepView for Message {
    type V = MessageModel;

    open spec fn deep_view(&self) -> MessageModel {
        MessageModel {
            role: self.role,
            content: self.content@,
        }
    }
}

impl Clone for Message {
    fn clone(&self) -> (r: Self)
        ensures
            r.deep_view() == self.deep_view(),
    {
        Message {
            role: self.role,
            content: self.content.clone(),
        }
    }
}

/// What a backend is asked.
#[derive(Debug)]
pub struct BackendGenerationRequest {
    pub model: String,
    pub prompt: String,
    pub max_tokens: u64,
    pub chat_thread_messages: Option<Vec<Message>>,
    pub model_parameters: Option<JsonMap<String, Value>>,
}

/// What a [`BackendGenerationRequest`] says.
#[verifier::ext_equal]
pub ghost struct BackendGenerationRequestModel {
    pub model: Seq<char>,
    pub prompt: Seq<char>,
    pub max_tokens: u64,
    pub chat_thread_messages: Option<Seq<MessageModel>>,
    pub model_parameters: Option<Map<Seq<char>, Json>>,
}

impl DeepView for BackendGenerationRequest {
    type V = BackendGenerationRequestModel;

    open spec fn deep_view(&self) -> BackendGenerationRequestModel {
        BackendGenerationRequestModel {
            model: self.model@,
            prompt: self.prompt@,
            max_tokens: self.max_tokens,
            chat_thread_messages: self.chat_thread_messages.deep_view(),
            model_parameters: opt_members(self.model_parameters),
        }
    }
}

impl Clone for BackendGenerationRequest {
    fn clone(&self) -> (r: Self)
        ensures
            r.deep_view() == self.deep_view(),
    {
        BackendGenerationRequest {
            model: self.model.clone(),
            prompt: self.prompt.clone(),
            max_tokens: self.max_tokens,
            chat_thread_messages: self.chat_thread_messages.clone(),
            model_parameters: clone_opt_map(&self.model_parameters),
        }
    }
}

/// What a backend replies.
#[derive(Debug)]
pub struct BackendGenerationResponse {
    pub response: String,
}

/// What a [`BackendGenerationResponse`] says.
#[verifier::ext_equal]
pub ghost struct BackendGenerationResponseModel {
    pub response: Seq<char>,
}

impl DeepView for BackendGenerationResponse {
    type V = BackendGenerationResponseModel;

    open spec fn deep_view(&self) -> BackendGenerationResponseModel {
        BackendGenerationResponseModel {
            response: self.response@,
        }
    }
}

impl Clone for BackendGenerationResponse {
    fn clone(&self) -> (r: Self)
        ensures
            r.deep_view() == self.deep_view(),
    {
        BackendGenerationResponse {
            response: self.response.clone(),
        }
    }
}


/// A parameter of a prompt.
#[derive(Debug)]
pub struct PromptParameter {
    pub name: String,
    pub value: String,
}

/// What the core is asked.
#[derive(Debug)]
pub struct GenerationRequest {
    pub backend: String,
    pub model: String,
    pub prompt_id: Option<String>,
    pub custom_prompt: Option<String>,
    /// The parameters; no name stands twice.
    pub prompt_parameters: Option<Vec<PromptParameter>>,
    pub existing_thread_id: Option<i64>,
    pub save_thread: bool,
}

/// What the core replies.
#[derive(Debug)]
pub struct GenerationResponse {
    pub response: String,
    pub thread_id: Option<i64>,
}

} // verus!
