//! The messages, tools and requests that the programs exchange.

use serde_json::{Map as JsonMap, Value};
use vstd::prelude::*;
use crate::json::{clone_map, clone_value, json, opt_json, opt_members, Json};

verus! {

/// Who a message comes from.
#[derive(Clone, Copy, Debug, PartialEq, Eq, Structural)]
pub enum MessageRole {
    System,
    User,
    Assistant,
}

impl MessageRole {
    /// The name of the role in JSON.
    pub open spec fn spec_name(self) -> Seq<char> {
        match self {
            MessageRole::System => "system"@,
            MessageRole::User => "user"@,
            MessageRole::Assistant => "assistant"@,
        }
    }

    /// The name of the role in JSON.
    pub fn name(&self) -> (r: &'static str)
        ensures
            r@ == self.spec_name(),
    {
        match self {
            MessageRole::System => "system",
            MessageRole::User => "user",
            MessageRole::Assistant => "assistant",
        }
    }
}

/// How a tool is offered to a model: through the model's own interface, or described in the prompt.
#[derive(Clone, Copy, Debug, PartialEq, Eq, Structural)]
pub enum ToolType {
    Native,
    Text,
}

/// Whose fault an error is.
#[derive(Clone, Copy, Debug, PartialEq, Eq, Structural)]
pub enum ProtocolErrorType {
    Internal,
    BadRequest,
    NotFound,
}

/// A copy of an optional value.
pub fn clone_opt_value(v: &Option<Value>) -> (r: Option<Value>)
    ensures
        opt_json(r) == opt_json(*v),
{
    match v {
        Some(v) => Some(clone_value(v)),
        None => None,
    }
}

/// A copy of an optional object.
pub fn clone_opt_map(m: &Option<JsonMap<String, Value>>) -> (r: Option<JsonMap<String, Value>>)
    ensures
        opt_members(r) == opt_members(*m),
{
    match m {
        Some(m) => Some(clone_map(m)),
        None => None,
    }
}

/// A tool that a client offers.
#[derive(Debug)]
pub struct Tool {
    pub name: String,
    pub description: String,
    pub input_schema: Value,
    pub tool_type: ToolType,
}

/// What a [`Tool`] says.
#[verifier::ext_equal]
pub ghost struct ToolModel {
    pub name: Seq<char>,
    pub description: Seq<char>,
    pub input_schema: Json,
    pub tool_type: ToolType,
}

impl DeepView for Tool {
    type V = ToolModel;

    open spec fn deep_view(&self) -> ToolModel {
        ToolModel {
            name: self.name@,
            description: self.description@,
            input_schema: json(self.input_schema),
            tool_type: self.tool_type,
        }
    }
}

impl Clone for Tool {
    fn clone(&self) -> (r: Self)
        ensures
            r.deep_view() == self.deep_view(),
    {
        Tool {
            name: self.name.clone(),
            description: self.description.clone(),
            input_schema: clone_value(&self.input_schema),
            tool_type: self.tool_type,
        }
    }
}

/// A call of a tool, as clients see it.
#[derive(Debug)]
pub struct ToolCall {
    pub id: Option<String>,
    pub name: String,
    pub client_id: Option<String>,
    pub arguments: Value,
}

/// What a [`ToolCall`] says.
#[verifier::ext_equal]
pub ghost struct ToolCallModel {
    pub id: Option<Seq<char>>,
    pub name: Seq<char>,
    pub client_id: Option<Seq<char>>,
    pub arguments: Json,
}

impl DeepView for ToolCall {
    type V = ToolCallModel;

    open spec fn deep_view(&self) -> ToolCallModel {
        ToolCallModel {
            id: self.id.deep_view(),
            name: self.name@,
            client_id: self.client_id.deep_view(),
            arguments: json(self.arguments),
        }
    }
}

impl Clone for ToolCall {
    fn clone(&self) -> (r: Self)
        ensures
            r.deep_view() == self.deep_view(),
    {
        ToolCall {
            id: self.id.clone(),
            name: self.name.clone(),
            client_id: self.client_id.clone(),
            arguments: clone_value(&self.arguments),
        }
    }
}

/// What came of a call of a tool.
#[derive(Debug)]
pub struct ToolCallResult {
    pub id: String,
    pub result: Option<Value>,
    pub is_fatal_error: bool,
}

/// What a [`ToolCallResult`] says.
#[verifier::ext_equal]
pub ghost struct ToolCallResultModel {
    pub id: Seq<char>,
    pub result: Option<Json>,
    pub is_fatal_error: bool,
}

impl DeepView for ToolCallResult {
    type V = ToolCallResultModel;

    open spec fn deep_view(&self) -> ToolCallResultModel {
        ToolCallResultModel {
            id: self.id@,
            result: opt_json(self.result),
            is_fatal_error: self.is_fatal_error,
        }
    }
}

impl Clone for ToolCallResult {
    fn clone(&self) -> (r: Self)
        ensures
            r.deep_view() == self.deep_view(),
    {
        ToolCallResult {
            id: self.id.clone(),
            result: clone_opt_value(&self.result),
            is_fatal_error: self.is_fatal_error,
        }
    }
}

/// A call of a tool, as a model made it.
#[derive(Debug)]
pub struct BackendToolCall {
    pub id: String,
    pub name: String,
    pub arguments: Value,
}

/// What a [`BackendToolCall`] says.
#[verifier::ext_equal]
pub ghost struct BackendToolCallModel {
    pub id: Seq<char>,
    pub name: Seq<char>,
    pub arguments: Json,
}

impl DeepView for BackendToolCall {
    type V = BackendToolCallModel;

    open spec fn deep_view(&self) -> BackendToolCallModel {
        BackendToolCallModel {
            id: self.id@,
            name: self.name@,
            arguments: json(self.arguments),
        }
    }
}

impl Clone for BackendToolCall {
    fn clone(&self) -> (r: Self)
        ensures
            r.deep_view() == self.deep_view(),
    {
        BackendToolCall {
            id: self.id.clone(),
            name: self.name.clone(),
            arguments: clone_value(&self.arguments),
        }
    }
}

/// A message of a thread.
#[derive(Debug)]
pub struct Message {
    pub client_id: Option<String>,
    pub role: MessageRole,
    pub content: Option<String>,
    pub tool_calls: Option<Vec<ToolCall>>,
    pub tool_call_results: Option<Vec<ToolCallResult>>,
}

/// What a [`Message`] says.
#[verifier::ext_equal]
pub ghost struct MessageModel {
    pub client_id: Option<Seq<char>>,
    pub role: MessageRole,
    pub content: Option<Seq<char>>,
    pub tool_calls: Option<Seq<ToolCallModel>>,
    pub tool_call_results: Option<Seq<ToolCallResultModel>>,
}

impl DeepView for Message {
    type V = MessageModel;

    open spec fn deep_view(&self) -> MessageModel {
        MessageModel {
            client_id: self.client_id.deep_view(),
            role: self.role,
            content: self.content.deep_view(),
            tool_calls: self.tool_calls.deep_view(),
            tool_call_results: self.tool_call_results.deep_view(),
        }
    }
}

impl Clone for Message {
    fn clone(&self) -> (r: Self)
        ensures
            r.deep_view() == self.deep_view(),
    {
        Message {
            client_id: self.client_id.clone(),
            role: self.role,
            content: self.content.clone(),
            tool_calls: self.tool_calls.clone(),
            tool_call_results: self.tool_call_results.clone(),
        }
    }
}

/// A message of a thread, as a backend gets it.
#[derive(Debug)]
pub struct BackendMessage {
    pub role: MessageRole,
    pub content: Option<String>,
    pub tool_calls: Option<Vec<BackendToolCall>>,
    pub tool_call_results: Option<Vec<ToolCallResult>>,
}

/// What a [`BackendMessage`] says.
#[verifier::ext_equal]
pub ghost struct BackendMessageModel {
    pub role: MessageRole,
    pub content: Option<Seq<char>>,
    pub tool_calls: Option<Seq<BackendToolCallModel>>,
    pub tool_call_results: Option<Seq<ToolCallResultModel>>,
}

impl DeepView for BackendMessage {
    type V = BackendMessageModel;

    open spec fn deep_view(&self) -> BackendMessageModel {
        BackendMessageModel {
            role: self.role,
            content: self.content.deep_view(),
            tool_calls: self.tool_calls.deep_view(),
            tool_call_results: self.tool_call_results.deep_view(),
        }
    }
}

impl Clone for BackendMessage {
    fn clone(&self) -> (r: Self)
        ensures
            r.deep_view() == self.deep_view(),
    {
        BackendMessage {
            role: self.role,
            content: self.content.clone(),
            tool_calls: self.tool_calls.clone(),
            tool_call_results: self.tool_call_results.clone(),
        }
    }
}

/// What a preset and a request say on how to generate.
#[derive(Debug)]
pub struct GenerationParameters {
    pub model: Option<String>,
    pub prompt_template_id: Option<String>,
    pub custom_prompt_template: Option<String>,
    pub max_tokens: Option<u64>,
    pub model_parameters: Option<JsonMap<String, Value>>,
    pub prompt_parameters: Option<Value>,
}

/// What a [`GenerationParameters`] says.
#[verifier::ext_equal]
pub ghost struct GenerationParametersModel {
    pub model: Option<Seq<char>>,
    pub prompt_template_id: Option<Seq<char>>,
    pub custom_prompt_template: Option<Seq<char>>,
    pub max_tokens: Option<u64>,
    pub model_parameters: Option<Map<Seq<char>, Json>>,
    pub prompt_parameters: Option<Json>,
}

impl DeepView for GenerationParameters {
    type V = GenerationParametersModel;

    open spec fn deep_view(&self) -> GenerationParametersModel {
        GenerationParametersModel {
            model: self.model.deep_view(),
            prompt_template_id: self.prompt_template_id.deep_view(),
            custom_prompt_template: self.custom_prompt_template.deep_view(),
            max_tokens: self.max_tokens,
            model_parameters: opt_members(self.model_parameters),
            prompt_parameters: opt_json(self.prompt_parameters),
        }
    }
}

impl Clone for GenerationParameters {
    fn clone(&self) -> (r: Self)
        ensures
            r.deep_view() == self.deep_view(),
    {
        GenerationParameters {
            model: self.model.clone(),
            prompt_template_id: self.prompt_template_id.clone(),
            custom_prompt_template: self.custom_prompt_template.clone(),
            max_tokens: self.max_tokens,
            model_parameters: clone_opt_map(&self.model_parameters),
            prompt_parameters: clone_opt_value(&self.prompt_parameters),
        }
    }
}

impl Default for GenerationParameters {
    fn default() -> (r: Self)
        ensures
            r.deep_view() == GenerationParametersModel::none(),
    {
        GenerationParameters {
            model: None,
            prompt_template_id: None,
            custom_prompt_template: None,
            max_tokens: None,
            model_parameters: None,
            prompt_parameters: None,
        }
    }
}

impl GenerationParametersModel {
    /// Parameters that say nothing.
    pub open spec fn none() -> Self {
        GenerationParametersModel {
            model: None,
            prompt_template_id: None,
            custom_prompt_template: None,
            max_tokens: None,
            model_parameters: None,
            prompt_parameters: None,
        }
    }
}

/// A request to generate, as a client makes it.
#[derive(Debug)]
pub struct GenerationRequest {
    pub preset_id: Option<String>,
    pub parameters: Option<GenerationParameters>,
    pub custom_prompt: Option<String>,
    pub existing_thread_id: Option<String>,
    pub session_id: Option<String>,
    pub session_tag: Option<String>,
    pub save_thread: bool,
    pub client_id: Option<String>,
}

/// What a [`GenerationRequest`] says.
#[verifier::ext_equal]
pub ghost struct GenerationRequestModel {
    pub preset_id: Option<Seq<char>>,
    pub parameters: Option<GenerationParametersModel>,
    pub custom_prompt: Option<Seq<char>>,
    pub existing_thread_id: Option<Seq<char>>,
    pub session_id: Option<Seq<char>>,
    pub session_tag: Option<Seq<char>>,
    pub save_thread: bool,
    pub client_id: Option<Seq<char>>,
}

impl DeepView for GenerationRequest {
    type V = GenerationRequestModel;

    open spec fn deep_view(&self) -> GenerationRequestModel {
        GenerationRequestModel {
            preset_id: self.preset_id.deep_view(),
            parameters: self.parameters.deep_view(),
            custom_prompt: self.custom_prompt.deep_view(),
            existing_thread_id: self.existing_thread_id.deep_view(),
            session_id: self.session_id.deep_view(),
            session_tag: self.session_tag.deep_view(),
            save_thread: self.save_thread,
            client_id: self.client_id.deep_view(),
        }
    }
}

impl Clone for GenerationRequest {
    fn clone(&self) -> (r: Self)
        ensures
            r.deep_view() == self.deep_view(),
    {
        GenerationRequest {
            preset_id: self.preset_id.clone(),
            parameters: self.parameters.clone(),
            custom_prompt: self.custom_prompt.clone(),
            existing_thread_id: self.existing_thread_id.clone(),
            session_id: self.session_id.clone(),
            session_tag: self.session_tag.clone(),
            save_thread: self.save_thread,
            client_id: self.client_id.clone(),
        }
    }
}

/// What a client gets back.
#[derive(Debug)]
pub struct GenerationResponse {
    pub response: Option<String>,
    pub tool_call_part: Option<String>,
    pub thread_id: Option<String>,
    pub tool_calls: Option<Vec<ToolCall>>,
}

/// What a [`GenerationResponse`] says.
#[verifier::ext_equal]
pub ghost struct GenerationResponseModel {
    pub response: Option<Seq<char>>,
    pub tool_call_part: Option<Seq<char>>,
    pub thread_id: Option<Seq<char>>,
    pub tool_calls: Option<Seq<ToolCallModel>>,
}

impl DeepView for GenerationResponse {
    type V = GenerationResponseModel;

    open spec fn deep_view(&self) -> GenerationResponseModel {
        GenerationResponseModel {
            response: self.response.deep_view(),
            tool_call_part: self.tool_call_part.deep_view(),
            thread_id: self.thread_id.deep_view(),
            tool_calls: self.tool_calls.deep_view(),
        }
    }
}

impl Clone for GenerationResponse {
    fn clone(&self) -> (r: Self)
        ensures
            r.deep_view() == self.deep_view(),
    {
        GenerationResponse {
            response: self.response.clone(),
            tool_call_part: self.tool_call_part.clone(),
            thread_id: self.thread_id.clone(),
            tool_calls: self.tool_calls.clone(),
        }
    }
}

/// A request to generate, as a backend gets it. The tools come in the JSON form in which they are
/// passed on.
#[derive(Debug)]
pub struct BackendGenerationRequest {
    pub model: String,
    pub prompt: Option<String>,
    pub max_tokens: u64,
    pub thread_messages: Option<Vec<BackendMessage>>,
    pub model_parameters: Option<JsonMap<String, Value>>,
    pub tools: Option<Value>,
    pub tool_call_results: Option<Vec<ToolCallResult>>,
}

/// What a [`BackendGenerationRequest`] says.
#[verifier::ext_equal]
pub ghost struct BackendGenerationRequestModel {
    pub model: Seq<char>,
    pub prompt: Option<Seq<char>>,
    pub max_tokens: u64,
    pub thread_messages: Option<Seq<BackendMessageModel>>,
    pub model_parameters: Option<Map<Seq<char>, Json>>,
    pub tools: Option<Json>,
    pub tool_call_results: Option<Seq<ToolCallResultModel>>,
}

impl DeepView for BackendGenerationRequest {
    type V = BackendGenerationRequestModel;

    open spec fn deep_view(&self) -> BackendGenerationRequestModel {
        BackendGenerationRequestModel {
            model: self.model@,
            prompt: self.prompt.deep_view(),
            max_tokens: self.max_tokens,
            thread_messages: self.thread_messages.deep_view(),
            model_parameters: opt_members(self.model_parameters),
            tools: opt_json(self.tools),
            tool_call_results: self.tool_call_results.deep_view(),
        }
    }
}

impl Clone for BackendGenerationRequest {
    fn clone(&self) -> (r: Self)
        ensures
            r.deep_view() == self.deep_view(),
    {
        BackendGenerationRequest {
            model: self.model.clone(),
            prompt: self.prompt.clone(),
            max_tokens: self.max_tokens,
            thread_messages: self.thread_messages.clone(),
            model_parameters: clone_opt_map(&self.model_parameters),
            tools: clone_opt_value(&self.tools),
            tool_call_results: self.tool_call_results.clone(),
        }
    }
}

/// What a backend generated.
#[derive(Debug)]
pub struct BackendGenerationResponse {
    pub response: Option<String>,
    pub tool_call_part: Option<String>,
    pub tool_calls: Option<Vec<BackendToolCall>>,
}

/// What a [`BackendGenerationResponse`] says.
#[verifier::ext_equal]
pub ghost struct BackendGenerationResponseModel {
    pub response: Option<Seq<char>>,
    pub tool_call_part: Option<Seq<char>>,
    pub tool_calls: Option<Seq<BackendToolCallModel>>,
}

impl DeepView for BackendGenerationResponse {
    type V = BackendGenerationResponseModel;

    open spec fn deep_view(&self) -> BackendGenerationResponseModel {
        BackendGenerationResponseModel {
            response: self.response.deep_view(),
            tool_call_part: self.tool_call_part.deep_view(),
            tool_calls: self.tool_calls.deep_view(),
        }
    }
}

impl Clone for BackendGenerationResponse {
    fn clone(&self) -> (r: Self)
        ensures
            r.deep_view() == self.deep_view(),
    {
        BackendGenerationResponse {
            response: self.response.clone(),
            tool_call_part: self.tool_call_part.clone(),
            tool_calls: self.tool_calls.clone(),
        }
    }
}

/// A model by its parts: the backend that runs it, the provider and the name there, with the custom
/// endpoint where one is given, and whether it holds a conversation.
#[derive(Debug)]
pub struct ModelDescription {
    pub backend: String,
    pub provider: String,
    pub model_name: String,
    pub endpoint: Option<String>,
    pub chat: bool,
}

/// What a [`ModelDescription`] says.
#[verifier::ext_equal]
pub ghost struct ModelDescriptionModel {
    pub backend: Seq<char>,
    pub provider: Seq<char>,
    pub model_name: Seq<char>,
    pub endpoint: Option<Seq<char>>,
    pub chat: bool,
}

impl DeepView for ModelDescription {
    type V = ModelDescriptionModel;

    open spec fn deep_view(&self) -> ModelDescriptionModel {
        ModelDescriptionModel {
            backend: self.backend@,
            provider: self.provider@,
            model_name: self.model_name@,
            endpoint: self.endpoint.deep_view(),
            chat: self.chat,
        }
    }
}

impl Clone for ModelDescription {
    fn clone(&self) -> (r: Self)
        ensures
            r.deep_view() == self.deep_view(),
    {
        ModelDescription {
            backend: self.backend.clone(),
            provider: self.provider.clone(),
            model_name: self.model_name.clone(),
            endpoint: self.endpoint.clone(),
            chat: self.chat,
        }
    }
}

/// Which thread to read.
#[derive(Debug)]
pub struct GetThreadMessagesRequest {
    pub thread_id: Option<String>,
    pub session_id: Option<String>,
    pub session_tag: Option<String>,
}

/// What a [`GetThreadMessagesRequest`] says.
#[verifier::ext_equal]
pub ghost struct GetThreadMessagesRequestModel {
    pub thread_id: Option<Seq<char>>,
    pub session_id: Option<Seq<char>>,
    pub session_tag: Option<Seq<char>>,
}

impl DeepView for GetThreadMessagesRequest {
    type V = GetThreadMessagesRequestModel;

    open spec fn deep_view(&self) -> GetThreadMessagesRequestModel {
        GetThreadMessagesRequestModel {
            thread_id: self.thread_id.deep_view(),
            session_id: self.session_id.deep_view(),
            session_tag: self.session_tag.deep_view(),
        }
    }
}

impl Clone for GetThreadMessagesRequest {
    fn clone(&self) -> (r: Self)
        ensures
            r.deep_view() == self.deep_view(),
    {
        GetThreadMessagesRequest {
            thread_id: self.thread_id.clone(),
            session_id: self.session_id.clone(),
            session_tag: self.session_tag.clone(),
        }
    }
}

/// Which thread to follow, by whom and with which tools.
#[derive(Debug)]
pub struct SubscribeToThreadRequest {
    pub thread_id: Option<String>,
    pub session_id: Option<String>,
    pub session_tag: Option<String>,
    pub client_id: String,
    pub tools: Option<Vec<Tool>>,
}

/// What a [`SubscribeToThreadRequest`] says.
#[verifier::ext_equal]
pub ghost struct SubscribeToThreadRequestModel {
    pub thread_id: Option<Seq<char>>,
    pub session_id: Option<Seq<char>>,
    pub session_tag: Option<Seq<char>>,
    pub client_id: Seq<char>,
    pub tools: Option<Seq<ToolModel>>,
}

impl DeepView for SubscribeToThreadRequest {
    type V = SubscribeToThreadRequestModel;

    open spec fn deep_view(&self) -> SubscribeToThreadRequestModel {
        SubscribeToThreadRequestModel {
            thread_id: self.thread_id.deep_view(),
            session_id: self.session_id.deep_view(),
            session_tag: self.session_tag.deep_view(),
            client_id: self.client_id@,
            tools: self.tools.deep_view(),
        }
    }
}

impl Clone for SubscribeToThreadRequest {
    fn clone(&self) -> (r: Self)
        ensures
            r.deep_view() == self.deep_view(),
    {
        SubscribeToThreadRequest {
            thread_id: self.thread_id.clone(),
            session_id: self.session_id.clone(),
            session_tag: self.session_tag.clone(),
            client_id: self.client_id.clone(),
            tools: self.tools.clone(),
        }
    }
}

/// What came of the calls of tools, for the thread of a session.
#[derive(Debug)]
pub struct StoreToolCallResultsRequest {
    pub session_id: String,
    pub session_tag: String,
    pub client_id: String,
    pub results: Vec<ToolCallResult>,
}

/// What a [`StoreToolCallResultsRequest`] says.
#[verifier::ext_equal]
pub ghost struct StoreToolCallResultsRequestModel {
    pub session_id: Seq<char>,
    pub session_tag: Seq<char>,
    pub client_id: Seq<char>,
    pub results: Seq<ToolCallResultModel>,
}

impl DeepView for StoreToolCallResultsRequest {
    type V = StoreToolCallResultsRequestModel;

    open spec fn deep_view(&self) -> StoreToolCallResultsRequestModel {
        StoreToolCallResultsRequestModel {
            session_id: self.session_id@,
            session_tag: self.session_tag@,
            client_id: self.client_id@,
            results: self.results.deep_view(),
        }
    }
}

/// A prompt parameter that a client keeps in a session.
#[derive(Debug)]
pub struct SessionPromptParameter {
    pub persistent: bool,
    pub value: Value,
}

/// What a [`SessionPromptParameter`] says.
#[verifier::ext_equal]
pub ghost struct SessionPromptParameterModel {
    pub persistent: bool,
    pub value: Json,
}

impl DeepView for SessionPromptParameter {
    type V = SessionPromptParameterModel;

    open spec fn deep_view(&self) -> SessionPromptParameterModel {
        SessionPromptParameterModel {
            persistent: self.persistent,
            value: json(self.value),
        }
    }
}

impl Clone for SessionPromptParameter {
    fn clone(&self) -> (r: Self)
        ensures
            r.deep_view() == self.deep_view(),
    {
        SessionPromptParameter {
            persistent: self.persistent,
            value: clone_value(&self.value),
        }
    }
}

impl ModelDescription {
    /// Whether the model holds a conversation.
    pub fn is_chat_model(&self) -> (r: bool)
        ensures
            r == self.deep_view().chat,
    {
        self.chat
    }
}

} // verus!
