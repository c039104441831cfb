//! The course of a generation: from a request to what a backend is asked, and from the reply of the
//! backend to a response.

use serde_json::{Map as JsonMap, Value};
use vstd::prelude::*;
use crate::core_lib::error::{CoreError, RequiredParameter, ToolCallFault};
use crate::core_lib::prompts::{
    is_render_error_text, ready_prompt, rendered, system_text, ReadyPrompt, ReadyPromptModel,
    SYSTEM_ROLE_HELPER,
};
use crate::core_lib::sessions::{
    get_session_prompt_parameters, session_parameters, try_session_prompt_parameters,
    SessionSubscriberInfo, SessionSubscriberInfoModel,
};
use crate::core_lib::templates::{is_sure_to_end, surely_ends};
use crate::core_lib::threads::thread_with_reply;
use crate::core_lib::tools::{
    all_known, all_text_tool_parameters, all_with_offered_names, backend_tool_calls_to_tool_calls,
    calls_in, client_calls, distinct, generate_native_tools_from_subscribers,
    generate_text_tools_prompt_parameters, inject_client_id_into_tools, members_of, offered_tools,
    opt_infos, properties_of, text_tool_parameters, try_extract_text_tool_calls, PendingCallModel,
    TextCallsModel, TextToolPromptParameters, TextToolPromptParametersModel, ToolCallHelper,
};
use crate::json::{
    array_value, as_object, clone_map, clone_value, documents, is_empty_map, is_null, json,
    map_extend, map_insert, members, new_map, no_members, object_value, opt_json, opt_members,
    text_value, Json,
};
use crate::protocol::{
    BackendToolCall, BackendToolCallModel, GenerationParameters, GenerationParametersModel,
    GenerationRequest, GenerationResponse, GenerationResponseModel, GetThreadMessagesRequest,
    GetThreadMessagesRequestModel, Message, MessageModel, MessageRole, ModelDescription, Tool,
    ToolCall, ToolCallModel, ToolCallResult, ToolCallResultModel, ToolModel, ToolType,
};
use crate::text::texts;

verus! {

/// The prompt parameter that holds the descriptions of the tools whose calls stand in the text.
pub const TEXT_TOOLS_PARAM_NAME: &'static str = "text_tools";

/// How many tokens a reply may have where the request does not say.
pub const DEFAULT_MAX_TOKENS: u64 = 2048;

// ---------------------------------------------------------------------------------------------
// Parameters.

/// The first where there is one, else the second.
pub open spec fn or_else<T>(a: Option<T>, b: Option<T>) -> Option<T> {
    match a {
        Some(_) => a,
        None => b,
    }
}

/// The first where there is one, else the second.
fn first_of<T>(a: Option<T>, b: Option<T>) -> (r: Option<T>)
    ensures
        r == or_else(a, b),
{
    match a {
        Some(_) => a,
        None => b,
    }
}

/// The parameters of a preset where the request does not set them. The model parameters are taken
/// together, and those of the request count where both set one.
pub open spec fn merged(
    preset: GenerationParametersModel,
    request: GenerationParametersModel,
) -> GenerationParametersModel {
    GenerationParametersModel {
        model: or_else(request.model, preset.model),
        prompt_template_id: or_else(request.prompt_template_id, preset.prompt_template_id),
        custom_prompt_template: or_else(
            request.custom_prompt_template,
            preset.custom_prompt_template,
        ),
        max_tokens: or_else(request.max_tokens, preset.max_tokens),
        model_parameters: match (preset.model_parameters, request.model_parameters) {
            (Some(p), Some(r)) => Some(p.union_prefer_right(r)),
            (p, r) => or_else(r, p),
        },
        prompt_parameters: or_else(request.prompt_parameters, preset.prompt_parameters),
    }
}

/// The parameters of a preset where the request does not set them.
pub fn merge_generation_parameters(
    preset_parameters: GenerationParameters,
    request_parameters: GenerationParameters,
) -> (r: GenerationParameters)
    ensures
        r.deep_view() == merged(preset_parameters.deep_view(), request_parameters.deep_view()),
{
    GenerationParameters {
        model: first_of(request_parameters.model, preset_parameters.model),
        prompt_template_id: first_of(
            request_parameters.prompt_template_id,
            preset_parameters.prompt_template_id,
        ),
        custom_prompt_template: first_of(
            request_parameters.custom_prompt_template,
            preset_parameters.custom_prompt_template,
        ),
        max_tokens: first_of(request_parameters.max_tokens, preset_parameters.max_tokens),
        model_parameters: match (
            preset_parameters.model_parameters,
            request_parameters.model_parameters,
        ) {
            (Some(mut parameters), Some(more)) => {
                map_extend(&mut parameters, more);
                Some(parameters)
            },
            (Some(parameters), None) => Some(parameters),
            (None, more) => more,
        },
        prompt_parameters: first_of(
            request_parameters.prompt_parameters,
            preset_parameters.prompt_parameters,
        ),
    }
}

/// The parameters of a generation: those of the request, over those of the preset where there is
/// one.
pub open spec fn chosen_parameters(
    preset: Option<GenerationParametersModel>,
    request: Option<GenerationParametersModel>,
) -> Option<GenerationParametersModel> {
    match (preset, request) {
        (Some(p), Some(r)) => Some(merged(p, r)),
        (Some(p), None) => Some(p),
        (None, r) => r,
    }
}

/// The parameters with the number of tokens that holds where none is set.
pub open spec fn with_default_tokens(parameters: GenerationParametersModel) -> GenerationParametersModel {
    GenerationParametersModel {
        max_tokens: or_else(parameters.max_tokens, Some(DEFAULT_MAX_TOKENS)),
        ..parameters
    }
}

/// The parameters of a generation, with the model. The preset is the one that the request names.
pub fn resolve_parameters(request: &GenerationRequest, preset: Option<GenerationParameters>) -> (r: Result<
    (GenerationParameters, String),
    CoreError,
>)
    ensures
        match chosen_parameters(preset.deep_view(), request.parameters.deep_view()) {
            None => r == Err::<(GenerationParameters, String), _>(CoreError::MissingParameters),
            Some(parameters) => match parameters.model {
                None => r == Err::<(GenerationParameters, String), _>(
                    CoreError::MissingParameter(RequiredParameter::Model),
                ),
                Some(model) => r matches Ok(found) && found.0.deep_view() == with_default_tokens(
                    parameters,
                ) && found.1@ == model,
            },
        },
{
    let mut parameters = match preset {
        Some(preset) => match request.parameters.clone() {
            Some(request_parameters) => merge_generation_parameters(preset, request_parameters),
            None => preset,
        },
        None => match request.parameters.clone() {
            Some(parameters) => parameters,
            None => {
                return Err(CoreError::MissingParameters);
            },
        },
    };
    if parameters.max_tokens.is_none() {
        parameters.max_tokens = Some(DEFAULT_MAX_TOKENS);
    }
    match parameters.model.clone() {
        Some(model) => Ok((parameters, model)),
        None => Err(CoreError::MissingParameter(RequiredParameter::Model)),
    }
}

/// The session of a request, if it names one with its tag.
pub fn session_of(request: &GenerationRequest) -> (r: Option<(String, String)>)
    ensures
        match (request.session_id, request.session_tag) {
            (Some(id), Some(tag)) => r matches Some(session) && session.0@ == id@ && session.1@ == tag@,
            _ => r is None,
        },
{
    match (&request.session_id, &request.session_tag) {
        (Some(id), Some(tag)) => Some((id.clone(), tag.clone())),
        _ => None,
    }
}

/// The thread that a request goes on with, if it goes on with one.
pub fn thread_of(request: &GenerationRequest) -> (r: Option<GetThreadMessagesRequest>)
    ensures
        r is Some <==> (request.existing_thread_id is Some || request.session_id is Some),
        r matches Some(wanted) ==> wanted.deep_view() == (GetThreadMessagesRequestModel {
            thread_id: request.existing_thread_id.deep_view(),
            session_id: request.session_id.deep_view(),
            session_tag: request.session_tag.deep_view(),
        }),
{
    if request.existing_thread_id.is_some() || request.session_id.is_some() {
        Some(
            GetThreadMessagesRequest {
                thread_id: request.existing_thread_id.clone(),
                session_id: request.session_id.clone(),
                session_tag: request.session_tag.clone(),
            },
        )
    } else {
        None
    }
}

// ---------------------------------------------------------------------------------------------
// The prompt.

/// A text in JSON, for each of the texts.
pub open spec fn text_documents(s: Seq<Seq<char>>) -> Seq<Json> {
    s.map_values(|t: Seq<char>| Json::Text(t))
}

/// What a prompt says of a tool, as an object.
pub open spec fn text_tool_object(parameters: TextToolPromptParametersModel) -> Json {
    Json::Object(
        no_members().insert("name"@, Json::Text(parameters.name)).insert(
            "description"@,
            Json::Text(parameters.description),
        ).insert("arguments"@, Json::Array(text_documents(parameters.arguments))).insert(
            "usage_format"@,
            Json::Text(parameters.usage_format),
        ),
    )
}

/// What a prompt says of the tools, as an array.
pub open spec fn text_tool_array(parameters: Seq<TextToolPromptParametersModel>) -> Json {
    Json::Array(parameters.map_values(|p: TextToolPromptParametersModel| text_tool_object(p)))
}

/// The texts as values.
fn text_values(s: &Vec<String>) -> (r: Vec<Value>)
    ensures
        documents(r@) == text_documents(texts(s@)),
{
    let mut r: Vec<Value> = Vec::new();
    let mut i: usize = 0;
    while i < s.len()
        invariant
            i <= s@.len(),
            r@.len() == i,
            forall|k: int| 0 <= k < i ==> json(#[trigger] r@[k]) == Json::Text(s@[k]@),
        decreases s.len() - i,
    {
        r.push(text_value(s[i].clone()));
        i = i + 1;
    }
    assert(documents(r@) =~= text_documents(texts(s@)));
    r
}

/// What a prompt says of the tools, as a value.
fn text_tools_value(parameters: &Vec<TextToolPromptParameters>) -> (r: Value)
    ensures
        json(r) == text_tool_array(parameters.deep_view()),
{
    let ghost all = parameters.deep_view();
    let mut tools: Vec<Value> = Vec::new();
    let mut i: usize = 0;
    while i < parameters.len()
        invariant
            i <= parameters@.len(),
            all == parameters.deep_view(),
            tools@.len() == i,
            forall|k: int| 0 <= k < i ==> json(#[trigger] tools@[k]) == text_tool_object(all[k]),
        decreases parameters.len() - i,
    {
        let mut object = new_map();
        map_insert(&mut object, "name".to_owned(), text_value(parameters[i].name.clone()));
        map_insert(
            &mut object,
            "description".to_owned(),
            text_value(parameters[i].description.clone()),
        );
        map_insert(
            &mut object,
            "arguments".to_owned(),
            array_value(text_values(&parameters[i].arguments)),
        );
        map_insert(
            &mut object,
            "usage_format".to_owned(),
            text_value(parameters[i].usage_format.clone()),
        );
        tools.push(object_value(object));
        assert(json(tools@[i as int]) == text_tool_object(all[i as int]));
        i = i + 1;
    }
    assert(documents(tools@) =~= all.map_values(
        |p: TextToolPromptParametersModel| text_tool_object(p),
    ));
    array_value(tools)
}

/// Whether a prompt has tools to describe.
pub open spec fn has_text_tools(infos: Seq<SessionSubscriberInfoModel>) -> bool {
    let tools = offered_tools(infos, ToolType::Text);
    exists|i: int|
        0 <= i < tools.len() && properties_of((#[trigger] tools[i]).input_schema) is Some
}

/// Whether what the subscribers give can be added to the prompt parameters: the names of their
/// parameters do not get in each other's way, and where there is something to add, the prompt
/// parameters can take it.
pub open spec fn fits_session(parameters: Json, infos: Seq<SessionSubscriberInfoModel>) -> bool {
    &&& session_parameters(infos) is Some
    &&& has_text_tools(infos) ==> parameters is Object || parameters is Null
    &&& session_parameters(infos) != Some(no_members()) ==> parameters is Object || (parameters is Null
        && has_text_tools(infos))
}

/// The prompt parameters with what the subscribers give.
pub open spec fn with_session(parameters: Json, infos: Seq<SessionSubscriberInfoModel>) -> Json {
    let described = all_text_tool_parameters(offered_tools(infos, ToolType::Text));
    let with_tools = if described.len() > 0 {
        Json::Object(members_of(parameters).insert(TEXT_TOOLS_PARAM_NAME@, text_tool_array(described)))
    } else {
        parameters
    };
    let session = session_parameters(infos)->0;
    if session == no_members() {
        with_tools
    } else {
        Json::Object(members_of(with_tools).union_prefer_right(session))
    }
}

proof fn lemma_described(tools: Seq<ToolModel>)
    ensures
        all_text_tool_parameters(tools).len() > 0 <==> exists|i: int|
            0 <= i < tools.len() && properties_of((#[trigger] tools[i]).input_schema) is Some,
    decreases tools.len(),
{
    if tools.len() > 0 {
        let rest = tools.drop_last();
        lemma_described(rest);
        assert(text_tool_parameters(tools.last()) is Some <==> properties_of(tools.last().input_schema) is Some);
        if all_text_tool_parameters(rest).len() > 0 {
            let i = choose|i: int|
                0 <= i < rest.len() && properties_of((#[trigger] rest[i]).input_schema) is Some;
            assert(tools[i] == rest[i]);
        }
        if text_tool_parameters(tools.last()) is Some {
            assert(properties_of(tools[tools.len() - 1].input_schema) is Some);
        }
        if exists|i: int| 0 <= i < tools.len() && properties_of((#[trigger] tools[i]).input_schema) is Some {
            let i = choose|i: int|
                0 <= i < tools.len() && properties_of((#[trigger] tools[i]).input_schema) is Some;
            if i < rest.len() {
                assert(rest[i] == tools[i]);
            }
        }
    }
}

/// The members of an object; none for what is no object.
fn object_of(v: &Value) -> (r: JsonMap<String, Value>)
    ensures
        members(r) == members_of(json(*v)),
{
    match as_object(v) {
        Some(m) => clone_map(m),
        None => new_map(),
    }
}

/// Whether what the subscribers give can be added to the prompt parameters.
pub fn can_add_session(parameters: &Value, subscribers: &Vec<SessionSubscriberInfo>) -> (r: bool)
    ensures
        r == fits_session(json(*parameters), subscribers.deep_view()),
{
    proof {
        lemma_described(offered_tools(subscribers.deep_view(), ToolType::Text));
    }
    let described = generate_text_tools_prompt_parameters(subscribers);
    assert(described.deep_view().len() == described@.len());
    let is_object = as_object(parameters).is_some();
    match try_session_prompt_parameters(subscribers) {
        Some(session) => {
            let takes_tools = is_object || is_null(parameters);
            (described.len() == 0 || takes_tools) && (is_empty_map(&session) || is_object || (
            is_null(parameters) && described.len() > 0))
        },
        None => false,
    }
}

/// Adds what the subscribers give to the prompt parameters. Gives whether tools were described.
pub fn add_session(parameters: &mut Value, subscribers: &Vec<SessionSubscriberInfo>) -> (r: bool)
    requires
        fits_session(json(*old(parameters)), subscribers.deep_view()),
    ensures
        json(*final(parameters)) == with_session(json(*old(parameters)), subscribers.deep_view()),
        r == has_text_tools(subscribers.deep_view()),
{
    proof {
        lemma_described(offered_tools(subscribers.deep_view(), ToolType::Text));
    }
    let described = generate_text_tools_prompt_parameters(subscribers);
    assert(described.deep_view().len() == described@.len());
    let text_tools_used = described.len() > 0;
    if text_tools_used {
        let mut object = object_of(parameters);
        map_insert(&mut object, TEXT_TOOLS_PARAM_NAME.to_owned(), text_tools_value(&described));
        *parameters = object_value(object);
    }
    let session = get_session_prompt_parameters(subscribers);
    if !is_empty_map(&session) {
        let mut object = object_of(parameters);
        map_extend(&mut object, session);
        *parameters = object_value(object);
    }
    text_tools_used
}

/// What becomes of a prompt.
pub ghost enum PromptOutcome {
    Ready(ReadyPromptModel),
    NotFound,
    RenderError,
}

/// The prompt of a template, if it can be rendered.
pub open spec fn template_outcome(template: Seq<char>, parameters: Json, is_chat_model: bool) -> PromptOutcome {
    match rendered(template, parameters, SYSTEM_ROLE_HELPER@) {
        Some((main, blocks)) => PromptOutcome::Ready(
            ready_prompt(main, system_text(blocks), is_chat_model),
        ),
        None => PromptOutcome::RenderError,
    }
}

/// The prompt with the one of the request in the place of the main one. A main prompt is needed.
pub open spec fn with_custom_prompt(outcome: PromptOutcome, custom: Option<Seq<char>>) -> PromptOutcome {
    match outcome {
        PromptOutcome::Ready(prompt) => match or_else(custom, prompt.main_prompt) {
            Some(main) => PromptOutcome::Ready(ReadyPromptModel { main_prompt: Some(main), ..prompt }),
            None => PromptOutcome::NotFound,
        },
        other => other,
    }
}

/// The template of a generation: that of the parameters, or else the one that they name, which may be
/// stored or built in.
pub open spec fn prompt_template(
    parameters: GenerationParametersModel,
    stored: Option<Seq<char>>,
    built_in: Option<Seq<char>>,
) -> Option<Seq<char>> {
    match parameters.custom_prompt_template {
        Some(template) => Some(template),
        None => match parameters.prompt_template_id {
            Some(_) => or_else(stored, built_in),
            None => None,
        },
    }
}

/// What becomes of the prompt of a generation.
pub open spec fn prompt_outcome(
    parameters: GenerationParametersModel,
    custom: Option<Seq<char>>,
    stored: Option<Seq<char>>,
    built_in: Option<Seq<char>>,
    prompt_parameters: Json,
    is_chat_model: bool,
) -> PromptOutcome {
    let found = match prompt_template(parameters, stored, built_in) {
        Some(template) => template_outcome(template, prompt_parameters, is_chat_model),
        None => if parameters.prompt_template_id is Some {
            PromptOutcome::NotFound
        } else {
            PromptOutcome::Ready(ReadyPromptModel { system_prompt: None, main_prompt: None })
        },
    };
    with_custom_prompt(found, custom)
}

/// Puts the prompt of a request in the place of the main one. A main prompt is needed.
pub fn finish_prompt(prompt: ReadyPrompt, custom_prompt: Option<String>) -> (r: Result<
    ReadyPrompt,
    CoreError,
>)
    ensures
        match with_custom_prompt(PromptOutcome::Ready(prompt.deep_view()), custom_prompt.deep_view()) {
            PromptOutcome::Ready(model) => r matches Ok(p) && p.deep_view() == model,
            _ => r == Err::<ReadyPrompt, _>(CoreError::TemplateNotFound),
        },
{
    let mut prompt = prompt;
    if custom_prompt.is_some() {
        prompt.main_prompt = custom_prompt;
    }
    if prompt.main_prompt.is_none() {
        return Err(CoreError::TemplateNotFound);
    }
    Ok(prompt)
}

/// The prompt of a generation with what comes of the session.
pub struct PreparedPrompt {
    pub prompt: ReadyPrompt,
    /// The subscribers, with the names under which their tools are offered.
    pub subscriber_infos: Option<Vec<SessionSubscriberInfo>>,
    pub native_tools: Option<Vec<Tool>>,
    pub text_tools_used: bool,
}

/// The subscribers with the names under which their tools are offered.
pub open spec fn offering(infos: Option<Seq<SessionSubscriberInfoModel>>) -> Option<
    Seq<SessionSubscriberInfoModel>,
> {
    match infos {
        Some(infos) => Some(all_with_offered_names(infos)),
        None => None,
    }
}

/// The prompt parameters of a generation: those of the parameters, or none.
pub open spec fn own_prompt_parameters(parameters: GenerationParametersModel) -> Json {
    match parameters.prompt_parameters {
        Some(j) => j,
        None => Json::Object(no_members()),
    }
}

/// The prompt parameters of a generation with what the subscribers give.
pub open spec fn all_prompt_parameters(
    parameters: GenerationParametersModel,
    infos: Option<Seq<SessionSubscriberInfoModel>>,
) -> Json {
    match offering(infos) {
        Some(infos) => with_session(own_prompt_parameters(parameters), infos),
        None => own_prompt_parameters(parameters),
    }
}

/// The native tools that the subscribers offer, if they offer any.
pub open spec fn native_tools(infos: Option<Seq<SessionSubscriberInfoModel>>) -> Option<Seq<ToolModel>> {
    match offering(infos) {
        Some(infos) => {
            let tools = offered_tools(infos, ToolType::Native);
            if tools.len() > 0 {
                Some(tools)
            } else {
                None
            }
        },
        None => None,
    }
}

/// Prepares the prompt of a generation: takes up what the subscribers of the session give, if there
/// is one, and renders the template. `stored` and `built_in` are the templates of the name that the
/// parameters give, and count only where they give one and no template of their own.
pub fn prepare_prompt(
    request: &GenerationRequest,
    parameters: &GenerationParameters,
    subscribers: Option<Vec<SessionSubscriberInfo>>,
    stored: Option<String>,
    built_in: Option<String>,
    is_chat_model: bool,
) -> (r: Result<PreparedPrompt, CoreError>)
    requires
        subscribers matches Some(infos) ==> fits_session(
            own_prompt_parameters(parameters.deep_view()),
            all_with_offered_names(infos.deep_view()),
        ),
        prompt_template(parameters.deep_view(), stored.deep_view(), built_in.deep_view()) matches Some(
            template,
        ) ==> surely_ends(template),
    ensures
        match prompt_outcome(
            parameters.deep_view(),
            request.custom_prompt.deep_view(),
            stored.deep_view(),
            built_in.deep_view(),
            all_prompt_parameters(parameters.deep_view(), subscribers.deep_view()),
            is_chat_model,
        ) {
            PromptOutcome::Ready(prompt) => {
                &&& r matches Ok(prepared)
                &&& prepared.prompt.deep_view() == prompt
                &&& prepared.subscriber_infos.deep_view() == offering(subscribers.deep_view())
                &&& prepared.native_tools.deep_view() == native_tools(subscribers.deep_view())
                &&& prepared.text_tools_used == (match offering(subscribers.deep_view()) {
                    Some(infos) => has_text_tools(infos),
                    None => false,
                })
            },
            PromptOutcome::NotFound => r == Err::<PreparedPrompt, _>(CoreError::TemplateNotFound),
            PromptOutcome::RenderError => r matches Err(CoreError::TemplateRender(text))
                && is_render_error_text(text@),
        },
{
    let mut prompt_parameters = match &parameters.prompt_parameters {
        Some(v) => clone_value(v),
        None => object_value(new_map()),
    };
    let mut text_tools_used = false;
    let mut tools: Option<Vec<Tool>> = None;
    let mut offering_infos: Option<Vec<SessionSubscriberInfo>> = None;
    if let Some(infos) = subscribers {
        let mut infos = infos;
        inject_client_id_into_tools(&mut infos);
        text_tools_used = add_session(&mut prompt_parameters, &infos);
        tools = generate_native_tools_from_subscribers(&infos);
        offering_infos = Some(infos);
    }
    let found = match &parameters.custom_prompt_template {
        Some(template) => ReadyPrompt::from_custom_template(
            template.as_str(),
            &prompt_parameters,
            is_chat_model,
        ),
        None => match &parameters.prompt_template_id {
            Some(_) => ReadyPrompt::from_stored_template(
                stored,
                built_in,
                &prompt_parameters,
                is_chat_model,
            ),
            None => Ok(ReadyPrompt::default()),
        },
    };
    match found {
        Ok(prompt) => match finish_prompt(prompt, request.custom_prompt.clone()) {
            Ok(prompt) => Ok(
                PreparedPrompt {
                    prompt,
                    subscriber_infos: offering_infos,
                    native_tools: tools,
                    text_tools_used,
                },
            ),
            Err(e) => Err(e),
        },
        Err(e) => Err(e),
    }
}

// ---------------------------------------------------------------------------------------------
// The thread, and what the backend is asked.

/// The messages that do not have the system role.
pub open spec fn without_system(messages: Seq<MessageModel>) -> Seq<MessageModel> {
    messages.filter(|m: MessageModel| m.role != MessageRole::System)
}

/// A message of text alone.
pub open spec fn text_message(
    client_id: Option<Seq<char>>,
    role: MessageRole,
    content: Seq<char>,
) -> MessageModel {
    MessageModel {
        client_id,
        role,
        content: Some(content),
        tool_calls: None,
        tool_call_results: None,
    }
}

/// What stays of the messages of a thread beside a system prompt, where there is one: those that do
/// not have the system role themselves.
pub open spec fn beside_system(
    thread: Option<Seq<MessageModel>>,
    system: Option<Seq<char>>,
) -> Option<Seq<MessageModel>> {
    match system {
        Some(_) => Some(
            without_system(
                match thread {
                    Some(messages) => messages,
                    None => Seq::empty(),
                },
            ),
        ),
        None => thread,
    }
}

/// The thread with the system prompt, where there is one: as its last message, in the place of
/// other messages that have the system role.
pub open spec fn with_system_prompt(
    thread: Option<Seq<MessageModel>>,
    system: Option<Seq<char>>,
    client_id: Option<Seq<char>>,
) -> Option<Seq<MessageModel>> {
    match system {
        Some(content) => Some(
            beside_system(thread, system)->0.push(
                text_message(client_id, MessageRole::System, content),
            ),
        ),
        None => thread,
    }
}

/// The results of calls that stand last in the thread, if they do.
pub open spec fn last_results(thread: Option<Seq<MessageModel>>) -> Option<Seq<ToolCallResultModel>> {
    match thread {
        Some(messages) => if messages.len() > 0 {
            messages.last().tool_call_results
        } else {
            None
        },
        None => None,
    }
}

/// The thread without the results of calls that stand last.
pub open spec fn without_last_results(thread: Option<Seq<MessageModel>>) -> Option<Seq<MessageModel>> {
    if last_results(thread) is Some {
        Some(thread->0.drop_last())
    } else {
        thread
    }
}

/// What a backend is asked. The thread and the tools are as clients see them.
#[derive(Debug)]
pub struct PreparedRequest {
    pub model: String,
    pub prompt: Option<String>,
    pub max_tokens: u64,
    pub thread_messages: Option<Vec<Message>>,
    pub model_parameters: Option<JsonMap<String, Value>>,
    pub tools: Option<Vec<Tool>>,
    pub tool_call_results: Option<Vec<ToolCallResult>>,
}

/// What a [`PreparedRequest`] says.
#[verifier::ext_equal]
pub ghost struct PreparedRequestModel {
    pub model: Seq<char>,
    pub prompt: Option<Seq<char>>,
    pub max_tokens: u64,
    pub thread_messages: Option<Seq<MessageModel>>,
    pub model_parameters: Option<Map<Seq<char>, Json>>,
    pub tools: Option<Seq<ToolModel>>,
    pub tool_call_results: Option<Seq<ToolCallResultModel>>,
}

impl DeepView for PreparedRequest {
    type V = PreparedRequestModel;

    open spec fn deep_view(&self) -> PreparedRequestModel {
        PreparedRequestModel {
            model: self.model@,
            prompt: self.prompt.deep_view(),
            max_tokens: self.max_tokens,
            thread_messages: self.thread_messages.deep_view(),
            model_parameters: opt_members(self.model_parameters),
            tools: self.tools.deep_view(),
            tool_call_results: self.tool_call_results.deep_view(),
        }
    }
}

/// What is kept of a generation while the backend works.
#[derive(Debug)]
pub struct GenerationPreparation {
    pub model_description: ModelDescription,
    pub thread_messages_to_save: Option<Vec<Message>>,
    pub existing_thread_id: Option<String>,
    pub subscriber_infos: Option<Vec<SessionSubscriberInfo>>,
    pub text_tools_used: bool,
}

/// The messages that do not have the system role.
pub fn drop_system(messages: &Vec<Message>) -> (r: Vec<Message>)
    ensures
        r.deep_view() == without_system(messages.deep_view()),
{
    let ghost all = messages.deep_view();
    let ghost wanted = |m: MessageModel| m.role != MessageRole::System;
    let mut r: Vec<Message> = Vec::new();
    let mut i: usize = 0;
    proof {
        reveal(Seq::filter);
    }
    assert(r.deep_view() =~= all.take(0).filter(wanted));
    while i < messages.len()
        invariant
            i <= messages@.len(),
            all == messages.deep_view(),
            wanted == (|m: MessageModel| m.role != MessageRole::System),
            r.deep_view() == all.take(i as int).filter(wanted),
        decreases messages.len() - i,
    {
        proof {
            reveal(Seq::filter);
        }
        assert(all.take(i + 1).drop_last() =~= all.take(i as int));
        assert(all.take(i + 1).last() == messages@[i as int].deep_view());
        let ghost before = r.deep_view();
        if messages[i].role != MessageRole::System {
            r.push(messages[i].clone());
            assert(r.deep_view() =~= before.push(messages@[i as int].deep_view()));
        }
        i = i + 1;
    }
    assert(all.take(all.len() as int) =~= all);
    r
}

/// Messages that were kept beside a system prompt, all of them or all but the last, are kept again.
proof fn lemma_without_system_stays(messages: Seq<MessageModel>, kept: Seq<MessageModel>)
    requires
        kept == without_system(messages) || (without_system(messages).len() > 0 && kept
            == without_system(messages).drop_last()),
    ensures
        without_system(kept) == kept,
{
    crate::core_lib::threads::law_stored_thread_has_no_system_message(messages);
    lemma_nothing_to_drop(kept);
}

/// Where no message has the system role, all are kept.
proof fn lemma_nothing_to_drop(kept: Seq<MessageModel>)
    requires
        forall|i: int| 0 <= i < kept.len() ==> (#[trigger] kept[i]).role != MessageRole::System,
    ensures
        without_system(kept) == kept,
    decreases kept.len(),
{
    reveal(Seq::filter);
    if kept.len() > 0 {
        lemma_nothing_to_drop(kept.drop_last());
        assert(kept.drop_last().push(kept.last()) =~= kept);
    } else {
        assert(without_system(kept) =~= kept);
    }
}

/// Puts the thread, the prompt and the parameters together to what the backend is asked and what is
/// kept meanwhile. Where the thread ends with results of calls, these go to the backend apart, and
/// the prompt goes with them only if the request gave it.
pub fn prepare_for_generate(
    request: &GenerationRequest,
    parameters: GenerationParameters,
    model: String,
    model_description: ModelDescription,
    prepared: PreparedPrompt,
    thread: Option<(Vec<Message>, String)>,
) -> (r: Result<(PreparedRequest, GenerationPreparation), CoreError>)
    requires
        prepared.prompt.main_prompt is Some,
    ensures
        ({
            let messages = match thread {
                Some(thread) => Some(thread.0.deep_view()),
                None => None,
            };
            let client_id = request.client_id.deep_view();
            let system = prepared.prompt.system_prompt.deep_view();
            let stored = beside_system(messages, system);
            let results = last_results(stored);
            let history = with_system_prompt(without_last_results(stored), system, client_id);
            let prompt = if results is Some && request.custom_prompt is None {
                None
            } else {
                prepared.prompt.main_prompt.deep_view()
            };
            match parameters.max_tokens {
                Some(max_tokens) => {
                    &&& r matches Ok(found)
                    &&& found.0.deep_view() == (PreparedRequestModel {
                        model: model@,
                        prompt,
                        max_tokens,
                        thread_messages: history,
                        model_parameters: opt_members(parameters.model_parameters),
                        tools: prepared.native_tools.deep_view(),
                        tool_call_results: results,
                    })
                    &&& found.1.model_description == model_description
                    &&& found.1.thread_messages_to_save.deep_view() == (if request.save_thread {
                        Some(
                            (match history {
                                Some(messages) => messages,
                                None => Seq::empty(),
                            }).push(
                                MessageModel {
                                    client_id,
                                    role: MessageRole::User,
                                    content: prompt,
                                    tool_calls: None,
                                    tool_call_results: results,
                                },
                            ),
                        )
                    } else {
                        None
                    })
                    &&& found.1.existing_thread_id.deep_view() == (match thread {
                        Some(thread) => Some(thread.1@),
                        None => None,
                    })
                    &&& found.1.subscriber_infos == prepared.subscriber_infos
                    &&& found.1.text_tools_used == prepared.text_tools_used
                },
                None => r == Err::<(PreparedRequest, GenerationPreparation), _>(
                    CoreError::MissingParameter(RequiredParameter::MaxTokens),
                ),
            }
        }),
{
    let (mut thread_messages, existing_thread_id) = match thread {
        Some((messages, thread_id)) => (Some(messages), Some(thread_id)),
        None => (None, None),
    };
    let ghost given = thread_messages.deep_view();
    let ghost system = prepared.prompt.system_prompt.deep_view();
    if prepared.prompt.system_prompt.is_some() {
        let kept = match thread_messages {
            Some(messages) => drop_system(&messages),
            None => Vec::new(),
        };
        proof {
            if given is None {
                reveal(Seq::filter);
                assert(kept.deep_view() =~= without_system(Seq::empty()));
            }
        }
        thread_messages = Some(kept);
    }
    let ghost stored = thread_messages.deep_view();
    assert(stored == beside_system(given, system));
    let mut main_prompt = prepared.prompt.main_prompt;
    let mut tool_call_results: Option<Vec<ToolCallResult>> = None;
    if let Some(mut messages) = thread_messages {
        let ghost before = messages.deep_view();
        if messages.len() > 0 && messages[messages.len() - 1].tool_call_results.is_some() {
            let ghost last = messages@.last();
            assert(before.last() == last.deep_view());
            if let Some(message) = messages.pop() {
                tool_call_results = message.tool_call_results;
            }
            assert(messages.deep_view() =~= before.drop_last());
            if request.custom_prompt.is_none() {
                main_prompt = None;
            }
        } else {
            assert(messages@.len() > 0 ==> before.last() == messages@.last().deep_view());
        }
        thread_messages = Some(messages);
    } else {
        thread_messages = None;
    }
    let ghost answered = thread_messages.deep_view();
    assert(answered == without_last_results(stored));
    assert(tool_call_results.deep_view() == last_results(stored));
    if let Some(content) = prepared.prompt.system_prompt {
        let ghost said = content@;
        let mut messages = match thread_messages {
            Some(messages) => messages,
            None => Vec::new(),
        };
        let ghost before = messages.deep_view();
        messages.push(
            Message {
                client_id: request.client_id.clone(),
                role: MessageRole::System,
                content: Some(content),
                tool_calls: None,
                tool_call_results: None,
            },
        );
        assert(messages.deep_view() =~= before.push(
            text_message(request.client_id.deep_view(), MessageRole::System, said),
        ));
        proof {
            let all = match given {
                Some(messages) => messages,
                None => Seq::empty(),
            };
            lemma_without_system_stays(all, before);
        }
        thread_messages = Some(messages);
    }
    let ghost history = thread_messages.deep_view();
    assert(history == with_system_prompt(answered, system, request.client_id.deep_view()));
    let thread_messages_to_save = if request.save_thread {
        let mut saved = match &thread_messages {
            Some(messages) => messages.clone(),
            None => Vec::new(),
        };
        let ghost before = saved.deep_view();
        let message = Message {
            client_id: request.client_id.clone(),
            role: MessageRole::User,
            content: main_prompt.clone(),
            tool_calls: None,
            tool_call_results: tool_call_results.clone(),
        };
        let ghost said = message.deep_view();
        saved.push(message);
        assert(saved.deep_view() =~= before.push(said));
        assert(before =~= (match history {
            Some(messages) => messages,
            None => Seq::empty(),
        }));
        Some(saved)
    } else {
        None
    };
    match parameters.max_tokens {
        Some(max_tokens) => Ok(
            (
                PreparedRequest {
                    model,
                    prompt: main_prompt,
                    max_tokens,
                    thread_messages,
                    model_parameters: parameters.model_parameters,
                    tools: prepared.native_tools,
                    tool_call_results,
                },
                GenerationPreparation {
                    model_description,
                    thread_messages_to_save,
                    existing_thread_id,
                    subscriber_infos: prepared.subscriber_infos,
                    text_tools_used: prepared.text_tools_used,
                },
            ),
        ),
        None => Err(CoreError::MissingParameter(RequiredParameter::MaxTokens)),
    }
}

/// Whether [`prepare_prompt`] can take up what those subscribers give, and render the template.
pub fn can_prepare_prompt(
    parameters: &GenerationParameters,
    subscribers: &Option<Vec<SessionSubscriberInfo>>,
    stored: &Option<String>,
    built_in: &Option<String>,
) -> (r: bool)
    ensures
        r == ((*subscribers matches Some(infos) ==> fits_session(
            own_prompt_parameters(parameters.deep_view()),
            all_with_offered_names(infos.deep_view()),
        )) && (prompt_template(parameters.deep_view(), stored.deep_view(), built_in.deep_view()) matches Some(
            template,
        ) ==> surely_ends(template))),
{
    let fits = match subscribers {
        Some(infos) => {
            let mut offering_infos = infos.clone();
            inject_client_id_into_tools(&mut offering_infos);
            match &parameters.prompt_parameters {
                Some(v) => can_add_session(v, &offering_infos),
                None => can_add_session(&object_value(new_map()), &offering_infos),
            }
        },
        None => true,
    };
    fits && match (&parameters.custom_prompt_template, &parameters.prompt_template_id, stored, built_in) {
        (Some(template), _, _, _) => is_sure_to_end(template.as_str()),
        (None, Some(_), Some(template), _) => is_sure_to_end(template.as_str()),
        (None, Some(_), None, Some(template)) => is_sure_to_end(template.as_str()),
        _ => true,
    }
}

// ---------------------------------------------------------------------------------------------
// The reply.

impl GenerationPreparation {
    /// Whether the thread is to be saved and has no id yet.
    pub open spec fn spec_needs_thread_id(self) -> bool {
        self.thread_messages_to_save is Some && self.existing_thread_id is None
    }

    /// Whether the thread is to be saved and has no id yet.
    pub fn needs_thread_id(&self) -> (r: bool)
        ensures
            r == self.spec_needs_thread_id(),
    {
        self.thread_messages_to_save.is_some() && self.existing_thread_id.is_none()
    }
}

/// What the reply of a model comes to.
#[derive(Debug)]
pub struct FinishedGeneration {
    pub response: GenerationResponse,
    /// The thread to be saved, with its id.
    pub thread: Option<(String, Vec<Message>)>,
    /// What waits for the results of the native calls.
    pub helper: Option<ToolCallHelper>,
}

/// The calls in a reply: those in its text, where tools were described in the prompt, and those that
/// the backend reports.
pub open spec fn reply_calls(
    infos: Option<Seq<SessionSubscriberInfoModel>>,
    text_tools_used: bool,
    text: Seq<char>,
    native: Option<Seq<BackendToolCallModel>>,
) -> Result<Option<Seq<ToolCallModel>>, ToolCallFault> {
    let from_text = match infos {
        Some(infos) => if text_tools_used {
            match calls_in(infos, text, 0) {
                TextCallsModel::Calls(calls) => Ok(Some(calls)),
                TextCallsModel::Fault(fault) => Err(fault),
                TextCallsModel::Unfinished => Ok(None),
            }
        } else {
            Ok(None)
        },
        None => Ok(None),
    };
    match (from_text, native) {
        (Ok(calls), Some(native)) => if all_known(infos, native) {
            Ok(
                Some(
                    (match calls {
                        Some(calls) => calls,
                        None => Seq::empty(),
                    }) + client_calls(infos, native),
                ),
            )
        } else {
            Err(ToolCallFault::ToolNotFound)
        },
        (from_text, _) => from_text,
    }
}

/// Whether the text of a reply breaks off in the name of a function.
pub open spec fn is_cut_off(
    infos: Option<Seq<SessionSubscriberInfoModel>>,
    text_tools_used: bool,
    text: Seq<char>,
) -> bool {
    text_tools_used && (infos matches Some(infos) && calls_in(infos, text, 0) is Unfinished)
}

/// The ids of the calls.
fn call_ids(calls: &Vec<BackendToolCall>) -> (r: Vec<String>)
    ensures
        texts(r@) == calls.deep_view().map_values(|call: BackendToolCallModel| call.id),
{
    let mut r: Vec<String> = Vec::new();
    let mut i: usize = 0;
    while i < calls.len()
        invariant
            i <= calls@.len(),
            r@.len() == i,
            forall|k: int| 0 <= k < i ==> (#[trigger] r@[k])@ == calls@[k].id@,
        decreases calls.len() - i,
    {
        r.push(calls[i].id.clone());
        i = i + 1;
    }
    assert(texts(r@) =~= calls.deep_view().map_values(|call: BackendToolCallModel| call.id));
    r
}

/// Makes the response of the reply of a model, and what is left to do: the thread to be saved, and
/// the helper that waits for the results of native calls. A fresh id serves a thread that has none.
/// A reply whose text breaks off in the name of a function gives nothing.
pub fn finish_generation(
    request: &GenerationRequest,
    full_response: String,
    native_tool_calls: Option<Vec<BackendToolCall>>,
    preparation: GenerationPreparation,
    streamed: bool,
    fresh_thread_id: Option<String>,
) -> (r: Option<Result<FinishedGeneration, CoreError>>)
    requires
        preparation.spec_needs_thread_id() ==> fresh_thread_id is Some,
    ensures
        ({
            let infos = preparation.subscriber_infos.deep_view();
            let used = preparation.text_tools_used;
            let native = native_tool_calls.deep_view();
            if is_cut_off(infos, used, full_response@) {
                r is None
            } else {
                match reply_calls(infos, used, full_response@, native) {
                    Err(fault) => r == Some(
                        Err::<FinishedGeneration, _>(CoreError::ToolCallParse(fault)),
                    ),
                    Ok(calls) => {
                        let thread_id = match preparation.thread_messages_to_save {
                            Some(_) => or_else(preparation.existing_thread_id, fresh_thread_id),
                            None => None,
                        };
                        &&& r matches Some(Ok(finished))
                        &&& finished.response.deep_view() == (GenerationResponseModel {
                            response: if streamed {
                                None
                            } else {
                                Some(full_response@)
                            },
                            tool_call_part: None,
                            thread_id: thread_id.deep_view(),
                            tool_calls: calls,
                        })
                        &&& match preparation.thread_messages_to_save {
                            Some(messages) => finished.thread matches Some(saved) && saved.0@
                                == thread_id->0@ && saved.1.deep_view() == messages.deep_view().push(
                                MessageModel {
                                    client_id: request.client_id.deep_view(),
                                    role: MessageRole::Assistant,
                                    content: Some(full_response@),
                                    tool_calls: calls,
                                    tool_call_results: None,
                                },
                            ),
                            None => finished.thread is None,
                        }
                        &&& match (native, thread_id) {
                            (Some(native), Some(id)) => {
                                &&& finished.helper matches Some(helper)
                                &&& helper.calls() == distinct(
                                    native.map_values(|call: BackendToolCallModel| call.id),
                                ).map_values(|id: Seq<char>| PendingCallModel { id, result: None })
                                &&& helper.client_id.deep_view() == request.client_id.deep_view()
                                &&& helper.thread_id@ == id@
                            },
                            _ => finished.helper is None,
                        }
                    },
                }
            }
        }),
{
    let ghost infos = preparation.subscriber_infos.deep_view();
    let mut tool_calls: Option<Vec<ToolCall>> = None;
    let mut native_ids: Option<Vec<String>> = None;
    if let Some(subscriber_infos) = &preparation.subscriber_infos {
        if preparation.text_tools_used {
            match try_extract_text_tool_calls(subscriber_infos, full_response.as_str()) {
                None => {
                    return None;
                },
                Some(Err(e)) => {
                    return Some(Err(e));
                },
                Some(Ok(calls)) => {
                    tool_calls = Some(calls);
                },
            }
        }
    }
    if let Some(native_calls) = native_tool_calls {
        native_ids = Some(call_ids(&native_calls));
        let subscriber_infos = match &preparation.subscriber_infos {
            Some(subscriber_infos) => Some(subscriber_infos),
            None => None,
        };
        assert(opt_infos(subscriber_infos) == infos);
        let mut more = match backend_tool_calls_to_tool_calls(native_calls, subscriber_infos) {
            Ok(more) => more,
            Err(e) => {
                return Some(Err(e));
            },
        };
        let ghost later = more.deep_view();
        let mut calls = match tool_calls {
            Some(calls) => calls,
            None => Vec::new(),
        };
        let ghost earlier = calls.deep_view();
        calls.append(&mut more);
        assert(calls.deep_view() =~= earlier + later);
        tool_calls = Some(calls);
    }
    let thread = thread_with_reply(
        request.client_id.clone(),
        full_response.clone(),
        tool_calls.clone(),
        preparation.thread_messages_to_save,
        preparation.existing_thread_id,
        fresh_thread_id,
    );
    let thread_id = match &thread {
        Some(saved) => Some(saved.0.clone()),
        None => None,
    };
    let helper = match (native_ids, &thread_id) {
        (Some(ids), Some(id)) => Some(ToolCallHelper::new(ids, request.client_id.clone(), id.clone())),
        _ => None,
    };
    let response = GenerationResponse {
        response: if streamed {
            None
        } else {
            Some(full_response)
        },
        tool_call_part: None,
        thread_id,
        tool_calls,
    };
    Some(Ok(FinishedGeneration { response, thread, helper }))
}

// ---------------------------------------------------------------------------------------------
// Laws.

/// What the request sets counts, whatever the preset sets; what the request does not set is as in
/// the preset. Each model parameter is taken for itself.
pub proof fn law_request_comes_before_preset(
    preset: GenerationParametersModel,
    request: GenerationParametersModel,
)
    ensures
        merged(preset, GenerationParametersModel::none()) == preset,
        merged(GenerationParametersModel::none(), request) == request,
        request.model is Some ==> merged(preset, request).model == request.model,
        request.max_tokens is Some ==> merged(preset, request).max_tokens == request.max_tokens,
        request.prompt_template_id is Some ==> merged(preset, request).prompt_template_id
            == request.prompt_template_id,
        request.custom_prompt_template is Some ==> merged(preset, request).custom_prompt_template
            == request.custom_prompt_template,
        request.prompt_parameters is Some ==> merged(preset, request).prompt_parameters
            == request.prompt_parameters,
        request.model is None ==> merged(preset, request).model == preset.model,
        request.max_tokens is None ==> merged(preset, request).max_tokens == preset.max_tokens,
        request.prompt_template_id is None ==> merged(preset, request).prompt_template_id
            == preset.prompt_template_id,
        request.custom_prompt_template is None ==> merged(preset, request).custom_prompt_template
            == preset.custom_prompt_template,
        request.prompt_parameters is None ==> merged(preset, request).prompt_parameters
            == preset.prompt_parameters,
        request.model_parameters matches Some(asked) ==> (merged(preset, request).model_parameters
            matches Some(both) && forall|name: Seq<char>| #[trigger]
            asked.contains_key(name) ==> both.contains_key(name) && both[name] == asked[name]),
        preset.model_parameters matches Some(given) ==> (merged(preset, request).model_parameters
            matches Some(both) && forall|name: Seq<char>| #[trigger]
            given.contains_key(name) ==> both.contains_key(name) && ((request.model_parameters matches Some(
            asked,
        ) && asked.contains_key(name)) || both[name] == given[name])),
{
}

/// A system prompt is the last of the messages that the backend gets, after all of the stored ones
/// that do not have the system role, and the only one of the system role.
pub proof fn law_one_system_message(
    thread: Option<Seq<MessageModel>>,
    system: Seq<char>,
    client_id: Option<Seq<char>>,
)
    ensures
        with_system_prompt(thread, Some(system), client_id) matches Some(messages) && messages.len() > 0
            && messages.last() == text_message(client_id, MessageRole::System, system)
            && messages.drop_last() == (match thread {
            Some(stored) => without_system(stored),
            None => Seq::empty(),
        }) && forall|i: int|
            0 <= i < messages.len() - 1 ==> (#[trigger] messages[i]).role != MessageRole::System,
{
    let kept = match thread {
        Some(messages) => messages,
        None => Seq::empty(),
    };
    crate::core_lib::threads::law_stored_thread_has_no_system_message(kept);
    let messages = with_system_prompt(thread, Some(system), client_id)->0;
    assert(messages.drop_last() =~= without_system(kept));
    if thread is None {
        reveal(Seq::filter);
        assert(without_system(kept) =~= Seq::empty());
    }
    assert forall|i: int| 0 <= i < messages.len() - 1 implies (#[trigger] messages[i]).role
        != MessageRole::System by {
        assert(messages[i] == without_system(kept)[i]);
    }
}

/// Results of calls that stand last in a stored thread go to the backend apart whether or not the
/// prompt has a system text, and only they leave the thread.
pub proof fn law_results_are_found_beside_a_system_prompt(
    messages: Seq<MessageModel>,
    system: Seq<char>,
)
    requires
        messages.len() > 0,
        messages.last().tool_call_results is Some,
        messages.last().role != MessageRole::System,
    ensures
        last_results(beside_system(Some(messages), Some(system))) == messages.last().tool_call_results,
        without_last_results(beside_system(Some(messages), Some(system))) == Some(
            without_system(messages.drop_last()),
        ),
{
    reveal(Seq::filter);
    assert(without_system(messages) == without_system(messages.drop_last()).push(messages.last()));
    assert(without_system(messages).drop_last() =~= without_system(messages.drop_last()));
}

/// A generation that goes on with the thread that was saved says the same to the backend as if the
/// system prompt had been saved with it: what is stored of a thread loses nothing that the next
/// system prompt would not replace.
pub proof fn law_stored_thread_goes_on(
    thread: Seq<MessageModel>,
    system: Seq<char>,
    client_id: Option<Seq<char>>,
)
    ensures
        with_system_prompt(Some(without_system(thread)), Some(system), client_id)
            == with_system_prompt(Some(thread), Some(system), client_id),
{
    crate::core_lib::threads::law_stored_thread_has_no_system_message(thread);
}

/// The parameters of a generation are found: each is that of the request where the request sets it, or
/// else that of the preset. The number of tokens is always set, and a model is needed.
pub proof fn law_parameters_are_resolved(
    request: GenerationRequest,
    preset: Option<GenerationParameters>,
    r: Result<(GenerationParameters, String), CoreError>,
)
    requires
        call_ensures(resolve_parameters, (&request, preset), r),
    ensures
        ({
            let asked = match request.parameters {
                Some(parameters) => parameters.deep_view(),
                None => GenerationParametersModel::none(),
            };
            let given = match preset {
                Some(parameters) => parameters.deep_view(),
                None => GenerationParametersModel::none(),
            };
            &&& r is Ok <==> asked.model is Some || given.model is Some
            &&& r matches Ok((found, model)) ==> {
                &&& asked.model is Some ==> asked.model == Some(model@)
                &&& asked.model is None ==> given.model == Some(model@)
                &&& asked.max_tokens is Some ==> found.max_tokens == asked.max_tokens
                &&& asked.max_tokens is None && given.max_tokens is Some ==> found.max_tokens
                    == given.max_tokens
                &&& asked.max_tokens is None && given.max_tokens is None ==> found.max_tokens == Some(
                    2048u64,
                )
                &&& asked.prompt_template_id is Some ==> found.prompt_template_id.deep_view()
                    == asked.prompt_template_id
                &&& asked.prompt_template_id is None ==> found.prompt_template_id.deep_view()
                    == given.prompt_template_id
                &&& asked.custom_prompt_template is Some ==> found.custom_prompt_template.deep_view()
                    == asked.custom_prompt_template
                &&& asked.custom_prompt_template is None ==> found.custom_prompt_template.deep_view()
                    == given.custom_prompt_template
                &&& asked.prompt_parameters is Some ==> opt_json(found.prompt_parameters)
                    == asked.prompt_parameters
                &&& asked.prompt_parameters is None ==> opt_json(found.prompt_parameters)
                    == given.prompt_parameters
                &&& asked.model_parameters is None ==> opt_members(found.model_parameters)
                    == given.model_parameters
                &&& given.model_parameters is None ==> opt_members(found.model_parameters)
                    == asked.model_parameters
            }
        }),
{
    let found = r->Ok_0.0.deep_view();
    assert(found.max_tokens == r->Ok_0.0.max_tokens);
    assert(found.prompt_template_id == r->Ok_0.0.prompt_template_id.deep_view());
    assert(found.custom_prompt_template == r->Ok_0.0.custom_prompt_template.deep_view());
    assert(found.prompt_parameters == opt_json(r->Ok_0.0.prompt_parameters));
    assert(found.model_parameters == opt_members(r->Ok_0.0.model_parameters));
}

/// A request goes on with a thread where it names one or a session, and then asks for both as it names
/// them. A session counts only with its tag.
pub proof fn law_request_names_its_thread(
    request: GenerationRequest,
    r: Option<GetThreadMessagesRequest>,
    s: Option<(String, String)>,
)
    requires
        call_ensures(thread_of, (&request,), r),
        call_ensures(session_of, (&request,), s),
    ensures
        r is None <==> request.existing_thread_id is None && request.session_id is None,
        r matches Some(wanted) ==> {
            &&& wanted.thread_id.deep_view() == request.existing_thread_id.deep_view()
            &&& wanted.session_id.deep_view() == request.session_id.deep_view()
            &&& wanted.session_tag.deep_view() == request.session_tag.deep_view()
        },
        s is Some <==> request.session_id is Some && request.session_tag is Some,
        s matches Some((id, tag)) ==> id@ == request.session_id->0@ && tag@ == request.session_tag->0@,
{
    if let Some(wanted) = r {
        assert(wanted.deep_view().thread_id == wanted.thread_id.deep_view());
        assert(wanted.deep_view().session_id == wanted.session_id.deep_view());
        assert(wanted.deep_view().session_tag == wanted.session_tag.deep_view());
    }
}

/// What a prompt says of tools: an array with an object for each, in order, that holds its name, its
/// description, the lines on its arguments and how it is used.
pub proof fn law_tools_are_described_to_the_prompt(
    described: Seq<TextToolPromptParametersModel>,
    i: int,
)
    requires
        0 <= i < described.len(),
    ensures
        ({
            &&& text_tool_array(described) matches Json::Array(items)
            &&& items.len() == described.len()
            &&& items[i].member("name"@) == Some(Json::Text(described[i].name))
            &&& items[i].member("description"@) == Some(Json::Text(described[i].description))
            &&& items[i].member("usage_format"@) == Some(Json::Text(described[i].usage_format))
            &&& items[i].member("arguments"@) matches Some(Json::Array(lines)) && lines.len()
                == described[i].arguments.len() && forall|k: int|
                0 <= k < lines.len() ==> #[trigger] lines[k] == Json::Text(described[i].arguments[k])
        }),
{
    reveal_strlit("name");
    reveal_strlit("description");
    reveal_strlit("arguments");
    reveal_strlit("usage_format");
    assert("name"@.len() == 4 && "description"@.len() == 11);
    assert("arguments"@.len() == 9 && "usage_format"@.len() == 12);
    assert(text_tool_array(described)->Array_0[i] == text_tool_object(described[i]));
}

/// The prompt parameters of a generation keep their values, but where a parameter of the session has
/// the same name, which comes first. The descriptions of tools stand under their own name.
pub proof fn law_session_adds_to_prompt_parameters(
    own: Map<Seq<char>, Json>,
    infos: Seq<SessionSubscriberInfoModel>,
    session: Map<Seq<char>, Json>,
    name: Seq<char>,
)
    requires
        session_parameters(infos) == Some(session),
    ensures
        ({
            let described = all_text_tool_parameters(offered_tools(infos, ToolType::Text));
            &&& with_session(Json::Object(own), infos) matches Json::Object(all)
            &&& session.contains_key(name) ==> all.contains_key(name) && all[name] == session[name]
            &&& !session.contains_key(name) && name != "text_tools"@ ==> all.contains_key(name)
                == own.contains_key(name) && (own.contains_key(name) ==> all[name] == own[name])
            &&& described.len() > 0 && !session.contains_key("text_tools"@) ==> all.contains_key(
                "text_tools"@,
            ) && all["text_tools"@] == text_tool_array(described)
        }),
{
    assert(session == no_members() ==> !session.contains_key(name));
}

/// The template of a generation is the one that the parameters hold, or else the stored one, or else
/// the built-in one, and these two only where the parameters name one. A template that is named and not
/// found is an error.
pub proof fn law_template_is_chosen(
    parameters: GenerationParametersModel,
    custom: Option<Seq<char>>,
    stored: Option<Seq<char>>,
    built_in: Option<Seq<char>>,
    values: Json,
    is_chat_model: bool,
)
    ensures
        parameters.custom_prompt_template is Some ==> prompt_template(parameters, stored, built_in)
            == parameters.custom_prompt_template,
        parameters.custom_prompt_template is None && parameters.prompt_template_id is Some ==> {
            &&& stored is Some ==> prompt_template(parameters, stored, built_in) == stored
            &&& stored is None ==> prompt_template(parameters, stored, built_in) == built_in
            &&& stored is None && built_in is None ==> prompt_outcome(
                parameters,
                custom,
                stored,
                built_in,
                values,
                is_chat_model,
            ) is NotFound
        },
        parameters.custom_prompt_template is None && parameters.prompt_template_id is None
            ==> prompt_template(parameters, stored, built_in) is None,
{
}

/// The prompt of the request is the main prompt where it has one, whatever the template says; else the
/// main prompt is that of the template. The system prompt is always that of the template. Without a
/// template the prompt of the request is all, and without both there is none.
pub proof fn law_prompt_of_the_request_comes_first(
    parameters: GenerationParametersModel,
    custom: Option<Seq<char>>,
    stored: Option<Seq<char>>,
    built_in: Option<Seq<char>>,
    values: Json,
    is_chat_model: bool,
)
    ensures
        ({
            let outcome = prompt_outcome(parameters, custom, stored, built_in, values, is_chat_model);
            &&& prompt_template(parameters, stored, built_in) matches Some(template) ==> {
                match rendered(template, values, "system_role"@) {
                    Some((main, blocks)) => {
                        let made = ready_prompt(main, system_text(blocks), is_chat_model);
                        &&& custom is Some ==> (outcome matches PromptOutcome::Ready(prompt)
                            && prompt.main_prompt == custom && prompt.system_prompt
                            == made.system_prompt)
                        &&& custom is None && made.main_prompt is Some ==> (
                        outcome matches PromptOutcome::Ready(prompt) && prompt.main_prompt
                            == made.main_prompt && prompt.system_prompt == made.system_prompt)
                        &&& custom is None && made.main_prompt is None ==> outcome is NotFound
                    },
                    None => outcome is RenderError,
                }
            }
            &&& parameters.custom_prompt_template is None && parameters.prompt_template_id is None ==> {
                &&& custom is Some ==> (outcome matches PromptOutcome::Ready(prompt)
                    && prompt.main_prompt == custom && prompt.system_prompt is None)
                &&& custom is None ==> outcome is NotFound
            }
        }),
{
}

proof fn lemma_none_of_system(messages: Seq<MessageModel>)
    requires
        forall|i: int| 0 <= i < messages.len() ==> (#[trigger] messages[i]).role != MessageRole::System,
    ensures
        without_system(messages) == messages,
    decreases messages.len(),
{
    reveal(Seq::filter);
    if messages.len() > 0 {
        assert forall|i: int| 0 <= i < messages.drop_last().len() implies (
        #[trigger] messages.drop_last()[i]).role != MessageRole::System by {
            assert(messages.drop_last()[i] == messages[i]);
        }
        lemma_none_of_system(messages.drop_last());
        assert(messages[messages.len() - 1].role != MessageRole::System);
        assert(messages.drop_last().push(messages.last()) =~= messages);
    } else {
        assert(messages =~= Seq::empty());
    }
}

/// The backend is asked what was prepared: the model, the number of tokens, the model parameters and the
/// tools are handed on as they are. A thread that does not end with results of calls is handed on whole,
/// with the main prompt, and the system prompt as its last message.
pub proof fn law_backend_is_asked_what_was_prepared(
    request: GenerationRequest,
    parameters: GenerationParameters,
    model: String,
    model_description: ModelDescription,
    prepared: PreparedPrompt,
    thread: Option<(Vec<Message>, String)>,
    r: Result<(PreparedRequest, GenerationPreparation), CoreError>,
    messages: Seq<MessageModel>,
)
    requires
        prepared.prompt.main_prompt is Some,
        call_ensures(
            prepare_for_generate,
            (&request, parameters, model, model_description, prepared, thread),
            r,
        ),
        thread matches Some(found) ==> messages == found.0.deep_view(),
        thread is None ==> messages.len() == 0,
        forall|i: int| 0 <= i < messages.len() ==> (#[trigger] messages[i]).role != MessageRole::System,
        messages.len() > 0 ==> messages.last().tool_call_results is None,
    ensures
        r is Ok <==> parameters.max_tokens is Some,
        r matches Ok((asked, kept)) ==> {
            &&& asked.model@ == model@
            &&& Some(asked.max_tokens) == parameters.max_tokens
            &&& opt_members(asked.model_parameters) == opt_members(parameters.model_parameters)
            &&& asked.tools.deep_view() == prepared.native_tools.deep_view()
            &&& asked.prompt.deep_view() == prepared.prompt.main_prompt.deep_view()
            &&& asked.tool_call_results is None
            &&& prepared.prompt.system_prompt is None ==> {
                &&& thread is Some ==> asked.thread_messages.deep_view() == Some(messages)
                &&& thread is None ==> asked.thread_messages is None
            }
            &&& prepared.prompt.system_prompt matches Some(system) ==> {
                &&& asked.thread_messages.deep_view() matches Some(sent)
                &&& sent.len() == messages.len() + 1
                &&& sent.drop_last() == messages
                &&& sent.last().role == MessageRole::System
                &&& sent.last().content == Some(system@)
            }
        },
{
    lemma_none_of_system(messages);
    assert(thread is None ==> messages =~= Seq::empty());
    if let Ok((asked, kept)) = r {
        let model_of = asked.deep_view();
        assert(model_of.model == asked.model@);
        assert(model_of.tools == asked.tools.deep_view());
        assert(model_of.prompt == asked.prompt.deep_view());
        assert(model_of.thread_messages == asked.thread_messages.deep_view());
        assert(model_of.tool_call_results == asked.tool_call_results.deep_view());
        assert(model_of.model_parameters == opt_members(asked.model_parameters));
        if prepared.prompt.system_prompt is Some {
            assert(asked.thread_messages.deep_view()->0.drop_last() =~= messages);
        }
    }
}

/// Where the thread ends with results of calls, they go to the backend apart, the messages before them
/// are the thread, and the prompt goes with them only where the request gave it.
pub proof fn law_backend_gets_results_apart(
    request: GenerationRequest,
    parameters: GenerationParameters,
    model: String,
    model_description: ModelDescription,
    prepared: PreparedPrompt,
    thread: (Vec<Message>, String),
    r: Result<(PreparedRequest, GenerationPreparation), CoreError>,
)
    requires
        prepared.prompt.main_prompt is Some,
        prepared.prompt.system_prompt is None,
        call_ensures(
            prepare_for_generate,
            (&request, parameters, model, model_description, prepared, Some(thread)),
            r,
        ),
        thread.0@.len() > 0,
        thread.0@.last().tool_call_results is Some,
    ensures
        r matches Ok((asked, kept)) ==> {
            &&& asked.tool_call_results.deep_view() == thread.0@.last().tool_call_results.deep_view()
            &&& asked.thread_messages.deep_view() == Some(thread.0.deep_view().drop_last())
            &&& request.custom_prompt is None ==> asked.prompt is None
            &&& request.custom_prompt is Some ==> asked.prompt.deep_view()
                == prepared.prompt.main_prompt.deep_view()
        },
{
    let messages = thread.0.deep_view();
    assert(messages.last() == thread.0@.last().deep_view());
    assert(messages.last().tool_call_results == thread.0@.last().tool_call_results.deep_view());
    if let Ok((asked, kept)) = r {
        let model_of = asked.deep_view();
        assert(model_of.prompt == asked.prompt.deep_view());
        assert(model_of.thread_messages == asked.thread_messages.deep_view());
        assert(model_of.tool_call_results == asked.tool_call_results.deep_view());
    }
}

/// What is kept of a generation for its thread, where the thread is to be saved: what the backend is
/// told, and behind it the message that asks, of the client and the user, with the prompt and the
/// results that the backend gets. The thread keeps its id, and what was found of the session stays.
pub proof fn law_asked_message_is_kept(
    request: GenerationRequest,
    parameters: GenerationParameters,
    model: String,
    model_description: ModelDescription,
    prepared: PreparedPrompt,
    thread: Option<(Vec<Message>, String)>,
    r: Result<(PreparedRequest, GenerationPreparation), CoreError>,
)
    requires
        prepared.prompt.main_prompt is Some,
        call_ensures(
            prepare_for_generate,
            (&request, parameters, model, model_description, prepared, thread),
            r,
        ),
    ensures
        r matches Ok((asked, kept)) ==> {
            &&& kept.thread_messages_to_save is Some <==> request.save_thread
            &&& kept.thread_messages_to_save.deep_view() matches Some(saved) ==> {
                &&& saved.len() > 0
                &&& saved.last().role == MessageRole::User
                &&& saved.last().client_id == request.client_id.deep_view()
                &&& saved.last().content == asked.prompt.deep_view()
                &&& saved.last().tool_call_results == asked.tool_call_results.deep_view()
                &&& asked.thread_messages is Some ==> Some(saved.drop_last())
                    == asked.thread_messages.deep_view()
                &&& asked.thread_messages is None ==> saved.len() == 1
            }
            &&& thread matches Some(found) ==> (kept.existing_thread_id matches Some(id) && id@
                == found.1@)
            &&& thread is None ==> kept.existing_thread_id is None
            &&& kept.model_description == model_description
            &&& kept.subscriber_infos == prepared.subscriber_infos
            &&& kept.text_tools_used == prepared.text_tools_used
        },
{
    if let Ok((asked, kept)) = r {
        let model_of = asked.deep_view();
        assert(model_of.prompt == asked.prompt.deep_view());
        assert(model_of.thread_messages == asked.thread_messages.deep_view());
        assert(model_of.tool_call_results == asked.tool_call_results.deep_view());
        if let Some(saved) = kept.thread_messages_to_save.deep_view() {
            if asked.thread_messages is Some {
                assert(saved.drop_last() =~= asked.thread_messages.deep_view()->0);
            }
        }
    }
}

/// The calls of a reply are those of its text, where tools were described in the prompt, and then those
/// that the backend reports, in order. A reply that reports none and whose prompt described no tools
/// makes none. A reported call of a tool that nobody has is an error.
pub proof fn law_calls_of_a_reply(
    infos: Seq<SessionSubscriberInfoModel>,
    text: Seq<char>,
    native: Seq<BackendToolCallModel>,
    in_text: Seq<ToolCallModel>,
)
    requires
        calls_in(infos, text, 0) == TextCallsModel::Calls(in_text),
    ensures
        reply_calls(Some(infos), false, text, None) == Ok::<_, ToolCallFault>(
            None::<Seq<ToolCallModel>>,
        ),
        reply_calls(None, false, text, None) == Ok::<_, ToolCallFault>(None::<Seq<ToolCallModel>>),
        reply_calls(Some(infos), true, text, None) == Ok::<_, ToolCallFault>(Some(in_text)),
        all_known(Some(infos), native) ==> {
            &&& reply_calls(Some(infos), true, text, Some(native)) matches Ok(Some(both))
            &&& both.len() == in_text.len() + native.len()
            &&& both.take(in_text.len() as int) == in_text
            &&& both.skip(in_text.len() as int) == client_calls(Some(infos), native)
            &&& reply_calls(Some(infos), false, text, Some(native)) == Ok::<_, ToolCallFault>(
                Some(client_calls(Some(infos), native)),
            )
        },
        !all_known(Some(infos), native) ==> {
            &&& reply_calls(Some(infos), true, text, Some(native)) is Err
            &&& reply_calls(Some(infos), false, text, Some(native)) is Err
        },
{
    let more = client_calls(Some(infos), native);
    assert((in_text + more).take(in_text.len() as int) =~= in_text);
    assert((in_text + more).skip(in_text.len() as int) =~= more);
    assert(Seq::<ToolCallModel>::empty() + more =~= more);
}

/// The response of a generation holds the text of the reply, but where the parts of it were handed out
/// already, and the calls. A thread that is to be saved gets the reply as its last message, of the
/// assistant, whole, whether or not it came in parts, under the id that it has or else the fresh one,
/// and the response tells this id.
pub proof fn law_reply_is_answered_and_saved(
    request: GenerationRequest,
    full_response: String,
    native: Option<Vec<BackendToolCall>>,
    preparation: GenerationPreparation,
    streamed: bool,
    fresh: Option<String>,
    r: Option<Result<FinishedGeneration, CoreError>>,
)
    requires
        preparation.spec_needs_thread_id() ==> fresh is Some,
        call_ensures(
            finish_generation,
            (&request, full_response, native, preparation, streamed, fresh),
            r,
        ),
    ensures
        r matches Some(Ok(finished)) ==> {
            &&& streamed ==> finished.response.response is None
            &&& !streamed ==> finished.response.response.deep_view() == Some(full_response@)
            &&& finished.response.tool_call_part is None
            &&& preparation.thread_messages_to_save is None ==> finished.thread is None
                && finished.response.thread_id is None
            &&& preparation.thread_messages_to_save matches Some(before) ==> {
                &&& finished.thread matches Some((id, saved))
                &&& saved@.len() == before@.len() + 1
                &&& saved.deep_view().drop_last() == before.deep_view()
                &&& saved.deep_view().last().role == MessageRole::Assistant
                &&& saved.deep_view().last().content == Some(full_response@)
                &&& saved.deep_view().last().tool_calls == finished.response.tool_calls.deep_view()
                &&& saved.deep_view().last().client_id == request.client_id.deep_view()
                &&& finished.response.thread_id.deep_view() == Some(id@)
                &&& preparation.existing_thread_id matches Some(known) ==> id@ == known@
                &&& preparation.existing_thread_id is None ==> (fresh matches Some(new) && id@ == new@)
            }
            &&& finished.helper is Some <==> native is Some && finished.thread is Some
        },
        preparation.subscriber_infos is None && native is None ==> (r matches Some(Ok(finished))
            && finished.response.tool_calls is None),
{
    if let Some(Ok(finished)) = r {
        let answered = finished.response.deep_view();
        assert(answered.response == finished.response.response.deep_view());
        assert(answered.tool_call_part == finished.response.tool_call_part.deep_view());
        assert(answered.thread_id == finished.response.thread_id.deep_view());
        assert(answered.tool_calls == finished.response.tool_calls.deep_view());
        if let Some(before) = preparation.thread_messages_to_save {
            let (_, saved) = finished.thread->0;
            assert(saved.deep_view().len() == saved@.len());
            assert(saved.deep_view().drop_last() =~= before.deep_view());
        }
    }
}

/// Tools are described in the prompt exactly where one of those that are offered in the text has a schema
/// that describes properties.
pub proof fn law_prompt_describes_tools_where_there_are_some(
    infos: Seq<SessionSubscriberInfoModel>,
)
    ensures
        has_text_tools(infos) <==> all_text_tool_parameters(offered_tools(infos, ToolType::Text)).len() > 0,
{
    lemma_described(offered_tools(infos, ToolType::Text));
}

/// A thread needs a fresh id exactly where it is to be saved and has none.
pub proof fn law_only_new_threads_need_an_id(preparation: GenerationPreparation, r: bool)
    requires
        call_ensures(GenerationPreparation::needs_thread_id, (&preparation,), r),
    ensures
        preparation.existing_thread_id is Some ==> !r,
        preparation.thread_messages_to_save is None ==> !r,
        preparation.existing_thread_id is None && preparation.thread_messages_to_save is Some ==> r,
{
}

/// What the subscribers of a session give can be added to prompt parameters that are an object, where the
/// names of their own do not get in each other's way.
pub proof fn law_session_fits_an_object(
    own: Map<Seq<char>, Json>,
    infos: Seq<SessionSubscriberInfoModel>,
)
    ensures
        fits_session(Json::Object(own), infos) <==> session_parameters(infos) is Some,
{
}

/// The native tools are offered to the backend under the names with the ids of their clients, and not at
/// all where there are none.
pub proof fn law_native_tools_are_offered(infos: Seq<SessionSubscriberInfoModel>)
    ensures
        native_tools(None) is None,
        ({
            let tools = offered_tools(all_with_offered_names(infos), ToolType::Native);
            &&& tools.len() > 0 ==> native_tools(Some(infos)) == Some(tools)
            &&& tools.len() == 0 ==> native_tools(Some(infos)) is None
        }),
{
}

/// The prompt parameters are those that are set, or else an empty object; a session adds to them.
pub proof fn law_prompt_parameters_are_those_that_are_set(
    parameters: GenerationParametersModel,
    values: Json,
    infos: Seq<SessionSubscriberInfoModel>,
)
    ensures
        parameters.prompt_parameters == Some(values) ==> all_prompt_parameters(parameters, None) == values,
        parameters.prompt_parameters is None ==> all_prompt_parameters(parameters, None) == Json::Object(
            Map::<Seq<char>, Json>::empty(),
        ),
        parameters.prompt_parameters == Some(values) ==> all_prompt_parameters(parameters, Some(infos))
            == with_session(values, all_with_offered_names(infos)),
{
}

/// Parameters to which the session has nothing to add stay as they are, whatever they are. Where it has
/// something to add they must be an object, or nothing where tools are described.
pub proof fn law_session_without_news_changes_nothing(
    parameters: Json,
    infos: Seq<SessionSubscriberInfoModel>,
)
    requires
        session_parameters(infos) is Some,
    ensures
        !has_text_tools(infos) && session_parameters(infos) == Some(no_members()) ==> fits_session(
            parameters,
            infos,
        ) && with_session(parameters, infos) == parameters,
        parameters is Text || parameters is Array ==> (fits_session(parameters, infos)
            <==> !has_text_tools(infos) && session_parameters(infos) == Some(no_members())),
        parameters is Null && has_text_tools(infos) ==> fits_session(parameters, infos),
        parameters is Null && !has_text_tools(infos) ==> (fits_session(parameters, infos)
            <==> session_parameters(infos) == Some(no_members())),
{
    lemma_described(offered_tools(infos, ToolType::Text));
}

} // verus!
