//! The course of a generation.

use serde_json::{Map as JsonMap, Value};
use vstd::prelude::*;
use crate::basic_core::error::CoreError;
use crate::core_lib::error::RequiredParameter;
use crate::core_lib::generation::{chosen_parameters, merge_generation_parameters};
use crate::core_lib::prompts::{
    is_render_error_text, join_blocks, render, render_error_text, render_error_words, rendered,
    system_text, SYSTEM_ROLE_HELPER,
};
use crate::core_lib::templates::{is_sure_to_end, surely_ends};
use crate::json::{clone_value, json, new_map, no_members, object_value, opt_json, Json};
use crate::proto::{Message, MessageModel, MessageRole};
use crate::protocol::{GenerationParameters, GenerationParametersModel};
use crate::text::{concat, texts, trimmed};

verus! {

/// What the names of the programs of backends begin with.
pub const BACKEND_COMMAND_PREFIX: &'static str = "llmvm-";

/// What the names of the programs of backends end with.
pub const BACKEND_COMMAND_SUFFIX: &'static str = "-cli";

/// The program of a backend.
pub fn backend_command(backend: &str) -> (r: String)
    ensures
        r@ == BACKEND_COMMAND_PREFIX@ + backend@ + BACKEND_COMMAND_SUFFIX@,
{
    concat(concat(BACKEND_COMMAND_PREFIX, backend).as_str(), BACKEND_COMMAND_SUFFIX)
}

/// What the core is asked.
#[derive(Debug)]
pub struct GenerationRequest {
    pub preset_id: Option<String>,
    pub parameters: Option<GenerationParameters>,
    pub existing_thread_id: Option<u64>,
    pub save_thread: bool,
}

/// What the core replies.
#[derive(Debug)]
pub struct GenerationResponse {
    pub response: String,
    pub thread_id: Option<u64>,
}

/// A prompt that is ready to use.
#[derive(Debug)]
pub struct ReadyPrompt {
    pub system_prompt: Option<String>,
    pub main_prompt: String,
}

/// What a [`ReadyPrompt`] says.
#[verifier::ext_equal]
pub ghost struct ReadyPromptModel {
    pub system_prompt: Option<Seq<char>>,
    pub main_prompt: Seq<char>,
}

impl DeepView for ReadyPrompt {
    type V = ReadyPromptModel;

    open spec fn deep_view(&self) -> ReadyPromptModel {
        ReadyPromptModel {
            system_prompt: self.system_prompt.deep_view(),
            main_prompt: self.main_prompt@,
        }
    }
}

/// The prompt that the texts of a template make. Both lose the whitespace at their ends. A model
/// that has no chat gets the system text before the main one.
pub open spec fn ready_prompt(
    main: Seq<char>,
    system: Option<Seq<char>>,
    is_chat_model: bool,
) -> ReadyPromptModel {
    match system {
        Some(system) => if is_chat_model {
            ReadyPromptModel {
                system_prompt: Some(trimmed(system)),
                main_prompt: trimmed(main),
            }
        } else {
            ReadyPromptModel {
                system_prompt: None,
                main_prompt: trimmed(system) + "\n\n"@ + trimmed(main),
            }
        },
        None => ReadyPromptModel { system_prompt: None, main_prompt: trimmed(main) },
    }
}

impl ReadyPrompt {
    /// The prompt that the texts of a template make.
    pub fn from_rendered(main: &str, system: Option<String>, is_chat_model: bool) -> (r: Self)
        ensures
            r.deep_view() == ready_prompt(main@, system.deep_view(), is_chat_model),
    {
        let main_prompt = main.trim().to_owned();
        match system {
            Some(system) => {
                let system_prompt = system.as_str().trim().to_owned();
                if is_chat_model {
                    ReadyPrompt { system_prompt: Some(system_prompt), main_prompt }
                } else {
                    let mut longer = system_prompt;
                    longer.append("\n\n");
                    longer.append(main_prompt.as_str());
                    ReadyPrompt { system_prompt: None, main_prompt: longer }
                }
            },
            None => ReadyPrompt { system_prompt: None, main_prompt },
        }
    }

    /// The prompt that the rendering of a template makes, or its error in the words of `handlebars`.
    pub fn from_render(
        rendering: Result<(String, Vec<String>), handlebars::RenderError>,
        is_chat_model: bool,
    ) -> (r: Result<Self, CoreError>)
        ensures
            match rendering {
                Ok((main, blocks)) => r matches Ok(prompt) && prompt.deep_view() == ready_prompt(
                    main@,
                    system_text(texts(blocks@)),
                    is_chat_model,
                ),
                Err(e) => r matches Err(CoreError::TemplateRender(text)) && text@ == render_error_words(e),
            },
    {
        match rendering {
            Ok((main, blocks)) => Ok(
                ReadyPrompt::from_rendered(main.as_str(), join_blocks(blocks), is_chat_model),
            ),
            Err(e) => Err(CoreError::TemplateRender(render_error_text(&e))),
        }
    }

    /// The prompt that a template makes of the parameters.
    pub fn process(template: &str, parameters: &Value, is_chat_model: bool) -> (r: Result<
        Self,
        CoreError,
    >)
        requires
            surely_ends(template@),
        ensures
            match rendered(template@, json(*parameters), SYSTEM_ROLE_HELPER@) {
                Some((main, blocks)) => r matches Ok(prompt) && prompt.deep_view() == ready_prompt(
                    main,
                    system_text(blocks),
                    is_chat_model,
                ),
                None => r matches Err(CoreError::TemplateRender(text)) && is_render_error_text(text@),
            },
    {
        ReadyPrompt::from_render(render(template, parameters, SYSTEM_ROLE_HELPER), is_chat_model)
    }

    /// The prompt of a generation: of the template of the parameters, or else of the one that they
    /// name, which may be stored or built in. One of them is needed.
    pub fn of_parameters(
        parameters: &GenerationParameters,
        stored: Option<String>,
        built_in: Option<String>,
        is_chat_model: bool,
    ) -> (r: Result<Self, CoreError>)
        requires
            chosen_template(parameters.deep_view(), stored.deep_view(), built_in.deep_view()) matches Some(
                template,
            ) ==> surely_ends(template),
        ensures
            match chosen_template(parameters.deep_view(), stored.deep_view(), built_in.deep_view()) {
                Some(template) => match rendered(
                    template,
                    match parameters.deep_view().prompt_parameters {
                        Some(j) => j,
                        None => Json::Object(no_members()),
                    },
                    SYSTEM_ROLE_HELPER@,
                ) {
                    Some((main, blocks)) => r matches Ok(prompt) && prompt.deep_view()
                        == ready_prompt(main, system_text(blocks), is_chat_model),
                    None => r matches Err(CoreError::TemplateRender(text)) && is_render_error_text(text@),
                },
                None => r == Err::<Self, _>(CoreError::TemplateNotFound),
            },
    {
        let prompt_parameters = match &parameters.prompt_parameters {
            Some(v) => clone_value(v),
            None => object_value(new_map()),
        };
        let template = match &parameters.custom_prompt_template {
            Some(template) => Some(template.clone()),
            None => match &parameters.prompt_template_id {
                Some(_) => match stored {
                    Some(template) => Some(template),
                    None => built_in,
                },
                None => None,
            },
        };
        match template {
            Some(template) => ReadyPrompt::process(
                template.as_str(),
                &prompt_parameters,
                is_chat_model,
            ),
            None => Err(CoreError::TemplateNotFound),
        }
    }
}

/// Whether [`ReadyPrompt::of_parameters`] can render the template of the generation, if it has one.
pub fn can_make_prompt(
    parameters: &GenerationParameters,
    stored: &Option<String>,
    built_in: &Option<String>,
) -> (r: bool)
    ensures
        r == (chosen_template(parameters.deep_view(), stored.deep_view(), built_in.deep_view()) matches Some(
            template,
        ) ==> surely_ends(template)),
{
    match (&parameters.custom_prompt_template, &parameters.prompt_template_id, stored, built_in) {
        (Some(template), _, _, _) => is_sure_to_end(template.as_str()),
        (None, Some(_), Some(template), _) => is_sure_to_end(template.as_str()),
        (None, Some(_), None, Some(template)) => is_sure_to_end(template.as_str()),
        _ => true,
    }
}

/// The template of a generation, if there is one.
pub open spec fn chosen_template(
    parameters: GenerationParametersModel,
    stored: Option<Seq<char>>,
    built_in: Option<Seq<char>>,
) -> Option<Seq<char>> {
    match parameters.custom_prompt_template {
        Some(template) => Some(template),
        None => match parameters.prompt_template_id {
            Some(_) => match stored {
                Some(template) => Some(template),
                None => built_in,
            },
            None => None,
        },
    }
}

/// The parameters of a generation, with the model. The preset is the one that the request names.
pub fn resolve_parameters(request: &GenerationRequest, preset: Option<GenerationParameters>) -> (r: Result<
    (GenerationParameters, String),
    CoreError,
>)
    ensures
        match chosen_parameters(preset.deep_view(), request.parameters.deep_view()) {
            None => r == Err::<(GenerationParameters, String), _>(CoreError::MissingParameters),
            Some(parameters) => match parameters.model {
                None => r == Err::<(GenerationParameters, String), _>(
                    CoreError::MissingParameter(RequiredParameter::Model),
                ),
                Some(model) => r matches Ok(found) && found.0.deep_view() == parameters && found.1@
                    == model,
            },
        },
{
    let parameters = match preset {
        Some(preset) => match request.parameters.clone() {
            Some(request_parameters) => merge_generation_parameters(preset, request_parameters),
            None => preset,
        },
        None => match request.parameters.clone() {
            Some(parameters) => parameters,
            None => {
                return Err(CoreError::MissingParameters);
            },
        },
    };
    match parameters.model.clone() {
        Some(model) => Ok((parameters, model)),
        None => Err(CoreError::MissingParameter(RequiredParameter::Model)),
    }
}

/// What a backend is asked.
#[derive(Debug)]
pub struct BackendGenerationRequest {
    pub model: String,
    pub prompt: String,
    pub max_tokens: u64,
    pub thread_messages: Option<Vec<Message>>,
    pub model_parameters: Option<JsonMap<String, Value>>,
}

/// The thread with the system prompt behind it, where there is one.
pub open spec fn with_system_prompt(
    thread: Option<Seq<MessageModel>>,
    system: Option<Seq<char>>,
) -> Option<Seq<MessageModel>> {
    match system {
        Some(content) => Some(
            (match thread {
                Some(messages) => messages,
                None => Seq::empty(),
            }).push(MessageModel { role: MessageRole::System, content }),
        ),
        None => thread,
    }
}

/// Puts the thread, the prompt and the parameters together to what the backend is asked, and the
/// thread as it is to be saved with the prompt, if it is.
pub fn prepare_for_generate(
    request: &GenerationRequest,
    parameters: GenerationParameters,
    model: String,
    prompt: ReadyPrompt,
    thread: Option<Vec<Message>>,
) -> (r: Result<(BackendGenerationRequest, Option<Vec<Message>>), CoreError>)
    ensures
        ({
            let history = with_system_prompt(thread.deep_view(), prompt.system_prompt.deep_view());
            match parameters.max_tokens {
                Some(max_tokens) => {
                    &&& r matches Ok(found)
                    &&& found.0.model == model
                    &&& found.0.prompt@ == prompt.main_prompt@
                    &&& found.0.max_tokens == max_tokens
                    &&& found.0.thread_messages.deep_view() == history
                    &&& found.0.model_parameters == parameters.model_parameters
                    &&& found.1.deep_view() == (if request.save_thread {
                        Some(
                            (match history {
                                Some(messages) => messages,
                                None => Seq::empty(),
                            }).push(
                                MessageModel {
                                    role: MessageRole::User,
                                    content: prompt.main_prompt@,
                                },
                            ),
                        )
                    } else {
                        None
                    })
                },
                None => r == Err::<(BackendGenerationRequest, Option<Vec<Message>>), _>(
                    CoreError::MissingParameter(RequiredParameter::MaxTokens),
                ),
            }
        }),
{
    let mut thread_messages = thread;
    let ghost given = thread_messages.deep_view();
    if let Some(content) = prompt.system_prompt {
        let ghost said = content@;
        let mut messages = match thread_messages {
            Some(messages) => messages,
            None => Vec::new(),
        };
        let ghost before = messages.deep_view();
        assert(given is None ==> before =~= Seq::<MessageModel>::empty());
        messages.push(Message { role: MessageRole::System, content });
        assert(messages.deep_view() =~= before.push(
            MessageModel { role: MessageRole::System, content: said },
        ));
        thread_messages = Some(messages);
    }
    let ghost history = thread_messages.deep_view();
    let saved = if request.save_thread {
        let mut messages = match &thread_messages {
            Some(messages) => messages.clone(),
            None => Vec::new(),
        };
        let ghost before = messages.deep_view();
        assert(before =~= (match history {
            Some(messages) => messages,
            None => Seq::empty(),
        }));
        messages.push(Message { role: MessageRole::User, content: prompt.main_prompt.clone() });
        assert(messages.deep_view() =~= before.push(
            MessageModel { role: MessageRole::User, content: prompt.main_prompt@ },
        ));
        Some(messages)
    } else {
        None
    };
    match parameters.max_tokens {
        Some(max_tokens) => Ok(
            (
                BackendGenerationRequest {
                    model,
                    prompt: prompt.main_prompt,
                    max_tokens,
                    thread_messages,
                    model_parameters: parameters.model_parameters,
                },
                saved,
            ),
        ),
        None => Err(CoreError::MissingParameter(RequiredParameter::MaxTokens)),
    }
}

/// The thread with the reply of the model.
pub fn thread_with_reply(messages: Vec<Message>, response: &str) -> (r: Vec<Message>)
    ensures
        r.deep_view() == messages.deep_view().push(
            MessageModel { role: MessageRole::Assistant, content: response@ },
        ),
{
    let ghost before = messages.deep_view();
    let mut messages = messages;
    messages.push(Message { role: MessageRole::Assistant, content: response.to_owned() });
    assert(messages.deep_view() =~= before.push(
        MessageModel { role: MessageRole::Assistant, content: response@ },
    ));
    messages
}

// ---------------------------------------------------------------------------------------------
// Laws.

/// The texts of a template make a prompt without white space at their ends. A chat gets both apart; a
/// model without chats gets one text, which begins with the system text and ends with the main one, with
/// an empty line between them.
pub proof fn law_prompt_holds_the_texts_of_its_template(
    main: &str,
    system: Option<String>,
    is_chat_model: bool,
    r: ReadyPrompt,
)
    requires
        call_ensures(ReadyPrompt::from_rendered, (main, system, is_chat_model), r),
    ensures
        is_chat_model || system is None ==> r.main_prompt@ == trimmed(main@),
        system matches Some(text) ==> {
            &&& is_chat_model ==> r.system_prompt.deep_view() == Some(trimmed(text@))
            &&& !is_chat_model ==> r.system_prompt is None && r.main_prompt@ == trimmed(text@) + seq![
                '\n',
                '\n',
            ] + trimmed(main@)
        },
        system is None ==> r.system_prompt is None,
{
    reveal_strlit("\n\n");
    assert("\n\n"@ =~= seq!['\n', '\n']);
    assert(r.deep_view().main_prompt == r.main_prompt@);
    assert(r.deep_view().system_prompt == r.system_prompt.deep_view());
}

/// The template of a generation is the one that the parameters hold, or else the stored one, or else
/// the built-in one, and these two only where the parameters name one.
pub proof fn law_template_is_chosen(
    parameters: GenerationParametersModel,
    stored: Option<Seq<char>>,
    built_in: Option<Seq<char>>,
)
    ensures
        parameters.custom_prompt_template is Some ==> chosen_template(parameters, stored, built_in)
            == parameters.custom_prompt_template,
        parameters.custom_prompt_template is None && parameters.prompt_template_id is Some ==> {
            &&& stored is Some ==> chosen_template(parameters, stored, built_in) == stored
            &&& stored is None ==> chosen_template(parameters, stored, built_in) == built_in
        },
        parameters.custom_prompt_template is None && parameters.prompt_template_id is None
            ==> chosen_template(parameters, stored, built_in) is None,
{
}

/// The parameters of a generation are found: each is that of the request where the request sets it, or
/// else that of the preset. A model is needed.
pub proof fn law_parameters_are_resolved(
    request: GenerationRequest,
    preset: Option<GenerationParameters>,
    r: Result<(GenerationParameters, String), CoreError>,
)
    requires
        call_ensures(resolve_parameters, (&request, preset), r),
    ensures
        ({
            let asked = match request.parameters {
                Some(parameters) => parameters.deep_view(),
                None => GenerationParametersModel::none(),
            };
            let given = match preset {
                Some(parameters) => parameters.deep_view(),
                None => GenerationParametersModel::none(),
            };
            &&& r is Ok <==> asked.model is Some || given.model is Some
            &&& r matches Ok((found, model)) ==> {
                &&& asked.model is Some ==> asked.model == Some(model@)
                &&& asked.model is None ==> given.model == Some(model@)
                &&& asked.max_tokens is Some ==> found.max_tokens == asked.max_tokens
                &&& asked.max_tokens is None ==> found.max_tokens == given.max_tokens
                &&& asked.prompt_template_id is Some ==> found.prompt_template_id.deep_view()
                    == asked.prompt_template_id
                &&& asked.prompt_template_id is None ==> found.prompt_template_id.deep_view()
                    == given.prompt_template_id
                &&& asked.custom_prompt_template is Some ==> found.custom_prompt_template.deep_view()
                    == asked.custom_prompt_template
                &&& asked.custom_prompt_template is None ==> found.custom_prompt_template.deep_view()
                    == given.custom_prompt_template
                &&& asked.prompt_parameters is Some ==> opt_json(found.prompt_parameters)
                    == asked.prompt_parameters
                &&& asked.prompt_parameters is None ==> opt_json(found.prompt_parameters)
                    == given.prompt_parameters
            }
        }),
{
    let found = r->Ok_0.0.deep_view();
    assert(found.max_tokens == r->Ok_0.0.max_tokens);
    assert(found.prompt_template_id == r->Ok_0.0.prompt_template_id.deep_view());
    assert(found.custom_prompt_template == r->Ok_0.0.custom_prompt_template.deep_view());
    assert(found.prompt_parameters == opt_json(r->Ok_0.0.prompt_parameters));
}

/// The backend is asked what was prepared: the model, the prompt, the number of tokens and the model
/// parameters are handed on as they are, and the thread whole and in order, with the system prompt as its
/// last message. What is saved is all that, with the prompt as a message of the user behind it.
pub proof fn law_backend_is_asked_what_was_prepared(
    request: GenerationRequest,
    parameters: GenerationParameters,
    model: String,
    prompt: ReadyPrompt,
    thread: Option<Vec<Message>>,
    r: Result<(BackendGenerationRequest, Option<Vec<Message>>), CoreError>,
    messages: Seq<MessageModel>,
)
    requires
        call_ensures(prepare_for_generate, (&request, parameters, model, prompt, thread), r),
        thread matches Some(found) ==> messages == found.deep_view(),
        thread is None ==> messages.len() == 0,
    ensures
        r is Ok <==> parameters.max_tokens is Some,
        r matches Ok((asked, saved)) ==> {
            &&& asked.model@ == model@
            &&& asked.prompt@ == prompt.main_prompt@
            &&& Some(asked.max_tokens) == parameters.max_tokens
            &&& asked.model_parameters == parameters.model_parameters
            &&& prompt.system_prompt is None && thread is Some ==> asked.thread_messages.deep_view()
                == Some(messages)
            &&& prompt.system_prompt matches Some(system) ==> {
                &&& asked.thread_messages.deep_view() matches Some(sent)
                &&& sent.len() == messages.len() + 1
                &&& sent.drop_last() == messages
                &&& sent.last().role == MessageRole::System && sent.last().content == system@
            }
            &&& saved is Some <==> request.save_thread
            &&& saved.deep_view() matches Some(kept) ==> {
                &&& kept.len() > 0
                &&& kept.last().role == MessageRole::User
                &&& kept.last().content == prompt.main_prompt@
                &&& asked.thread_messages is Some ==> Some(kept.drop_last())
                    == asked.thread_messages.deep_view()
                &&& asked.thread_messages is None ==> kept.len() == 1
            }
        },
{
    if let Ok((asked, saved)) = r {
        assert(thread is None ==> messages =~= Seq::empty());
        if prompt.system_prompt is Some {
            assert(asked.thread_messages.deep_view()->0.drop_last() =~= messages);
        }
        if let Some(kept) = saved.deep_view() {
            if asked.thread_messages is Some {
                assert(kept.drop_last() =~= asked.thread_messages.deep_view()->0);
            }
        }
    }
}

/// A reply goes behind all messages of its thread, whole, as a message of the assistant.
pub proof fn law_reply_goes_behind_its_thread(messages: Vec<Message>, response: &str, r: Vec<Message>)
    requires
        call_ensures(thread_with_reply, (messages, response), r),
    ensures
        r.deep_view().len() == messages@.len() + 1,
        r.deep_view().drop_last() == messages.deep_view(),
        r.deep_view().last().role == MessageRole::Assistant,
        r.deep_view().last().content == response@,
{
    assert(r.deep_view().drop_last() =~= messages.deep_view());
}

/// A backend is started by its name between that of the project and the sign of a command.
pub proof fn law_backends_have_their_own_commands(backend: &str, r: String)
    requires
        call_ensures(backend_command, (backend,), r),
    ensures
        r@.take(6) == seq!['l', 'l', 'm', 'v', 'm', '-'],
        r@.subrange(6, 6 + backend@.len() as int) == backend@,
        r@.skip(6 + backend@.len() as int) == seq!['-', 'c', 'l', 'i'],
{
    reveal_strlit("llmvm-");
    reveal_strlit("-cli");
    assert(r@.take(6) =~= seq!['l', 'l', 'm', 'v', 'm', '-']);
    assert(r@.subrange(6, 6 + backend@.len() as int) =~= backend@);
    assert(r@.skip(6 + backend@.len() as int) =~= seq!['-', 'c', 'l', 'i']);
}

} // verus!
