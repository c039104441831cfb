//! What is asked for on the command line.

use vstd::prelude::*;
use crate::protocol::{
    BackendGenerationRequest, BackendGenerationRequestModel, GenerationParameters,
    GenerationParametersModel, GenerationRequest, GenerationRequestModel,
};

verus! {

/// A generation that a backend is asked for.
#[derive(Debug)]
pub struct GenerateModelArgs {
    pub model: String,
    pub prompt: String,
    pub max_tokens: u64,
}

/// A server of HTTP.
#[derive(Debug)]
pub struct HttpServerArgs {
    pub port: Option<u16>,
}

/// What a backend is to do. Without a command it serves on its standard input and output.
#[derive(Debug)]
pub enum BackendCommand {
    Generate(GenerateModelArgs),
    Http(HttpServerArgs),
}

impl GenerateModelArgs {
    /// The request for the backend.
    pub fn into_request(self) -> (r: BackendGenerationRequest)
        ensures
            r.deep_view() == (BackendGenerationRequestModel {
                model: self.model@,
                prompt: Some(self.prompt@),
                max_tokens: self.max_tokens,
                thread_messages: None,
                model_parameters: None,
                tools: None,
                tool_call_results: None,
            }),
    {
        BackendGenerationRequest {
            model: self.model,
            prompt: Some(self.prompt),
            max_tokens: self.max_tokens,
            thread_messages: None,
            model_parameters: None,
            tools: None,
            tool_call_results: None,
        }
    }
}

impl HttpServerArgs {
    /// The port to serve on: the one of the command line, or else the one of the configuration.
    pub fn port_or(&self, configured: u16) -> (r: u16)
        ensures
            r == (match self.port {
                Some(port) => port,
                None => configured,
            }),
    {
        match self.port {
            Some(port) => port,
            None => configured,
        }
    }
}

/// A generation that the core is asked for.
#[derive(Debug)]
pub struct GenerateArgs {
    pub model: String,
    pub prompt: String,
    pub model_parameters_preset_id: Option<String>,
    pub existing_thread_id: Option<String>,
    pub save_thread: bool,
    pub max_tokens: u64,
    /// Whether the reply is to be shown as it comes.
    pub stream: bool,
}

impl GenerateArgs {
    /// The request for the core. The prompt is taken as a template.
    pub fn into_request(self) -> (r: GenerationRequest)
        ensures
            r.deep_view() == (GenerationRequestModel {
                preset_id: None,
                parameters: Some(
                    GenerationParametersModel {
                        model: Some(self.model@),
                        custom_prompt_template: Some(self.prompt@),
                        max_tokens: Some(self.max_tokens),
                        ..GenerationParametersModel::none()
                    },
                ),
                custom_prompt: None,
                existing_thread_id: self.existing_thread_id.deep_view(),
                session_id: None,
                session_tag: None,
                save_thread: self.save_thread,
                client_id: None,
            }),
    {
        GenerationRequest {
            preset_id: None,
            parameters: Some(
                GenerationParameters {
                    model: Some(self.model),
                    prompt_template_id: None,
                    custom_prompt_template: Some(self.prompt),
                    max_tokens: Some(self.max_tokens),
                    model_parameters: None,
                    prompt_parameters: None,
                },
            ),
            custom_prompt: None,
            existing_thread_id: self.existing_thread_id,
            session_id: None,
            session_tag: None,
            save_thread: self.save_thread,
            client_id: None,
        }
    }
}

// ---------------------------------------------------------------------------------------------
// Laws.

/// What is asked for on the command line of a backend is what the backend is asked.
pub proof fn law_backend_is_asked_what_is_typed(args: GenerateModelArgs, r: BackendGenerationRequest)
    requires
        call_ensures(GenerateModelArgs::into_request, (args,), r),
    ensures
        r.model@ == args.model@,
        r.prompt matches Some(prompt) && prompt@ == args.prompt@,
        r.max_tokens == args.max_tokens,
        r.thread_messages is None && r.tools is None && r.tool_call_results is None,
        r.model_parameters is None,
{
    let said = r.deep_view();
    assert(said.prompt == r.prompt.deep_view());
    assert(said.thread_messages == r.thread_messages.deep_view());
    assert(said.tool_call_results == r.tool_call_results.deep_view());
}

/// What is asked for on the command line of the core is what the core is asked: the model, the number of
/// tokens, the prompt as a template, the thread to go on with, and whether to save it.
pub proof fn law_core_is_asked_what_is_typed(args: GenerateArgs, r: GenerationRequest)
    requires
        call_ensures(GenerateArgs::into_request, (args,), r),
    ensures
        r.parameters matches Some(parameters) && parameters.model.deep_view() == Some(args.model@)
            && parameters.custom_prompt_template.deep_view() == Some(args.prompt@) && parameters.max_tokens
            == Some(args.max_tokens) && parameters.prompt_template_id is None,
        r.existing_thread_id.deep_view() == args.existing_thread_id.deep_view(),
        r.save_thread == args.save_thread,
        r.custom_prompt is None && r.preset_id is None && r.session_id is None && r.session_tag is None,
{
    let said = r.deep_view();
    assert(said.parameters == r.parameters.deep_view());
    assert(said.existing_thread_id == r.existing_thread_id.deep_view());
    assert(said.custom_prompt == r.custom_prompt.deep_view());
    assert(said.preset_id == r.preset_id.deep_view());
    assert(said.session_id == r.session_id.deep_view());
    assert(said.session_tag == r.session_tag.deep_view());
    if let Some(parameters) = r.parameters {
        let set = parameters.deep_view();
        assert(said.parameters == Some(set));
        assert(set.model == parameters.model.deep_view());
        assert(set.custom_prompt_template == parameters.custom_prompt_template.deep_view());
        assert(set.prompt_template_id == parameters.prompt_template_id.deep_view());
    }
}

/// The port of the command line comes before that of the configuration.
pub proof fn law_typed_port_comes_first(args: HttpServerArgs, configured: u16, r: u16)
    requires
        call_ensures(HttpServerArgs::port_or, (&args, configured), r),
    ensures
        args.port is Some ==> Some(r) == args.port,
        args.port is None ==> r == configured,
{
}

} // verus!
