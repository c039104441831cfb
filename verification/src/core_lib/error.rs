//! What can go wrong in the core.

use vstd::prelude::*;
use crate::protocol::ProtocolErrorType;
use crate::text::concat;

verus! {

/// A generation parameter that cannot be left out.
#[derive(Clone, Copy, Debug, PartialEq, Eq, Structural)]
pub enum RequiredParameter {
    Model,
    MaxTokens,
}

/// Why a tool call cannot be read.
#[derive(Clone, Copy, Debug, PartialEq, Eq, Structural)]
pub enum ToolCallFault {
    /// No subscriber has the tool that a backend calls.
    ToolNotFound,
    /// No subscriber has the tool that the text calls.
    NoSuchClientTool,
    /// The schema of the tool does not give the type of the argument.
    PropertyType,
    /// A dollar sign that does not open a multiline value.
    UnrecognizedToken,
    /// An argument value that neither a quote nor a dollar sign opens.
    UnexpectedStart,
}

/// What can go wrong in the core. Errors of other libraries are carried as their text.
#[derive(Debug)]
pub enum CoreError {
    IO(String),
    StdioBackendStart(String),
    TemplateNotFound,
    Utf8Error(String),
    UserHomeNotFound,
    JsonSerialization(String),
    TomlSerialization(String),
    ThreadNotFound,
    PresetNotFound,
    ModelDescriptionParse,
    BackendStdio(ProtocolErrorType, String),
    Protocol(ProtocolErrorType, String),
    TemplateRender(String),
    MissingParameters,
    MissingParameter(RequiredParameter),
    HttpServiceCreate,
    UnexpectedServiceResponse,
    ToolCallParse(ToolCallFault),
}

impl RequiredParameter {
    /// The name of the parameter.
    pub open spec fn spec_name(self) -> Seq<char> {
        match self {
            RequiredParameter::Model => "model"@,
            RequiredParameter::MaxTokens => "max_tokens"@,
        }
    }

    /// The name of the parameter.
    pub fn name(&self) -> (r: &'static str)
        ensures
            r@ == self.spec_name(),
    {
        match self {
            RequiredParameter::Model => "model",
            RequiredParameter::MaxTokens => "max_tokens",
        }
    }
}

impl ToolCallFault {
    /// The fault in words.
    pub open spec fn spec_message(self) -> Seq<char> {
        match self {
            ToolCallFault::ToolNotFound => "tool not found"@,
            ToolCallFault::NoSuchClientTool => "tool does not exist for client"@,
            ToolCallFault::PropertyType => "failed to check type of tool property"@,
            ToolCallFault::UnrecognizedToken => "unrecognized '$' token"@,
            ToolCallFault::UnexpectedStart => "unexpected argument value start token"@,
        }
    }

    /// The fault in words.
    pub fn message(&self) -> (r: &'static str)
        ensures
            r@ == self.spec_message(),
    {
        match self {
            ToolCallFault::ToolNotFound => "tool not found",
            ToolCallFault::NoSuchClientTool => "tool does not exist for client",
            ToolCallFault::PropertyType => "failed to check type of tool property",
            ToolCallFault::UnrecognizedToken => "unrecognized '$' token",
            ToolCallFault::UnexpectedStart => "unexpected argument value start token",
        }
    }
}

impl CoreError {
    /// Whose fault the error is. An error that a backend reported stays what the backend called it.
    pub open spec fn spec_error_type(self) -> ProtocolErrorType {
        match self {
            CoreError::IO(_) => ProtocolErrorType::Internal,
            CoreError::StdioBackendStart(_) => ProtocolErrorType::Internal,
            CoreError::UserHomeNotFound => ProtocolErrorType::Internal,
            CoreError::HttpServiceCreate => ProtocolErrorType::Internal,
            CoreError::UnexpectedServiceResponse => ProtocolErrorType::Internal,
            CoreError::ThreadNotFound => ProtocolErrorType::NotFound,
            CoreError::BackendStdio(error_type, _) => error_type,
            CoreError::Protocol(error_type, _) => error_type,
            _ => ProtocolErrorType::BadRequest,
        }
    }

    /// Whose fault the error is.
    pub fn error_type(&self) -> (r: ProtocolErrorType)
        ensures
            r == self.spec_error_type(),
    {
        match self {
            CoreError::IO(_) => ProtocolErrorType::Internal,
            CoreError::StdioBackendStart(_) => ProtocolErrorType::Internal,
            CoreError::TemplateNotFound => ProtocolErrorType::BadRequest,
            CoreError::Utf8Error(_) => ProtocolErrorType::BadRequest,
            CoreError::UserHomeNotFound => ProtocolErrorType::Internal,
            CoreError::JsonSerialization(_) => ProtocolErrorType::BadRequest,
            CoreError::TomlSerialization(_) => ProtocolErrorType::BadRequest,
            CoreError::ThreadNotFound => ProtocolErrorType::NotFound,
            CoreError::PresetNotFound => ProtocolErrorType::BadRequest,
            CoreError::ModelDescriptionParse => ProtocolErrorType::BadRequest,
            CoreError::BackendStdio(error_type, _) => *error_type,
            CoreError::Protocol(error_type, _) => *error_type,
            CoreError::TemplateRender(_) => ProtocolErrorType::BadRequest,
            CoreError::MissingParameters => ProtocolErrorType::BadRequest,
            CoreError::MissingParameter(_) => ProtocolErrorType::BadRequest,
            CoreError::HttpServiceCreate => ProtocolErrorType::Internal,
            CoreError::UnexpectedServiceResponse => ProtocolErrorType::Internal,
            CoreError::ToolCallParse(_) => ProtocolErrorType::BadRequest,
        }
    }

    /// The error in words.
    pub open spec fn spec_message(self) -> Seq<char> {
        match self {
            CoreError::IO(e) => "io error: "@ + e@,
            CoreError::StdioBackendStart(e) => "failed to start stdio backend: "@ + e@,
            CoreError::TemplateNotFound => "template not found"@,
            CoreError::Utf8Error(e) => "utf8 error: "@ + e@,
            CoreError::UserHomeNotFound => "unable to load app data, could not find user home folder"@,
            CoreError::JsonSerialization(e) => "json serialization error: "@ + e@,
            CoreError::TomlSerialization(e) => "toml serialization error: "@ + e@,
            CoreError::ThreadNotFound => "thread not found"@,
            CoreError::PresetNotFound => "preset not found"@,
            CoreError::ModelDescriptionParse => "failed to parse model name"@,
            CoreError::BackendStdio(_, e) => "backend error (via stdio): "@ + e@,
            CoreError::Protocol(_, e) => "backend error: "@ + e@,
            CoreError::TemplateRender(e) => "tempate render error: "@ + e@,
            CoreError::MissingParameters => "missing generation parameters"@,
            CoreError::MissingParameter(p) => "missing required generation parameter: "@ + p.spec_name(),
            CoreError::HttpServiceCreate => "failed to create http backend service"@,
            CoreError::UnexpectedServiceResponse => "unexpected service response type"@,
            CoreError::ToolCallParse(f) => "failed to parse tool call: "@ + f.spec_message(),
        }
    }

    /// The error in words.
    pub fn message(&self) -> (r: String)
        ensures
            r@ == self.spec_message(),
    {
        match self {
            CoreError::IO(e) => concat("io error: ", e.as_str()),
            CoreError::StdioBackendStart(e) => concat("failed to start stdio backend: ", e.as_str()),
            CoreError::TemplateNotFound => "template not found".to_owned(),
            CoreError::Utf8Error(e) => concat("utf8 error: ", e.as_str()),
            CoreError::UserHomeNotFound =>
                "unable to load app data, could not find user home folder".to_owned(),
            CoreError::JsonSerialization(e) => concat("json serialization error: ", e.as_str()),
            CoreError::TomlSerialization(e) => concat("toml serialization error: ", e.as_str()),
            CoreError::ThreadNotFound => "thread not found".to_owned(),
            CoreError::PresetNotFound => "preset not found".to_owned(),
            CoreError::ModelDescriptionParse => "failed to parse model name".to_owned(),
            CoreError::BackendStdio(_, e) => concat("backend error (via stdio): ", e.as_str()),
            CoreError::Protocol(_, e) => concat("backend error: ", e.as_str()),
            CoreError::TemplateRender(e) => concat("tempate render error: ", e.as_str()),
            CoreError::MissingParameters => "missing generation parameters".to_owned(),
            CoreError::MissingParameter(p) => concat(
                "missing required generation parameter: ",
                p.name(),
            ),
            CoreError::HttpServiceCreate => "failed to create http backend service".to_owned(),
            CoreError::UnexpectedServiceResponse => "unexpected service response type".to_owned(),
            CoreError::ToolCallParse(f) => concat("failed to parse tool call: ", f.message()),
        }
    }
}

// ---------------------------------------------------------------------------------------------
// Laws.

/// An error that a backend or a peer reported stays what it was called, and its words end with the words
/// that were reported. A thread that is not there is not found, and what the machine fails at is no
/// fault of the one who asks.
pub proof fn law_reported_errors_stay_what_they_are(error_type: ProtocolErrorType, text: String)
    ensures
        CoreError::BackendStdio(error_type, text).spec_error_type() == error_type,
        CoreError::Protocol(error_type, text).spec_error_type() == error_type,
        CoreError::ThreadNotFound.spec_error_type() == ProtocolErrorType::NotFound,
        CoreError::IO(text).spec_error_type() == ProtocolErrorType::Internal,
        CoreError::MissingParameters.spec_error_type() == ProtocolErrorType::BadRequest,
        CoreError::TemplateNotFound.spec_error_type() == ProtocolErrorType::BadRequest,
        CoreError::PresetNotFound.spec_error_type() == ProtocolErrorType::BadRequest,
        CoreError::TemplateRender(text).spec_error_type() == ProtocolErrorType::BadRequest,
        text@.is_suffix_of(CoreError::BackendStdio(error_type, text).spec_message()),
        text@.is_suffix_of(CoreError::Protocol(error_type, text).spec_message()),
        text@.is_suffix_of(CoreError::IO(text).spec_message()),
        text@.is_suffix_of(CoreError::TemplateRender(text).spec_message()),
        text@.is_suffix_of(CoreError::JsonSerialization(text).spec_message()),
        text@.is_suffix_of(CoreError::TomlSerialization(text).spec_message()),
        text@.is_suffix_of(CoreError::StdioBackendStart(text).spec_message()),
        text@.is_suffix_of(CoreError::Utf8Error(text).spec_message()),
{
    assert forall|head: Seq<char>| text@.is_suffix_of(#[trigger] (head + text@)) by {
        let whole = head + text@;
        assert(text@ =~= whole.subrange(whole.len() - text@.len(), whole.len() as int));
    }
}

} // verus!
