//! What can go wrong when a request is forwarded to a provider.

use vstd::prelude::*;
use crate::protocol::ProtocolErrorType;
use crate::text::{concat, decimal, decimal_of};

verus! {

/// What can go wrong when a request is forwarded. Errors of other libraries are carried as their
/// text.
#[derive(Debug)]
pub enum OutsourceError {
    ProviderNotFound(String),
    APIKeyNotDefined,
    HostURLParse,
    HttpRequestError(String),
    BadHttpStatusCode { status: u16, reason: String, body: String },
    Serialization(String),
    NoTextInResponse,
    InvalidToolCall,
    ModelDescriptionParse,
    ModelParamsNotObject,
}

impl OutsourceError {
    /// Whose fault the error is.
    pub open spec fn spec_error_type(self) -> ProtocolErrorType {
        match self {
            OutsourceError::ProviderNotFound(_) => ProtocolErrorType::BadRequest,
            OutsourceError::APIKeyNotDefined => ProtocolErrorType::BadRequest,
            OutsourceError::HostURLParse => ProtocolErrorType::BadRequest,
            OutsourceError::ModelDescriptionParse => ProtocolErrorType::BadRequest,
            OutsourceError::ModelParamsNotObject => ProtocolErrorType::BadRequest,
            _ => ProtocolErrorType::Internal,
        }
    }

    /// Whose fault the error is.
    pub fn error_type(&self) -> (r: ProtocolErrorType)
        ensures
            r == self.spec_error_type(),
    {
        match self {
            OutsourceError::ProviderNotFound(_) => ProtocolErrorType::BadRequest,
            OutsourceError::APIKeyNotDefined => ProtocolErrorType::BadRequest,
            OutsourceError::HostURLParse => ProtocolErrorType::BadRequest,
            OutsourceError::HttpRequestError(_) => ProtocolErrorType::Internal,
            OutsourceError::BadHttpStatusCode { .. } => ProtocolErrorType::Internal,
            OutsourceError::Serialization(_) => ProtocolErrorType::Internal,
            OutsourceError::NoTextInResponse => ProtocolErrorType::Internal,
            OutsourceError::InvalidToolCall => ProtocolErrorType::Internal,
            OutsourceError::ModelDescriptionParse => ProtocolErrorType::BadRequest,
            OutsourceError::ModelParamsNotObject => ProtocolErrorType::BadRequest,
        }
    }

    /// The error in words.
    pub open spec fn spec_message(self) -> Seq<char> {
        match self {
            OutsourceError::ProviderNotFound(name) =>
                "provider for model not found, assumed provider name is '"@ + name@ + "'"@,
            OutsourceError::APIKeyNotDefined => "api key not defined"@,
            OutsourceError::HostURLParse => "could not parse api host as url"@,
            OutsourceError::HttpRequestError(e) => "http request error: "@ + e@,
            OutsourceError::BadHttpStatusCode { status, reason, body } => "bad http status code: "@
                + decimal(status as nat) + " "@ + reason@ + " body: "@ + body@,
            OutsourceError::Serialization(e) => "json serialization error: "@ + e@,
            OutsourceError::NoTextInResponse => "no text in response"@,
            OutsourceError::InvalidToolCall => "invalid tool call"@,
            OutsourceError::ModelDescriptionParse => "failed to parse model name"@,
            OutsourceError::ModelParamsNotObject => "model parameters should be object"@,
        }
    }

    /// The error in words.
    pub fn message(&self) -> (r: String)
        ensures
            r@ == self.spec_message(),
    {
        match self {
            OutsourceError::ProviderNotFound(name) => {
                let mut r = concat(
                    "provider for model not found, assumed provider name is '",
                    name.as_str(),
                );
                r.append("'");
                r
            },
            OutsourceError::APIKeyNotDefined => "api key not defined".to_owned(),
            OutsourceError::HostURLParse => "could not parse api host as url".to_owned(),
            OutsourceError::HttpRequestError(e) => concat("http request error: ", e.as_str()),
            OutsourceError::BadHttpStatusCode { status, reason, body } => {
                let mut r = concat("bad http status code: ", decimal_of(*status as u64).as_str());
                r.append(" ");
                r.append(reason.as_str());
                r.append(" body: ");
                r.append(body.as_str());
                r
            },
            OutsourceError::Serialization(e) => concat("json serialization error: ", e.as_str()),
            OutsourceError::NoTextInResponse => "no text in response".to_owned(),
            OutsourceError::InvalidToolCall => "invalid tool call".to_owned(),
            OutsourceError::ModelDescriptionParse => "failed to parse model name".to_owned(),
            OutsourceError::ModelParamsNotObject => "model parameters should be object".to_owned(),
        }
    }
}

// ---------------------------------------------------------------------------------------------
// Laws.

/// Words that an error carries are told, and what the provider or the way to it fails at is no fault of
/// the one who asks.
pub proof fn law_carried_words_are_told(text: String, status: u16, reason: String)
    ensures
        text@.is_suffix_of(OutsourceError::HttpRequestError(text).spec_message()),
        text@.is_suffix_of(OutsourceError::Serialization(text).spec_message()),
        text@.is_suffix_of(
            (OutsourceError::BadHttpStatusCode { status, reason, body: text }).spec_message(),
        ),
        OutsourceError::HttpRequestError(text).spec_error_type() == ProtocolErrorType::Internal,
        OutsourceError::Serialization(text).spec_error_type() == ProtocolErrorType::Internal,
        OutsourceError::NoTextInResponse.spec_error_type() == ProtocolErrorType::Internal,
        (OutsourceError::BadHttpStatusCode { status, reason, body: text }).spec_error_type()
            == ProtocolErrorType::Internal,
        OutsourceError::APIKeyNotDefined.spec_error_type() == ProtocolErrorType::BadRequest,
        OutsourceError::ProviderNotFound(text).spec_error_type() == ProtocolErrorType::BadRequest,
        OutsourceError::ModelDescriptionParse.spec_error_type() == ProtocolErrorType::BadRequest,
{
    assert forall|head: Seq<char>| text@.is_suffix_of(#[trigger] (head + text@)) by {
        let whole = head + text@;
        assert(text@ =~= whole.subrange(whole.len() - text@.len(), whole.len() as int));
    }
}

} // verus!
