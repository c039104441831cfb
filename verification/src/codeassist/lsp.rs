//! The messages of the language server protocol.

use serde_json::Value;
use vstd::prelude::*;
use crate::codeassist::jsonrpc::{
    or_null, response_to, JsonRpcMessage, JsonRpcMessageModel, JsonRpcNotificationModel,
    JsonRpcRequest, JsonRpcRequestModel, JsonRpcResponseModel, JSON_RPC_VERSION,
};
use crate::json::{clone_value, json, null_value, Json};
use crate::text::concat;

verus! {

pub const CONTENT_LENGTH_HEADER: &'static str = "Content-Length";

pub const CODE_ASSIST_COMMAND_PREFIX: &'static str = "llmvm-codeassist/";

pub const CODE_COMPLETE_COMMAND_ID: &'static str = "llmvm-codeassist/complete";

pub const MANUAL_CONTEXT_ADD_COMMAND_ID: &'static str = "llmvm-codeassist/addContext";

pub const NEW_CHAT_THREAD_COMMAND_ID: &'static str = "llmvm-codeassist/newChatThread";

pub const TOGGLE_FILE_CONTEXT_COMMAND_ID: &'static str = "llmvm-codeassist/toggleFileContext";

/// The request with which a session begins.
pub const INITIALIZE_METHOD: &'static str = "initialize";

/// The request for what can be done with a piece of code.
pub const CODE_ACTION_METHOD: &'static str = "textDocument/codeAction";

/// The request to carry a command out.
pub const EXECUTE_COMMAND_METHOD: &'static str = "workspace/executeCommand";

/// The notification that a document was opened.
pub const DID_OPEN_METHOD: &'static str = "textDocument/didOpen";

/// The notification that a document was changed.
pub const DID_CHANGE_METHOD: &'static str = "textDocument/didChange";

/// The notification that a document was closed.
pub const DID_CLOSE_METHOD: &'static str = "textDocument/didClose";

/// The notification with which a session ends.
pub const EXIT_METHOD: &'static str = "exit";

/// A header of a message.
#[derive(Debug)]
pub struct Header {
    pub key: String,
    pub value: String,
}

/// What a [`Header`] says.
#[verifier::ext_equal]
pub ghost struct HeaderModel {
    pub key: Seq<char>,
    pub value: Seq<char>,
}

impl DeepView for Header {
    type V = HeaderModel;

    open spec fn deep_view(&self) -> HeaderModel {
        HeaderModel { key: self.key@, value: self.value@ }
    }
}

impl Clone for Header {
    fn clone(&self) -> (r: Self)
        ensures
            r.deep_view() == self.deep_view(),
    {
        Header { key: self.key.clone(), value: self.value.clone() }
    }
}

/// A message with its headers.
#[derive(Debug)]
pub struct LspMessage {
    pub headers: Vec<Header>,
    pub payload: JsonRpcMessage,
}

/// What an [`LspMessage`] says.
#[verifier::ext_equal]
pub ghost struct LspMessageModel {
    pub headers: Seq<HeaderModel>,
    pub payload: JsonRpcMessageModel,
}

impl DeepView for LspMessage {
    type V = LspMessageModel;

    open spec fn deep_view(&self) -> LspMessageModel {
        LspMessageModel { headers: self.headers.deep_view(), payload: self.payload.deep_view() }
    }
}

impl Clone for LspMessage {
    fn clone(&self) -> (r: Self)
        ensures
            r.deep_view() == self.deep_view(),
    {
        LspMessage { headers: self.headers.clone(), payload: self.payload.clone() }
    }
}

/// Why something cannot be read from a message, or written to it.
#[derive(Debug)]
pub enum LspFault {
    /// The message is a response with an error.
    ErrorResponse(String),
    NoResponseToRead,
    NoResponseToWrite,
    NoRequestParams,
    NoNotificationParams,
    NoMessageWithParams,
}

/// What an [`LspFault`] says.
#[verifier::ext_equal]
pub ghost enum LspFaultModel {
    ErrorResponse(Seq<char>),
    NoResponseToRead,
    NoResponseToWrite,
    NoRequestParams,
    NoNotificationParams,
    NoMessageWithParams,
}

impl DeepView for LspFault {
    type V = LspFaultModel;

    open spec fn deep_view(&self) -> LspFaultModel {
        match self {
            LspFault::ErrorResponse(message) => LspFaultModel::ErrorResponse(message@),
            LspFault::NoResponseToRead => LspFaultModel::NoResponseToRead,
            LspFault::NoResponseToWrite => LspFaultModel::NoResponseToWrite,
            LspFault::NoRequestParams => LspFaultModel::NoRequestParams,
            LspFault::NoNotificationParams => LspFaultModel::NoNotificationParams,
            LspFault::NoMessageWithParams => LspFaultModel::NoMessageWithParams,
        }
    }
}

impl LspFaultModel {
    /// The fault in words.
    pub open spec fn message(self) -> Seq<char> {
        match self {
            LspFaultModel::ErrorResponse(message) => {
                "json rpc error encountered while converting into result: "@ + message
            },
            LspFaultModel::NoResponseToRead => {
                "payload should include response when converting lsp message to result"@
            },
            LspFaultModel::NoResponseToWrite => {
                "payload should include response when setting lsp message result"@
            },
            LspFaultModel::NoRequestParams => "expected params in lsp message request"@,
            LspFaultModel::NoNotificationParams => "expected params in lsp message notification"@,
            LspFaultModel::NoMessageWithParams => {
                "payload is not request or notification when getting lsp message params"@
            },
        }
    }
}

impl LspFault {
    /// The fault in words.
    pub fn message(&self) -> (r: String)
        ensures
            r@ == self.deep_view().message(),
    {
        match self {
            LspFault::ErrorResponse(message) => concat(
                "json rpc error encountered while converting into result: ",
                message.as_str(),
            ),
            LspFault::NoResponseToRead => {
                "payload should include response when converting lsp message to result".to_owned()
            },
            LspFault::NoResponseToWrite => {
                "payload should include response when setting lsp message result".to_owned()
            },
            LspFault::NoRequestParams => "expected params in lsp message request".to_owned(),
            LspFault::NoNotificationParams => {
                "expected params in lsp message notification".to_owned()
            },
            LspFault::NoMessageWithParams => {
                "payload is not request or notification when getting lsp message params".to_owned()
            },
        }
    }
}

/// The result that a message carries. A response without one has the result `null`.
pub open spec fn result_in(payload: JsonRpcMessageModel) -> Result<Json, LspFaultModel> {
    match payload {
        JsonRpcMessageModel::Response(response) => match response.error {
            Some(error) => Err(LspFaultModel::ErrorResponse(error.message)),
            None => Ok(or_null(response.result)),
        },
        _ => Err(LspFaultModel::NoResponseToRead),
    }
}

/// The parameters that a message carries.
pub open spec fn params_in(payload: JsonRpcMessageModel) -> Result<Json, LspFaultModel> {
    match payload {
        JsonRpcMessageModel::Request(request) => match request.params {
            Some(params) => Ok(params),
            None => Err(LspFaultModel::NoRequestParams),
        },
        JsonRpcMessageModel::Notification(notification) => match notification.params {
            Some(params) => Ok(params),
            None => Err(LspFaultModel::NoNotificationParams),
        },
        _ => Err(LspFaultModel::NoMessageWithParams),
    }
}

/// What comes of reading a document.
pub open spec fn read_value(result: Result<Value, LspFault>) -> Result<Json, LspFaultModel> {
    match result {
        Ok(value) => Ok(json(value)),
        Err(fault) => Err(fault.deep_view()),
    }
}

impl LspMessage {
    /// A request without headers, and without a number.
    pub fn new_request(method: &str, params: Value) -> (r: Self)
        ensures
            r.deep_view() == (LspMessageModel {
                headers: Seq::empty(),
                payload: JsonRpcMessageModel::Request(
                    JsonRpcRequestModel {
                        jsonrpc_version: JSON_RPC_VERSION@,
                        method: method@,
                        params: Some(json(params)),
                        id: Json::Null,
                    },
                ),
            }),
    {
        let r = LspMessage {
            headers: Vec::new(),
            payload: JsonRpcMessage::new_request(method.to_owned(), Some(params)),
        };
        assert(r.headers.deep_view() =~= Seq::<HeaderModel>::empty());
        r
    }

    /// A notification without headers.
    pub fn new_notification(method: &str, params: Value) -> (r: Self)
        ensures
            r.deep_view() == (LspMessageModel {
                headers: Seq::empty(),
                payload: JsonRpcMessageModel::Notification(
                    JsonRpcNotificationModel {
                        jsonrpc_version: JSON_RPC_VERSION@,
                        method: method@,
                        params: Some(json(params)),
                    },
                ),
            }),
    {
        let r = LspMessage {
            headers: Vec::new(),
            payload: JsonRpcMessage::new_notification(method.to_owned(), Some(params)),
        };
        assert(r.headers.deep_view() =~= Seq::<HeaderModel>::empty());
        r
    }

    /// The answer to a request, without headers.
    pub fn new_response(result: Result<Value, String>, id: Value) -> (r: Self)
        ensures
            r.deep_view() == (LspMessageModel {
                headers: Seq::empty(),
                payload: JsonRpcMessageModel::Response(
                    response_to(
                        match result {
                            Ok(value) => Ok(json(value)),
                            Err(message) => Err(message@),
                        },
                        json(id),
                    ),
                ),
            }),
    {
        let r = LspMessage {
            headers: Vec::new(),
            payload: JsonRpcMessage::new_response(result, id),
        };
        assert(r.headers.deep_view() =~= Seq::<HeaderModel>::empty());
        r
    }

    /// The result that the message carries.
    pub fn get_result(&self) -> (r: Result<Value, LspFault>)
        ensures
            read_value(r) == result_in(self.deep_view().payload),
    {
        match &self.payload {
            JsonRpcMessage::Response(response) => match &response.error {
                Some(error) => Err(LspFault::ErrorResponse(error.message.clone())),
                None => match &response.result {
                    Some(value) => Ok(clone_value(value)),
                    None => Ok(null_value()),
                },
            },
            _ => Err(LspFault::NoResponseToRead),
        }
    }

    /// The message with another result.
    pub fn with_result(&self, result: Value) -> (r: Result<LspMessage, LspFault>)
        ensures
            match self.deep_view().payload {
                JsonRpcMessageModel::Response(response) => {
                    &&& r is Ok
                    &&& r->Ok_0.deep_view() == (LspMessageModel {
                        headers: self.deep_view().headers,
                        payload: JsonRpcMessageModel::Response(
                            JsonRpcResponseModel { result: Some(json(result)), ..response },
                        ),
                    })
                },
                _ => r matches Err(fault) && fault.deep_view() == LspFaultModel::NoResponseToWrite,
            },
    {
        match &self.payload {
            JsonRpcMessage::Response(response) => {
                let mut response = response.clone();
                response.result = Some(result);
                Ok(
                    LspMessage {
                        headers: self.headers.clone(),
                        payload: JsonRpcMessage::Response(response),
                    },
                )
            },
            _ => Err(LspFault::NoResponseToWrite),
        }
    }

    /// Gives the message another result. What is no response stays as it is.
    pub fn set_result(&mut self, result: Value) -> (r: Result<(), LspFault>)
        ensures
            match old(self).deep_view().payload {
                JsonRpcMessageModel::Response(response) => {
                    &&& r is Ok
                    &&& final(self).deep_view() == (LspMessageModel {
                        headers: old(self).deep_view().headers,
                        payload: JsonRpcMessageModel::Response(
                            JsonRpcResponseModel { result: Some(json(result)), ..response },
                        ),
                    })
                },
                _ => {
                    &&& r matches Err(fault) && fault.deep_view() == LspFaultModel::NoResponseToWrite
                    &&& final(self).deep_view() == old(self).deep_view()
                },
            },
            final(self).deep_view().headers == old(self).deep_view().headers,
            r is Ok <==> old(self).deep_view().payload is Response,
            r is Ok ==> (final(self).deep_view().payload matches JsonRpcMessageModel::Response(written)
                && written.result == Some(json(result)) && (
            old(self).deep_view().payload matches JsonRpcMessageModel::Response(before) && written.id
                == before.id && written.error == before.error)),
    {
        match self.with_result(result) {
            Ok(message) => {
                *self = message;
                Ok(())
            },
            Err(fault) => Err(fault),
        }
    }

    /// The parameters that the message carries.
    pub fn get_params(&self) -> (r: Result<Value, LspFault>)
        ensures
            read_value(r) == params_in(self.deep_view().payload),
    {
        match &self.payload {
            JsonRpcMessage::Request(request) => match &request.params {
                Some(params) => Ok(clone_value(params)),
                None => Err(LspFault::NoRequestParams),
            },
            JsonRpcMessage::Notification(notification) => match &notification.params {
                Some(params) => Ok(clone_value(params)),
                None => Err(LspFault::NoNotificationParams),
            },
            _ => Err(LspFault::NoMessageWithParams),
        }
    }
}

/// A message on its way.
#[derive(Debug)]
pub struct LspMessageInfo {
    pub message: LspMessage,
    /// Whether the message goes to the language server, and not to the editor.
    pub to_real_server: bool,
    /// The request that the message answers, where it is of interest.
    pub origin_request: Option<JsonRpcRequest>,
}

/// What an [`LspMessageInfo`] says.
#[verifier::ext_equal]
pub ghost struct LspMessageInfoModel {
    pub message: LspMessageModel,
    pub to_real_server: bool,
    pub origin_request: Option<JsonRpcRequestModel>,
}

impl DeepView for LspMessageInfo {
    type V = LspMessageInfoModel;

    open spec fn deep_view(&self) -> LspMessageInfoModel {
        LspMessageInfoModel {
            message: self.message.deep_view(),
            to_real_server: self.to_real_server,
            origin_request: self.origin_request.deep_view(),
        }
    }
}

impl Clone for LspMessageInfo {
    fn clone(&self) -> (r: Self)
        ensures
            r.deep_view() == self.deep_view(),
    {
        LspMessageInfo {
            message: self.message.clone(),
            to_real_server: self.to_real_server,
            origin_request: self.origin_request.clone(),
        }
    }
}

impl LspMessageInfo {
    /// A message on its way.
    pub fn new(message: LspMessage, to_real_server: bool) -> (r: Self)
        ensures
            r.deep_view() == (LspMessageInfoModel {
                message: message.deep_view(),
                to_real_server,
                origin_request: None,
            }),
    {
        LspMessageInfo { message, to_real_server, origin_request: None }
    }
}

// ---------------------------------------------------------------------------------------------
// Laws.

/// The result of a response is read as it is, `null` where it has none, and an error is told in its
/// words. Requests and notifications have no result, but the parameters that they carry.
pub proof fn law_results_and_params_are_read(
    response: JsonRpcResponseModel,
    request: JsonRpcRequestModel,
    notification: JsonRpcNotificationModel,
    value: Json,
)
    ensures
        response.error is None && response.result == Some(value) ==> result_in(
            JsonRpcMessageModel::Response(response),
        ) == Ok::<_, LspFaultModel>(value),
        response.error is None && response.result is None ==> result_in(
            JsonRpcMessageModel::Response(response),
        ) == Ok::<_, LspFaultModel>(Json::Null),
        response.error matches Some(error) ==> (result_in(JsonRpcMessageModel::Response(response))
            matches Err(fault) && error.message.is_suffix_of(fault.message())),
        result_in(JsonRpcMessageModel::Request(request)) is Err,
        result_in(JsonRpcMessageModel::Notification(notification)) is Err,
        request.params == Some(value) ==> params_in(JsonRpcMessageModel::Request(request)) == Ok::<
            _,
            LspFaultModel,
        >(value),
        notification.params == Some(value) ==> params_in(JsonRpcMessageModel::Notification(notification))
            == Ok::<_, LspFaultModel>(value),
        request.params is None ==> params_in(JsonRpcMessageModel::Request(request)) is Err,
        params_in(JsonRpcMessageModel::Response(response)) is Err,
{
    if let Some(error) = response.error {
        let head = "json rpc error encountered while converting into result: "@;
        let whole = head + error.message;
        assert(whole.subrange(whole.len() - error.message.len(), whole.len() as int) =~= error.message);
    }
}

/// A request that is made here holds its method and its parameters, and no number yet; a notification
/// holds the same.
pub proof fn law_new_messages_hold_what_is_said(method: &str, params: Value, r: LspMessage, s: LspMessage)
    requires
        call_ensures(LspMessage::new_request, (method, params), r),
        call_ensures(LspMessage::new_notification, (method, params), s),
    ensures
        r.deep_view().payload matches JsonRpcMessageModel::Request(request) && request.method == method@
            && request.params == Some(json(params)) && request.id is Null && request.jsonrpc_version
            == "2.0"@,
        s.deep_view().payload matches JsonRpcMessageModel::Notification(notification)
            && notification.method == method@ && notification.params == Some(json(params))
            && notification.jsonrpc_version == "2.0"@,
        r.headers@.len() == 0 && s.headers@.len() == 0,
{
    assert(r.deep_view().headers.len() == r.headers@.len());
    assert(s.deep_view().headers.len() == s.headers@.len());
}

/// A response that gets another result holds that result, and stays the answer to the same request.
pub proof fn law_other_result_is_held(message: LspMessage, result: Value, r: Result<LspMessage, LspFault>)
    requires
        call_ensures(LspMessage::with_result, (&message, result), r),
    ensures
        message.deep_view().payload matches JsonRpcMessageModel::Response(before) ==> (r matches Ok(after)
            && (after.deep_view().payload matches JsonRpcMessageModel::Response(held) && held.result
            == Some(json(result)) && held.id == before.id && held.error == before.error)
            && after.deep_view().headers == message.deep_view().headers),
        !(message.deep_view().payload is Response) ==> r is Err,
{
}

} // verus!
