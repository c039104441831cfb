//! The messages between an editor and a language server.

use serde_json::Value;
use vstd::prelude::*;
use crate::json::{
    as_array, as_i64, as_object, as_str, clone_value, depth_limit, documents, get, i64_value, is_null,
    is_plain_document, is_plain_name, json, lemma_next_member, lemma_three_members, members_text, members_written, no_members, null_value,
    opt_json, spell, spelled, text_value, Json, Written,
};
use crate::protocol::clone_opt_value;
use crate::text::{concat, decimal, decimal_of};

verus! {

pub const ID_KEY: &'static str = "id";

pub const METHOD_KEY: &'static str = "method";

pub const JSON_RPC_VERSION: &'static str = "2.0";

// ---------------------------------------------------------------------------------------------
// Messages.

/// A message that is to be answered.
#[derive(Debug)]
pub struct JsonRpcRequest {
    pub jsonrpc_version: String,
    pub method: String,
    pub params: Option<Value>,
    pub id: Value,
}

/// What a [`JsonRpcRequest`] says.
#[verifier::ext_equal]
pub ghost struct JsonRpcRequestModel {
    pub jsonrpc_version: Seq<char>,
    pub method: Seq<char>,
    pub params: Option<Json>,
    pub id: Json,
}

impl DeepView for JsonRpcRequest {
    type V = JsonRpcRequestModel;

    open spec fn deep_view(&self) -> JsonRpcRequestModel {
        JsonRpcRequestModel {
            jsonrpc_version: self.jsonrpc_version@,
            method: self.method@,
            params: opt_json(self.params),
            id: json(self.id),
        }
    }
}

impl Clone for JsonRpcRequest {
    fn clone(&self) -> (r: Self)
        ensures
            r.deep_view() == self.deep_view(),
    {
        JsonRpcRequest {
            jsonrpc_version: self.jsonrpc_version.clone(),
            method: self.method.clone(),
            params: clone_opt_value(&self.params),
            id: clone_value(&self.id),
        }
    }
}

/// Why a request is not answered with a result.
#[derive(Debug)]
pub struct JsonRpcResponseError {
    pub code: i32,
    pub message: String,
    pub data: Option<Value>,
}

/// What a [`JsonRpcResponseError`] says.
#[verifier::ext_equal]
pub ghost struct JsonRpcResponseErrorModel {
    pub code: i32,
    pub message: Seq<char>,
    pub data: Option<Json>,
}

impl DeepView for JsonRpcResponseError {
    type V = JsonRpcResponseErrorModel;

    open spec fn deep_view(&self) -> JsonRpcResponseErrorModel {
        JsonRpcResponseErrorModel {
            code: self.code,
            message: self.message@,
            data: opt_json(self.data),
        }
    }
}

impl Clone for JsonRpcResponseError {
    fn clone(&self) -> (r: Self)
        ensures
            r.deep_view() == self.deep_view(),
    {
        JsonRpcResponseError {
            code: self.code,
            message: self.message.clone(),
            data: clone_opt_value(&self.data),
        }
    }
}

/// The answer to a request.
#[derive(Debug)]
pub struct JsonRpcResponse {
    pub jsonrpc_version: String,
    pub result: Option<Value>,
    pub error: Option<JsonRpcResponseError>,
    pub id: Value,
}

/// What a [`JsonRpcResponse`] says.
#[verifier::ext_equal]
pub ghost struct JsonRpcResponseModel {
    pub jsonrpc_version: Seq<char>,
    pub result: Option<Json>,
    pub error: Option<JsonRpcResponseErrorModel>,
    pub id: Json,
}

impl DeepView for JsonRpcResponse {
    type V = JsonRpcResponseModel;

    open spec fn deep_view(&self) -> JsonRpcResponseModel {
        JsonRpcResponseModel {
            jsonrpc_version: self.jsonrpc_version@,
            result: opt_json(self.result),
            error: self.error.deep_view(),
            id: json(self.id),
        }
    }
}

impl Clone for JsonRpcResponse {
    fn clone(&self) -> (r: Self)
        ensures
            r.deep_view() == self.deep_view(),
    {
        JsonRpcResponse {
            jsonrpc_version: self.jsonrpc_version.clone(),
            result: clone_opt_value(&self.result),
            error: self.error.clone(),
            id: clone_value(&self.id),
        }
    }
}

/// A message that is not answered.
#[derive(Debug)]
pub struct JsonRpcNotification {
    pub jsonrpc_version: String,
    pub method: String,
    pub params: Option<Value>,
}

/// What a [`JsonRpcNotification`] says.
#[verifier::ext_equal]
pub ghost struct JsonRpcNotificationModel {
    pub jsonrpc_version: Seq<char>,
    pub method: Seq<char>,
    pub params: Option<Json>,
}

impl DeepView for JsonRpcNotification {
    type V = JsonRpcNotificationModel;

    open spec fn deep_view(&self) -> JsonRpcNotificationModel {
        JsonRpcNotificationModel {
            jsonrpc_version: self.jsonrpc_version@,
            method: self.method@,
            params: opt_json(self.params),
        }
    }
}

impl Clone for JsonRpcNotification {
    fn clone(&self) -> (r: Self)
        ensures
            r.deep_view() == self.deep_view(),
    {
        JsonRpcNotification {
            jsonrpc_version: self.jsonrpc_version.clone(),
            method: self.method.clone(),
            params: clone_opt_value(&self.params),
        }
    }
}

/// The kinds of errors that the protocol knows.
#[derive(Clone, Copy, Debug, PartialEq, Eq, Structural)]
pub enum JsonRpcErrorCode {
    ParseError,
    InvalidRequest,
    MethodNotFound,
    InvalidParams,
    InternalError,
}

impl JsonRpcErrorCode {
    /// The number of the kind.
    pub open spec fn spec_code(self) -> int {
        match self {
            JsonRpcErrorCode::ParseError => -32700,
            JsonRpcErrorCode::InvalidRequest => -32600,
            JsonRpcErrorCode::MethodNotFound => -32601,
            JsonRpcErrorCode::InvalidParams => -32602,
            JsonRpcErrorCode::InternalError => -32603,
        }
    }

    /// The number of the kind.
    pub fn code(&self) -> (r: i32)
        ensures
            r == self.spec_code(),
    {
        match self {
            JsonRpcErrorCode::ParseError => -32700,
            JsonRpcErrorCode::InvalidRequest => -32600,
            JsonRpcErrorCode::MethodNotFound => -32601,
            JsonRpcErrorCode::InvalidParams => -32602,
            JsonRpcErrorCode::InternalError => -32603,
        }
    }
}

/// A message between an editor and a language server.
#[derive(Debug)]
pub enum JsonRpcMessage {
    Request(JsonRpcRequest),
    Response(JsonRpcResponse),
    Notification(JsonRpcNotification),
}

/// What a [`JsonRpcMessage`] says.
#[verifier::ext_equal]
pub ghost enum JsonRpcMessageModel {
    Request(JsonRpcRequestModel),
    Response(JsonRpcResponseModel),
    Notification(JsonRpcNotificationModel),
}

impl DeepView for JsonRpcMessage {
    type V = JsonRpcMessageModel;

    open spec fn deep_view(&self) -> JsonRpcMessageModel {
        match self {
            JsonRpcMessage::Request(m) => JsonRpcMessageModel::Request(m.deep_view()),
            JsonRpcMessage::Response(m) => JsonRpcMessageModel::Response(m.deep_view()),
            JsonRpcMessage::Notification(m) => JsonRpcMessageModel::Notification(m.deep_view()),
        }
    }
}

impl Clone for JsonRpcMessage {
    fn clone(&self) -> (r: Self)
        ensures
            r.deep_view() == self.deep_view(),
    {
        match self {
            JsonRpcMessage::Request(m) => JsonRpcMessage::Request(m.clone()),
            JsonRpcMessage::Response(m) => JsonRpcMessage::Response(m.clone()),
            JsonRpcMessage::Notification(m) => JsonRpcMessage::Notification(m.clone()),
        }
    }
}

/// The answer to a request: its result, or what went wrong.
pub open spec fn response_to(result: Result<Json, Seq<char>>, id: Json) -> JsonRpcResponseModel {
    match result {
        Ok(value) => JsonRpcResponseModel {
            jsonrpc_version: JSON_RPC_VERSION@,
            result: Some(value),
            error: None,
            id,
        },
        Err(message) => JsonRpcResponseModel {
            jsonrpc_version: JSON_RPC_VERSION@,
            result: None,
            error: Some(
                JsonRpcResponseErrorModel {
                    code: JsonRpcErrorCode::InternalError.spec_code() as i32,
                    message,
                    data: None,
                },
            ),
            id,
        },
    }
}

impl JsonRpcMessage {
    /// A request that has no number yet.
    pub fn new_request(method: String, params: Option<Value>) -> (r: Self)
        ensures
            r.deep_view() == JsonRpcMessageModel::Request(
                JsonRpcRequestModel {
                    jsonrpc_version: JSON_RPC_VERSION@,
                    method: method@,
                    params: opt_json(params),
                    id: Json::Null,
                },
            ),
    {
        JsonRpcMessage::Request(
            JsonRpcRequest {
                jsonrpc_version: JSON_RPC_VERSION.to_owned(),
                method,
                params,
                id: null_value(),
            },
        )
    }

    /// A notification.
    pub fn new_notification(method: String, params: Option<Value>) -> (r: Self)
        ensures
            r.deep_view() == JsonRpcMessageModel::Notification(
                JsonRpcNotificationModel {
                    jsonrpc_version: JSON_RPC_VERSION@,
                    method: method@,
                    params: opt_json(params),
                },
            ),
    {
        JsonRpcMessage::Notification(
            JsonRpcNotification { jsonrpc_version: JSON_RPC_VERSION.to_owned(), method, params },
        )
    }

    /// The answer to a request: its result, or what went wrong.
    pub fn new_response(result: Result<Value, String>, id: Value) -> (r: Self)
        ensures
            r.deep_view() == JsonRpcMessageModel::Response(
                response_to(
                    match result {
                        Ok(value) => Ok(json(value)),
                        Err(message) => Err(message@),
                    },
                    json(id),
                ),
            ),
    {
        match result {
            Ok(value) => JsonRpcMessage::Response(
                JsonRpcResponse {
                    jsonrpc_version: JSON_RPC_VERSION.to_owned(),
                    result: Some(value),
                    error: None,
                    id,
                },
            ),
            Err(message) => JsonRpcMessage::Response(
                JsonRpcResponse {
                    jsonrpc_version: JSON_RPC_VERSION.to_owned(),
                    result: None,
                    error: Some(
                        JsonRpcResponseError {
                            code: JsonRpcErrorCode::InternalError.code(),
                            message,
                            data: None,
                        },
                    ),
                    id,
                },
            ),
        }
    }
}

// ---------------------------------------------------------------------------------------------
// Messages in JSON.

/// The value of a member that may be missing or `null`.
pub open spec fn optional(value: Option<Json>) -> Option<Json> {
    match value {
        Some(Json::Null) => None,
        value => value,
    }
}

/// The text of a member.
pub open spec fn text_of(value: Option<Json>) -> Option<Seq<char>> {
    match value {
        Some(Json::Text(text)) => Some(text),
        _ => None,
    }
}

/// The request that a document describes.
pub open spec fn request_in(value: Json) -> Option<JsonRpcRequestModel> {
    match (text_of(value.member("jsonrpc"@)), text_of(value.member(METHOD_KEY@)), value.member(ID_KEY@)) {
        (Some(jsonrpc_version), Some(method), Some(id)) => Some(
            JsonRpcRequestModel {
                jsonrpc_version,
                method,
                params: optional(value.member("params"@)),
                id,
            },
        ),
        _ => None,
    }
}

/// The notification of a version, a method and parameters.
pub open spec fn notification_from(
    jsonrpc_version: Option<Json>,
    method: Option<Json>,
    params: Option<Json>,
) -> Option<JsonRpcNotificationModel> {
    match (text_of(jsonrpc_version), text_of(method)) {
        (Some(jsonrpc_version), Some(method)) => Some(
            JsonRpcNotificationModel { jsonrpc_version, method, params: optional(params) },
        ),
        _ => None,
    }
}

/// The notification that a document describes, by the names of its parts or by their order.
pub open spec fn notification_in(value: Json) -> Option<JsonRpcNotificationModel> {
    match value {
        Json::Object(_) => notification_from(
            value.member("jsonrpc"@),
            value.member(METHOD_KEY@),
            value.member("params"@),
        ),
        Json::Array(items) => if items.len() == 3 {
            notification_from(Some(items[0]), Some(items[1]), Some(items[2]))
        } else {
            None
        },
        _ => None,
    }
}

/// The error of a code, a message and data.
pub open spec fn error_from(code: Option<Json>, message: Option<Json>, data: Option<Json>) -> Option<
    JsonRpcResponseErrorModel,
> {
    match (code, text_of(message)) {
        (Some(Json::Int(code)), Some(message)) => if i32::MIN <= code <= i32::MAX {
            Some(JsonRpcResponseErrorModel { code: code as i32, message, data: optional(data) })
        } else {
            None
        },
        _ => None,
    }
}

/// The error that a document describes, by the names of its parts or by their order.
pub open spec fn error_in(value: Json) -> Option<JsonRpcResponseErrorModel> {
    match value {
        Json::Object(_) => error_from(
            value.member("code"@),
            value.member("message"@),
            value.member("data"@),
        ),
        Json::Array(items) => if items.len() == 3 {
            error_from(Some(items[0]), Some(items[1]), Some(items[2]))
        } else {
            None
        },
        _ => None,
    }
}

/// The response that a document describes.
pub open spec fn response_in(value: Json) -> Option<JsonRpcResponseModel> {
    match (text_of(value.member("jsonrpc"@)), value.member(ID_KEY@)) {
        (Some(jsonrpc_version), Some(id)) => match optional(value.member("error"@)) {
            None => Some(
                JsonRpcResponseModel {
                    jsonrpc_version,
                    result: optional(value.member("result"@)),
                    error: None,
                    id,
                },
            ),
            Some(error) => match error_in(error) {
                Some(error) => Some(
                    JsonRpcResponseModel {
                        jsonrpc_version,
                        result: optional(value.member("result"@)),
                        error: Some(error),
                        id,
                    },
                ),
                None => None,
            },
        },
        _ => None,
    }
}

/// The message that a document describes. A message with a number and a method is a request, one with
/// a number alone a response.
pub open spec fn message_in(value: Json) -> Option<JsonRpcMessageModel> {
    if value.member(ID_KEY@) is Some {
        if value.member(METHOD_KEY@) is Some {
            match request_in(value) {
                Some(m) => Some(JsonRpcMessageModel::Request(m)),
                None => None,
            }
        } else {
            match response_in(value) {
                Some(m) => Some(JsonRpcMessageModel::Response(m)),
                None => None,
            }
        }
    } else {
        match notification_in(value) {
            Some(m) => Some(JsonRpcMessageModel::Notification(m)),
            None => None,
        }
    }
}

/// A part of a message.
#[derive(Clone, Copy, Debug, PartialEq, Eq, Structural)]
pub enum MessagePart {
    Version,
    Method,
    ErrorCode,
    ErrorMessage,
}

/// What is wrong with a document of parts.
#[derive(Clone, Copy, Debug, PartialEq, Eq, Structural)]
pub enum PartFault {
    /// It is neither an object nor an array.
    Kind,
    /// It is an array of so many parts, and so many are not wanted.
    Length(usize),
    Missing(MessagePart),
    /// The part is there, and is something else than it should be.
    Wrong(MessagePart),
}

/// Why a document describes no message.
#[derive(Clone, Copy, Debug, PartialEq, Eq, Structural)]
pub enum MessageFault {
    /// Something is wrong with the message itself.
    Message(PartFault),
    /// Something is wrong with the error in a response.
    Error(PartFault),
}

/// Whether a part is there, and is no text.
pub open spec fn is_no_text(part: Option<Json>) -> bool {
    part is Some && !(part->0 is Text)
}

/// Whether a part is there, and is no code of an error.
pub open spec fn is_no_code(part: Option<Json>) -> bool {
    part is Some && !(part->0 is Int && i32::MIN <= part->0->Int_0 <= i32::MAX)
}

/// What is wrong with a version and a method: a part that is something else comes first.
pub open spec fn version_fault(jsonrpc_version: Option<Json>, method: Option<Json>) -> PartFault {
    if is_no_text(jsonrpc_version) {
        PartFault::Wrong(MessagePart::Version)
    } else if is_no_text(method) {
        PartFault::Wrong(MessagePart::Method)
    } else if jsonrpc_version is None {
        PartFault::Missing(MessagePart::Version)
    } else {
        PartFault::Missing(MessagePart::Method)
    }
}

/// The part at that place of an array, if the array is so long.
pub open spec fn part_at(items: Seq<Json>, i: int) -> Option<Json> {
    if i < items.len() {
        Some(items[i])
    } else {
        None
    }
}

/// What is wrong with a notification.
pub open spec fn notification_fault(value: Json) -> PartFault {
    match value {
        Json::Object(_) => version_fault(value.member("jsonrpc"@), value.member(METHOD_KEY@)),
        Json::Array(items) => if is_no_text(part_at(items, 0)) || is_no_text(part_at(items, 1)) {
            version_fault(part_at(items, 0), part_at(items, 1))
        } else {
            PartFault::Length(items.len() as usize)
        },
        _ => PartFault::Kind,
    }
}

/// What is wrong with a code and a message: a part that is something else comes first.
pub open spec fn code_fault(code: Option<Json>, message: Option<Json>) -> PartFault {
    if is_no_code(code) {
        PartFault::Wrong(MessagePart::ErrorCode)
    } else if is_no_text(message) {
        PartFault::Wrong(MessagePart::ErrorMessage)
    } else if code is None {
        PartFault::Missing(MessagePart::ErrorCode)
    } else {
        PartFault::Missing(MessagePart::ErrorMessage)
    }
}

/// What is wrong with an error.
pub open spec fn error_fault(value: Json) -> PartFault {
    match value {
        Json::Object(_) => code_fault(value.member("code"@), value.member("message"@)),
        Json::Array(items) => if is_no_code(part_at(items, 0)) || is_no_text(part_at(items, 1)) {
            code_fault(part_at(items, 0), part_at(items, 1))
        } else {
            PartFault::Length(items.len() as usize)
        },
        _ => PartFault::Kind,
    }
}

/// Why a document describes no message.
pub open spec fn message_fault(value: Json) -> MessageFault {
    if value.member(ID_KEY@) is None {
        MessageFault::Message(notification_fault(value))
    } else if value.member(METHOD_KEY@) is Some {
        MessageFault::Message(version_fault(value.member("jsonrpc"@), value.member(METHOD_KEY@)))
    } else {
        match optional(value.member("error"@)) {
            Some(error) => if error_in(error) is None {
                MessageFault::Error(error_fault(error))
            } else {
                MessageFault::Message(version_fault(value.member("jsonrpc"@), None))
            },
            None => MessageFault::Message(version_fault(value.member("jsonrpc"@), None)),
        }
    }
}

impl MessagePart {
    /// The name of the part.
    pub open spec fn spec_name(self) -> Seq<char> {
        match self {
            MessagePart::Version => "jsonrpc"@,
            MessagePart::Method => "method"@,
            MessagePart::ErrorCode => "code"@,
            MessagePart::ErrorMessage => "message"@,
        }
    }

    /// The name of the part.
    pub fn name(&self) -> (r: &'static str)
        ensures
            r@ == self.spec_name(),
    {
        match self {
            MessagePart::Version => "jsonrpc",
            MessagePart::Method => "method",
            MessagePart::ErrorCode => "code",
            MessagePart::ErrorMessage => "message",
        }
    }
}

impl MessageFault {
    /// The fault in words.
    pub fn message(&self) -> (r: String)
        ensures
            r@ == (match self {
                MessageFault::Message(fault) => fault.words(),
                MessageFault::Error(fault) => "error: "@ + fault.words(),
            }),
    {
        match self {
            MessageFault::Message(fault) => fault.message(),
            MessageFault::Error(fault) => concat("error: ", fault.message().as_str()),
        }
    }
}

impl PartFault {
    /// The fault in words.
    pub open spec fn words(self) -> Seq<char> {
        match self {
            PartFault::Kind => "neither an object nor an array"@,
            PartFault::Length(n) => "invalid length "@ + decimal(n as nat),
            PartFault::Missing(part) => "missing field `"@ + part.spec_name() + "`"@,
            PartFault::Wrong(part) => "invalid field `"@ + part.spec_name() + "`"@,
        }
    }

    /// The fault in words.
    pub fn message(&self) -> (r: String)
        ensures
            r@ == self.words(),
    {
        match self {
            PartFault::Kind => "neither an object nor an array".to_owned(),
            PartFault::Length(n) => concat("invalid length ", decimal_of(*n as u64).as_str()),
            PartFault::Missing(part) => concat(concat("missing field `", part.name()).as_str(), "`"),
            PartFault::Wrong(part) => concat(concat("invalid field `", part.name()).as_str(), "`"),
        }
    }
}

/// What an optional reference to a value holds.
pub open spec fn referred(value: Option<&Value>) -> Option<Json> {
    match value {
        Some(value) => Some(json(*value)),
        None => None,
    }
}

fn member<'a>(value: &'a Value, name: &str) -> (r: Option<&'a Value>)
    ensures
        referred(r) == json(*value).member(name@),
{
    get(value, name)
}

fn take_optional(value: Option<&Value>) -> (r: Option<Value>)
    ensures
        opt_json(r) == optional(referred(value)),
{
    match value {
        Some(value) => if is_null(value) {
            None
        } else {
            Some(clone_value(value))
        },
        None => None,
    }
}

fn take_text(value: Option<&Value>) -> (r: Option<String>)
    ensures
        r.deep_view() == text_of(referred(value)),
{
    match value {
        Some(value) => match as_str(value) {
            Some(text) => Some(text.to_owned()),
            None => None,
        },
        None => None,
    }
}

fn read_request(value: &Value) -> (r: Option<JsonRpcRequest>)
    ensures
        r.deep_view() == request_in(json(*value)),
{
    match (
        take_text(member(value, "jsonrpc")),
        take_text(member(value, METHOD_KEY)),
        member(value, ID_KEY),
    ) {
        (Some(jsonrpc_version), Some(method), Some(id)) => Some(
            JsonRpcRequest {
                jsonrpc_version,
                method,
                params: take_optional(member(value, "params")),
                id: clone_value(id),
            },
        ),
        _ => None,
    }
}

fn make_notification(
    jsonrpc_version: Option<&Value>,
    method: Option<&Value>,
    params: Option<&Value>,
) -> (r: Option<JsonRpcNotification>)
    ensures
        r.deep_view() == notification_from(
            referred(jsonrpc_version),
            referred(method),
            referred(params),
        ),
{
    match (take_text(jsonrpc_version), take_text(method)) {
        (Some(jsonrpc_version), Some(method)) => Some(
            JsonRpcNotification { jsonrpc_version, method, params: take_optional(params) },
        ),
        _ => None,
    }
}

fn is_object(value: &Value) -> (r: bool)
    ensures
        r == (json(*value) is Object),
{
    as_object(value).is_some()
}

fn read_notification(value: &Value) -> (r: Option<JsonRpcNotification>)
    ensures
        r.deep_view() == notification_in(json(*value)),
{
    if is_object(value) {
        return make_notification(
            member(value, "jsonrpc"),
            member(value, METHOD_KEY),
            member(value, "params"),
        );
    }
    match as_array(value) {
        Some(items) => if items.len() == 3 {
            make_notification(Some(&items[0]), Some(&items[1]), Some(&items[2]))
        } else {
            None
        },
        None => None,
    }
}

fn make_error(code: Option<&Value>, message: Option<&Value>, data: Option<&Value>) -> (r: Option<
    JsonRpcResponseError,
>)
    ensures
        r.deep_view() == error_from(referred(code), referred(message), referred(data)),
{
    let number = match code {
        Some(code) => as_i64(code),
        None => None,
    };
    match (number, take_text(message)) {
        (Some(number), Some(message)) => {
            if -0x8000_0000 <= number && number <= 0x7fff_ffff {
                Some(
                    JsonRpcResponseError { code: number as i32, message, data: take_optional(data) },
                )
            } else {
                None
            }
        },
        _ => None,
    }
}

fn read_error(value: &Value) -> (r: Option<JsonRpcResponseError>)
    ensures
        r.deep_view() == error_in(json(*value)),
{
    if is_object(value) {
        return make_error(member(value, "code"), member(value, "message"), member(value, "data"));
    }
    match as_array(value) {
        Some(items) => if items.len() == 3 {
            make_error(Some(&items[0]), Some(&items[1]), Some(&items[2]))
        } else {
            None
        },
        None => None,
    }
}

fn read_response(value: &Value) -> (r: Option<JsonRpcResponse>)
    ensures
        r.deep_view() == response_in(json(*value)),
{
    match (take_text(member(value, "jsonrpc")), member(value, ID_KEY)) {
        (Some(jsonrpc_version), Some(id)) => {
            let result = take_optional(member(value, "result"));
            match take_optional(member(value, "error")) {
                None => Some(
                    JsonRpcResponse { jsonrpc_version, result, error: None, id: clone_value(id) },
                ),
                Some(error) => match read_error(&error) {
                    Some(error) => Some(
                        JsonRpcResponse {
                            jsonrpc_version,
                            result,
                            error: Some(error),
                            id: clone_value(id),
                        },
                    ),
                    None => None,
                },
            }
        },
        _ => None,
    }
}

/// Whether a part is there, and is no text.
fn lacks_text(part: Option<&Value>) -> (r: bool)
    ensures
        r == is_no_text(referred(part)),
{
    match part {
        Some(part) => as_str(part).is_none(),
        None => false,
    }
}

/// Whether a part is there, and is no code of an error.
fn lacks_code(part: Option<&Value>) -> (r: bool)
    ensures
        r == is_no_code(referred(part)),
{
    match part {
        Some(part) => match as_i64(part) {
            Some(n) => !(-0x8000_0000 <= n && n <= 0x7fff_ffff),
            None => true,
        },
        None => false,
    }
}

/// The part at that place of an array, if the array is so long.
fn item_at<'a>(items: &'a Vec<Value>, i: usize) -> (r: Option<&'a Value>)
    ensures
        referred(r) == part_at(documents(items@), i as int),
{
    if i < items.len() {
        Some(&items[i])
    } else {
        None
    }
}

fn fault_of_version(jsonrpc_version: Option<&Value>, method: Option<&Value>) -> (r: PartFault)
    ensures
        r == version_fault(referred(jsonrpc_version), referred(method)),
{
    if lacks_text(jsonrpc_version) {
        PartFault::Wrong(MessagePart::Version)
    } else if lacks_text(method) {
        PartFault::Wrong(MessagePart::Method)
    } else if jsonrpc_version.is_none() {
        PartFault::Missing(MessagePart::Version)
    } else {
        PartFault::Missing(MessagePart::Method)
    }
}

fn fault_of_notification(value: &Value) -> (r: PartFault)
    ensures
        r == notification_fault(json(*value)),
{
    if is_object(value) {
        return fault_of_version(member(value, "jsonrpc"), member(value, METHOD_KEY));
    }
    match as_array(value) {
        Some(items) => {
            let first = item_at(items, 0);
            let second = item_at(items, 1);
            if lacks_text(first) || lacks_text(second) {
                fault_of_version(first, second)
            } else {
                PartFault::Length(items.len())
            }
        },
        None => PartFault::Kind,
    }
}

fn fault_of_code(code: Option<&Value>, message: Option<&Value>) -> (r: PartFault)
    ensures
        r == code_fault(referred(code), referred(message)),
{
    if lacks_code(code) {
        PartFault::Wrong(MessagePart::ErrorCode)
    } else if lacks_text(message) {
        PartFault::Wrong(MessagePart::ErrorMessage)
    } else if code.is_none() {
        PartFault::Missing(MessagePart::ErrorCode)
    } else {
        PartFault::Missing(MessagePart::ErrorMessage)
    }
}

fn fault_of_error(value: &Value) -> (r: PartFault)
    ensures
        r == error_fault(json(*value)),
{
    if is_object(value) {
        return fault_of_code(member(value, "code"), member(value, "message"));
    }
    match as_array(value) {
        Some(items) => {
            let first = item_at(items, 0);
            let second = item_at(items, 1);
            if lacks_code(first) || lacks_text(second) {
                fault_of_code(first, second)
            } else {
                PartFault::Length(items.len())
            }
        },
        None => PartFault::Kind,
    }
}

fn fault_of_response(value: &Value) -> (r: MessageFault)
    requires
        json(*value).member(ID_KEY@) is Some,
        json(*value).member(METHOD_KEY@) is None,
    ensures
        r == message_fault(json(*value)),
{
    if let Some(error) = take_optional(member(value, "error")) {
        if read_error(&error).is_none() {
            return MessageFault::Error(fault_of_error(&error));
        }
    }
    MessageFault::Message(fault_of_version(member(value, "jsonrpc"), None))
}

impl JsonRpcMessage {
    /// The message that a document describes, or why it describes none.
    pub fn try_from_value(value: &Value) -> (r: Result<JsonRpcMessage, MessageFault>)
        ensures
            match r {
                Ok(message) => message_in(json(*value)) == Some(message.deep_view()),
                Err(fault) => message_in(json(*value)) is None && fault == message_fault(json(*value)),
            },
    {
        if member(value, ID_KEY).is_some() {
            if member(value, METHOD_KEY).is_some() {
                match read_request(value) {
                    Some(m) => Ok(JsonRpcMessage::Request(m)),
                    None => Err(
                        MessageFault::Message(
                            fault_of_version(member(value, "jsonrpc"), member(value, METHOD_KEY)),
                        ),
                    ),
                }
            } else {
                match read_response(value) {
                    Some(m) => Ok(JsonRpcMessage::Response(m)),
                    None => Err(fault_of_response(value)),
                }
            }
        } else {
            match read_notification(value) {
                Some(m) => Ok(JsonRpcMessage::Notification(m)),
                None => Err(MessageFault::Message(fault_of_notification(value))),
            }
        }
    }
}

// ---------------------------------------------------------------------------------------------
// Messages as they are sent.

/// An optional document, `null` where there is none.
pub open spec fn or_null(value: Option<Json>) -> Json {
    match value {
        Some(value) => value,
        None => Json::Null,
    }
}

impl JsonRpcResponseErrorModel {
    /// The error as it is sent.
    pub open spec fn text(self) -> Seq<char> {
        "{\"code\":"@ + spelled(Json::Int(self.code as int)) + ",\"message\":"@ + spelled(
            Json::Text(self.message),
        ) + ",\"data\":"@ + spelled(or_null(self.data)) + "}"@
    }

    /// The error in JSON.
    pub open spec fn document(self) -> Json {
        Json::Object(
            no_members().insert("code"@, Json::Int(self.code as int)).insert(
                "message"@,
                Json::Text(self.message),
            ).insert("data"@, or_null(self.data)),
        )
    }
}

impl JsonRpcMessageModel {
    /// The message as it is sent: its parts with their names, in order.
    pub open spec fn text(self) -> Seq<char> {
        match self {
            JsonRpcMessageModel::Request(m) => "{\"jsonrpc\":"@ + spelled(
                Json::Text(m.jsonrpc_version),
            ) + ",\"method\":"@ + spelled(Json::Text(m.method)) + ",\"params\":"@ + spelled(
                or_null(m.params),
            ) + ",\"id\":"@ + spelled(m.id) + "}"@,
            JsonRpcMessageModel::Response(m) => "{\"jsonrpc\":"@ + spelled(
                Json::Text(m.jsonrpc_version),
            ) + ",\"result\":"@ + spelled(or_null(m.result)) + ",\"error\":"@ + (match m.error {
                Some(error) => error.text(),
                None => spelled(Json::Null),
            }) + ",\"id\":"@ + spelled(m.id) + "}"@,
            JsonRpcMessageModel::Notification(m) => "{\"jsonrpc\":"@ + spelled(
                Json::Text(m.jsonrpc_version),
            ) + ",\"method\":"@ + spelled(Json::Text(m.method)) + ",\"params\":"@ + spelled(
                or_null(m.params),
            ) + "}"@,
        }
    }

    /// The message in JSON.
    pub open spec fn document(self) -> Json {
        match self {
            JsonRpcMessageModel::Request(m) => Json::Object(
                no_members().insert("jsonrpc"@, Json::Text(m.jsonrpc_version)).insert(
                    "method"@,
                    Json::Text(m.method),
                ).insert("params"@, or_null(m.params)).insert("id"@, m.id),
            ),
            JsonRpcMessageModel::Response(m) => Json::Object(
                no_members().insert("jsonrpc"@, Json::Text(m.jsonrpc_version)).insert(
                    "result"@,
                    or_null(m.result),
                ).insert(
                    "error"@,
                    match m.error {
                        Some(error) => error.document(),
                        None => Json::Null,
                    },
                ).insert("id"@, m.id),
            ),
            JsonRpcMessageModel::Notification(m) => Json::Object(
                no_members().insert("jsonrpc"@, Json::Text(m.jsonrpc_version)).insert(
                    "method"@,
                    Json::Text(m.method),
                ).insert("params"@, or_null(m.params)),
            ),
        }
    }
}

fn spell_text(text: &str) -> (r: String)
    ensures
        r@ == spelled(Json::Text(text@)),
{
    spell(&text_value(text.to_owned()))
}

fn spell_optional(value: &Option<Value>) -> (r: String)
    ensures
        r@ == spelled(or_null(opt_json(*value))),
{
    match value {
        Some(value) => spell(value),
        None => spell(&null_value()),
    }
}

impl JsonRpcResponseError {
    /// The error as it is sent.
    pub fn to_text(&self) -> (r: String)
        ensures
            r@ == self.deep_view().text(),
    {
        let mut r = "{\"code\":".to_owned();
        let code = spell(&i64_value(self.code as i64));
        r.append(code.as_str());
        r.append(",\"message\":");
        r.append(spell_text(self.message.as_str()).as_str());
        r.append(",\"data\":");
        r.append(spell_optional(&self.data).as_str());
        r.append("}");
        r
    }
}

impl JsonRpcMessage {
    /// The message as it is sent.
    pub fn to_text(&self) -> (r: String)
        ensures
            r@ == self.deep_view().text(),
    {
        let mut r = "{\"jsonrpc\":".to_owned();
        match self {
            JsonRpcMessage::Request(m) => {
                r.append(spell_text(m.jsonrpc_version.as_str()).as_str());
                r.append(",\"method\":");
                r.append(spell_text(m.method.as_str()).as_str());
                r.append(",\"params\":");
                r.append(spell_optional(&m.params).as_str());
                r.append(",\"id\":");
                r.append(spell(&m.id).as_str());
            },
            JsonRpcMessage::Response(m) => {
                r.append(spell_text(m.jsonrpc_version.as_str()).as_str());
                r.append(",\"result\":");
                r.append(spell_optional(&m.result).as_str());
                r.append(",\"error\":");
                match &m.error {
                    Some(error) => {
                        r.append(error.to_text().as_str());
                    },
                    None => {
                        r.append(spell(&null_value()).as_str());
                    },
                }
                r.append(",\"id\":");
                r.append(spell(&m.id).as_str());
            },
            JsonRpcMessage::Notification(m) => {
                r.append(spell_text(m.jsonrpc_version.as_str()).as_str());
                r.append(",\"method\":");
                r.append(spell_text(m.method.as_str()).as_str());
                r.append(",\"params\":");
                r.append(spell_optional(&m.params).as_str());
            },
        }
        r.append("}");
        r
    }
}

// ---------------------------------------------------------------------------------------------
// Laws.

/// Whether no part of the message is given as `null` that could be left out.
pub open spec fn is_plain(message: JsonRpcMessageModel) -> bool {
    match message {
        JsonRpcMessageModel::Request(m) => m.params != Some(Json::Null),
        JsonRpcMessageModel::Response(m) => m.result != Some(Json::Null) && (m.error matches Some(error)
            ==> error.data != Some(Json::Null)),
        JsonRpcMessageModel::Notification(m) => m.params != Some(Json::Null),
    }
}

/// A message is read back from the document that it is written as.
pub proof fn law_message_is_read_back(message: JsonRpcMessageModel)
    requires
        is_plain(message),
    ensures
        message_in(message.document()) == Some(message),
{
    reveal_strlit("jsonrpc");
    reveal_strlit("method");
    reveal_strlit("params");
    reveal_strlit("id");
    reveal_strlit("result");
    reveal_strlit("error");
    reveal_strlit("code");
    reveal_strlit("message");
    reveal_strlit("data");
    assert("jsonrpc"@ != "method"@ && "jsonrpc"@ != "params"@ && "jsonrpc"@ != "id"@) by {
        assert("jsonrpc"@.len() != "method"@.len());
        assert("jsonrpc"@.len() != "params"@.len());
        assert("jsonrpc"@.len() != "id"@.len());
    }
    assert("method"@[0] != "params"@[0]);
    assert("id"@.len() != "method"@.len() && "id"@.len() != "params"@.len());
    assert("result"@.len() == 6 && "error"@.len() == 5 && "code"@.len() == 4 && "message"@.len() == 7
        && "data"@.len() == 4);
    assert("result"@[0] != "method"@[0]);
    assert("error"@.len() != "method"@.len());
    assert("code"@[0] != "data"@[0]);
    match message {
        JsonRpcMessageModel::Request(_) => {},
        JsonRpcMessageModel::Response(m) => {
            if m.error is Some {
                let error = m.error->0;
                assert(error_in(error.document()) == Some(error));
            }
        },
        JsonRpcMessageModel::Notification(_) => {},
    }
}

impl JsonRpcResponseErrorModel {
    /// The error as it is written: its parts with their names, in order.
    pub open spec fn written(self) -> Written {
        Written::Members(
            seq![
                ("code"@, Written::Whole(Json::Int(self.code as int))),
                ("message"@, Written::Whole(Json::Text(self.message))),
                ("data"@, Written::Whole(or_null(self.data))),
            ],
        )
    }
}

impl JsonRpcMessageModel {
    /// The message as it is written: its parts with their names, in order.
    pub open spec fn written(self) -> Written {
        match self {
            JsonRpcMessageModel::Request(m) => Written::Members(
                seq![
                    ("jsonrpc"@, Written::Whole(Json::Text(m.jsonrpc_version))),
                    ("method"@, Written::Whole(Json::Text(m.method))),
                    ("params"@, Written::Whole(or_null(m.params))),
                    ("id"@, Written::Whole(m.id)),
                ],
            ),
            JsonRpcMessageModel::Response(m) => Written::Members(
                seq![
                    ("jsonrpc"@, Written::Whole(Json::Text(m.jsonrpc_version))),
                    ("result"@, Written::Whole(or_null(m.result))),
                    (
                        "error"@,
                        match m.error {
                            Some(error) => error.written(),
                            None => Written::Whole(Json::Null),
                        },
                    ),
                    ("id"@, Written::Whole(m.id)),
                ],
            ),
            JsonRpcMessageModel::Notification(m) => Written::Members(
                seq![
                    ("jsonrpc"@, Written::Whole(Json::Text(m.jsonrpc_version))),
                    ("method"@, Written::Whole(Json::Text(m.method))),
                    ("params"@, Written::Whole(or_null(m.params))),
                ],
            ),
        }
    }

    /// Whether all numbers in the message are integers, and nothing in it stands too deep.
    pub open spec fn can_be_read(self) -> bool {
        let limit = (depth_limit() - 1) as nat;
        match self {
            JsonRpcMessageModel::Request(m) => is_plain_document(or_null(m.params), limit)
                && is_plain_document(m.id, limit),
            JsonRpcMessageModel::Response(m) => is_plain_document(or_null(m.result), limit)
                && is_plain_document(m.id, limit) && (m.error matches Some(error) ==> is_plain_document(
                or_null(error.data),
                (limit - 1) as nat,
            )),
            JsonRpcMessageModel::Notification(m) => is_plain_document(or_null(m.params), limit),
        }
    }
}

proof fn lemma_four_members(
    a: (Seq<char>, Written),
    b: (Seq<char>, Written),
    c: (Seq<char>, Written),
    d: (Seq<char>, Written),
)
    ensures
        "{"@ + members_text(seq![a, b, c, d]) == "{"@ + members_text(seq![a, b, c]) + (",\""@ + d.0
            + "\":"@) + d.1.text(),
        members_written(seq![a, b, c, d]) == members_written(seq![a, b, c]).insert(
            d.0,
            d.1.document(),
        ),
{
    lemma_next_member(seq![a, b, c], d.0, d.1);
    assert(seq![a, b, c].push((d.0, d.1)) =~= seq![a, b, c, d]);
}

proof fn lemma_names_are_plain()
    ensures
        is_plain_name("jsonrpc"@),
        is_plain_name("method"@),
        is_plain_name("params"@),
        is_plain_name("id"@),
        is_plain_name("result"@),
        is_plain_name("error"@),
        is_plain_name("code"@),
        is_plain_name("message"@),
        is_plain_name("data"@),
{
    reveal_strlit("jsonrpc");
    reveal_strlit("method");
    reveal_strlit("params");
    reveal_strlit("id");
    reveal_strlit("result");
    reveal_strlit("error");
    reveal_strlit("code");
    reveal_strlit("message");
    reveal_strlit("data");
}

proof fn lemma_error_is_written(error: JsonRpcResponseErrorModel)
    ensures
        error.written().text() == error.text(),
        error.written().document() == error.document(),
{
    let list = error.written()->Members_0;
    lemma_three_members(list[0], list[1], list[2]);
    assert(list =~= seq![list[0], list[1], list[2]]);
    reveal_strlit("{");
    reveal_strlit("\"");
    reveal_strlit(",\"");
    reveal_strlit("\":");
    reveal_strlit("code");
    reveal_strlit("message");
    reveal_strlit("data");
    reveal_strlit("{\"code\":");
    reveal_strlit(",\"message\":");
    reveal_strlit(",\"data\":");
    assert("{"@ + "\""@ + "code"@ + "\":"@ =~= "{\"code\":"@);
    assert(",\""@ + "message"@ + "\":"@ =~= ",\"message\":"@);
    assert(",\""@ + "data"@ + "\":"@ =~= ",\"data\":"@);
}

proof fn lemma_keys_are_written()
    ensures
        "{"@ + "\""@ + "jsonrpc"@ + "\":"@ == "{\"jsonrpc\":"@,
        ",\""@ + "method"@ + "\":"@ == ",\"method\":"@,
        ",\""@ + "params"@ + "\":"@ == ",\"params\":"@,
        ",\""@ + "id"@ + "\":"@ == ",\"id\":"@,
        ",\""@ + "result"@ + "\":"@ == ",\"result\":"@,
        ",\""@ + "error"@ + "\":"@ == ",\"error\":"@,
{
    reveal_strlit("{");
    reveal_strlit("\"");
    reveal_strlit(",\"");
    reveal_strlit("\":");
    reveal_strlit("jsonrpc");
    reveal_strlit("method");
    reveal_strlit("params");
    reveal_strlit("id");
    reveal_strlit("result");
    reveal_strlit("error");
    reveal_strlit("{\"jsonrpc\":");
    reveal_strlit(",\"method\":");
    reveal_strlit(",\"params\":");
    reveal_strlit(",\"id\":");
    reveal_strlit(",\"result\":");
    reveal_strlit(",\"error\":");
    assert("{"@ + "\""@ + "jsonrpc"@ + "\":"@ =~= "{\"jsonrpc\":"@);
    assert(",\""@ + "method"@ + "\":"@ =~= ",\"method\":"@);
    assert(",\""@ + "params"@ + "\":"@ =~= ",\"params\":"@);
    assert(",\""@ + "id"@ + "\":"@ =~= ",\"id\":"@);
    assert(",\""@ + "result"@ + "\":"@ =~= ",\"result\":"@);
    assert(",\""@ + "error"@ + "\":"@ =~= ",\"error\":"@);
}

/// What is sent is what is written.
proof fn lemma_message_is_written(message: JsonRpcMessageModel)
    ensures
        message.written().text() == message.text(),
        message.written().document() == message.document(),
{
    let list = message.written()->Members_0;
    lemma_keys_are_written();
    lemma_three_members(list[0], list[1], list[2]);
    if message is Response && message->Response_0.error is Some {
        lemma_error_is_written(message->Response_0.error->0);
    }
    if message is Notification {
        assert(list =~= seq![list[0], list[1], list[2]]);
    } else {
        assert(list =~= seq![list[0], list[1], list[2], list[3]]);
        lemma_four_members(list[0], list[1], list[2], list[3]);
    }
}

proof fn lemma_whole_is_plain(document: Json, depth: nat)
    requires
        is_plain_document(document, depth),
    ensures
        Written::Whole(document).is_plain(depth),
{
}

proof fn lemma_written_is_plain(message: JsonRpcMessageModel)
    requires
        message.can_be_read(),
    ensures
        message.written().is_plain(depth_limit()),
{
    let list = message.written()->Members_0;
    let limit = (depth_limit() - 1) as nat;
    lemma_names_are_plain();
    match message {
        JsonRpcMessageModel::Request(m) => {
            lemma_whole_is_plain(Json::Text(m.jsonrpc_version), limit);
            lemma_whole_is_plain(Json::Text(m.method), limit);
            lemma_whole_is_plain(or_null(m.params), limit);
            lemma_whole_is_plain(m.id, limit);
        },
        JsonRpcMessageModel::Response(m) => {
            lemma_whole_is_plain(Json::Text(m.jsonrpc_version), limit);
            lemma_whole_is_plain(or_null(m.result), limit);
            lemma_whole_is_plain(m.id, limit);
            lemma_whole_is_plain(Json::Null, limit);
            if m.error is Some {
                let error = m.error->0;
                let inner = (limit - 1) as nat;
                lemma_whole_is_plain(Json::Int(error.code as int), inner);
                lemma_whole_is_plain(Json::Text(error.message), inner);
                lemma_whole_is_plain(or_null(error.data), inner);
                let parts = error.written()->Members_0;
                assert forall|i: int| 0 <= i < parts.len() implies is_plain_name(
                    (#[trigger] parts[i]).0,
                ) && parts[i].1.is_plain(inner) by {}
                assert(error.written().is_plain(limit));
            }
        },
        JsonRpcMessageModel::Notification(m) => {
            lemma_whole_is_plain(Json::Text(m.jsonrpc_version), limit);
            lemma_whole_is_plain(Json::Text(m.method), limit);
            lemma_whole_is_plain(or_null(m.params), limit);
        },
    }
    assert forall|i: int| 0 <= i < list.len() implies is_plain_name((#[trigger] list[i]).0)
        && list[i].1.is_plain(limit) by {}
}

/// The text that is sent for a message spells out a plain document, and the message is read back from
/// that document.
pub proof fn law_sent_message_is_written(message: JsonRpcMessageModel)
    requires
        is_plain(message),
        message.can_be_read(),
    ensures
        message.written().text() == message.text(),
        message.written().is_plain(depth_limit()),
        message_in(message.written().document()) == Some(message),
{
    lemma_message_is_written(message);
    lemma_written_is_plain(message);
    law_message_is_read_back(message);
}

/// An answer has the number of its request, and either a result or an error.
pub proof fn law_response_is_result_or_error(result: Result<Json, Seq<char>>, id: Json)
    ensures
        response_to(result, id).id == id,
        (response_to(result, id).result is Some) != (response_to(result, id).error is Some),
{
}

/// An answer with a result holds that result, and one that tells what went wrong holds the words, as an
/// internal error.
pub proof fn law_answer_holds_what_is_answered(value: Json, message: Seq<char>, id: Json)
    ensures
        response_to(Ok(value), id).result == Some(value) && response_to(Ok(value), id).error is None,
        response_to(Err(message), id).result is None,
        response_to(Err(message), id).error matches Some(error) && error.message == message && error.code
            == -32603 && error.data is None,
        response_to(Ok(value), id).jsonrpc_version == "2.0"@,
        response_to(Err(message), id).jsonrpc_version == "2.0"@,
{
}

proof fn lemma_part_names()
    ensures
        "jsonrpc"@ != "method"@ && "jsonrpc"@ != "params"@ && "jsonrpc"@ != "id"@ && "jsonrpc"@ != "result"@
            && "jsonrpc"@ != "error"@,
        "method"@ != "params"@ && "method"@ != "id"@ && "params"@ != "id"@,
        "result"@ != "error"@ && "result"@ != "id"@ && "error"@ != "id"@ && "method"@ != "result"@ && "method"@
            != "error"@,
{
    reveal_strlit("jsonrpc");
    reveal_strlit("method");
    reveal_strlit("params");
    reveal_strlit("id");
    reveal_strlit("result");
    reveal_strlit("error");
    assert("jsonrpc"@.len() == 7 && "id"@.len() == 2 && "error"@.len() == 5);
    assert("method"@.len() == 6 && "params"@.len() == 6 && "result"@.len() == 6);
    assert("method"@[0] == 'm' && "params"@[0] == 'p' && "result"@[0] == 'r');
}

/// A document with a number and a method is read as a request, with a number alone as a response, and
/// with a method alone as a notification. Each part is read from the member of its name.
pub proof fn law_message_is_read_from_its_parts(
    value: Json,
    members: Map<Seq<char>, Json>,
    version: Seq<char>,
    method: Seq<char>,
    params: Json,
    id: Json,
)
    requires
        value == Json::Object(members),
        members.contains_key("jsonrpc"@) && members["jsonrpc"@] == Json::Text(version),
        !(params is Null),
    ensures
        members.contains_key("id"@) && members["id"@] == id && members.contains_key("method"@)
            && members["method"@] == Json::Text(method) && members.contains_key("params"@)
            && members["params"@] == params ==> message_in(value) == Some(
            JsonRpcMessageModel::Request(
                JsonRpcRequestModel {
                    jsonrpc_version: version,
                    method,
                    params: Some(params),
                    id,
                },
            ),
        ),
        !members.contains_key("id"@) && members.contains_key("method"@) && members["method"@] == Json::Text(
            method,
        ) && members.contains_key("params"@) && members["params"@] == params ==> message_in(value) == Some(
            JsonRpcMessageModel::Notification(
                JsonRpcNotificationModel { jsonrpc_version: version, method, params: Some(params) },
            ),
        ),
        members.contains_key("id"@) && members["id"@] == id && !members.contains_key("method"@)
            && members.contains_key("result"@) && members["result"@] == params && !members.contains_key(
            "error"@,
        ) ==> message_in(value) == Some(
            JsonRpcMessageModel::Response(
                JsonRpcResponseModel {
                    jsonrpc_version: version,
                    result: Some(params),
                    error: None,
                    id,
                },
            ),
        ),
{
    lemma_part_names();
}

/// An error in a response is read with its code, its words and its data.
pub proof fn law_error_is_read_from_its_parts(
    value: Json,
    members: Map<Seq<char>, Json>,
    code: i32,
    message: Seq<char>,
)
    requires
        value == Json::Object(members),
        members.contains_key("code"@) && members["code"@] == Json::Int(code as int),
        members.contains_key("message"@) && members["message"@] == Json::Text(message),
    ensures
        error_in(value) matches Some(error) && error.code == code && error.message == message && (
        !members.contains_key("data"@) ==> error.data is None) && (members.contains_key("data"@) && !(
        members["data"@] is Null) ==> error.data == Some(members["data"@])),
{
}

/// A message is written with all its parts, each under its name.
pub proof fn law_message_is_written_with_its_parts(message: JsonRpcMessageModel)
    ensures
        message matches JsonRpcMessageModel::Request(m) ==> {
            &&& message.document().member("jsonrpc"@) == Some(Json::Text(m.jsonrpc_version))
            &&& message.document().member("method"@) == Some(Json::Text(m.method))
            &&& message.document().member("id"@) == Some(m.id)
            &&& m.params matches Some(params) ==> message.document().member("params"@) == Some(params)
        },
        message matches JsonRpcMessageModel::Notification(m) ==> {
            &&& message.document().member("jsonrpc"@) == Some(Json::Text(m.jsonrpc_version))
            &&& message.document().member("method"@) == Some(Json::Text(m.method))
            &&& message.document().member("id"@) is None
            &&& m.params matches Some(params) ==> message.document().member("params"@) == Some(params)
        },
        message matches JsonRpcMessageModel::Response(m) ==> {
            &&& message.document().member("jsonrpc"@) == Some(Json::Text(m.jsonrpc_version))
            &&& message.document().member("id"@) == Some(m.id)
            &&& message.document().member("method"@) is None
            &&& m.result matches Some(result) ==> message.document().member("result"@) == Some(result)
            &&& m.error is None ==> message.document().member("error"@) == Some(Json::Null)
        },
{
    lemma_part_names();
}

/// Only what describes no message is refused, and a fault is told of a part that the document lacks or
/// has in another form.
pub proof fn law_faults_are_told(value: Json, members: Map<Seq<char>, Json>)
    requires
        value == Json::Object(members),
        message_in(value) is None,
    ensures
        !members.contains_key("jsonrpc"@) && !members.contains_key("id"@) && !members.contains_key(
            "method"@,
        ) ==> message_fault(value) == MessageFault::Message(PartFault::Missing(MessagePart::Version)),
        members.contains_key("jsonrpc"@) && !(members["jsonrpc"@] is Text) && (!members.contains_key("id"@)
            || members.contains_key("method"@)) ==> message_fault(value) == MessageFault::Message(
            PartFault::Wrong(MessagePart::Version),
        ),
        members.contains_key("jsonrpc"@) && members["jsonrpc"@] is Text && !members.contains_key("id"@)
            && !members.contains_key("method"@) ==> message_fault(value) == MessageFault::Message(
            PartFault::Missing(MessagePart::Method),
        ),
{
    lemma_part_names();
}

/// What is wrong with an error in a response is told of its code first, and of a part in another form
/// before one that is missing.
pub proof fn law_faults_of_errors_are_told(members: Map<Seq<char>, Json>)
    ensures
        ({
            let fault = error_fault(Json::Object(members));
            let code = members.contains_key("code"@);
            let message = members.contains_key("message"@);
            &&& code && members["code"@] is Text ==> fault == PartFault::Wrong(MessagePart::ErrorCode)
            &&& !code && message && !(members["message"@] is Text) ==> fault == PartFault::Wrong(
                MessagePart::ErrorMessage,
            )
            &&& !code && !message ==> fault == PartFault::Missing(MessagePart::ErrorCode)
            &&& code && members["code"@] == Json::Int(0) && !message ==> fault == PartFault::Missing(
                MessagePart::ErrorMessage,
            )
        }),
{
}

/// A notification in an array is read by the order of its parts, and refused with the first part that has
/// another form, or with the number of its parts.
pub proof fn law_notifications_in_arrays_are_read(
    version: Seq<char>,
    method: Seq<char>,
    params: Json,
    other: Json,
    items: Seq<Json>,
)
    requires
        !(params is Null),
        !(other is Text),
        items.len() <= usize::MAX,
    ensures
        notification_in(Json::Array(seq![Json::Text(version), Json::Text(method), params])) == Some(
            JsonRpcNotificationModel { jsonrpc_version: version, method, params: Some(params) },
        ),
        notification_fault(Json::Array(seq![other, Json::Text(method), params])) == PartFault::Wrong(
            MessagePart::Version,
        ),
        notification_fault(Json::Array(seq![Json::Text(version), other, params])) == PartFault::Wrong(
            MessagePart::Method,
        ),
        notification_fault(Json::Array(Seq::empty())) == PartFault::Length(0),
        items.len() > 3 && items[0] is Text && items[1] is Text ==> notification_fault(Json::Array(items))
            == PartFault::Length(items.len() as usize),
{
    let a = seq![other, Json::Text(method), params];
    let b = seq![Json::Text(version), other, params];
    assert(part_at(a, 0) == Some(other) && part_at(b, 1) == Some(other));
    assert(part_at(b, 0) == Some(Json::Text(version)));
}

/// A response whose error cannot be read is refused for what is wrong with the error.
pub proof fn law_unreadable_error_is_told(members: Map<Seq<char>, Json>, error: Json)
    requires
        members.contains_key("id"@),
        !members.contains_key("method"@),
        !(error is Null),
        error_in(error) is None,
    ensures
        message_fault(Json::Object(members.insert("error"@, error))) == MessageFault::Error(
            error_fault(error),
        ),
        !members.contains_key("error"@) && !members.contains_key("jsonrpc"@) ==> message_fault(
            Json::Object(members),
        ) == MessageFault::Message(PartFault::Missing(MessagePart::Version)),
{
    lemma_part_names();
}

} // verus!
