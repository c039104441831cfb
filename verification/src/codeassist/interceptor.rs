//! Which of the messages between the editor and the language server are of interest here.

use vstd::prelude::*;
use crate::codeassist::jsonrpc::{
    or_null, JsonRpcMessage, JsonRpcMessageModel, JsonRpcNotificationModel, JsonRpcRequest,
    JsonRpcRequestModel, JsonRpcResponseModel,
};
use crate::codeassist::lsp::{
    LspMessage, LspMessageInfo, LspMessageInfoModel, LspMessageModel, CODE_ACTION_METHOD,
    CODE_COMPLETE_COMMAND_ID, DID_CHANGE_METHOD, DID_CLOSE_METHOD, DID_OPEN_METHOD,
    EXECUTE_COMMAND_METHOD, EXIT_METHOD, INITIALIZE_METHOD, MANUAL_CONTEXT_ADD_COMMAND_ID,
};
use crate::codeassist::params::{command_in, read_command};
use crate::codeassist::pending::Pending;
use crate::json::{clone_value, null_value, spell, spelled};
use crate::text::same;

verus! {

/// What becomes of the answer of the adapter.
#[derive(Clone, Copy, Debug, PartialEq, Eq, Structural)]
pub enum ReplyUse {
    /// It takes the place of the message, and goes to the language server or to the editor.
    Replace { to_real_server: bool },
    /// It is not looked at.
    Ignore,
}

/// What becomes of a message.
#[derive(Debug)]
pub enum Interception {
    /// It goes to the caller that waits for it, and nowhere else.
    Deliver { call: usize },
    /// The adapter is asked first. The request is given that the message answers.
    Ask { origin_request: Option<JsonRpcRequest>, reply_use: ReplyUse },
    /// It goes on as it is.
    Forward { should_exit: bool },
}

/// What an [`Interception`] says.
#[verifier::ext_equal]
pub ghost enum InterceptionModel {
    Deliver { call: usize },
    Ask { origin_request: Option<JsonRpcRequestModel>, reply_use: ReplyUse },
    Forward { should_exit: bool },
}

impl DeepView for Interception {
    type V = InterceptionModel;

    open spec fn deep_view(&self) -> InterceptionModel {
        match self {
            Interception::Deliver { call } => InterceptionModel::Deliver { call: *call },
            Interception::Ask { origin_request, reply_use } => InterceptionModel::Ask {
                origin_request: origin_request.deep_view(),
                reply_use: *reply_use,
            },
            Interception::Forward { should_exit } => InterceptionModel::Forward {
                should_exit: *should_exit,
            },
        }
    }
}

/// What is waited for, by the numbers of requests: callers for the answers to their requests, and
/// answers to requests that are of interest.
#[verifier::ext_equal]
pub ghost struct WaitingModel {
    pub calls: Map<Seq<char>, usize>,
    pub requests: Map<Seq<char>, JsonRpcRequestModel>,
}

/// What becomes of a response: a caller that waits for it gets it, and of one that answers a request
/// of interest the adapter is told.
pub open spec fn on_response(
    waiting: WaitingModel,
    response: JsonRpcResponseModel,
    to_real_server: bool,
) -> (WaitingModel, InterceptionModel) {
    let key = spelled(response.id);
    if waiting.calls.contains_key(key) {
        (
            WaitingModel { calls: waiting.calls.remove(key), ..waiting },
            InterceptionModel::Deliver { call: waiting.calls[key] },
        )
    } else if waiting.requests.contains_key(key) {
        (
            WaitingModel { requests: waiting.requests.remove(key), ..waiting },
            InterceptionModel::Ask {
                origin_request: Some(waiting.requests[key]),
                reply_use: ReplyUse::Replace { to_real_server },
            },
        )
    } else {
        (waiting, InterceptionModel::Forward { should_exit: false })
    }
}

/// Whether a command is carried out here.
pub open spec fn is_ours(command: Seq<char>) -> bool {
    command == CODE_COMPLETE_COMMAND_ID@ || command == MANUAL_CONTEXT_ADD_COMMAND_ID@
}

/// Whether a request asks for a command that is carried out here.
pub open spec fn is_our_command(request: JsonRpcRequestModel) -> bool {
    match command_in(or_null(request.params)) {
        Ok((command, _)) => is_ours(command),
        Err(_) => false,
    }
}

/// Whether a command is carried out here.
pub fn is_carried_out_here(command: &str) -> (r: bool)
    ensures
        r == is_ours(command@),
{
    same(command, CODE_COMPLETE_COMMAND_ID) || same(command, MANUAL_CONTEXT_ADD_COMMAND_ID)
}

/// What becomes of a request: the answers to those that begin a session, or ask what can be done with
/// a piece of code, are of interest, and some commands are carried out here.
pub open spec fn on_request(waiting: WaitingModel, request: JsonRpcRequestModel) -> (
    WaitingModel,
    InterceptionModel,
) {
    if request.method == CODE_ACTION_METHOD@ || request.method == INITIALIZE_METHOD@ {
        (
            WaitingModel {
                requests: waiting.requests.insert(spelled(request.id), request),
                ..waiting
            },
            if request.method == INITIALIZE_METHOD@ {
                InterceptionModel::Ask { origin_request: None, reply_use: ReplyUse::Ignore }
            } else {
                InterceptionModel::Forward { should_exit: false }
            },
        )
    } else if request.method == EXECUTE_COMMAND_METHOD@ && is_our_command(request) {
        (
            waiting,
            InterceptionModel::Ask {
                origin_request: None,
                reply_use: ReplyUse::Replace { to_real_server: false },
            },
        )
    } else {
        (waiting, InterceptionModel::Forward { should_exit: false })
    }
}

/// What becomes of a notification: the adapter is told what happens to documents, and the session ends
/// with a notification.
pub open spec fn on_notification(notification: JsonRpcNotificationModel) -> InterceptionModel {
    if notification.method == DID_OPEN_METHOD@ || notification.method == DID_CHANGE_METHOD@
        || notification.method == DID_CLOSE_METHOD@ {
        InterceptionModel::Ask { origin_request: None, reply_use: ReplyUse::Ignore }
    } else {
        InterceptionModel::Forward { should_exit: notification.method == EXIT_METHOD@ }
    }
}

/// What becomes of a message, and what is waited for then.
pub open spec fn intercepted(waiting: WaitingModel, info: LspMessageInfoModel) -> (
    WaitingModel,
    InterceptionModel,
) {
    match info.message.payload {
        JsonRpcMessageModel::Response(response) => on_response(
            waiting,
            response,
            info.to_real_server,
        ),
        JsonRpcMessageModel::Request(request) => on_request(waiting, request),
        JsonRpcMessageModel::Notification(notification) => (waiting, on_notification(notification)),
    }
}

/// Watches the messages between the editor and the language server. The callers that wait for answers
/// are told apart by numbers.
#[derive(Debug)]
pub struct LspInterceptor {
    pub pending_interceptor_calls: Pending<usize>,
    pub pending_intercepted_requests: Pending<JsonRpcRequest>,
}

impl LspInterceptor {
    /// What is waited for.
    pub open spec fn waiting(self) -> WaitingModel {
        WaitingModel {
            calls: self.pending_interceptor_calls.content(),
            requests: self.pending_intercepted_requests.content().map_values(
                |request: JsonRpcRequest| request.deep_view(),
            ),
        }
    }

    /// Whether nothing is waited for twice.
    pub open spec fn well_formed(self) -> bool {
        self.pending_interceptor_calls.well_formed() && self.pending_intercepted_requests.well_formed()
    }

    /// Nothing is waited for.
    pub fn new() -> (r: Self)
        ensures
            r.well_formed(),
            r.waiting().calls == Map::<Seq<char>, usize>::empty(),
            r.waiting().requests == Map::<Seq<char>, JsonRpcRequestModel>::empty(),
    {
        let r = LspInterceptor {
            pending_interceptor_calls: Pending::new(),
            pending_intercepted_requests: Pending::new(),
        };
        assert(r.waiting().requests =~= Map::<Seq<char>, JsonRpcRequestModel>::empty());
        r
    }

    /// Lets a caller wait for the answer to a request.
    pub fn add_pending_interceptor_call(&mut self, request: &JsonRpcRequest, call: usize)
        requires
            old(self).well_formed(),
        ensures
            final(self).well_formed(),
            final(self).waiting() == (WaitingModel {
                calls: old(self).waiting().calls.insert(spelled(request.deep_view().id), call),
                ..old(self).waiting()
            }),
    {
        self.pending_interceptor_calls.insert(spell(&request.id), call);
    }

    /// What becomes of a message.
    pub fn maybe_intercept(&mut self, message_info: &LspMessageInfo) -> (r: Interception)
        requires
            old(self).well_formed(),
        ensures
            final(self).well_formed(),
            (final(self).waiting(), r.deep_view()) == intercepted(
                old(self).waiting(),
                message_info.deep_view(),
            ),
    {
        let ghost before = self.waiting();
        let ghost requests = self.pending_intercepted_requests.content();
        let ghost said = |request: JsonRpcRequest| request.deep_view();
        match &message_info.message.payload {
            JsonRpcMessage::Response(response) => {
                let key = spell(&response.id);
                match self.pending_interceptor_calls.remove(key.as_str()) {
                    Some(call) => Interception::Deliver { call },
                    None => {
                        assert(self.waiting().calls =~= before.calls);
                        match self.pending_intercepted_requests.remove(key.as_str()) {
                            Some(origin_request) => {
                                assert(self.waiting().requests =~= before.requests.remove(key@));
                                Interception::Ask {
                                    origin_request: Some(origin_request),
                                    reply_use: ReplyUse::Replace {
                                        to_real_server: message_info.to_real_server,
                                    },
                                }
                            },
                            None => {
                                assert(self.waiting().requests =~= before.requests);
                                Interception::Forward { should_exit: false }
                            },
                        }
                    },
                }
            },
            JsonRpcMessage::Request(request) => {
                let is_initialize = same(request.method.as_str(), INITIALIZE_METHOD);
                if same(request.method.as_str(), CODE_ACTION_METHOD) || is_initialize {
                    let kept = request.clone();
                    let key = spell(&request.id);
                    self.pending_intercepted_requests.insert(key, kept);
                    assert(self.waiting().requests =~= before.requests.insert(
                        spelled(request.deep_view().id),
                        request.deep_view(),
                    ));
                    if is_initialize {
                        return Interception::Ask {
                            origin_request: None,
                            reply_use: ReplyUse::Ignore,
                        };
                    }
                    return Interception::Forward { should_exit: false };
                }
                if same(request.method.as_str(), EXECUTE_COMMAND_METHOD) {
                    let params = match &request.params {
                        Some(params) => clone_value(params),
                        None => null_value(),
                    };
                    if let Ok((command, _)) = read_command(&params) {
                        if is_carried_out_here(command.as_str()) {
                            return Interception::Ask {
                                origin_request: None,
                                reply_use: ReplyUse::Replace { to_real_server: false },
                            };
                        }
                    }
                }
                Interception::Forward { should_exit: false }
            },
            JsonRpcMessage::Notification(notification) => {
                let method = notification.method.as_str();
                if same(method, DID_OPEN_METHOD) || same(method, DID_CHANGE_METHOD) || same(
                    method,
                    DID_CLOSE_METHOD,
                ) {
                    return Interception::Ask { origin_request: None, reply_use: ReplyUse::Ignore };
                }
                Interception::Forward { should_exit: same(method, EXIT_METHOD) }
            },
        }
    }
}

/// What is passed on, and whether the session ends.
#[derive(Debug)]
pub struct InterceptorResult {
    pub forwarded_message_info: Option<LspMessageInfo>,
    pub should_exit: bool,
}

/// What is passed on, given the answer of the adapter.
pub open spec fn passed_on(
    info: LspMessageInfoModel,
    interception: InterceptionModel,
    reply: Option<LspMessageModel>,
) -> (Option<LspMessageInfoModel>, bool) {
    match interception {
        InterceptionModel::Deliver { .. } => (None, false),
        InterceptionModel::Ask { origin_request, reply_use } => match (reply_use, reply) {
            (ReplyUse::Replace { to_real_server }, Some(message)) => (
                Some(LspMessageInfoModel { message, to_real_server, origin_request: None }),
                false,
            ),
            _ => (Some(info), false),
        },
        InterceptionModel::Forward { should_exit } => (Some(info), should_exit),
    }
}

/// What is passed on, given the answer of the adapter, if it was asked.
pub fn finish_interception(
    message_info: LspMessageInfo,
    interception: &Interception,
    reply: Option<LspMessage>,
) -> (r: InterceptorResult)
    ensures
        (r.forwarded_message_info.deep_view(), r.should_exit) == passed_on(
            message_info.deep_view(),
            interception.deep_view(),
            reply.deep_view(),
        ),
{
    match interception {
        Interception::Deliver { .. } => InterceptorResult {
            forwarded_message_info: None,
            should_exit: false,
        },
        Interception::Ask { origin_request, reply_use } => match (reply_use, reply) {
            (ReplyUse::Replace { to_real_server }, Some(message)) => InterceptorResult {
                forwarded_message_info: Some(LspMessageInfo::new(message, *to_real_server)),
                should_exit: false,
            },
            _ => InterceptorResult {
                forwarded_message_info: Some(message_info),
                should_exit: false,
            },
        },
        Interception::Forward { should_exit } => InterceptorResult {
            forwarded_message_info: Some(message_info),
            should_exit: *should_exit,
        },
    }
}

// ---------------------------------------------------------------------------------------------
// Laws.

/// The answer to a request for which a caller waits goes to that caller, once: another message with
/// the same number does not.
pub proof fn law_answer_is_delivered_once(
    waiting: WaitingModel,
    response: JsonRpcResponseModel,
    call: usize,
    to_real_server: bool,
)
    ensures
        ({
            let key = spelled(response.id);
            let asked = WaitingModel { calls: waiting.calls.insert(key, call), ..waiting };
            let (after, first) = on_response(asked, response, to_real_server);
            let (_, second) = on_response(after, response, to_real_server);
            &&& first == InterceptionModel::Deliver { call }
            &&& !(second is Deliver)
            &&& after.requests == waiting.requests
        }),
{
}

/// A message goes on, unless a caller waits for it.
pub proof fn law_only_awaited_messages_are_kept(
    waiting: WaitingModel,
    info: LspMessageInfoModel,
    reply: Option<LspMessageModel>,
)
    ensures
        passed_on(info, intercepted(waiting, info).1, reply).0 is None <==> (
        info.message.payload is Response && waiting.calls.contains_key(
            spelled(info.message.payload->Response_0.id),
        )),
{
}

/// The adapter sees the answer to a request that begins a session, or asks what can be done with a
/// piece of code, together with that request.
pub proof fn law_answer_is_shown_with_its_request(
    waiting: WaitingModel,
    request: JsonRpcRequestModel,
    response: JsonRpcResponseModel,
    to_real_server: bool,
)
    requires
        request.method == CODE_ACTION_METHOD@ || request.method == INITIALIZE_METHOD@,
        response.id == request.id,
        !waiting.calls.contains_key(spelled(request.id)),
    ensures
        ({
            let (asked, _) = on_request(waiting, request);
            on_response(asked, response, to_real_server).1 == (InterceptionModel::Ask {
                origin_request: Some(request),
                reply_use: ReplyUse::Replace { to_real_server },
            })
        }),
{
}

/// A message of which the adapter is only told, and one that is of no interest, goes on as it is, to
/// where it was going. The answer of the adapter takes the place of a message that it is to replace, where
/// it has one.
pub proof fn law_messages_go_on(
    info: LspMessageInfoModel,
    origin_request: Option<JsonRpcRequestModel>,
    reply: LspMessageModel,
    answer: Option<LspMessageModel>,
    to_real_server: bool,
    should_exit: bool,
)
    ensures
        passed_on(
            info,
            InterceptionModel::Ask { origin_request, reply_use: ReplyUse::Ignore },
            answer,
        ) == (Some(info), false),
        passed_on(info, InterceptionModel::Forward { should_exit }, answer) == (Some(info), should_exit),
        passed_on(
            info,
            InterceptionModel::Ask { origin_request, reply_use: ReplyUse::Replace { to_real_server } },
            None,
        ) == (Some(info), false),
        passed_on(
            info,
            InterceptionModel::Ask { origin_request, reply_use: ReplyUse::Replace { to_real_server } },
            Some(reply),
        ).0 matches Some(sent) && sent.message == reply && sent.to_real_server == to_real_server,
{
}

/// A notification of what happens to a document is told to the adapter, and still goes on. The session
/// ends with the notification that ends it, and with no other.
pub proof fn law_documents_are_told_of(notification: JsonRpcNotificationModel)
    ensures
        notification.method == "textDocument/didOpen"@ || notification.method == "textDocument/didChange"@
            || notification.method == "textDocument/didClose"@ ==> on_notification(notification)
            == (InterceptionModel::Ask { origin_request: None, reply_use: ReplyUse::Ignore }),
        notification.method == "exit"@ ==> on_notification(notification) == (InterceptionModel::Forward {
            should_exit: true,
        }),
        notification.method != "exit"@ ==> on_notification(notification) != (InterceptionModel::Forward {
            should_exit: true,
        }),
{
    reveal_strlit("textDocument/didOpen");
    reveal_strlit("textDocument/didChange");
    reveal_strlit("textDocument/didClose");
    reveal_strlit("exit");
    assert("exit"@.len() == 4);
    assert("textDocument/didOpen"@.len() == 20);
    assert("textDocument/didChange"@.len() == 22);
    assert("textDocument/didClose"@.len() == 21);
}

/// A command that is carried out here is answered to the editor and does not reach the language server;
/// other commands and requests go on, and nothing is waited for on their account.
pub proof fn law_our_commands_are_answered_here(waiting: WaitingModel, request: JsonRpcRequestModel)
    requires
        request.method != "textDocument/codeAction"@,
        request.method != "initialize"@,
    ensures
        on_request(waiting, request).0 == waiting,
        request.method == "workspace/executeCommand"@ && (command_in(or_null(request.params)) matches Ok((
            command,
            _,
        )) && (command == "llmvm-codeassist/complete"@ || command == "llmvm-codeassist/addContext"@))
            ==> on_request(waiting, request).1 == (InterceptionModel::Ask {
            origin_request: None,
            reply_use: ReplyUse::Replace { to_real_server: false },
        }),
        request.method != "workspace/executeCommand"@ ==> on_request(waiting, request).1 == (
        InterceptionModel::Forward { should_exit: false }),
        request.method == "workspace/executeCommand"@ && command_in(or_null(request.params)) is Err
            ==> on_request(waiting, request).1 == (InterceptionModel::Forward { should_exit: false }),
{
}

/// An answer that nobody waits for goes on, and nothing changes.
pub proof fn law_other_answers_go_on(
    waiting: WaitingModel,
    response: JsonRpcResponseModel,
    to_real_server: bool,
)
    requires
        !waiting.calls.contains_key(spelled(response.id)),
        !waiting.requests.contains_key(spelled(response.id)),
    ensures
        on_response(waiting, response, to_real_server) == (
            waiting,
            InterceptionModel::Forward { should_exit: false },
        ),
{
}

} // verus!
