//! Following the threads in which a user talks to models about the code.

use vstd::prelude::*;
use crate::codeassist::tools::{definitions, Tools};
use crate::core_lib::threads::{ThreadEvent, ThreadEventModel};
use crate::protocol::{
    SubscribeToThreadRequest, SubscribeToThreadRequestModel, Tool, ToolCall, ToolCallModel,
};

verus! {

/// The thread in which code is completed.
pub const CODEGEN_TAG: &'static str = "codegen";

/// The thread in which the user talks about the code.
pub const CODECHAT_TAG: &'static str = "codechat";

/// What the name of this client begins with.
pub const CODEASSIST_CLIENT_PREFIX: &'static str = "codeassist";

/// Follows the threads of a session, and carries out the calls of tools in them.
#[derive(Debug)]
pub struct SessionSubscription {
    pub tool_definitions: Vec<Tool>,
    pub tools: Tools,
    pub session_id: String,
    pub client_id: String,
}

/// The request to follow a thread of a session.
pub open spec fn subscription(
    session_id: Seq<char>,
    session_tag: Seq<char>,
    client_id: Seq<char>,
    use_native_tools: bool,
) -> SubscribeToThreadRequestModel {
    SubscribeToThreadRequestModel {
        thread_id: None,
        session_id: Some(session_id),
        session_tag: Some(session_tag),
        client_id,
        tools: Some(definitions(use_native_tools)),
    }
}

/// The calls of tools in what happens to a thread.
pub open spec fn calls_in(event: ThreadEventModel) -> Option<Seq<ToolCallModel>> {
    match event {
        ThreadEventModel::Message { message } => message.tool_calls,
        _ => None,
    }
}

impl SessionSubscription {
    /// Whether the tools are those of the client in the session.
    pub open spec fn well_formed(self) -> bool {
        &&& self.tool_definitions.deep_view() == definitions(self.tools.use_native_tools)
        &&& self.tools.session_id@ == self.session_id@
        &&& self.tools.client_id@ == self.client_id@
    }

    /// Follows the threads of a session.
    pub fn new(session_id: String, client_id: String, use_native_tools: bool) -> (r: Self)
        ensures
            r.well_formed(),
            r.session_id@ == session_id@,
            r.client_id@ == client_id@,
            r.tools.use_native_tools == use_native_tools,
    {
        SessionSubscription {
            tool_definitions: Tools::get_definitions(use_native_tools),
            tools: Tools::new(session_id.clone(), client_id.clone(), use_native_tools),
            session_id,
            client_id,
        }
    }

    fn request(&self, session_tag: &str) -> (r: SubscribeToThreadRequest)
        requires
            self.well_formed(),
        ensures
            r.deep_view() == subscription(
                self.session_id@,
                session_tag@,
                self.client_id@,
                self.tools.use_native_tools,
            ),
    {
        SubscribeToThreadRequest {
            thread_id: None,
            session_id: Some(self.session_id.clone()),
            session_tag: Some(session_tag.to_owned()),
            client_id: self.client_id.clone(),
            tools: Some(self.tool_definitions.clone()),
        }
    }

    /// The requests to follow the threads, first the one in which code is completed.
    pub fn requests(&self) -> (r: (SubscribeToThreadRequest, SubscribeToThreadRequest))
        requires
            self.well_formed(),
        ensures
            r.0.deep_view() == subscription(
                self.session_id@,
                CODEGEN_TAG@,
                self.client_id@,
                self.tools.use_native_tools,
            ),
            r.1.deep_view() == subscription(
                self.session_id@,
                CODECHAT_TAG@,
                self.client_id@,
                self.tools.use_native_tools,
            ),
    {
        (self.request(CODEGEN_TAG), self.request(CODECHAT_TAG))
    }

    /// The calls of tools in what happens to a thread.
    pub fn calls_of(event: ThreadEvent) -> (r: Option<Vec<ToolCall>>)
        ensures
            r.deep_view() == calls_in(event.deep_view()),
    {
        match event {
            ThreadEvent::Message { message } => message.tool_calls,
            _ => None,
        }
    }
}

// ---------------------------------------------------------------------------------------------
// Laws.

/// The calls of a message are handed on as they are; what else happens to a thread brings none.
pub proof fn law_calls_of_messages_are_handed_on(event: ThreadEvent, r: Option<Vec<ToolCall>>)
    requires
        call_ensures(SessionSubscription::calls_of, (event,), r),
    ensures
        event matches ThreadEvent::Message { message } ==> r.deep_view() == message.tool_calls.deep_view(),
        !(event is Message) ==> r is None,
{
    if let ThreadEvent::Message { message } = event {
        assert(message.deep_view().tool_calls == message.tool_calls.deep_view());
    }
}

/// The threads of a session are followed under the name of the client and with its tools: that of the
/// completions, and that in which the user talks about the code.
pub proof fn law_both_threads_are_followed(
    subscription_of: SessionSubscription,
    r: (SubscribeToThreadRequest, SubscribeToThreadRequest),
)
    requires
        subscription_of.well_formed(),
        call_ensures(SessionSubscription::requests, (&subscription_of,), r),
    ensures
        r.0.session_tag.deep_view() == Some("codegen"@),
        r.1.session_tag.deep_view() == Some("codechat"@),
        r.0.session_id.deep_view() == Some(subscription_of.session_id@),
        r.1.session_id.deep_view() == Some(subscription_of.session_id@),
        r.0.client_id@ == subscription_of.client_id@ && r.1.client_id@ == subscription_of.client_id@,
        r.0.thread_id is None && r.1.thread_id is None,
        r.0.tools.deep_view() == Some(subscription_of.tool_definitions.deep_view()),
        r.1.tools.deep_view() == Some(subscription_of.tool_definitions.deep_view()),
{
    let a = r.0.deep_view();
    let b = r.1.deep_view();
    assert(a.session_tag == r.0.session_tag.deep_view() && b.session_tag == r.1.session_tag.deep_view());
    assert(a.session_id == r.0.session_id.deep_view() && b.session_id == r.1.session_id.deep_view());
    assert(a.thread_id == r.0.thread_id.deep_view() && b.thread_id == r.1.thread_id.deep_view());
    assert(a.tools == r.0.tools.deep_view() && b.tools == r.1.tools.deep_view());
}

} // verus!
