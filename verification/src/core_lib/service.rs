//! The core as a service: the backends it starts, and replies that come in parts.

use vstd::prelude::*;
use crate::core_lib::threads::ThreadEvent;
use crate::protocol::{
    BackendGenerationResponse, BackendToolCall, BackendToolCallModel, GenerationResponse,
    GenerationResponseModel,
};
use crate::text::concat;

verus! {

/// What the names of the programs of backends begin with.
pub const BACKEND_COMMAND_PREFIX: &'static str = "llmvm-";

/// The directory of a project.
pub const PROJECT_DIR_NAME: &'static str = ".llmvm";

/// The program of a backend.
pub fn backend_command(backend: &str) -> (r: String)
    ensures
        r@ == BACKEND_COMMAND_PREFIX@ + backend@,
{
    concat(BACKEND_COMMAND_PREFIX, backend)
}

/// A reply that comes in parts.
#[derive(Debug)]
pub struct ReplyStream {
    /// The text so far.
    pub full_response: String,
    /// The calls so far.
    pub tool_calls: Option<Vec<BackendToolCall>>,
}

/// The calls so far with those of one more part.
pub open spec fn more_calls(
    earlier: Option<Seq<BackendToolCallModel>>,
    later: Option<Seq<BackendToolCallModel>>,
) -> Option<Seq<BackendToolCallModel>> {
    match (earlier, later) {
        (Some(earlier), Some(later)) => Some(earlier + later),
        (None, later) => later,
        (earlier, None) => earlier,
    }
}

impl ReplyStream {
    /// A reply of which no part has come.
    pub fn new() -> (r: Self)
        ensures
            r.full_response@.len() == 0,
            r.tool_calls is None,
    {
        ReplyStream { full_response: String::new(), tool_calls: None }
    }

    /// Takes up a part. Gives what is passed on of it.
    pub fn push(&mut self, part: BackendGenerationResponse) -> (r: GenerationResponse)
        ensures
            final(self).full_response@ == (match part.response {
                Some(text) => old(self).full_response@ + text@,
                None => old(self).full_response@,
            }),
            final(self).tool_calls.deep_view() == more_calls(
                old(self).tool_calls.deep_view(),
                part.tool_calls.deep_view(),
            ),
            r.deep_view() == (GenerationResponseModel {
                response: part.response.deep_view(),
                tool_call_part: part.tool_call_part.deep_view(),
                thread_id: None,
                tool_calls: None,
            }),
            final(self).full_response@ == old(self).full_response@ + (match r.response {
                Some(text) => text@,
                None => Seq::empty(),
            }),
    {
        if let Some(text) = &part.response {
            self.full_response.append(text.as_str());
        }
        if let Some(more) = part.tool_calls {
            let mut more = more;
            let ghost later = more.deep_view();
            match self.tool_calls.take() {
                Some(earlier) => {
                    let mut calls = earlier;
                    let ghost before = calls.deep_view();
                    calls.append(&mut more);
                    assert(calls.deep_view() =~= before + later);
                    self.tool_calls = Some(calls);
                },
                None => {
                    self.tool_calls = Some(more);
                },
            }
        }
        GenerationResponse {
            response: part.response,
            tool_call_part: part.tool_call_part,
            thread_id: None,
            tool_calls: None,
        }
    }
}

/// Whether one who follows a thread has to begin anew after the event: a new thread has begun.
pub fn needs_new_subscription(event: &ThreadEvent) -> (r: bool)
    ensures
        r == (event.deep_view() is NewThread),
{
    match event {
        ThreadEvent::NewThread { .. } => true,
        _ => false,
    }
}

// ---------------------------------------------------------------------------------------------
// Laws.

/// The calls of a reply that comes in parts are those of all its parts, in order, and parts without
/// calls change nothing.
pub proof fn law_calls_of_parts_are_kept(
    earlier: Seq<BackendToolCallModel>,
    later: Seq<BackendToolCallModel>,
    so_far: Option<Seq<BackendToolCallModel>>,
)
    ensures
        more_calls(so_far, None) == so_far,
        more_calls(None, Some(later)) == Some(later),
        more_calls(Some(earlier), Some(later)) matches Some(all) && all.len() == earlier.len() + later.len()
            && all.take(earlier.len() as int) == earlier && all.skip(earlier.len() as int) == later,
{
    assert((earlier + later).take(earlier.len() as int) =~= earlier);
    assert((earlier + later).skip(earlier.len() as int) =~= later);
}

/// A backend is started by its name behind that of the project, so that two of them are started by
/// different commands.
pub proof fn law_backends_have_their_own_commands(backend: &str, other: &str, r: String, s: String)
    requires
        call_ensures(backend_command, (backend,), r),
        call_ensures(backend_command, (other,), s),
    ensures
        r@.take(6) == seq!['l', 'l', 'm', 'v', 'm', '-'],
        r@.skip(6) == backend@,
        r@ == s@ <==> backend@ == other@,
{
    reveal_strlit("llmvm-");
    assert(r@.take(6) =~= seq!['l', 'l', 'm', 'v', 'm', '-']);
    assert(r@.skip(6) =~= backend@);
    assert(s@.skip(6) =~= other@);
}

/// Only a new thread is followed anew.
pub proof fn law_only_new_threads_are_followed_anew(event: ThreadEvent, r: bool)
    requires
        call_ensures(needs_new_subscription, (&event,), r),
    ensures
        event is NewThread ==> r,
        !(event is NewThread) ==> !r,
{
}

} // verus!
