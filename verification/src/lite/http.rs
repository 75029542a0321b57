//! What the server answers to a request.

use vstd::prelude::*;

use crate::lite::run::{RunHandleView, RunRegistry};
use crate::json::{Json, JsonValue};
use crate::protocol::{SteerRequest, ToolResultRequest, WireMessageView};

verus! {

/// Why a request is refused.
#[derive(Debug, Clone, Copy, PartialEq, Eq, Structural)]
pub enum ApiError {
    NotFound,
    Conflict,
}

impl DeepView for ApiError {
    type V = ApiError;

    open spec fn deep_view(&self) -> ApiError {
        *self
    }
}

impl ApiError {
    pub open spec fn status_code(self) -> u16 {
        match self {
            ApiError::NotFound => 404,
            ApiError::Conflict => 409,
        }
    }

    pub open spec fn text(self) -> Seq<char> {
        match self {
            ApiError::NotFound => "run not found"@,
            ApiError::Conflict => "conflict"@,
        }
    }

    /// The HTTP status of the answer.
    pub fn status(&self) -> (r: u16)
        ensures
            r == self.status_code(),
    {
        match self {
            ApiError::NotFound => 404,
            ApiError::Conflict => 409,
        }
    }

    /// The JSON body of the answer.
    pub fn body(&self) -> (r: JsonValue)
        ensures
            r.tree() == Json::Obj(seq![("error"@, Json::Str(self.text()))]),
    {
        let text = match self {
            ApiError::NotFound => "run not found",
            ApiError::Conflict => "conflict",
        };
        JsonValue::object1("error", JsonValue::string(text))
    }
}

/// The runs after the result of a tool came for one of them, and who is to get it.
pub open spec fn result_handed<W>(
    runs: Map<Seq<char>, RunHandleView<W>>,
    id: Seq<char>,
    call_id: Seq<char>,
) -> (Map<Seq<char>, RunHandleView<W>>, Result<W, ApiError>) {
    if !runs.dom().contains(id) {
        (runs, Err(ApiError::NotFound))
    } else {
        match runs[id].after_submit(call_id) {
            (run, Ok(waiter)) => (runs.insert(id, run), Ok(waiter)),
            (_, Err(_)) => (runs, Err(ApiError::Conflict)),
        }
    }
}

/// The runs after messages came for one of them, and how many were queued.
pub open spec fn messages_queued<W>(
    runs: Map<Seq<char>, RunHandleView<W>>,
    id: Seq<char>,
    messages: Seq<WireMessageView>,
) -> (Map<Seq<char>, RunHandleView<W>>, Result<nat, ApiError>) {
    if !runs.dom().contains(id) {
        (runs, Err(ApiError::NotFound))
    } else {
        match runs[id].after_steer(messages) {
            (run, Ok(_)) => (runs.insert(id, run), Ok(messages.len())),
            (_, Err(_)) => (runs, Err(ApiError::Conflict)),
        }
    }
}

/// The runs after one of them is to be cancelled, and whether it is known.
pub open spec fn run_cancelled<W>(runs: Map<Seq<char>, RunHandleView<W>>, id: Seq<char>) -> (
    Map<Seq<char>, RunHandleView<W>>,
    Result<(), ApiError>,
) {
    if runs.dom().contains(id) {
        (runs.insert(id, runs[id].after_cancel()), Ok(()))
    } else {
        (runs, Err(ApiError::NotFound))
    }
}

/// Hands the result of a tool to the run that waits for it: gives the waiter.
pub fn tool_results<W>(registry: &mut RunRegistry<W>, id: &str, body: &ToolResultRequest) -> (r:
    Result<W, ApiError>)
    requires
        old(registry).wf(),
    ensures
        final(registry).wf(),
        ({
            let runs = old(registry).deep_view();
            if !runs.dom().contains(id@) {
                r == Err::<W, _>(ApiError::NotFound) && final(registry).deep_view() == runs
            } else if !runs[id@].awaits(body.deep_view().tool_call_id) {
                r == Err::<W, _>(ApiError::Conflict) && final(registry).deep_view() == runs
            } else {
                r == Ok::<W, ApiError>(runs[id@].waiting()) && final(registry).deep_view()
                    == runs.insert(id@, RunHandleView { waiter: None, ..runs[id@] })
            }
        }),
        (final(registry).deep_view(), r) == result_handed(
            old(registry).deep_view(),
            id@,
            body.deep_view().tool_call_id,
        ),
{
    let ghost runs = registry.deep_view();
    match registry.get_mut(id) {
        None => Err(ApiError::NotFound),
        Some(run) => match run.submit_tool_result(body) {
            Ok(waiter) => Ok(waiter),
            Err(_) => {
                assert(runs.insert(id@, runs[id@]) =~= runs);
                Err(ApiError::Conflict)
            },
        },
    }
}

/// Queues messages for a run: gives how many.
pub fn steer<W>(registry: &mut RunRegistry<W>, id: &str, body: SteerRequest) -> (r: Result<
    usize,
    ApiError,
>)
    requires
        old(registry).wf(),
    ensures
        final(registry).wf(),
        ({
            let runs = old(registry).deep_view();
            let messages = body.deep_view().messages;
            if !runs.dom().contains(id@) {
                r == Err::<usize, _>(ApiError::NotFound) && final(registry).deep_view() == runs
            } else if runs[id@].cancelled || runs[id@].finished {
                r == Err::<usize, _>(ApiError::Conflict) && final(registry).deep_view() == runs
            } else {
                &&& r matches Ok(queued) && queued == messages.len()
                &&& final(registry).deep_view() == runs.insert(
                    id@,
                    RunHandleView { steer: runs[id@].steer + messages, ..runs[id@] },
                )
            }
        }),
        ({
            let (runs, answer) = messages_queued(
                old(registry).deep_view(),
                id@,
                body.deep_view().messages,
            );
            &&& final(registry).deep_view() == runs
            &&& match r {
                Ok(queued) => answer == Ok::<nat, ApiError>(queued as nat),
                Err(err) => answer == Err::<nat, ApiError>(err),
            }
        }),
{
    let ghost runs = registry.deep_view();
    let queued: usize = body.messages.len();
    match registry.get_mut(id) {
        None => Err(ApiError::NotFound),
        Some(run) => match run.enqueue_steer(body.messages) {
            Ok(()) => Ok(queued),
            Err(_) => {
                assert(runs.insert(id@, runs[id@]) =~= runs);
                Err(ApiError::Conflict)
            },
        },
    }
}

/// Cancels a run.
pub fn cancel_run<W>(registry: &mut RunRegistry<W>, id: &str) -> (r: Result<(), ApiError>)
    requires
        old(registry).wf(),
    ensures
        final(registry).wf(),
        ({
            let runs = old(registry).deep_view();
            if runs.dom().contains(id@) {
                r is Ok && final(registry).deep_view() == runs.insert(
                    id@,
                    runs[id@].after_cancel(),
                )
            } else {
                r == Err::<(), _>(ApiError::NotFound) && final(registry).deep_view() == runs
            }
        }),
        (final(registry).deep_view(), r) == run_cancelled(old(registry).deep_view(), id@),
{
    match registry.get_mut(id) {
        None => Err(ApiError::NotFound),
        Some(run) => {
            run.cancel();
            Ok(())
        },
    }
}

} // verus!
