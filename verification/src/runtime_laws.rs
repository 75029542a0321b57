//! What holds of the runs that are under way, from one request to the next.

use vstd::prelude::*;

use crate::protocol::WireMessageView;
use crate::runtime::{EmitOutcome, RecvOutcome, RunHandleView, SubmitError, WaitError};
use crate::store::PendingToolView;

verus! {

/// Messages that are sent to a run that goes on come out in the order in which they were sent, all of
/// them, and once.
pub proof fn law_messages_come_out_in_order<W, S>(
    run: RunHandleView<W, S>,
    first: Seq<WireMessageView>,
    second: Seq<WireMessageView>,
)
    requires
        !run.cancelled,
        !run.finished,
    ensures
        ({
            let (once, a) = run.after_steer(first);
            let (twice, b) = once.after_steer(second);
            let (taken, out) = twice.after_drain();
            &&& a is Ok && b is Ok
            &&& out == run.steer + first + second
            &&& taken.after_drain().1.len() == 0
            &&& same_but_queue(run, taken)
        }),
{
}

/// Whether two runs are the same but for what is queued.
pub open spec fn same_but_queue<W, S>(a: RunHandleView<W, S>, b: RunHandleView<W, S>) -> bool {
    &&& a.id == b.id
    &&& a.waiters == b.waiters
    &&& a.pending == b.pending
    &&& a.subscriber == b.subscriber
    &&& a.persist == b.persist
    &&& a.cancelled == b.cancelled
    &&& a.finished == b.finished
}

/// A run that was cancelled or is over takes no messages; one that was cancelled lets no one wait, and
/// hands no result to anyone. None of that changes it.
pub proof fn law_ended_run_takes_nothing<W, S>(
    run: RunHandleView<W, S>,
    messages: Seq<WireMessageView>,
    call: Seq<char>,
    waiter: W,
)
    ensures
        ({
            let cancelled = run.after_cancel();
            &&& cancelled.after_steer(messages) == (
                cancelled,
                Err::<(), SubmitError>(SubmitError::Conflict),
            )
            &&& cancelled.after_wait(call, waiter) == (
                cancelled,
                Err::<(), WaitError>(WaitError::Cancelled),
            )
            &&& cancelled.after_submit(call) == (
                cancelled,
                Err::<W, SubmitError>(SubmitError::Conflict),
            )
        }),
        ({
            let over = run.after_finish();
            &&& over.after_steer(messages) == (over, Err::<(), SubmitError>(SubmitError::Conflict))
            &&& over.after_submit(call) == (over, Err::<W, SubmitError>(SubmitError::Conflict))
        }),
{
}

/// The result of a call reaches the one who waits for it, once, and ends the wait; who waits for
/// another call goes on waiting. A result for which no one waits is refused.
pub proof fn law_result_reaches_its_waiter<W, S>(
    run: RunHandleView<W, S>,
    tool: PendingToolView,
    waiter: W,
    other: Seq<char>,
)
    requires
        !run.cancelled,
        !run.finished,
        other != tool.tool_call_id,
    ensures
        ({
            let call = tool.tool_call_id;
            let (armed, ok) = run.after_record(tool).after_wait(call, waiter);
            let (done, got) = armed.after_submit(call);
            &&& ok is Ok
            &&& armed.pending.dom().contains(call) && armed.pending[call] == tool
            &&& got == Ok::<W, SubmitError>(waiter)
            &&& !done.pending.dom().contains(call)
            &&& done.after_submit(call).1 == Err::<W, SubmitError>(SubmitError::Conflict)
            &&& done.after_submit(other).1 == run.after_submit(other).1
            &&& done.pending.dom().contains(other) <==> run.pending.dom().contains(other)
            &&& done.steer == run.steer
        }),
        !run.waiters.dom().contains(other) ==> run.after_submit(other) == (
            run,
            Err::<W, SubmitError>(SubmitError::Conflict),
        ),
{
}

/// The last one who subscribes gets the events. An event is delivered exactly where someone is there to
/// get it and takes it; one who does not is let go, so that the next event goes to no one.
pub proof fn law_last_subscriber_gets_the_events<W, S>(
    run: RunHandleView<W, S>,
    first: S,
    second: S,
)
    ensures
        run.after_subscribe(first).after_subscribe(second).subscriber == Some(second),
        run.after_subscribe(first).after_emit(true) == (
            run.after_subscribe(first),
            EmitOutcome::Delivered,
        ),
        run.after_subscribe(first).after_emit(false).1 == EmitOutcome::DroppedNoSubscriber,
        run.after_emit(false).0.subscriber is None,
        run.after_emit(false).0.after_emit(true).1 == EmitOutcome::DroppedNoSubscriber,
        run.after_emit(false).0.steer == run.steer,
        run.after_emit(false).0.waiters == run.waiters,
        run.after_emit(false).0.finished == run.finished,
        run.subscriber is None ==> run.after_emit(true) == (run, EmitOutcome::DroppedNoSubscriber),
{
}

/// A result that came is handed on as it is; a wait that ended without one leaves nothing of the call
/// behind, and says whether it timed out or was broken off.
pub proof fn law_wait_ends<W, S>(
    run: RunHandleView<W, S>,
    call: Seq<char>,
    other: Seq<char>,
    outcome: RecvOutcome,
)
    requires
        other != call,
    ensures
        ({
            let (after, got) = run.after_recv(call, outcome);
            &&& outcome matches RecvOutcome::Result(result) ==> got == Ok::<_, WaitError>(result)
                && after == run
            &&& !(outcome is Result) ==> {
                &&& got is Err
                &&& got->Err_0 == WaitError::Timeout <==> outcome is TimedOut
                &&& !after.waiters.dom().contains(call)
                &&& !after.pending.dom().contains(call)
            }
            &&& after.waiters.dom().contains(other) <==> run.waiters.dom().contains(other)
            &&& after.pending.dom().contains(other) <==> run.pending.dom().contains(other)
            &&& after.steer == run.steer
        }),
{
}

/// When a subtask is over, the calls that were made for it are awaited no more; every other call still
/// is.
pub proof fn law_calls_of_a_subtask_are_dropped<W, S>(
    run: RunHandleView<W, S>,
    task: Seq<char>,
    call: Seq<char>,
)
    ensures
        ({
            let after = run.after_task_cancel(task);
            let of_task = run.pending.dom().contains(call) && run.pending[call].parent_task_id
                == Some(task);
            &&& of_task ==> !after.pending.dom().contains(call) && !after.waiters.dom().contains(call)
            &&& !of_task ==> (after.pending.dom().contains(call)
                <==> run.pending.dom().contains(call))
            &&& !of_task ==> (after.waiters.dom().contains(call)
                <==> run.waiters.dom().contains(call))
            &&& after.pending.dom().contains(call) ==> after.pending[call] == run.pending[call]
            &&& after.waiters.dom().contains(call) ==> after.waiters[call] == run.waiters[call]
            &&& after.steer == run.steer
            &&& after.cancelled == run.cancelled
        }),
{
}

} // verus!
