//! What holds of the loop, the runs and the configuration of the smaller server.

use vstd::prelude::*;

use crate::agent::orchestrator::state::{CompletedView, SteeredView};
use crate::config::LoadFailureView;
use crate::lite::config::{loaded, RawConfigView};
use crate::lite::http::{messages_queued, result_handed, run_cancelled, ApiError};
use crate::lite::orchestrator::{
    AgentRunView, AskView, HappeningView, OrchestratorErrorView, OutcomeView, PhaseView,
};
use crate::lite::run::{fresh_run, RunHandleView};
use crate::llm::LlmChunkView;
use crate::protocol::{
    MessageSource, Role, SseEventView, ToolCallView, ToolResultRequestView, WireMessageView,
};
use crate::runtime::{SubmitError, WaitError};
use crate::text::{has_part, trimmed};
use crate::text_laws::law_between_is_a_part;

verus! {

/// The calls that a run has still to hear of: the one whose result it waits for, and those that are
/// to be made after it.
pub open spec fn in_line(run: AgentRunView) -> Seq<ToolCallView> {
    match run.phase {
        PhaseView::Tool(call) => seq![call] + run.calls,
        _ => Seq::empty(),
    }
}

/// Whether a step makes this call: the client is asked for it, and its result is awaited.
pub open spec fn makes(
    run_id: Seq<char>,
    events: Seq<SseEventView>,
    ask: AskView,
    call: ToolCallView,
) -> bool {
    &&& ask == AskView::WaitTool(call.id)
    &&& events.len() > 0
    &&& events.last() == (SseEventView::ToolRequest {
        run_id,
        tool_call_id: call.id,
        name: call.name,
        arguments: call.arguments,
        agent_id: None,
        parent_task_id: None,
    })
}

/// Every call of a message is made, one after the other and in order: the message brings its calls,
/// each result takes the first of those that are left, and the next is made then. Nothing else makes
/// or drops a call, but the end of the run.
pub proof fn law_every_call_is_made(run: AgentRunView, happening: HappeningView)
    requires
        run.expects(happening),
    ensures
        ({
            let t = run.step(happening);
            &&& !(t.run.phase is Done) ==> match (run.phase, happening) {
                (
                    PhaseView::Streaming(_, Some(message)),
                    HappeningView::StreamEnd,
                ) => in_line(t.run) == message.tool_calls,
                (PhaseView::Tool(_), HappeningView::ToolResult(_)) => in_line(t.run) == in_line(
                    run,
                ).skip(1),
                _ => in_line(t.run).len() == 0,
            }
            &&& in_line(t.run).len() > 0 ==> makes(run.run_id, t.events, t.ask, in_line(t.run)[0])
            &&& t.run.phase is Tool <==> t.ask is WaitTool
        }),
{
    let t = run.step(happening);
    match (run.phase, happening) {
        (PhaseView::Streaming(_, Some(message)), HappeningView::StreamEnd) => {
            if message.tool_calls.len() > 0 {
                assert(seq![message.tool_calls[0]] + message.tool_calls.skip(1)
                    =~= message.tool_calls);
            }
        },
        (PhaseView::Tool(call), HappeningView::ToolResult(_)) => {
            assert((seq![call] + run.calls).skip(1) =~= run.calls);
            if run.calls.len() > 0 {
                assert(seq![run.calls[0]] + run.calls.skip(1) =~= run.calls);
            }
        },
        _ => {},
    }
}

/// The result of a tool joins the context as the reply to the call: what the client said, after a mark
/// where it says that the tool failed. Nothing else joins.
pub proof fn law_result_joins(run: AgentRunView, result: ToolResultRequestView)
    requires
        run.phase is Tool,
    ensures
        ({
            let t = run.step(HappeningView::ToolResult(result));
            let reply = t.run.context.last();
            &&& t.run.context.len() == run.context.len() + 1
            &&& t.run.context.drop_last() == run.context
            &&& reply.role == Role::Tool
            &&& reply.tool_call_id == Some(result.tool_call_id)
            &&& run.phase matches PhaseView::Tool(call) && reply.name == Some(call.name)
            &&& !result.is_error ==> reply.content == result.content
            &&& result.is_error ==> reply.content == "tool_error:"@ + result.content
            &&& run.calls.len() == 0 ==> t.ask is Steer
        }),
{
    let t = run.step(HappeningView::ToolResult(result));
    assert(t.run.context.drop_last() =~= run.context);
}

/// Whether events tell of messages from outside: one for each, in order.
pub open spec fn tell_of(
    events: Seq<SseEventView>,
    run_id: Seq<char>,
    joined: Seq<SteeredView>,
    source: MessageSource,
) -> bool {
    &&& events.len() == joined.len()
    &&& forall|i: int|
        0 <= i < joined.len() ==> #[trigger] events[i] == (SseEventView::MessageCompleted {
            run_id,
            message_id: joined[i].message_id,
            role: joined[i].message.role,
            content: joined[i].message.content,
            tool_calls: None,
            source: Some(source),
            reasoning_content: None,
        })
}

/// Whether messages joined the end of a context, as they are and in order.
pub open spec fn have_joined(
    before: Seq<WireMessageView>,
    after: Seq<WireMessageView>,
    joined: Seq<SteeredView>,
) -> bool {
    &&& after.len() == before.len() + joined.len()
    &&& forall|i: int| 0 <= i < before.len() ==> #[trigger] after[i] == before[i]
    &&& forall|i: int|
        0 <= i < joined.len() ==> after[before.len() + i] == (#[trigger] joined[i]).message
}

/// Messages from outside join the context and are told of. After those that were queued the model is
/// called with the tools of the run; follow-ups set the run going again, and without any it is over.
pub proof fn law_messages_from_outside_join(run: AgentRunView, joined: Seq<SteeredView>)
    ensures
        run.phase is Steer ==> {
            let t = run.step(HappeningView::Steered(joined));
            &&& have_joined(run.context, t.run.context, joined)
            &&& tell_of(t.events, run.run_id, joined, MessageSource::Steer)
            &&& t.ask == AskView::OpenStream(run.tools)
        },
        run.phase is FollowUps && joined.len() > 0 ==> {
            let t = run.step(HappeningView::FollowUps(joined));
            &&& have_joined(run.context, t.run.context, joined)
            &&& tell_of(t.events, run.run_id, joined, MessageSource::FollowUp)
            &&& t.ask is Steer
        },
        run.phase is FollowUps && joined.len() == 0 ==> {
            let t = run.step(HappeningView::FollowUps(joined));
            &&& t.run.context == run.context
            &&& t.ask == AskView::Return(OutcomeView::Finished)
            &&& t.events == seq![SseEventView::RunFinished { run_id: run.run_id, reason: "stop"@ }]
        },
{
}

/// What the model streams is sent on as it is, under the id of its message; what it completes is kept
/// until the stream is over, and a later one takes the place of an earlier.
pub proof fn law_chunks_are_sent(
    run: AgentRunView,
    id: Seq<char>,
    kept: Option<CompletedView>,
    chunk: LlmChunkView,
)
    requires
        run.phase == PhaseView::Streaming(id, kept),
    ensures
        ({
            let t = run.step(HappeningView::Chunk(chunk));
            &&& t.ask is NextChunk
            &&& t.run.context == run.context
            &&& match chunk {
                LlmChunkView::TextDelta(text) => {
                    &&& t.events == seq![
                        SseEventView::MessageDelta {
                            run_id: run.run_id,
                            message_id: id,
                            delta: text,
                        },
                    ]
                    &&& t.run.phase == run.phase
                },
                LlmChunkView::ReasoningDelta(_) => t.events.len() == 0 && t.run.phase == run.phase,
                LlmChunkView::Completed { content: said, tool_calls: calls, .. } => {
                    &&& t.events.len() == 0
                    &&& t.run.phase matches PhaseView::Streaming(same, Some(message)) && same == id
                        && message.content == said && message.tool_calls == calls
                },
            }
        }),
{
}

/// The message that the model completed joins the context and is told with its text and all its calls.
/// Without calls the run asks for follow-ups; a stream that completed nothing ends the run.
pub proof fn law_message_of_the_model_joins(
    run: AgentRunView,
    id: Seq<char>,
    kept: Option<CompletedView>,
)
    requires
        run.phase == PhaseView::Streaming(id, kept),
    ensures
        ({
            let t = run.step(HappeningView::StreamEnd);
            match kept {
                Some(message) => {
                    &&& t.run.context.len() == run.context.len() + 1
                    &&& t.run.context.drop_last() == run.context
                    &&& t.run.context.last().role == Role::Assistant
                    &&& t.run.context.last().content == message.content
                    &&& t.events.len() > 0
                    &&& t.events[0] matches SseEventView::MessageCompleted {
                        run_id,
                        message_id,
                        role,
                        content,
                        tool_calls,
                        source,
                        ..
                    } && run_id == run.run_id && message_id == id && role == Role::Assistant
                        && content == message.content && source == Some(MessageSource::Assistant)
                        && (message.tool_calls.len() == 0 ==> tool_calls is None) && (
                    message.tool_calls.len() > 0 ==> tool_calls == Some(message.tool_calls))
                    &&& message.tool_calls.len() == 0 ==> t.ask is FollowUps
                },
                None => t.ask matches AskView::Return(OutcomeView::Failed(err)) && err is Llm,
            }
        }),
{
    let t = run.step(HappeningView::StreamEnd);
    if kept is Some {
        assert(t.run.context.drop_last() =~= run.context);
    }
}

/// The error that ends a run, where what happened ends it with one.
pub open spec fn error_of(happening: HappeningView) -> Option<OrchestratorErrorView> {
    match happening {
        HappeningView::StreamRefused(err) => Some(OrchestratorErrorView::Llm(err)),
        HappeningView::ChunkFailed(err) => Some(OrchestratorErrorView::Llm(err)),
        HappeningView::ToolWaitFailed(WaitError::Timeout) => Some(
            OrchestratorErrorView::ToolTimeout,
        ),
        HappeningView::ToolWaitFailed(WaitError::Cancelled) => Some(
            OrchestratorErrorView::Cancelled,
        ),
        _ => None,
    }
}

/// A failure of the model, a wait that timed out and a cancellation end the run with just that. A
/// cancelled run is told to be finished; any other error is told with its text and its code.
pub proof fn law_what_ends_a_run(run: AgentRunView, happening: HappeningView)
    requires
        run.expects(happening),
    ensures
        ({
            let t = run.step(happening);
            error_of(happening) matches Some(err) ==> {
                &&& t.ask == AskView::Return(OutcomeView::Failed(err))
                &&& t.run.phase == PhaseView::Done(OutcomeView::Failed(err))
                &&& t.run.context == run.context
                &&& t.events == seq![
                    if err is Cancelled {
                        SseEventView::RunFinished { run_id: run.run_id, reason: "cancelled"@ }
                    } else {
                        SseEventView::Error {
                            run_id: run.run_id,
                            message: err.message(),
                            code: err.code(),
                        }
                    },
                ]
            }
        }),
        happening is Begin ==> run.step(happening).ask is Steer && run.step(happening).events
            == seq![SseEventView::RunStarted { run_id: run.run_id }],
        happening matches HappeningView::StreamOpened(id) ==> run.step(happening).run.phase
            == PhaseView::Streaming(id, None) && run.step(happening).events.len() == 0,
{
}

/// A run that no one hears any more keeps the error that it ended with; anything else is lost with the
/// events.
pub proof fn law_run_that_is_unheard(run: AgentRunView)
    ensures
        run.unheard() matches OutcomeView::Failed(err) && (run.phase == PhaseView::Done(
            OutcomeView::Failed(err),
        ) || err is SseClosed),
        run.phase matches PhaseView::Done(OutcomeView::Failed(err)) ==> run.unheard()
            == OutcomeView::Failed(err),
{
}

/// The text of an error of the model ends with what the model said.
pub proof fn law_error_of_the_model_is_told(err: Seq<char>)
    ensures
        err.is_suffix_of(OrchestratorErrorView::Llm(err).message()),
{
    let text = OrchestratorErrorView::Llm(err).message();
    assert(text.skip("llm error: "@.len() as int) =~= err);
}

/// A new run waits for nothing; a cancelled one has nothing queued and waits for nothing, and is not
/// over by that; one that is over waits for nothing, and is not cancelled by that.
pub proof fn law_runs_end<W>(run: RunHandleView<W>, id: Seq<char>)
    ensures
        fresh_run::<W>(id).id == id,
        fresh_run::<W>(id).steer.len() == 0,
        fresh_run::<W>(id).waiter is None,
        !fresh_run::<W>(id).cancelled && !fresh_run::<W>(id).finished,
        run.after_cancel().cancelled,
        run.after_cancel().finished == run.finished,
        run.after_cancel().steer.len() == 0,
        run.after_cancel().waiter is None,
        run.after_cancel().id == run.id,
        run.after_finish().finished,
        run.after_finish().cancelled == run.cancelled,
        run.after_finish().steer == run.steer,
        run.after_finish().waiter is None,
        run.after_finish().id == run.id,
{
}

/// The result of a call is awaited exactly where someone waits for just that call, and it goes to the
/// one who waits.
pub proof fn law_who_waits<W>(run: RunHandleView<W>, call: Seq<char>, waiter: W)
    ensures
        run.waiter == Some((call, waiter)) ==> run.awaits(call) && run.waiting() == waiter,
        run.awaits(call) ==> run.waiter == Some((call, run.waiting())),
        run.waiter is None ==> !run.awaits(call),
{
}

/// A run that is not found is answered by 404, a conflict by 409, each with a text of its own.
pub proof fn law_answers_to_a_refusal(a: ApiError, b: ApiError)
    ensures
        a.status_code() == 404 <==> a is NotFound,
        a.status_code() == 409 <==> a is Conflict,
        a.text() == b.text() ==> a == b,
{
    reveal_strlit("run not found");
    reveal_strlit("conflict");
    assert("run not found"@.len() != "conflict"@.len());
}

/// What a file says is taken as it says it.
pub proof fn law_what_is_given_is_taken(raw: RawConfigView)
    ensures
        raw.filled().api_key == raw.api_key,
        raw.filled().base_url == raw.base_url,
        raw.model matches Some(x) ==> raw.filled().model == x,
        raw.listen matches Some(x) ==> raw.filled().listen == x,
        raw.tool_timeout_secs matches Some(x) ==> raw.filled().tool_timeout_secs == x,
        raw.follow_up_policy matches Some(x) ==> raw.filled().follow_up_policy == x,
{
}

/// A configuration is loaded exactly where the file is read and has a key that is not blank; else the
/// message names the file.
pub proof fn law_when_a_configuration_loads(
    path: Seq<char>,
    source: Result<RawConfigView, LoadFailureView>,
)
    ensures
        loaded(path, source) is Ok <==> has_a_key(source),
        loaded(path, source) matches Ok(config) ==> config == source->Ok_0.filled(),
        loaded(path, source) matches Err(message) ==> has_part(message, path),
        source matches Err(LoadFailureView::Read(err)) ==> has_part(
            loaded(path, source)->Err_0,
            err,
        ),
        source matches Err(LoadFailureView::Parse(err)) ==> has_part(
            loaded(path, source)->Err_0,
            err,
        ),
{
    match source {
        Ok(_) => {
            law_between_is_a_part(Seq::empty(), path, ": api_key is required"@);
            assert(Seq::<char>::empty() + path + ": api_key is required"@ =~= path
                + ": api_key is required"@);
        },
        Err(LoadFailureView::Read(err)) => {
            let tail = "\nCopy config.example.toml to config.toml and fill in api_key."@;
            let head = "failed to read "@;
            law_between_is_a_part(head, path, ": "@ + err + tail);
            assert(head + path + (": "@ + err + tail) =~= head + path + ": "@ + err + tail);
            law_between_is_a_part(head + path + ": "@, err, tail);
        },
        Err(LoadFailureView::Parse(err)) => {
            let head = "failed to parse "@;
            law_between_is_a_part(head, path, ": "@ + err);
            assert(head + path + (": "@ + err) =~= head + path + ": "@ + err);
            law_between_is_a_part(head + path + ": "@, err, Seq::empty());
            assert(head + path + ": "@ + err + Seq::<char>::empty() =~= head + path + ": "@ + err);
        },
    }
}

/// Whether a file was read that has a key.
pub open spec fn has_a_key(source: Result<RawConfigView, LoadFailureView>) -> bool {
    source matches Ok(raw) && trimmed(raw.api_key).len() > 0
}

/// Messages that are sent to a run that goes on come out in the order in which they were sent, all of
/// them, and once; a run that was cancelled or is over takes none.
pub proof fn law_messages_come_out_in_order<W>(
    run: RunHandleView<W>,
    first: Seq<WireMessageView>,
    second: Seq<WireMessageView>,
)
    ensures
        !run.cancelled && !run.finished ==> {
            let twice = run.after_steer(first).0.after_steer(second);
            &&& twice.1 is Ok
            &&& twice.0.after_drain().1 == run.steer + first + second
            &&& twice.0.after_drain().0.after_drain().1.len() == 0
            &&& twice.0.after_drain().0.waiter == run.waiter
        },
        run.cancelled || run.finished ==> run.after_steer(first) == (
            run,
            Err::<(), SubmitError>(SubmitError::Conflict),
        ),
{
}

/// The result of a call reaches the one who waits for it, once; a result for another call is refused,
/// and the wait goes on. No one may wait once the run is cancelled.
pub proof fn law_result_reaches_its_waiter<W>(
    run: RunHandleView<W>,
    call: Seq<char>,
    other: Seq<char>,
    waiter: W,
)
    requires
        other != call,
    ensures
        !run.cancelled ==> {
            let (waits, ok) = run.after_wait(call, waiter);
            &&& ok is Ok
            &&& waits.after_submit(call).1 == Ok::<W, SubmitError>(waiter)
            &&& waits.after_submit(call).0.after_submit(call).1 == Err::<W, SubmitError>(
                SubmitError::Conflict,
            )
            &&& waits.after_submit(other) == (waits, Err::<W, SubmitError>(SubmitError::Conflict))
            &&& waits.steer == run.steer
        },
        run.cancelled ==> run.after_wait(call, waiter) == (
            run,
            Err::<(), WaitError>(WaitError::Cancelled),
        ),
        run.after_cancel().after_submit(call).1 == Err::<W, SubmitError>(SubmitError::Conflict),
{
}

/// A request on a run that is not known is not found, and changes nothing; one on a run that is known
/// changes no other.
pub proof fn law_requests_are_for_one_run<W>(
    runs: Map<Seq<char>, RunHandleView<W>>,
    id: Seq<char>,
    other: Seq<char>,
    call: Seq<char>,
    messages: Seq<WireMessageView>,
)
    requires
        other != id,
    ensures
        !runs.dom().contains(id) ==> {
            &&& result_handed(runs, id, call) == (runs, Err::<W, ApiError>(ApiError::NotFound))
            &&& messages_queued(runs, id, messages) == (
                runs,
                Err::<nat, ApiError>(ApiError::NotFound),
            )
            &&& run_cancelled(runs, id) == (runs, Err::<(), ApiError>(ApiError::NotFound))
        },
        runs.dom().contains(other) ==> {
            &&& result_handed(runs, id, call).0[other] == runs[other]
            &&& messages_queued(runs, id, messages).0[other] == runs[other]
            &&& run_cancelled(runs, id).0[other] == runs[other]
        },
{
}

/// Messages for a run that goes on are queued behind those that are there, and counted. The result of a
/// call goes to the one who waits for it, once. A run that was cancelled takes neither.
pub proof fn law_requests_on_a_run<W>(
    runs: Map<Seq<char>, RunHandleView<W>>,
    id: Seq<char>,
    call: Seq<char>,
    waiter: W,
    messages: Seq<WireMessageView>,
)
    requires
        runs.dom().contains(id),
    ensures
        !runs[id].cancelled && !runs[id].finished ==> {
            let (after, queued) = messages_queued(runs, id, messages);
            &&& queued == Ok::<nat, ApiError>(messages.len())
            &&& after[id].steer == runs[id].steer + messages
        },
        runs[id].waiter == Some((call, waiter)) ==> {
            let (after, got) = result_handed(runs, id, call);
            &&& got == Ok::<W, ApiError>(waiter)
            &&& result_handed(after, id, call).1 == Err::<W, ApiError>(ApiError::Conflict)
        },
        ({
            let (after, answer) = run_cancelled(runs, id);
            &&& answer is Ok
            &&& after[id].cancelled
            &&& messages_queued(after, id, messages).1 == Err::<nat, ApiError>(ApiError::Conflict)
            &&& result_handed(after, id, call).1 == Err::<W, ApiError>(ApiError::Conflict)
        }),
{
}

} // verus!
