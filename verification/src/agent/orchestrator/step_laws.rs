//! What a run takes in, sends, saves and ends with, step by step.

use vstd::prelude::*;

use crate::agent::error::OrchestratorErrorView;
use crate::agent::guards::pre_llm_reason;
use crate::agent::middleware::MwEffectView;
use crate::agent::orchestrator::call_laws::is_reply_to;
use crate::agent::orchestrator::laws::is_ending;
use crate::agent::orchestrator::rules::{
    client_calls_in, last_assistant, result_text, task_calls_in, todo_calls_in,
};
use crate::agent::orchestrator::state::{
    AfterView, AgentRunView, AskView, EffectView, HappeningView, PersistSessionView, PhaseView,
    RunAgentOptsView, RunOutcomeView, RunPersistView, Site, SteeredView, StepEnv, TaskReplyView,
};
use crate::agent::orchestrator::steps::{session_of, started};
use crate::agent::tools::plan::{todos_of, todos_ok_text};
use crate::agent::tools::task::{lead_tools, tool_err_text};
use crate::llm::LlmChunkView;
use crate::protocol::{
    tool_reply, MessageSource, Role, SseEventView, ToolCallView, ToolDefView, ToolResultRequestView,
    WireMessageView,
};
use crate::runtime::WaitError;
use crate::text::dec;

verus! {

/// The last assistant message is the one after which there is no other.
pub proof fn law_last_assistant(context: Seq<WireMessageView>)
    ensures
        (exists|i: int| #[trigger] is_last_assistant(context, i)) ==> exists|i: int| #[trigger]
            is_last_assistant(context, i) && last_assistant(context) == context[i].content,
        !(exists|i: int| #[trigger] is_last_assistant(context, i)) ==> last_assistant(context).len()
            == 0,
    decreases context.len(),
{
    if context.len() > 0 {
        let n = context.len() - 1;
        let less = context.drop_last();
        if context.last().role == Role::Assistant {
            assert(is_last_assistant(context, n));
        } else {
            law_last_assistant(less);
            if exists|i: int| #[trigger] is_last_assistant(context, i) {
                let i = choose|i: int| #[trigger] is_last_assistant(context, i);
                assert(is_last_assistant(less, i)) by {
                    assert forall|k: int| i < k < less.len() implies (#[trigger] less[k]).role
                        != Role::Assistant by {
                        assert(less[k] == context[k]);
                    }
                }
            }
            if exists|i: int| #[trigger] is_last_assistant(less, i) {
                let i = choose|i: int| #[trigger]
                    is_last_assistant(less, i) && last_assistant(less) == less[i].content;
                assert(is_last_assistant(context, i)) by {
                    assert forall|k: int| i < k < context.len() implies (#[trigger] context[k]).role
                        != Role::Assistant by {
                        if k < n {
                            assert(less[k] == context[k]);
                        }
                    }
                }
            }
        }
    }
}

/// Whether the last assistant message stands at `i`.
pub open spec fn is_last_assistant(context: Seq<WireMessageView>, i: int) -> bool {
    &&& 0 <= i < context.len()
    &&& context[i].role == Role::Assistant
    &&& forall|k: int| i < k < context.len() ==> (#[trigger] context[k]).role != Role::Assistant
}

/// Whether effects tell of messages from outside: one event for each, in order, with its id, its
/// role, its text and where it comes from.
pub open spec fn tell_of(
    effects: Seq<EffectView>,
    run_id: Seq<char>,
    joined: Seq<SteeredView>,
    source: MessageSource,
) -> bool {
    &&& effects.len() == joined.len()
    &&& forall|i: int|
        0 <= i < joined.len() ==> #[trigger] effects[i] == EffectView::Emit(
            SseEventView::MessageCompleted {
                run_id,
                message_id: joined[i].message_id,
                role: joined[i].message.role,
                content: joined[i].message.content,
                tool_calls: None,
                source: Some(source),
                reasoning_content: None,
            },
        )
}

/// Messages from outside join the context at its end, as they are and in order, and the client is
/// told of each; then the run is saved.
pub proof fn law_messages_from_outside_join(
    run: AgentRunView,
    joined: Seq<SteeredView>,
    site: Site,
    env: StepEnv,
)
    requires
        joined.len() > 0,
    ensures
        run.phase == PhaseView::Steer(site) ==> {
            let t = run.step(HappeningView::Steered(joined), env);
            &&& t.run.context.len() == run.context.len() + joined.len()
            &&& run.context.is_prefix_of(t.run.context)
            &&& forall|i: int|
                0 <= i < joined.len() ==> t.run.context[run.context.len() + i] == (
                #[trigger] joined[i]).message
            &&& tell_of(t.effects, run.run_id, joined, MessageSource::Steer)
            &&& t.run.phase matches PhaseView::Save { after, .. } && after == AfterView::Steer(site)
            &&& t.run.follow_up_rounds == run.follow_up_rounds
        },
        run.phase is FollowUps && run.follow_up_rounds < u32::MAX && (
        run.session.guards_cfg.max_follow_up_rounds == 0 || run.follow_up_rounds
            < run.session.guards_cfg.max_follow_up_rounds) ==> {
            let t = run.step(HappeningView::FollowUps(joined), env);
            &&& t.run.context.len() == run.context.len() + joined.len()
            &&& run.context.is_prefix_of(t.run.context)
            &&& forall|i: int|
                0 <= i < joined.len() ==> t.run.context[run.context.len() + i] == (
                #[trigger] joined[i]).message
            &&& tell_of(t.effects, run.run_id, joined, MessageSource::FollowUp)
            &&& t.run.phase matches PhaseView::Save { after, .. } && after is FollowUps
            &&& t.run.follow_up_rounds == run.follow_up_rounds + 1
            &&& t.run.session.guards.follow_up_rounds == run.follow_up_rounds + 1
        },
{
    reveal(AgentRunView::step);
    reveal(AgentRunView::steered);
    reveal(AgentRunView::followed_up);
}

/// Each piece of text that the model streams is sent on to the client as it is, as what it is, under
/// the id of the message; a nested run sends none. The completed message is kept until the stream
/// ends.
pub proof fn law_deltas_are_sent(
    run: AgentRunView,
    chunk: LlmChunkView,
    env: StepEnv,
)
    requires
        run.phase is Streaming,
        !env.cancelled,
    ensures
        ({
            let t = run.step(HappeningView::Chunk(chunk), env);
            &&& run.phase matches PhaseView::Streaming(message_id, completed)
            &&& t.run.context == run.context
            &&& t.run.session == run.session
            &&& t.ask is NextChunk
            &&& run.folded() || chunk is Completed ==> t.effects.len() == 0
            &&& !run.folded() && !(chunk is Completed) ==> t.effects.len() == 1
            &&& chunk matches LlmChunkView::TextDelta(delta) ==> {
                &&& t.run.phase == PhaseView::Streaming(message_id, completed)
                &&& !run.folded() ==> t.effects[0] == EffectView::Emit(
                    SseEventView::MessageDelta { run_id: run.run_id, message_id, delta },
                )
            }
            &&& chunk matches LlmChunkView::ReasoningDelta(delta) ==> {
                &&& t.run.phase == PhaseView::Streaming(message_id, completed)
                &&& !run.folded() ==> t.effects[0] == EffectView::Emit(
                    SseEventView::ReasoningDelta { run_id: run.run_id, message_id, delta },
                )
            }
            &&& chunk matches LlmChunkView::Completed { content, tool_calls, reasoning_content }
                ==> {
                &&& t.run.phase matches PhaseView::Streaming(id, Some(kept))
                &&& id == message_id
                &&& kept.content == content
                &&& kept.tool_calls == tool_calls
                &&& kept.reasoning_content == reasoning_content
            }
        }),
{
    reveal(AgentRunView::step);
    reveal(AgentRunView::chunk);
}

/// The message of the model joins the context at its end, with its text, its calls and its thinking,
/// and counts as one round. A lead run tells the client of it, and saves it.
pub proof fn law_message_of_the_model_joins(run: AgentRunView, env: StepEnv)
    requires
        run.phase matches PhaseView::Streaming(_, Some(_)),
        !env.cancelled,
    ensures
        ({
            let t = run.step(HappeningView::StreamEnd, env);
            &&& run.phase matches PhaseView::Streaming(message_id, Some(message))
            &&& run.context.len() < t.run.context.len()
            &&& {
                let said = t.run.context[run.context.len() as int];
                &&& said.role == Role::Assistant
                &&& said.content == message.content
                &&& said.reasoning_content == message.reasoning_content
                &&& said.tool_calls == if message.tool_calls.len() == 0 {
                    None
                } else {
                    Some(message.tool_calls)
                }
                &&& said.tool_call_id is None
                &&& said.name is None
                &&& !run.folded() ==> {
                    &&& t.run.context == run.context.push(said)
                    &&& t.run.phase matches PhaseView::Save { after, pending, .. }
                    &&& after == AfterView::Assistant(message.tool_calls)
                    &&& pending is None
                    &&& t.effects == seq![
                        EffectView::Emit(
                            SseEventView::MessageCompleted {
                                run_id: run.run_id,
                                message_id,
                                role: Role::Assistant,
                                content: message.content,
                                tool_calls: said.tool_calls,
                                source: Some(MessageSource::Assistant),
                                reasoning_content: message.reasoning_content,
                            },
                        ),
                    ]
                }
            }
        }),
{
    reveal(AgentRunView::step);
    reveal(AgentRunView::stream_end);
    let t = run.step(HappeningView::StreamEnd, env);
    if run.folded() {
        let message = run.phase->Streaming_1->0;
        let next = run.answered(message);
        lemma_turn_keeps(next, Seq::empty(), env, message.tool_calls);
        assert(next.context[run.context.len() as int] == t.run.context[run.context.len() as int]);
    }
}

proof fn lemma_turn_keeps(
    run: AgentRunView,
    effects: Seq<EffectView>,
    env: StepEnv,
    calls: Seq<ToolCallView>,
)
    ensures
        run.context.is_prefix_of(run.turn(effects, env, calls).run.context),
{
    reveal(AgentRunView::turn);
    reveal(AgentRunView::guard);
    reveal(AgentRunView::quiet);
    reveal(AgentRunView::idle);
    reveal(AgentRunView::cancel);
    reveal(AgentRunView::complete);
    lemma_work_keeps(
        AgentRunView {
            todo_calls: todo_calls_in(
                calls,
                run.session.plan_mode,
                run.session.subagents,
            ),
            task_calls: task_calls_in(
                calls,
                run.session.plan_mode,
                run.session.subagents,
            ),
            client_calls: client_calls_in(
                calls,
                run.session.plan_mode,
                run.session.subagents,
            ),
            ..run.with_progress()
        },
        effects,
        env,
    );
}

proof fn lemma_work_keeps(run: AgentRunView, effects: Seq<EffectView>, env: StepEnv)
    ensures
        run.context.is_prefix_of(run.work(effects, env).run.context),
{
    reveal(AgentRunView::work);
    reveal(AgentRunView::write_todos);
    reveal(AgentRunView::top);
    reveal(AgentRunView::ready);
    reveal(AgentRunView::guard);
    reveal(AgentRunView::cancel);
}

/// The result of a client tool joins the context as the reply to its call: what the client said, and
/// where it says that the tool failed, after a mark of that. The tool is no longer open.
pub proof fn law_client_result_joins(
    run: AgentRunView,
    result: ToolResultRequestView,
    env: StepEnv,
)
    requires
        run.phase is Recv,
    ensures
        ({
            let t = run.step(HappeningView::ToolResult(result), env);
            &&& run.phase matches PhaseView::Recv(call)
            &&& run.context.len() < t.run.context.len()
            &&& {
                let reply = t.run.context[run.context.len() as int];
                &&& reply.role == Role::Tool
                &&& reply.tool_call_id == Some(result.tool_call_id)
                &&& reply.name == Some(call.name)
                &&& reply.tool_calls is None
                &&& !result.is_error ==> reply.content == result.content
                &&& result.is_error ==> reply.content == "tool_error:"@ + result.content
            }
            &&& t.effects.len() > 0
            &&& t.effects[0] == EffectView::RemovePending(call.id)
            &&& !run.folded() ==> {
                &&& t.effects.len() == 1
                &&& t.run.context.len() == run.context.len() + 1
                &&& t.run.phase matches PhaseView::Save { after, pending, .. }
                &&& after is Result
                &&& pending is None
            }
        }),
{
    reveal(AgentRunView::step);
    reveal(AgentRunView::resulted);
    let t = run.step(HappeningView::ToolResult(result), env);
    let call = run.phase->Recv_0;
    if run.folded() {
        let next = run.with_context(
            run.context.push(
                tool_reply(
                    result_text(result),
                    result.tool_call_id,
                    call.name,
                ),
            ),
        );
        let settled = next.with_session(PersistSessionView { pending_tool: None, ..next.session });
        let effects = seq![EffectView::RemovePending(call.id)];
        lemma_work_keeps(settled, effects, env);
        assert(settled.context[run.context.len() as int] == t.run.context[run.context.len() as int]);
        reveal(AgentRunView::work);
        reveal(AgentRunView::write_todos);
        reveal(AgentRunView::top);
        reveal(AgentRunView::ready);
        reveal(AgentRunView::guard);
        reveal(AgentRunView::cancel);
    }
}

/// The replies of subtasks join the context in order, each as the reply to its call.
pub proof fn law_task_replies_join(
    run: AgentRunView,
    replies: Seq<TaskReplyView>,
    env: StepEnv,
)
    requires
        run.phase is Tasks,
    ensures
        ({
            let t = run.step(HappeningView::TasksDone(replies), env);
            &&& t.run.context.len() == run.context.len() + replies.len()
            &&& run.context.is_prefix_of(t.run.context)
            &&& forall|i: int|
                0 <= i < replies.len() ==> {
                    let message = t.run.context[run.context.len() + i];
                    &&& message.role == Role::Tool
                    &&& message.content == (#[trigger] replies[i]).content
                    &&& message.tool_call_id == Some(replies[i].id)
                    &&& message.name == Some(replies[i].name)
                }
            &&& t.effects.len() == 0
            &&& t.run.phase matches PhaseView::Save { after, pending, .. } && after is Tasks
                && pending is None
        }),
{
    reveal(AgentRunView::step);
    reveal(AgentRunView::tasks_done);
}

/// A task list that can be read takes the place of the old one, is sent to the client, and is told
/// to the model as the reply to its call; one that cannot be read changes nothing, and the model is
/// told why.
pub proof fn law_todos_are_replaced(
    run: AgentRunView,
    effects: Seq<EffectView>,
    env: StepEnv,
    call: ToolCallView,
)
    ensures
        ({
            let t = run.write_todos(effects, env, call);
            let reply = t.run.context.last();
            &&& t.run.context.len() == run.context.len() + 1
            &&& run.context.is_prefix_of(t.run.context)
            &&& is_reply_to(reply, call)
            &&& t.run.phase matches PhaseView::Save { after, pending, .. } && after is Todos
                && pending is None
            &&& match todos_of(call.arguments) {
                Ok(todos) => {
                    &&& t.run.session.todos == todos
                    &&& reply.content == todos_ok_text(todos)
                    &&& t.effects == effects.push(
                        EffectView::Emit(SseEventView::TodosUpdated { run_id: run.run_id, todos }),
                    )
                },
                Err(err) => {
                    &&& t.run.session.todos == run.session.todos
                    &&& reply.content == tool_err_text(err)
                    &&& t.effects == effects
                },
            }
        }),
{
    reveal(AgentRunView::write_todos);
}

/// How a run that is over ended.
pub open spec fn ending_of(run: AgentRunView) -> Option<RunOutcomeView> {
    match run.phase {
        PhaseView::Done(outcome) => Some(outcome),
        PhaseView::Save { after: AfterView::Final(outcome), .. } => Some(outcome),
        _ => None,
    }
}

/// What ends a run, and with what: a model that refuses or breaks off, a message that never comes, a
/// middleware that fails, a checkpoint that another instance wrote or that cannot be written, a
/// client tool that is not answered, and a cancelled run. A run that was cancelled says so whatever
/// the model did.
pub proof fn law_what_ends_a_run(run: AgentRunView, happening: HappeningView, env: StepEnv)
    requires
        run.expects(happening),
        !is_ending(run),
    ensures
        ({
            let ended = ending_of(run.step(happening, env).run);
            let failed = |err: OrchestratorErrorView| Some(RunOutcomeView::Failed(err));
            match happening {
                HappeningView::StreamRefused(err) => ended == failed(OrchestratorErrorView::Llm(err)),
                HappeningView::ChunkFailed(err) => ended == failed(
                    if env.cancelled {
                        OrchestratorErrorView::Cancelled
                    } else {
                        OrchestratorErrorView::Llm(err)
                    },
                ),
                HappeningView::Chunk(_) => ended == if env.cancelled {
                    failed(OrchestratorErrorView::Cancelled)
                } else {
                    None
                },
                HappeningView::StreamEnd => {
                    &&& env.cancelled ==> ended == failed(OrchestratorErrorView::Cancelled)
                    &&& !env.cancelled && (run.phase matches PhaseView::Streaming(_, None)) ==> ended
                        == failed(
                        OrchestratorErrorView::Llm("llm stream ended without completed chunk"@),
                    )
                    &&& !env.cancelled && !run.folded() && (run.phase matches PhaseView::Streaming(
                        _,
                        Some(_),
                    )) ==> ended is None
                },
                HappeningView::MiddlewareFailed(_, err) => ended == failed(err),
                HappeningView::SaveConflict => ended == failed(OrchestratorErrorView::OwnershipLost),
                HappeningView::SaveFailed(err) => ended == failed(OrchestratorErrorView::Store(err)),
                HappeningView::ArmRefused(err) | HappeningView::ToolWaitFailed(err) => ended
                    == failed(
                    match err {
                        WaitError::Cancelled => OrchestratorErrorView::Cancelled,
                        WaitError::Timeout => OrchestratorErrorView::ToolTimeout,
                    },
                ),
                HappeningView::FollowUps(joined) => ended == if joined.len() > 0
                    && run.session.guards_cfg.max_follow_up_rounds > 0 && run.follow_up_rounds
                    >= run.session.guards_cfg.max_follow_up_rounds {
                    failed(OrchestratorErrorView::FollowUpLimit)
                } else {
                    None
                },
                HappeningView::Steered(joined) => {
                    &&& joined.len() > 0 ==> ended is None
                    &&& joined.len() == 0 && run.phase == PhaseView::Steer(Site::Idle) ==> ended
                        == Some(RunOutcomeView::Finished(last_assistant(run.context)))
                    &&& joined.len() == 0 && run.phase == PhaseView::Steer(Site::Top) ==> ended
                        == before_the_model(run, env)
                },
                HappeningView::MiddlewareDone(..) | HappeningView::StreamOpened(_)
                | HappeningView::TasksDone(_) | HappeningView::Armed => ended is None,
                HappeningView::ToolResult(_) => !run.folded() ==> ended is None,
                HappeningView::Begin => !run.folded() ==> ended is None,
                HappeningView::Saved | HappeningView::SaveSkipped => match run.phase {
                    PhaseView::Save { after: AfterView::Steer(Site::Top), .. } => ended
                        == before_the_model(run, env),
                    PhaseView::Save { after, .. } => after is Middleware || after is Request || (
                    !run.folded() && (after is Todos || after is Tasks || after is Result
                        || after is FollowUps || after is Steer)) ==> ended is None,
                    _ => true,
                },
            }
        }),
{
    reveal(AgentRunView::step);
    match happening {
        HappeningView::Saved | HappeningView::SaveSkipped => {
            reveal(AgentRunView::saved);
            reveal(AgentRunView::open);
            reveal(AgentRunView::work);
            reveal(AgentRunView::write_todos);
            reveal(AgentRunView::top);
            reveal(AgentRunView::ready);
            reveal(AgentRunView::cancel);
            reveal(AgentRunView::guard);
        },
        HappeningView::SaveConflict | HappeningView::SaveFailed(_) => {
            reveal(AgentRunView::unsaved);
            reveal(AgentRunView::fail);
        },
        HappeningView::Chunk(_) => {
            reveal(AgentRunView::chunk);
            reveal(AgentRunView::cancel);
        },
        HappeningView::StreamEnd => {
            reveal(AgentRunView::stream_end);
            reveal(AgentRunView::cancel);
            reveal(AgentRunView::fail);
        },
        HappeningView::Steered(_) => {
            reveal(AgentRunView::steered);
            reveal(AgentRunView::ready);
            reveal(AgentRunView::complete);
            reveal(AgentRunView::cancel);
            reveal(AgentRunView::guard);
        },
        HappeningView::FollowUps(_) => {
            reveal(AgentRunView::followed_up);
            reveal(AgentRunView::fail);
        },
        HappeningView::MiddlewareDone(..) => {
            reveal(AgentRunView::prepared);
            reveal(AgentRunView::open);
        },
        HappeningView::TasksDone(_) => {
            reveal(AgentRunView::tasks_done);
        },
        HappeningView::Armed => {
            reveal(AgentRunView::armed);
        },
        HappeningView::ToolResult(_) => {
            reveal(AgentRunView::resulted);
        },
        HappeningView::Begin => {
            reveal(AgentRunView::top);
        },
        _ => {
            reveal(AgentRunView::fail);
            reveal(AgentRunView::cancel);
            reveal(AgentRunView::wait_failed);
        },
    }
}

/// What ends a run before the model is called: that it was cancelled, or a limit that it reached.
pub open spec fn before_the_model(run: AgentRunView, env: StepEnv) -> Option<RunOutcomeView> {
    if env.cancelled {
        Some(RunOutcomeView::Failed(OrchestratorErrorView::Cancelled))
    } else {
        match pre_llm_reason(run.session.guards, run.session.guards_cfg, env.now) {
            Some(reason) => Some(RunOutcomeView::Failed(OrchestratorErrorView::Guard(reason))),
            None => None,
        }
    }
}

/// Where the loop goes after a checkpoint that was written or skipped: it calls the model after the
/// middlewares, awaits the tool that it asked for, takes up steering after follow-ups and after
/// messages that came at the end of a turn, and otherwise runs the middlewares before the next call.
pub proof fn law_where_the_loop_goes_on(run: AgentRunView, happening: HappeningView, env: StepEnv)
    requires
        run.expects(happening),
        happening is Saved || happening is SaveSkipped,
        !run.folded(),
    ensures
        ({
            let t = run.step(happening, env);
            &&& run.phase matches PhaseView::Save { after, .. }
            &&& match after {
                AfterView::Middleware => t.ask == AskView::OpenStream(
                    lead_tools(run.tools, run.session.plan_mode, run.session.subagents),
                ),
                AfterView::Request(call) => t.ask == AskView::RecvTool(call.id) && t.run.phase
                    == PhaseView::Recv(call),
                AfterView::FollowUps => t.run.phase == PhaseView::Steer(Site::Top),
                AfterView::Steer(Site::Top) => before_the_model(run, env) is None ==> t.ask
                    is Middleware,
                AfterView::Steer(_) => t.run.phase == PhaseView::Steer(Site::Top)
                    && t.run.session.guards.noop_streak == 0,
                AfterView::Assistant(calls) => calls.len() == 0 ==> t.run.phase == PhaseView::Steer(
                    Site::AfterText,
                ),
                AfterView::Final(outcome) => t.ask == AskView::Return(outcome),
                _ => true,
            }
            &&& after is Middleware || after is Request || after is FollowUps || after is Steer
                ==> t.run.context == run.context
        }),
{
    reveal(AgentRunView::step);
    reveal(AgentRunView::saved);
    reveal(AgentRunView::open);
    reveal(AgentRunView::turn);
    reveal(AgentRunView::top);
    reveal(AgentRunView::ready);
    reveal(AgentRunView::cancel);
    reveal(AgentRunView::guard);
}

/// What the middlewares left is what the model is called with. A lead run sends their events and
/// saves the context where they ask for it; otherwise the model is called at once, with the tools
/// that are offered.
pub proof fn law_middlewares_are_heeded(
    run: AgentRunView,
    context: Seq<WireMessageView>,
    effect: MwEffectView,
    env: StepEnv,
)
    requires
        run.phase is Middleware,
    ensures
        ({
            let t = run.step(HappeningView::MiddlewareDone(context, effect), env);
            &&& t.run.context == context
            &&& t.effects.len() == if run.folded() {
                0
            } else {
                effect.events.len()
            }
            &&& forall|i: int|
                0 <= i < t.effects.len() ==> #[trigger] t.effects[i] == EffectView::Emit(
                    effect.events[i],
                )
            &&& if effect.checkpoint && !run.folded() {
                t.run.phase matches PhaseView::Save { after, .. } && after is Middleware
            } else {
                t.ask == AskView::OpenStream(
                    lead_tools(run.tools, run.session.plan_mode, run.session.subagents),
                )
            }
        }),
        ({
            let err = OrchestratorErrorView::ContextOverflow;
            run.step(HappeningView::MiddlewareFailed(context, err), env).run.context == context
        }),
{
    reveal(AgentRunView::step);
    reveal(AgentRunView::prepared);
    reveal(AgentRunView::open);
    reveal(AgentRunView::fail);
}

/// A lead run announces its start exactly where it is to; a run that is taken up where it waits for a
/// tool opens that tool again and waits for it.
pub proof fn law_how_a_run_begins(run: AgentRunView, env: StepEnv)
    ensures
        !run.folded() ==> (run.phase matches PhaseView::Start(announce) ==> {
            let t = run.step(HappeningView::Begin, env);
            &&& t.ask is Steer
            &&& t.run.context == run.context
            &&& announce ==> t.effects == seq![
                EffectView::Emit(SseEventView::RunStarted { run_id: run.run_id }),
            ]
            &&& !announce ==> t.effects.len() == 0
        }),
        run.phase matches PhaseView::Resume(pending) ==> {
            let t = run.step(HappeningView::Begin, env);
            &&& t.effects == seq![EffectView::UpsertPending(pending)]
            &&& t.ask == AskView::RecvTool(pending.tool_call_id)
            &&& t.run.context == run.context
            &&& t.run.phase matches PhaseView::Recv(call) && call.id == pending.tool_call_id
                && call.name == pending.name && call.arguments == pending.arguments
        },
{
    reveal(AgentRunView::step);
    reveal(AgentRunView::top);
}

/// A run starts with the context, the tools and the terms that it is given: the todos and the
/// counters of before where there are any, new ones else; in plan mode the context has the nudge.
pub proof fn law_a_run_starts_as_told(
    run_id: Seq<char>,
    context: Seq<WireMessageView>,
    tools: Seq<ToolDefView>,
    persist: Option<RunPersistView>,
    enabled: bool,
    opts: RunAgentOptsView,
    now: u64,
    phase: PhaseView,
)
    ensures
        ({
            let run = started(run_id, context, tools, session_of(persist, enabled, opts, now), phase);
            &&& run.run_id == run_id
            &&& run.tools == tools
            &&& run.phase == phase
            &&& !opts.plan_mode ==> run.context == context
            &&& opts.plan_mode ==> run.context.len() >= context.len() && run.context.skip(
                run.context.len() - context.len(),
            ) == context
            &&& run.session.todos == opts.initial_todos
            &&& run.session.plan_mode == opts.plan_mode
            &&& run.session.subagents == opts.subagents
            &&& run.session.fold_stream == opts.fold_stream
            &&& run.session.agent_id == opts.agent_id
            &&& run.session.parent_task_id == opts.parent_task_id
            &&& run.session.guards_cfg == opts.guards_cfg
            &&& run.session.subagents_cfg == opts.subagents_cfg
            &&& run.session.finish_reason is None
            &&& run.session.pending_tool is None
            &&& persist matches Some(p) ==> run.session.instance_id == p.instance_id && (enabled
                ==> run.session.revision == p.revision)
            &&& run.follow_up_rounds == run.session.guards.follow_up_rounds
            &&& match opts.initial_guards {
                Some(guards) => run.session.guards == guards,
                None => run.session.guards.started_at == dec(now as nat)
                    && run.session.guards.llm_rounds == 0
                    && run.session.guards.follow_up_rounds == 0
                    && run.session.guards.noop_streak == 0
                    && run.session.guards.last_assistant_norm.len() == 0,
            }
            &&& run.session.enabled == (enabled && persist is Some)
        }),
{
    let run = started(run_id, context, tools, session_of(persist, enabled, opts, now), phase);
    if opts.plan_mode {
        assert(run.context.skip(run.context.len() - context.len()) =~= context);
    }
}

} // verus!
