//! What holds where a turn of the model is over, and of runs inside a run.

use vstd::prelude::*;

use crate::agent::error::OrchestratorErrorView;
use crate::agent::guards::{
    after_noop_turn, noop_reason, over_wall, pre_llm_reason, REASON_TIMEOUT,
};
use crate::agent::middleware::MwEffectView;
use crate::agent::orchestrator::rules::{
    client_calls_in, last_assistant, result_text, task_calls_in, todo_calls_in,
};
use crate::agent::orchestrator::state::{
    AfterView, AgentRunView, AskView, CompletedView, EffectView, HappeningView, PersistSessionView,
    PhaseView, RunOutcomeView, Site, SteeredView, StepEnv,
};
use crate::agent::orchestrator::step_laws::{before_the_model, ending_of, law_last_assistant};
use crate::protocol::{tool_reply, Role, SseEventView, ToolCallView, WireMessageView};
use crate::store::{GuardsSnapshotView, PendingToolView};

verus! {

/// A turn in which the model made calls is progress: it ends the streak of turns without any. Where the
/// time of the run is up no call is made and the run ends for that; else it goes on.
pub proof fn law_turn_with_calls(
    run: AgentRunView,
    calls: Seq<ToolCallView>,
    happening: HappeningView,
    env: StepEnv,
)
    requires
        run.expects(happening),
        happening is Saved || happening is SaveSkipped,
        run.phase matches PhaseView::Save { after, .. } && after == AfterView::Assistant(calls),
        calls.len() > 0,
        !run.folded(),
    ensures
        ({
            let t = run.step(happening, env);
            &&& over_wall(run.session.guards, run.session.guards_cfg, env.now) ==> ending_of(t.run)
                == Some(RunOutcomeView::Failed(OrchestratorErrorView::Guard(REASON_TIMEOUT@)))
            &&& !over_wall(run.session.guards, run.session.guards_cfg, env.now) ==> ending_of(t.run)
                is None
            &&& t.run.session.guards.noop_streak == 0
            &&& t.run.session.guards.last_assistant_norm.len() == 0
            &&& t.run.session.guards.llm_rounds == run.session.guards.llm_rounds
            &&& t.run.session.guards.started_at == run.session.guards.started_at
        }),
{
    reveal(AgentRunView::step);
    reveal(AgentRunView::saved);
    reveal(AgentRunView::turn);
    reveal(AgentRunView::guard);
    reveal(AgentRunView::work);
    reveal(AgentRunView::write_todos);
    reveal(AgentRunView::top);
}

/// A turn without calls after which nothing came in is counted, by what the model said in it. Where it
/// makes too many of them the run ends for that; a run that was cancelled ends for that; any other asks
/// for follow-ups.
pub proof fn law_turn_without_calls(run: AgentRunView, env: StepEnv)
    requires
        run.phase == PhaseView::Steer(Site::AfterText),
        !run.folded(),
    ensures
        ({
            let t = run.step(HappeningView::Steered(Seq::empty()), env);
            let counted = after_noop_turn(
                run.session.guards,
                last_assistant(run.context),
                run.session.guards_cfg,
            );
            &&& counts_alike(t.run.session.guards, counted)
            &&& t.run.context == run.context
            &&& match noop_reason(counted, run.session.guards_cfg) {
                Some(reason) => ending_of(t.run) == Some(
                    RunOutcomeView::Failed(OrchestratorErrorView::Guard(reason)),
                ),
                None => if env.cancelled {
                    ending_of(t.run) == Some(
                        RunOutcomeView::Failed(OrchestratorErrorView::Cancelled),
                    )
                } else {
                    &&& ending_of(t.run) is None
                    &&& t.ask is FollowUps
                    &&& t.run.phase is FollowUps
                    &&& t.effects.len() == 0
                },
            }
        }),
{
    reveal(AgentRunView::step);
    reveal(AgentRunView::steered);
    reveal(AgentRunView::quiet);
    reveal(AgentRunView::idle);
    reveal(AgentRunView::guard);
    reveal(AgentRunView::cancel);
}

/// Whether two counters agree but for the time of the last change.
pub open spec fn counts_alike(a: GuardsSnapshotView, b: GuardsSnapshotView) -> bool {
    &&& a.llm_rounds == b.llm_rounds
    &&& a.follow_up_rounds == b.follow_up_rounds
    &&& a.started_at == b.started_at
    &&& a.noop_streak == b.noop_streak
    &&& a.last_assistant_norm == b.last_assistant_norm
}

/// A run that has no follow-ups looks once more for messages before it ends.
pub proof fn law_run_looks_once_more(run: AgentRunView, env: StepEnv)
    requires
        run.phase is FollowUps,
    ensures
        ({
            let t = run.step(HappeningView::FollowUps(Seq::empty()), env);
            &&& t.run.phase == PhaseView::Steer(Site::Idle)
            &&& t.ask is Steer
            &&& t.run.context == run.context
            &&& t.effects.len() == 0
        }),
{
    reveal(AgentRunView::step);
    reveal(AgentRunView::followed_up);
}

/// A run inside a run has no one to look for messages from: it goes on to the model at once, unless it
/// was cancelled or has reached a limit, and tells nothing.
pub proof fn law_nested_run_goes_to_the_model(run: AgentRunView, env: StepEnv)
    requires
        run.folded(),
        run.phase is Start,
    ensures
        ({
            let t = run.step(HappeningView::Begin, env);
            &&& ending_of(t.run) == before_the_model(run, env)
            &&& before_the_model(run, env) is None ==> t.ask is Middleware
            &&& t.run.context == run.context
            &&& t.effects.len() == 0
        }),
{
    reveal(AgentRunView::step);
    reveal(AgentRunView::top);
    reveal(AgentRunView::ready);
    reveal(AgentRunView::cancel);
    reveal(AgentRunView::guard);
}

/// A run inside a run ends with what the model says without a call: that is its result. Its message
/// joins the context, and nothing is told.
pub proof fn law_nested_run_returns_the_text(
    run: AgentRunView,
    id: Seq<char>,
    message: CompletedView,
    env: StepEnv,
)
    requires
        run.folded(),
        run.phase == PhaseView::Streaming(id, Some(message)),
        message.tool_calls.len() == 0,
        run.session.guards_cfg.max_noop_llm_rounds == 0,
        !env.cancelled,
    ensures
        ({
            let t = run.step(HappeningView::StreamEnd, env);
            &&& t.ask == AskView::Return(RunOutcomeView::Finished(message.content))
            &&& ending_of(t.run) == Some(RunOutcomeView::Finished(message.content))
            &&& t.run.context.len() == run.context.len() + 1
            &&& t.run.context.drop_last() == run.context
            &&& t.run.context.last().role == Role::Assistant
            &&& t.run.context.last().content == message.content
            &&& t.effects.len() == 0
        }),
{
    reveal(AgentRunView::step);
    reveal(AgentRunView::stream_end);
    reveal(AgentRunView::turn);
    reveal(AgentRunView::quiet);
    reveal(AgentRunView::idle);
    reveal(AgentRunView::complete);
    let next = run.answered(message);
    assert(next.context.drop_last() =~= run.context);
    assert(last_assistant(next.context) == message.content) by {
        law_last_assistant(next.context);
    }
}

/// What a run inside a run streams reaches no one, but its tools are asked for: the client hears of the
/// call, and for whom it is.
pub proof fn law_nested_run_asks_for_its_tools(run: AgentRunView, call: ToolCallView, env: StepEnv)
    requires
        run.folded(),
        run.phase == PhaseView::Arm(call),
    ensures
        ({
            let t = run.step(HappeningView::Armed, env);
            &&& t.ask == AskView::RecvTool(call.id)
            &&& t.run.phase == PhaseView::Recv(call)
            &&& t.run.context == run.context
            &&& t.effects == seq![
                EffectView::Emit(
                    SseEventView::ToolRequest {
                        run_id: run.run_id,
                        tool_call_id: call.id,
                        name: call.name,
                        arguments: call.arguments,
                        agent_id: run.session.agent_id,
                        parent_task_id: run.session.parent_task_id,
                    },
                ),
            ]
        }),
{
    reveal(AgentRunView::step);
    reveal(AgentRunView::armed);
}

/// Whether a checkpoint is for something of which the client hears no more where it cannot be written:
/// a tool that was asked for or answered, follow-ups, or messages after a turn without calls.
pub open spec fn is_for_the_client(after: AfterView) -> bool {
    after is Request || after is Result || after is FollowUps || after == AfterView::Steer(
        Site::AfterText,
    )
}

/// A run whose checkpoint could not be written ends for that. Where the checkpoint was its last it ends
/// as it had ended; where it was for the client it ends without a further word; anywhere else a lead
/// run tells the error.
pub proof fn law_run_that_cannot_be_saved(run: AgentRunView, happening: HappeningView, env: StepEnv)
    requires
        run.expects(happening),
        happening is SaveConflict || happening is SaveFailed,
        !run.folded(),
    ensures
        ({
            let t = run.step(happening, env);
            let err = match happening {
                HappeningView::SaveFailed(text) => OrchestratorErrorView::Store(text),
                _ => OrchestratorErrorView::OwnershipLost,
            };
            &&& run.phase matches PhaseView::Save { after, .. }
            &&& after matches AfterView::Final(outcome) ==> t.ask == AskView::Return(outcome)
                && t.effects == seq![EffectView::Finish]
            &&& is_for_the_client(after) ==> t.ask == AskView::Return(RunOutcomeView::Failed(err))
                && t.effects.len() == 0
            &&& !(after is Final) && !is_for_the_client(after) ==> {
                &&& t.ask is Save
                &&& ending_of(t.run) == Some(RunOutcomeView::Failed(err))
                &&& t.effects == seq![
                    EffectView::Emit(
                        SseEventView::Error {
                            run_id: run.run_id,
                            message: err.message(),
                            code: Some(err.code()),
                        },
                    ),
                ]
            }
        }),
{
    reveal(AgentRunView::step);
    reveal(AgentRunView::unsaved);
    reveal(AgentRunView::fail);
    let t = run.step(happening, env);
    if let PhaseView::Save { after, .. } = run.phase {
        if !(after is Final) && !is_for_the_client(after) {
            assert(t.effects =~= seq![t.effects[0]]);
        }
    }
}

/// A tool that a client was asked for stays open while messages come in.
pub proof fn law_open_tool_stays_open(
    run: AgentRunView,
    joined: Seq<SteeredView>,
    context: Seq<WireMessageView>,
    effect: MwEffectView,
    env: StepEnv,
)
    requires
        joined.len() > 0,
    ensures
        run.phase is Steer ==> saves_with(
            run.step(HappeningView::Steered(joined), env).run,
            run.session.pending_tool,
        ),
        run.phase is FollowUps && (run.session.guards_cfg.max_follow_up_rounds == 0
            || run.follow_up_rounds < run.session.guards_cfg.max_follow_up_rounds) ==> saves_with(
            run.step(HappeningView::FollowUps(joined), env).run,
            run.session.pending_tool,
        ),
        run.phase is Middleware && effect.checkpoint && !run.folded() ==> saves_with(
            run.step(HappeningView::MiddlewareDone(context, effect), env).run,
            run.session.pending_tool,
        ),
{
    reveal(AgentRunView::step);
    reveal(AgentRunView::steered);
    reveal(AgentRunView::followed_up);
    reveal(AgentRunView::prepared);
}

/// Whether a run saves a checkpoint with this tool as the open one.
pub open spec fn saves_with(run: AgentRunView, open: Option<PendingToolView>) -> bool {
    run.phase matches PhaseView::Save { pending, .. } && pending == open
}

/// A run that is complete keeps the count of its follow-ups, and says that it just stopped.
pub proof fn law_complete_run_keeps_its_counts(run: AgentRunView, env: StepEnv)
    requires
        run.phase == PhaseView::Steer(Site::Idle),
        !run.folded(),
    ensures
        ({
            let t = run.step(HappeningView::Steered(Seq::empty()), env);
            &&& t.run.session.guards.follow_up_rounds == run.follow_up_rounds
            &&& t.run.session.guards.llm_rounds == run.session.guards.llm_rounds
            &&& t.run.session.todos == run.session.todos
            &&& t.run.context == run.context
            &&& saves_with(t.run, None)
            &&& t.effects == seq![
                EffectView::Emit(
                    SseEventView::RunFinished { run_id: run.run_id, reason: "stop"@ },
                ),
            ]
        }),
{
    reveal(AgentRunView::step);
    reveal(AgentRunView::steered);
    reveal(AgentRunView::complete);
    let t = run.step(HappeningView::Steered(Seq::empty()), env);
    assert(t.effects =~= seq![t.effects[0]]);
}

proof fn lemma_endings_keep_revision(
    run: AgentRunView,
    effects: Seq<EffectView>,
    env: StepEnv,
    err: OrchestratorErrorView,
    reason: Seq<char>,
)
    ensures
        run.fail(effects, env, err).run.session.revision == run.session.revision,
        run.cancel(effects, env).run.session.revision == run.session.revision,
        run.guard(effects, env, reason).run.session.revision == run.session.revision,
        run.complete(effects, env).run.session.revision == run.session.revision,
{
    reveal(AgentRunView::fail);
    reveal(AgentRunView::cancel);
    reveal(AgentRunView::guard);
    reveal(AgentRunView::complete);
}

proof fn lemma_loop_keeps_revision(run: AgentRunView, effects: Seq<EffectView>, env: StepEnv)
    ensures
        run.ready(effects, env).run.session.revision == run.session.revision,
        run.top(effects, env).run.session.revision == run.session.revision,
        run.open(effects).run.session.revision == run.session.revision,
        run.idle(effects, env).run.session.revision == run.session.revision,
{
    let reason = pre_llm_reason(run.session.guards, run.session.guards_cfg, env.now)->0;
    lemma_endings_keep_revision(run, effects, env, OrchestratorErrorView::Cancelled, reason);
    reveal(AgentRunView::ready);
    reveal(AgentRunView::top);
    reveal(AgentRunView::open);
    reveal(AgentRunView::idle);
}

proof fn lemma_quiet_keeps_revision(run: AgentRunView, effects: Seq<EffectView>, env: StepEnv)
    ensures
        run.quiet(effects, env).run.session.revision == run.session.revision,
{
    let guards = after_noop_turn(
        run.session.guards,
        last_assistant(run.context),
        run.session.guards_cfg,
    );
    let counted = run.with_session(PersistSessionView { guards, ..run.session });
    let reason = noop_reason(guards, run.session.guards_cfg)->0;
    lemma_endings_keep_revision(counted, effects, env, OrchestratorErrorView::Cancelled, reason);
    lemma_loop_keeps_revision(counted, effects, env);
    reveal(AgentRunView::quiet);
}

proof fn lemma_work_keeps_revision(run: AgentRunView, effects: Seq<EffectView>, env: StepEnv)
    ensures
        run.work(effects, env).run.session.revision == run.session.revision,
{
    lemma_loop_keeps_revision(run, effects, env);
    reveal(AgentRunView::work);
    reveal(AgentRunView::write_todos);
}

proof fn lemma_turn_keeps_revision(
    run: AgentRunView,
    effects: Seq<EffectView>,
    env: StepEnv,
    calls: Seq<ToolCallView>,
)
    ensures
        run.turn(effects, env, calls).run.session.revision == run.session.revision,
{
    reveal(AgentRunView::turn);
    let on = run.with_progress();
    let plan_mode = run.session.plan_mode;
    let subagents = run.session.subagents;
    lemma_quiet_keeps_revision(run, effects, env);
    lemma_endings_keep_revision(
        on,
        effects,
        env,
        OrchestratorErrorView::Cancelled,
        REASON_TIMEOUT@,
    );
    lemma_work_keeps_revision(
        AgentRunView {
            todo_calls: todo_calls_in(calls, plan_mode, subagents),
            task_calls: task_calls_in(calls, plan_mode, subagents),
            client_calls: client_calls_in(calls, plan_mode, subagents),
            ..on
        },
        effects,
        env,
    );
}

proof fn lemma_saved_keeps_revision(run: AgentRunView, env: StepEnv, after: AfterView)
    ensures
        run.saved(env, after).run.session.revision == run.session.revision,
{
    reveal(AgentRunView::saved);
    lemma_loop_keeps_revision(run, Seq::empty(), env);
    lemma_loop_keeps_revision(run.with_progress(), Seq::empty(), env);
    lemma_work_keeps_revision(run, Seq::empty(), env);
    if let AfterView::Assistant(calls) = after {
        lemma_turn_keeps_revision(run, Seq::empty(), env, calls);
    }
}

/// The revision of a run counts the checkpoints that were written, and no others.
pub proof fn law_revision_counts_the_checkpoints(
    run: AgentRunView,
    happening: HappeningView,
    env: StepEnv,
)
    requires
        run.expects(happening),
        run.session.revision < u64::MAX,
    ensures
        run.step(happening, env).run.session.revision == run.session.revision + if happening
            is Saved {
            1int
        } else {
            0
        },
{
    reveal(AgentRunView::step);
    let none = Seq::<EffectView>::empty();
    match (run.phase, happening) {
        (PhaseView::Save { after, pending, .. }, HappeningView::Saved) => {
            let next = run.with_session(
                PersistSessionView {
                    revision: (run.session.revision + 1) as u64,
                    pending_tool: pending,
                    ..run.session
                },
            );
            lemma_saved_keeps_revision(next, env, after);
        },
        (PhaseView::Save { after, .. }, HappeningView::SaveSkipped) => {
            lemma_saved_keeps_revision(run, env, after);
        },
        (PhaseView::Save { .. }, HappeningView::SaveConflict) => {
            reveal(AgentRunView::unsaved);
            reveal(AgentRunView::fail);
        },
        (PhaseView::Save { .. }, HappeningView::SaveFailed(_)) => {
            reveal(AgentRunView::unsaved);
            reveal(AgentRunView::fail);
        },
        (PhaseView::Start(_), _) => {
            reveal(AgentRunView::top);
            reveal(AgentRunView::ready);
            reveal(AgentRunView::cancel);
            reveal(AgentRunView::guard);
        },
        (PhaseView::Steer(_), HappeningView::Steered(_)) => {
            lemma_loop_keeps_revision(run, none, env);
            lemma_quiet_keeps_revision(run, none, env);
            lemma_endings_keep_revision(run, none, env, OrchestratorErrorView::Cancelled, ""@);
            reveal(AgentRunView::steered);
        },
        (PhaseView::Middleware, _) => {
            reveal(AgentRunView::prepared);
            reveal(AgentRunView::open);
            reveal(AgentRunView::fail);
        },
        (PhaseView::Streaming(_, completed), HappeningView::StreamEnd) => {
            if let Some(message) = completed {
                lemma_turn_keeps_revision(run.answered(message), none, env, message.tool_calls);
            }
            reveal(AgentRunView::stream_end);
            reveal(AgentRunView::cancel);
            reveal(AgentRunView::fail);
        },
        (PhaseView::Recv(call), HappeningView::ToolResult(result)) => {
            let next = run.with_context(
                run.context.push(tool_reply(result_text(result), result.tool_call_id, call.name)),
            );
            lemma_work_keeps_revision(
                next.with_session(PersistSessionView { pending_tool: None, ..next.session }),
                seq![EffectView::RemovePending(call.id)],
                env,
            );
            reveal(AgentRunView::resulted);
        },
        _ => {
            reveal(AgentRunView::chunk);
            reveal(AgentRunView::cancel);
            reveal(AgentRunView::fail);
            reveal(AgentRunView::followed_up);
            reveal(AgentRunView::tasks_done);
            reveal(AgentRunView::armed);
            reveal(AgentRunView::wait_failed);
        },
    }
}

} // verus!
