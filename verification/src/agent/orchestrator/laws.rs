//! What holds of every step of the loop.

use vstd::prelude::*;

use crate::agent::guards::{after_noop_turn, noop_reason, pre_llm_reason, REASON_TIMEOUT};
use crate::agent::middleware::MwEffectView;
use crate::agent::error::OrchestratorErrorView;
use crate::agent::orchestrator::rules::{
    client_calls_in, emitted, last_assistant, result_text, task_calls_in, todo_calls_in, Turned,
};
use crate::agent::orchestrator::state::{
    AfterView, AgentRunView, AskView, CompletedView, EffectView, HappeningView, PersistSessionView,
    PhaseView, RunOutcomeView, Site, SteeredView, StepEnv, TaskReplyView,
};
use crate::agent::orchestrator::steps::started;
use crate::agent::orchestrator::tasks::{task_begun, task_ended, TaskBeginView, TaskEndingView};
use crate::agent::tools::plan::todos_of;
use crate::agent::tools::task::lead_tools;
use crate::config::{GuardsConfig, SubagentsConfig};
use crate::llm::LlmChunkView;
use crate::protocol::{
    tool_reply, SseEventView, ToolCallView, ToolDefView, ToolResultRequestView, WireMessageView,
};
use crate::runtime::WaitError;
use crate::store::{PendingToolView, RunStatus};
use crate::text::dec;

verus! {

/// What a session never changes.
pub open spec fn same_terms(a: PersistSessionView, b: PersistSessionView) -> bool {
    &&& a.instance_id == b.instance_id
    &&& a.enabled == b.enabled
    &&& a.plan_mode == b.plan_mode
    &&& a.subagents == b.subagents
    &&& a.subagents_cfg == b.subagents_cfg
    &&& a.fold_stream == b.fold_stream
    &&& a.agent_id == b.agent_id
    &&& a.parent_task_id == b.parent_task_id
    &&& a.guards_cfg == b.guards_cfg
}

/// What a nested run may do outside: ask for client tools and send its todos.
pub open spec fn nested_effect(effect: EffectView) -> bool {
    match effect {
        EffectView::Emit(event) => event is ToolRequest || event is TodosUpdated,
        EffectView::UpsertPending(_) | EffectView::RemovePending(_) => true,
        EffectView::Finish => false,
    }
}

/// Whether an event says that a run is over.
pub open spec fn says_over(effect: EffectView) -> bool {
    effect matches EffectView::Emit(event) && (event is RunFinished || event is Error)
}

/// Whether the end of the run is being saved.
pub open spec fn is_ending(run: AgentRunView) -> bool {
    run.phase matches PhaseView::Save { after: AfterView::Final(_), .. }
}

/// Whether the loop is where only a run that is not nested can be.
pub open spec fn is_lead_only(run: AgentRunView) -> bool {
    match run.phase {
        PhaseView::FollowUps | PhaseView::Steer(_) => true,
        PhaseView::Save { after, .. } => after is Final || after is FollowUps || after is Steer,
        _ => false,
    }
}

/// Whether the run can be where it is: a nested run is never where only a lead run can be.
pub open spec fn is_placed(run: AgentRunView) -> bool {
    run.folded() ==> !is_lead_only(run)
}

/// Whether a client tool is awaited only where the loop waits for one.
pub open spec fn pending_is_settled(run: AgentRunView) -> bool {
    match run.phase {
        PhaseView::Resume(_) | PhaseView::Recv(_) | PhaseView::Done(_) => true,
        PhaseView::Save { after: AfterView::Request(_), pending, .. } => pending is Some,
        PhaseView::Save { pending, written, .. } => pending is None && (!written
            ==> run.session.pending_tool is None),
        _ => run.session.pending_tool is None,
    }
}

/// Whether the run has no call of the model left to deal with.
pub open spec fn has_no_calls(run: AgentRunView) -> bool {
    run.todo_calls.len() == 0 && run.task_calls.len() == 0 && run.client_calls.len() == 0
}

/// Whether calls are left only where the loop deals with them, or is over.
pub open spec fn calls_are_settled(run: AgentRunView) -> bool {
    match run.phase {
        PhaseView::Resume(_) | PhaseView::Tasks | PhaseView::Arm(_) | PhaseView::Recv(_)
        | PhaseView::Done(_) => true,
        PhaseView::Save { after, .. } => match after {
            AfterView::Todos | AfterView::Tasks | AfterView::Request(_) | AfterView::Result
            | AfterView::Final(_) => true,
            _ => has_no_calls(run),
        },
        _ => has_no_calls(run),
    }
}

/// Whether what is asked for is what the loop then waits for.
pub open spec fn asks_for_its_phase(run: AgentRunView, ask: AskView) -> bool {
    match ask {
        AskView::Steer => run.phase is Steer,
        AskView::Middleware => run.phase is Middleware,
        AskView::OpenStream(_) => run.phase is Open,
        AskView::NextChunk => run.phase is Streaming,
        AskView::Save(request) => run.phase matches PhaseView::Save { written, .. } && written == (
        request is Some),
        AskView::RunTasks(_) => run.phase is Tasks,
        AskView::ArmTool(pending) => run.phase matches PhaseView::Arm(call) && {
            &&& pending.tool_call_id == call.id
            &&& pending.name == call.name
            &&& pending.arguments == call.arguments
            &&& pending.agent_id == run.session.agent_id
            &&& pending.parent_task_id == run.session.parent_task_id
        },
        AskView::RecvTool(id) => run.phase matches PhaseView::Recv(call) && id == call.id,
        AskView::FollowUps => run.phase is FollowUps,
        AskView::Return(outcome) => run.phase == PhaseView::Done(outcome),
    }
}

/// Whether an effect asks the client to run a tool.
pub open spec fn asks_client(effect: EffectView) -> bool {
    effect matches EffectView::Emit(event) && event is ToolRequest
}

/// The status with which a run is saved: how it ended where it is over, that it waits where a client
/// tool was asked for, and else that it runs.
pub open spec fn saved_status(run: AgentRunView) -> RunStatus {
    match run.phase {
        PhaseView::Save { after: AfterView::Final(outcome), .. } => match outcome {
            RunOutcomeView::Finished(_) => RunStatus::Completed,
            RunOutcomeView::Failed(OrchestratorErrorView::Cancelled) => RunStatus::Cancelled,
            RunOutcomeView::Failed(_) => RunStatus::Failed,
        },
        PhaseView::Save { after: AfterView::Request(_), .. } => RunStatus::WaitingTool,
        _ => RunStatus::Running,
    }
}

/// Whether an effect tells how a run ended: with a reason where it came to its end, was cancelled or
/// reached a limit, and with an error, its text and its code, else.
pub open spec fn tells_how_it_ended(run: AgentRunView, effect: EffectView) -> bool {
    &&& run.phase matches PhaseView::Save { after: AfterView::Final(outcome), .. }
    &&& effect matches EffectView::Emit(event)
    &&& match event {
        SseEventView::RunFinished { run_id, reason } => run_id == run.run_id && match outcome {
            RunOutcomeView::Finished(text) => reason == "stop"@ && text == last_assistant(
                run.context,
            ),
            RunOutcomeView::Failed(OrchestratorErrorView::Guard(limit)) => reason == limit
                && run.session.finish_reason == Some(limit),
            RunOutcomeView::Failed(err) => err is Cancelled && reason == "cancelled"@,
        },
        SseEventView::Error { run_id, message, code } => {
            &&& run_id == run.run_id
            &&& outcome matches RunOutcomeView::Failed(err)
            &&& message == err.message()
            &&& code == Some(err.code())
        },
        _ => false,
    }
}

/// Whether what a step asks for fits the run.
spec fn asks_soundly(t: Turned, env: StepEnv) -> bool {
    &&& t.ask matches AskView::Save(Some(request)) ==> {
        &&& t.run.session.enabled
        &&& env.persist
        &&& request.expected == t.run.session.revision
        &&& request.checkpoint.revision == (request.expected + 1) as u64
        &&& request.checkpoint.run_id == t.run.run_id
        &&& request.checkpoint.owner_id == Some(t.run.session.instance_id)
        &&& request.checkpoint.context == t.run.context
        &&& request.checkpoint.todos == t.run.session.todos
        &&& request.checkpoint.tools == t.run.tools
        &&& request.checkpoint.plan_mode == t.run.session.plan_mode
        &&& request.checkpoint.subagents == t.run.session.subagents
        &&& request.checkpoint.guards == t.run.session.guards
        &&& request.checkpoint.guards.updated_at == dec(env.now as nat)
        &&& request.checkpoint.finish_reason == t.run.session.finish_reason
        &&& request.checkpoint.parent_run_id is None
        &&& request.checkpoint.status == saved_status(t.run)
        &&& t.run.phase matches PhaseView::Save { pending, .. } && pending
            == request.checkpoint.pending_tool
        &&& is_ending(t.run) ==> request.checkpoint.status.terminal()
            && request.checkpoint.pending_tool is None
    }
    &&& t.ask is Middleware ==> !env.cancelled && pre_llm_reason(
        t.run.session.guards,
        t.run.session.guards_cfg,
        env.now,
    ) is None
    &&& t.ask is RunTasks ==> t.run.todo_calls.len() == 0
    &&& t.ask is ArmTool ==> t.run.todo_calls.len() == 0 && t.run.task_calls.len() == 0
    &&& asks_for_its_phase(t.run, t.ask)
    &&& t.ask matches AskView::OpenStream(tools) ==> tools == lead_tools(
        t.run.tools,
        t.run.session.plan_mode,
        t.run.session.subagents,
    )
    &&& is_ending(t.run) ==> t.effects.len() > 0 && tells_how_it_ended(t.run, t.effects.last())
    &&& is_ending(t.run) ==> t.effects.len() > 0 && says_over(t.effects.last())
}

/// Whether a checkpoint that a step asks for names the awaited tool where its run waits for one,
/// and nowhere else.
spec fn names_tool(t: Turned) -> bool {
    t.ask matches AskView::Save(Some(request)) ==> (request.checkpoint.status
        == RunStatus::WaitingTool <==> request.checkpoint.pending_tool is Some)
}

/// Whether a step adds to `effects` only what the run may do.
spec fn adds_effects(run: AgentRunView, effects: Seq<EffectView>, t: Turned) -> bool {
    &&& effects.len() <= t.effects.len()
    &&& forall|i: int| 0 <= i < effects.len() ==> #[trigger] t.effects[i] == effects[i]
    &&& forall|i: int|
        effects.len() <= i < t.effects.len() ==> !(#[trigger] t.effects[i] is Finish) && (
        run.folded() ==> nested_effect(t.effects[i])) && (says_over(t.effects[i]) ==> is_ending(
            t.run,
        ) && i == t.effects.len() - 1) && (asks_client(t.effects[i]) ==> run.phase is Arm)
    &&& run.folded() ==> !is_lead_only(t.run)
}

/// Whether the loop may be `t` after a step that began with `run` and had given `effects`.
spec fn follows(run: AgentRunView, effects: Seq<EffectView>, env: StepEnv, t: Turned) -> bool {
    &&& t.run.run_id == run.run_id
    &&& t.run.tools == run.tools
    &&& same_terms(t.run.session, run.session)
    &&& t.run.session.revision == run.session.revision
    &&& t.run.session.guards.llm_rounds == run.session.guards.llm_rounds
    &&& t.run.follow_up_rounds == run.follow_up_rounds
    &&& run.context.is_prefix_of(t.run.context)
    &&& asks_soundly(t, env)
    &&& adds_effects(run, effects, t)
    &&& run.session.pending_tool is None ==> pending_is_settled(t.run) && names_tool(t)
    &&& has_no_calls(run) ==> calls_are_settled(t.run)
}

/// Whether the loop after a step has no open client tool, whatever it had before.
spec fn settles(t: Turned) -> bool {
    pending_is_settled(t.run) && names_tool(t)
}

proof fn lemma_fail(
    run: AgentRunView,
    effects: Seq<EffectView>,
    env: StepEnv,
    err: OrchestratorErrorView,
)
    ensures
        follows(run, effects, env, run.fail(effects, env, err)),
        calls_are_settled(run.fail(effects, env, err).run),
        settles(run.fail(effects, env, err)),
{
    reveal(AgentRunView::fail);
}

proof fn lemma_cancel(run: AgentRunView, effects: Seq<EffectView>, env: StepEnv)
    ensures
        follows(run, effects, env, run.cancel(effects, env)),
        calls_are_settled(run.cancel(effects, env).run),
        settles(run.cancel(effects, env)),
{
    reveal(AgentRunView::cancel);
}

proof fn lemma_guard(run: AgentRunView, effects: Seq<EffectView>, env: StepEnv, reason: Seq<char>)
    ensures
        follows(run, effects, env, run.guard(effects, env, reason)),
        calls_are_settled(run.guard(effects, env, reason).run),
{
    reveal(AgentRunView::guard);
}

proof fn lemma_ready(run: AgentRunView, effects: Seq<EffectView>, env: StepEnv)
    ensures
        follows(run, effects, env, run.ready(effects, env)),
{
    reveal(AgentRunView::ready);
    lemma_cancel(run, effects, env);
    if let Some(reason) = pre_llm_reason(run.session.guards, run.session.guards_cfg, env.now) {
        lemma_guard(run, effects, env, reason);
    }
}

proof fn lemma_top(run: AgentRunView, effects: Seq<EffectView>, env: StepEnv)
    ensures
        follows(run, effects, env, run.top(effects, env)),
{
    reveal(AgentRunView::top);
    lemma_ready(run, effects, env);
}

proof fn lemma_complete(run: AgentRunView, effects: Seq<EffectView>, env: StepEnv)
    ensures
        follows(run, effects, env, run.complete(effects, env)),
{
    reveal(AgentRunView::complete);
}

proof fn lemma_idle(run: AgentRunView, effects: Seq<EffectView>, env: StepEnv)
    ensures
        follows(run, effects, env, run.idle(effects, env)),
{
    reveal(AgentRunView::idle);
    lemma_cancel(run, effects, env);
    lemma_complete(run, effects, env);
}

proof fn lemma_quiet(run: AgentRunView, effects: Seq<EffectView>, env: StepEnv)
    ensures
        follows(run, effects, env, run.quiet(effects, env)),
{
    reveal(AgentRunView::quiet);
    let guards = after_noop_turn(
        run.session.guards,
        last_assistant(run.context),
        run.session.guards_cfg,
    );
    let next = run.with_session(PersistSessionView { guards, ..run.session });
    lemma_idle(next, effects, env);
    if let Some(reason) = noop_reason(guards, run.session.guards_cfg) {
        lemma_guard(next, effects, env, reason);
    }
}

proof fn lemma_open(run: AgentRunView, effects: Seq<EffectView>, env: StepEnv)
    ensures
        follows(run, effects, env, run.open(effects)),
{
    reveal(AgentRunView::open);
}

proof fn lemma_write_todos(
    run: AgentRunView,
    effects: Seq<EffectView>,
    env: StepEnv,
    call: ToolCallView,
)
    ensures
        follows(run, effects, env, run.write_todos(effects, env, call)),
        calls_are_settled(run.write_todos(effects, env, call).run),
{
    reveal(AgentRunView::write_todos);
}

proof fn lemma_work(run: AgentRunView, effects: Seq<EffectView>, env: StepEnv)
    ensures
        follows(run, effects, env, run.work(effects, env)),
        calls_are_settled(run.work(effects, env).run),
{
    reveal(AgentRunView::work);
    lemma_top(run, effects, env);
    if run.todo_calls.len() > 0 {
        lemma_write_todos(
            AgentRunView { todo_calls: run.todo_calls.skip(1), ..run },
            effects,
            env,
            run.todo_calls[0],
        );
    }
}

proof fn lemma_turn(
    run: AgentRunView,
    effects: Seq<EffectView>,
    env: StepEnv,
    calls: Seq<ToolCallView>,
)
    ensures
        follows(run, effects, env, run.turn(effects, env, calls)),
{
    reveal(AgentRunView::turn);
    lemma_quiet(run, effects, env);
    let next = run.with_progress();
    lemma_guard(next, effects, env, REASON_TIMEOUT@);
    let plan_mode = run.session.plan_mode;
    let subagents = run.session.subagents;
    lemma_work(
        AgentRunView {
            todo_calls: todo_calls_in(calls, plan_mode, subagents),
            task_calls: task_calls_in(calls, plan_mode, subagents),
            client_calls: client_calls_in(calls, plan_mode, subagents),
            ..next
        },
        effects,
        env,
    );
}

proof fn lemma_steered(run: AgentRunView, env: StepEnv, site: Site, joined: Seq<SteeredView>)
    requires
        !run.folded(),
    ensures
        follows(run, Seq::<EffectView>::empty(), env, run.steered(env, site, joined)),
{
    reveal(AgentRunView::steered);
    lemma_ready(run, Seq::empty(), env);
    lemma_quiet(run, Seq::empty(), env);
    lemma_complete(run, Seq::empty(), env);
}

proof fn lemma_prepared(
    run: AgentRunView,
    env: StepEnv,
    context: Seq<WireMessageView>,
    effect: MwEffectView,
)
    ensures
        follows(
            run.with_context(context),
            if run.folded() {
                Seq::empty()
            } else {
                emitted(effect.events)
            },
            env,
            run.prepared(env, context, effect),
        ),
{
    reveal(AgentRunView::prepared);
    let effects = if run.folded() {
        Seq::empty()
    } else {
        emitted(effect.events)
    };
    lemma_open(run.with_context(context), effects, env);
}

proof fn lemma_chunk(
    run: AgentRunView,
    env: StepEnv,
    message_id: Seq<char>,
    completed: Option<CompletedView>,
    chunk: LlmChunkView,
)
    ensures
        follows(run, Seq::<EffectView>::empty(), env, run.chunk(env, message_id, completed, chunk)),
{
    reveal(AgentRunView::chunk);
    lemma_cancel(run, Seq::empty(), env);
}

proof fn lemma_stream_end(
    run: AgentRunView,
    env: StepEnv,
    message_id: Seq<char>,
    completed: Option<CompletedView>,
)
    ensures
        follows(
            if env.cancelled || completed is None {
                run
            } else {
                run.answered(completed->0)
            },
            Seq::<EffectView>::empty(),
            env,
            run.stream_end(env, message_id, completed),
        ),
{
    reveal(AgentRunView::stream_end);
    lemma_cancel(run, Seq::empty(), env);
    lemma_fail(
        run,
        Seq::empty(),
        env,
        OrchestratorErrorView::Llm("llm stream ended without completed chunk"@),
    );
    if let Some(message) = completed {
        lemma_turn(run.answered(message), Seq::empty(), env, message.tool_calls);
    }
}

proof fn lemma_tasks_done(run: AgentRunView, env: StepEnv, replies: Seq<TaskReplyView>)
    ensures
        follows(run, Seq::<EffectView>::empty(), env, run.tasks_done(env, replies)),
        calls_are_settled(run.tasks_done(env, replies).run),
{
    reveal(AgentRunView::tasks_done);
}

proof fn lemma_armed(run: AgentRunView, env: StepEnv, call: ToolCallView)
    requires
        run.phase is Arm,
    ensures
        follows(run, Seq::<EffectView>::empty(), env, run.armed(env, call)),
        calls_are_settled(run.armed(env, call).run),
{
    reveal(AgentRunView::armed);
}

proof fn lemma_wait_failed(
    run: AgentRunView,
    effects: Seq<EffectView>,
    env: StepEnv,
    err: WaitError,
)
    ensures
        follows(run, effects, env, run.wait_failed(effects, env, err)),
        calls_are_settled(run.wait_failed(effects, env, err).run),
        settles(run.wait_failed(effects, env, err)),
{
    reveal(AgentRunView::wait_failed);
    lemma_cancel(run, effects, env);
    lemma_fail(run, effects, env, OrchestratorErrorView::ToolTimeout);
}

proof fn lemma_resulted(
    run: AgentRunView,
    env: StepEnv,
    call: ToolCallView,
    result: ToolResultRequestView,
)
    ensures
        follows(run, Seq::<EffectView>::empty(), env, run.resulted(env, call, result)),
        calls_are_settled(run.resulted(env, call, result).run),
        settles(run.resulted(env, call, result)),
{
    reveal(AgentRunView::resulted);
    let next = run.with_context(
        run.context.push(tool_reply(result_text(result), result.tool_call_id, call.name)),
    );
    lemma_work(
        next.with_session(PersistSessionView { pending_tool: None, ..next.session }),
        seq![EffectView::RemovePending(call.id)],
        env,
    );
}

proof fn lemma_saved(run: AgentRunView, env: StepEnv, after: AfterView)
    requires
        !(after is Final),
        run.folded() ==> !(after is Steer) && !(after is FollowUps),
    ensures
        follows(run, Seq::<EffectView>::empty(), env, run.saved(env, after)),
        after is Todos || after is Tasks || after is Request || after is Result
            ==> calls_are_settled(run.saved(env, after).run),
{
    reveal(AgentRunView::saved);
    lemma_ready(run, Seq::empty(), env);
    lemma_top(run, Seq::empty(), env);
    lemma_top(run.with_progress(), Seq::empty(), env);
    lemma_open(run, Seq::empty(), env);
    lemma_work(run, Seq::empty(), env);
    if let AfterView::Assistant(calls) = after {
        lemma_turn(run, Seq::empty(), env, calls);
    }
}

proof fn lemma_unsaved(
    run: AgentRunView,
    env: StepEnv,
    after: AfterView,
    err: OrchestratorErrorView,
)
    requires
        !(after is Final),
    ensures
        follows(run, Seq::<EffectView>::empty(), env, run.unsaved(env, after, err)),
        calls_are_settled(run.unsaved(env, after, err).run),
        settles(run.unsaved(env, after, err)),
{
    reveal(AgentRunView::unsaved);
    lemma_fail(run, Seq::empty(), env, err);
}

proof fn lemma_followed_up(run: AgentRunView, env: StepEnv, joined: Seq<SteeredView>)
    requires
        !run.folded(),
        run.phase is FollowUps,
    ensures
        follows(
            run.taken_up(HappeningView::FollowUps(joined), env),
            Seq::<EffectView>::empty(),
            env,
            run.followed_up(env, joined),
        ),
{
    reveal(AgentRunView::followed_up);
    lemma_fail(run, Seq::empty(), env, OrchestratorErrorView::FollowUpLimit);
}

impl AgentRunView {
    /// The run once what happened is taken in, before anything is done about it: a written
    /// checkpoint is counted, a middleware has its context, a message of the model is counted and
    /// joins, and follow-ups are counted.
    pub open spec fn taken_up(self, happening: HappeningView, env: StepEnv) -> Self {
        match (self.phase, happening) {
            (PhaseView::Save { pending, .. }, HappeningView::Saved) => self.with_session(
                PersistSessionView {
                    revision: (self.session.revision + 1) as u64,
                    pending_tool: pending,
                    ..self.session
                },
            ),
            (PhaseView::Middleware, HappeningView::MiddlewareDone(context, _)) => {
                self.with_context(context)
            },
            (PhaseView::Middleware, HappeningView::MiddlewareFailed(context, _)) => {
                self.with_context(context)
            },
            (PhaseView::Streaming(_, Some(message)), HappeningView::StreamEnd) => if env.cancelled {
                self
            } else {
                self.answered(message)
            },
            (PhaseView::FollowUps, HappeningView::FollowUps(joined)) => if joined.len() == 0 || (
            self.session.guards_cfg.max_follow_up_rounds > 0 && self.follow_up_rounds
                >= self.session.guards_cfg.max_follow_up_rounds) {
                self
            } else {
                AgentRunView { follow_up_rounds: (self.follow_up_rounds + 1) as u32, ..self }
            },
            _ => self,
        }
    }
}

/// What a middleware hands the run to send.
spec fn handed_over(run: AgentRunView, happening: HappeningView) -> Seq<EffectView> {
    match happening {
        HappeningView::MiddlewareDone(_, effect) => if run.folded() {
            Seq::empty()
        } else {
            emitted(effect.events)
        },
        _ => Seq::empty(),
    }
}

proof fn lemma_step(run: AgentRunView, happening: HappeningView, env: StepEnv)
    requires
        run.expects(happening),
        is_placed(run),
        !is_ending(run),
    ensures
        follows(
            run.taken_up(happening, env),
            handed_over(run, happening),
            env,
            run.step(happening, env),
        ),
        pending_is_settled(run) ==> settles(run.step(happening, env)),
        calls_are_settled(run) ==> calls_are_settled(run.step(happening, env).run),
{
    reveal(AgentRunView::step);
    let none = Seq::<EffectView>::empty();
    match (run.phase, happening) {
        (PhaseView::Start(announce), HappeningView::Begin) => {
            lemma_top(run, none, env);
            lemma_top(
                run,
                seq![EffectView::Emit(SseEventView::RunStarted { run_id: run.run_id })],
                env,
            );
        },
        (PhaseView::Steer(site), HappeningView::Steered(joined)) => {
            lemma_steered(run, env, site, joined);
        },
        (PhaseView::Middleware, HappeningView::MiddlewareDone(context, effect)) => {
            lemma_prepared(run, env, context, effect);
        },
        (PhaseView::Middleware, HappeningView::MiddlewareFailed(context, err)) => {
            lemma_fail(run.with_context(context), none, env, err);
        },
        (PhaseView::Open, HappeningView::StreamRefused(err)) => {
            lemma_fail(run, none, env, OrchestratorErrorView::Llm(err));
        },
        (PhaseView::Streaming(message_id, completed), HappeningView::Chunk(chunk)) => {
            lemma_chunk(run, env, message_id, completed, chunk);
        },
        (PhaseView::Streaming(..), HappeningView::ChunkFailed(err)) => {
            lemma_cancel(run, none, env);
            lemma_fail(run, none, env, OrchestratorErrorView::Llm(err));
        },
        (PhaseView::Streaming(message_id, completed), HappeningView::StreamEnd) => {
            lemma_stream_end(run, env, message_id, completed);
        },
        (PhaseView::Save { after, .. }, HappeningView::Saved) => {
            lemma_saved(run.taken_up(happening, env), env, after);
            reveal(AgentRunView::saved);
        },
        (PhaseView::Save { after, .. }, HappeningView::SaveSkipped) => {
            lemma_saved(run, env, after);
            reveal(AgentRunView::saved);
        },
        (PhaseView::Save { after, .. }, HappeningView::SaveConflict) => {
            lemma_unsaved(run, env, after, OrchestratorErrorView::OwnershipLost);
        },
        (PhaseView::Save { after, .. }, HappeningView::SaveFailed(err)) => {
            lemma_unsaved(run, env, after, OrchestratorErrorView::Store(err));
        },
        (PhaseView::Tasks, HappeningView::TasksDone(replies)) => {
            lemma_tasks_done(run, env, replies);
        },
        (PhaseView::Arm(call), HappeningView::Armed) => {
            lemma_armed(run, env, call);
        },
        (PhaseView::Arm(call), HappeningView::ArmRefused(err)) => {
            lemma_wait_failed(run, seq![EffectView::RemovePending(call.id)], env, err);
        },
        (PhaseView::Recv(call), HappeningView::ToolResult(result)) => {
            lemma_resulted(run, env, call, result);
        },
        (PhaseView::Recv(_), HappeningView::ToolWaitFailed(err)) => {
            lemma_wait_failed(run, none, env, err);
        },
        (PhaseView::FollowUps, HappeningView::FollowUps(joined)) => {
            lemma_followed_up(run, env, joined);
        },
        _ => {},
    }
}

/// The step of a run whose end was being saved.
proof fn lemma_ended(run: AgentRunView, happening: HappeningView, env: StepEnv)
    requires
        run.expects(happening),
        is_ending(run),
    ensures
        run.step(happening, env).effects == seq![EffectView::Finish],
        run.step(happening, env).run.phase is Done,
        run.step(happening, env).ask is Return,
        run.step(happening, env).run == (AgentRunView {
            phase: run.step(happening, env).run.phase,
            ..run.taken_up(happening, env)
        }),
{
    reveal(AgentRunView::step);
    reveal(AgentRunView::saved);
    reveal(AgentRunView::unsaved);
}

proof fn lemma_any(run: AgentRunView, happening: HappeningView, env: StepEnv)
    requires
        run.expects(happening),
        is_placed(run),
    ensures
        is_ending(run) || follows(
            run.taken_up(happening, env),
            handed_over(run, happening),
            env,
            run.step(happening, env),
        ),
        is_ending(run) ==> {
            &&& run.step(happening, env).effects == seq![EffectView::Finish]
            &&& run.step(happening, env).run.phase is Done
            &&& run.step(happening, env).ask is Return
            &&& run.step(happening, env).run == (AgentRunView {
                phase: run.step(happening, env).run.phase,
                ..run.taken_up(happening, env)
            })
        },
        pending_is_settled(run) ==> settles(run.step(happening, env)),
        calls_are_settled(run) ==> calls_are_settled(run.step(happening, env).run),
{
    if is_ending(run) {
        lemma_ended(run, happening, env);
    } else {
        lemma_step(run, happening, env);
    }
}

/// A step keeps the identity of the run, the tools of the client and the terms of the run, and a
/// nested run stays where a nested run can be.
pub proof fn law_terms_are_kept(run: AgentRunView, happening: HappeningView, env: StepEnv)
    requires
        run.expects(happening),
        is_placed(run),
    ensures
        run.step(happening, env).run.run_id == run.run_id,
        run.step(happening, env).run.tools == run.tools,
        same_terms(run.step(happening, env).run.session, run.session),
        is_placed(run.step(happening, env).run),
{
    lemma_any(run, happening, env);
}

/// A new run, and a run that is taken up where it waits for a tool, are where they can be, have no
/// call left to deal with, and wait for the beginning.
pub proof fn law_runs_begin_settled(
    run_id: Seq<char>,
    context: Seq<WireMessageView>,
    tools: Seq<ToolDefView>,
    session: PersistSessionView,
    announce: bool,
    pending: PendingToolView,
)
    ensures
        is_placed(started(run_id, context, tools, session, PhaseView::Start(announce))),
        session.pending_tool is None ==> pending_is_settled(
            started(run_id, context, tools, session, PhaseView::Start(announce)),
        ),
        has_no_calls(started(run_id, context, tools, session, PhaseView::Start(announce))),
        calls_are_settled(started(run_id, context, tools, session, PhaseView::Start(announce))),
        started(run_id, context, tools, session, PhaseView::Start(announce)).expects(
            HappeningView::Begin,
        ),
        is_placed(started(run_id, context, tools, session, PhaseView::Resume(pending))),
        pending_is_settled(started(run_id, context, tools, session, PhaseView::Resume(pending))),
        has_no_calls(started(run_id, context, tools, session, PhaseView::Resume(pending))),
        calls_are_settled(started(run_id, context, tools, session, PhaseView::Resume(pending))),
        started(run_id, context, tools, session, PhaseView::Resume(pending)).expects(
            HappeningView::Begin,
        ),
{
}

/// What a step asks for is what the loop then waits for: a client tool is armed and awaited by the
/// call that it is for, and a run that returns is over with that outcome.
pub proof fn law_asks_fit_the_phase(run: AgentRunView, happening: HappeningView, env: StepEnv)
    requires
        run.expects(happening),
        is_placed(run),
    ensures
        asks_for_its_phase(run.step(happening, env).run, run.step(happening, env).ask),
{
    lemma_any(run, happening, env);
    reveal(AgentRunView::step);
    reveal(AgentRunView::saved);
    reveal(AgentRunView::unsaved);
}

/// The client is asked to run a tool exactly once a waiter for it is there, by one event with the
/// id, the name and the arguments of the call; at no other time is it asked for anything. A
/// middleware that sends such an event itself is not counted in.
pub proof fn law_client_is_asked_once(run: AgentRunView, happening: HappeningView, env: StepEnv)
    requires
        run.expects(happening),
        is_placed(run),
        happening matches HappeningView::MiddlewareDone(_, effect) ==> forall|i: int|
            0 <= i < emitted(effect.events).len() ==> !asks_client(
                #[trigger] emitted(effect.events)[i],
            ),
    ensures
        !(happening is Armed) ==> forall|i: int|
            0 <= i < run.step(happening, env).effects.len() ==> !asks_client(
                #[trigger] run.step(happening, env).effects[i],
            ),
        happening is Armed ==> {
            let t = run.step(happening, env);
            &&& run.phase matches PhaseView::Arm(call)
            &&& t.effects.len() == 1
            &&& t.effects[0] matches EffectView::Emit(event)
            &&& event matches SseEventView::ToolRequest {
                run_id,
                tool_call_id,
                name,
                arguments,
                agent_id,
                parent_task_id,
            }
            &&& run_id == run.run_id && tool_call_id == call.id && name == call.name && arguments
                == call.arguments && agent_id == run.session.agent_id && parent_task_id
                == run.session.parent_task_id
        },
{
    lemma_any(run, happening, env);
    reveal(AgentRunView::step);
    reveal(AgentRunView::armed);
    if run.phase is Arm && !(happening is Armed) {
        reveal(AgentRunView::wait_failed);
        reveal(AgentRunView::cancel);
        reveal(AgentRunView::fail);
    }
}

/// A run that is over waits for nothing.
pub proof fn law_nothing_after_the_end(run: AgentRunView, happening: HappeningView)
    requires
        run.phase is Done,
    ensures
        !run.expects(happening),
{
}

/// A nested run sends no messages, takes no steering and no follow-ups, and does not finish the
/// handle of the run that it is nested in.
pub proof fn law_nested_run_is_silent(run: AgentRunView, happening: HappeningView, env: StepEnv)
    requires
        run.folded(),
        run.expects(happening),
        is_placed(run),
    ensures
        forall|i: int|
            0 <= i < run.step(happening, env).effects.len() ==> nested_effect(
                #[trigger] run.step(happening, env).effects[i],
            ),
        !(run.step(happening, env).ask is Steer),
        !(run.step(happening, env).ask is FollowUps),
{
    lemma_any(run, happening, env);
}

/// The revision goes up by one for each checkpoint that is written, and at no other time; and a
/// checkpoint is written over the revision that the run knows, as the run then is.
pub proof fn law_revision_counts_checkpoints(
    run: AgentRunView,
    happening: HappeningView,
    env: StepEnv,
)
    requires
        run.expects(happening),
        run.counters_fit(),
        is_placed(run),
    ensures
        run.step(happening, env).run.session.revision == run.session.revision + (
        if happening is Saved {
            1int
        } else {
            0
        }),
        run.step(happening, env).ask matches AskView::Save(Some(request)) ==> {
            &&& request.expected == run.step(happening, env).run.session.revision
            &&& request.checkpoint.revision == request.expected + 1
            &&& request.checkpoint.run_id == run.run_id
            &&& request.checkpoint.owner_id == Some(run.session.instance_id)
            &&& request.checkpoint.context == run.step(happening, env).run.context
            &&& request.checkpoint.todos == run.step(happening, env).run.session.todos
        },
{
    lemma_any(run, happening, env);
}

/// A run that keeps no checkpoints asks for none to be written.
pub proof fn law_no_checkpoints_unless_enabled(
    run: AgentRunView,
    happening: HappeningView,
    env: StepEnv,
)
    requires
        run.expects(happening),
        is_placed(run),
        !run.session.enabled || !env.persist,
    ensures
        !(run.step(happening, env).ask matches AskView::Save(Some(_))),
{
    lemma_any(run, happening, env);
}

/// A run that may go on by itself a limited number of times never does so more often.
pub proof fn law_follow_ups_are_bounded(
    run: AgentRunView,
    happening: HappeningView,
    env: StepEnv,
)
    requires
        run.expects(happening),
        is_placed(run),
        run.session.guards_cfg.max_follow_up_rounds > 0,
        run.follow_up_rounds <= run.session.guards_cfg.max_follow_up_rounds,
    ensures
        run.follow_up_rounds <= run.step(happening, env).run.follow_up_rounds
            <= run.session.guards_cfg.max_follow_up_rounds,
{
    lemma_any(run, happening, env);
}

/// Nothing but a middleware takes a message out of the context.
pub proof fn law_context_grows(run: AgentRunView, happening: HappeningView, env: StepEnv)
    requires
        run.expects(happening),
        is_placed(run),
        !(happening is MiddlewareDone),
        !(happening is MiddlewareFailed),
    ensures
        run.context.is_prefix_of(run.step(happening, env).run.context),
{
    lemma_any(run, happening, env);
}

/// The model is counted once for each message that it completes, and at no other time.
pub proof fn law_model_rounds_are_counted(
    run: AgentRunView,
    happening: HappeningView,
    env: StepEnv,
)
    requires
        run.expects(happening),
        is_placed(run),
    ensures
        run.step(happening, env).run.session.guards.llm_rounds == if happening is StreamEnd
            && !env.cancelled && (run.phase matches PhaseView::Streaming(_, Some(_)))
            && run.session.guards.llm_rounds < u32::MAX {
            run.session.guards.llm_rounds + 1
        } else {
            run.session.guards.llm_rounds as int
        },
{
    lemma_any(run, happening, env);
}

/// Before the model is called, the run is neither cancelled nor over a limit.
pub proof fn law_limits_come_before_the_model(
    run: AgentRunView,
    happening: HappeningView,
    env: StepEnv,
)
    requires
        run.expects(happening),
        is_placed(run),
        run.step(happening, env).ask is Middleware,
    ensures
        !env.cancelled,
        pre_llm_reason(
            run.step(happening, env).run.session.guards,
            run.session.guards_cfg,
            env.now,
        ) is None,
{
    lemma_any(run, happening, env);
}

/// The calls that the server runs itself come first: the subtasks once there is no `write_todos`
/// left, and a client tool once there is neither.
pub proof fn law_server_calls_come_first(
    run: AgentRunView,
    happening: HappeningView,
    env: StepEnv,
)
    requires
        run.expects(happening),
        is_placed(run),
    ensures
        run.step(happening, env).ask is RunTasks ==> run.step(happening, env).run.todo_calls.len()
            == 0,
        run.step(happening, env).ask is ArmTool ==> run.step(happening, env).run.todo_calls.len()
            == 0 && run.step(happening, env).run.task_calls.len() == 0,
{
    lemma_any(run, happening, env);
}

/// The todos of a run change only for a list that can be read.
pub proof fn law_bad_todos_keep_the_list(
    run: AgentRunView,
    effects: Seq<EffectView>,
    env: StepEnv,
    call: ToolCallView,
)
    ensures
        todos_of(call.arguments) is Err ==> run.write_todos(effects, env, call).run.session.todos
            == run.session.todos && run.write_todos(effects, env, call).effects == effects,
        todos_of(call.arguments) matches Ok(todos) ==> run.write_todos(
            effects,
            env,
            call,
        ).run.session.todos == todos,
{
    reveal(AgentRunView::write_todos);
}

/// A run finishes its handle once its end is saved, and at no other time.
pub proof fn law_finish_is_the_end(run: AgentRunView, happening: HappeningView, env: StepEnv)
    requires
        run.expects(happening),
        is_placed(run),
    ensures
        run.step(happening, env).effects.contains(EffectView::Finish) <==> is_ending(run),
        is_ending(run) ==> run.step(happening, env).run.phase is Done,
{
    lemma_any(run, happening, env);
    if is_ending(run) {
        assert(run.step(happening, env).effects[0] == EffectView::Finish);
    }
}

/// The end of a run is announced before it is saved, and what is saved is a run that is over.
pub proof fn law_end_is_announced(run: AgentRunView, happening: HappeningView, env: StepEnv)
    requires
        run.expects(happening),
        is_placed(run),
        is_ending(run.step(happening, env).run),
    ensures
        run.step(happening, env).effects.len() > 0,
        says_over(run.step(happening, env).effects.last()),
        run.step(happening, env).ask matches AskView::Save(Some(request))
            ==> request.checkpoint.status.terminal() && request.checkpoint.pending_tool is None,
{
    lemma_any(run, happening, env);
}

/// A run says that it is over once, and last: in the last effect of the step after which its end
/// is saved, and in no other; after that step there is nothing left but to finish its handle. A
/// middleware that sends such an event itself is not counted in.
pub proof fn law_end_is_said_once(run: AgentRunView, happening: HappeningView, env: StepEnv)
    requires
        run.expects(happening),
        is_placed(run),
        happening matches HappeningView::MiddlewareDone(_, effect) ==> forall|i: int|
            0 <= i < emitted(effect.events).len() ==> !says_over(
                #[trigger] emitted(effect.events)[i],
            ),
    ensures
        ({
            let t = run.step(happening, env);
            &&& forall|i: int|
                0 <= i < t.effects.len() ==> (says_over(#[trigger] t.effects[i]) <==> is_ending(
                    t.run,
                ) && i == t.effects.len() - 1)
            &&& is_ending(t.run) ==> t.effects.len() > 0
            &&& is_ending(run) ==> t.effects == seq![EffectView::Finish] && t.run.phase is Done
        }),
{
    lemma_any(run, happening, env);
}

/// Every call of the model is dealt with before the model is called again, and before steering
/// or follow-ups are taken up.
pub proof fn law_all_calls_come_before_the_model(
    run: AgentRunView,
    happening: HappeningView,
    env: StepEnv,
)
    requires
        run.expects(happening),
        is_placed(run),
        calls_are_settled(run),
    ensures
        ({
            let t = run.step(happening, env);
            &&& calls_are_settled(t.run)
            &&& t.ask is Middleware || t.ask is OpenStream || t.ask is Steer || t.ask is FollowUps
                ==> has_no_calls(t.run)
        }),
{
    lemma_any(run, happening, env);
}

/// The last effect of a run tells how it ended, and so do its checkpoint and its outcome; a run that
/// came to its end gives the text of the last assistant message.
pub proof fn law_end_is_told_as_it_is(run: AgentRunView, happening: HappeningView, env: StepEnv)
    requires
        run.expects(happening),
        is_placed(run),
        is_ending(run.step(happening, env).run),
    ensures
        ({
            let t = run.step(happening, env);
            &&& t.effects.len() > 0
            &&& tells_how_it_ended(t.run, t.effects.last())
        }),
{
    lemma_any(run, happening, env);
}

/// A checkpoint has all that a run needs to go on elsewhere: what was said, the tools, the todos, the
/// modes, the counters as they are at that time, how the run stands, and the tool that it waits for.
pub proof fn law_checkpoint_has_the_run(run: AgentRunView, happening: HappeningView, env: StepEnv)
    requires
        run.expects(happening),
        is_placed(run),
    ensures
        run.step(happening, env).ask matches AskView::Save(Some(request)) ==> {
            let next = run.step(happening, env).run;
            let cp = request.checkpoint;
            &&& cp.run_id == next.run_id
            &&& cp.context == next.context
            &&& cp.tools == next.tools
            &&& cp.todos == next.session.todos
            &&& cp.plan_mode == next.session.plan_mode
            &&& cp.subagents == next.session.subagents
            &&& cp.guards == next.session.guards
            &&& cp.guards.updated_at == dec(env.now as nat)
            &&& cp.finish_reason == next.session.finish_reason
            &&& cp.parent_run_id is None
            &&& cp.owner_id == Some(next.session.instance_id)
            &&& cp.status == saved_status(next)
            &&& next.phase matches PhaseView::Save { pending, .. } && pending == cp.pending_tool
        },
{
    lemma_any(run, happening, env);
}

/// The model is called with the tools that it is offered.
pub proof fn law_model_is_offered_its_tools(
    run: AgentRunView,
    happening: HappeningView,
    env: StepEnv,
)
    requires
        run.expects(happening),
        is_placed(run),
    ensures
        run.step(happening, env).ask matches AskView::OpenStream(tools) ==> tools == lead_tools(
            run.tools,
            run.session.plan_mode,
            run.session.subagents,
        ),
{
    lemma_any(run, happening, env);
}

/// A checkpoint names the awaited tool if and only if its run waits for a tool.
pub proof fn law_waiting_run_names_its_tool(
    run: AgentRunView,
    happening: HappeningView,
    env: StepEnv,
)
    requires
        run.expects(happening),
        is_placed(run),
        pending_is_settled(run),
    ensures
        pending_is_settled(run.step(happening, env).run),
        run.step(happening, env).ask matches AskView::Save(Some(request)) ==> (
        request.checkpoint.status == RunStatus::WaitingTool
            <==> request.checkpoint.pending_tool is Some),
{
    lemma_any(run, happening, env);
}

/// Each call of the model goes to exactly one of the three that run calls.
pub proof fn law_calls_are_partitioned(
    calls: Seq<ToolCallView>,
    plan_mode: bool,
    subagents: bool,
)
    ensures
        todo_calls_in(calls, plan_mode, subagents).to_multiset().add(
            task_calls_in(calls, plan_mode, subagents).to_multiset(),
        ).add(client_calls_in(calls, plan_mode, subagents).to_multiset()) == calls.to_multiset(),
    decreases calls.len(),
{
    broadcast use vstd::seq_lib::group_to_multiset_ensures;
    if calls.len() > 0 {
        law_calls_are_partitioned(calls.drop_last(), plan_mode, subagents);
        assert(calls.drop_last().push(calls.last()) =~= calls);
    }
    assert(todo_calls_in(calls, plan_mode, subagents).to_multiset().add(
        task_calls_in(calls, plan_mode, subagents).to_multiset(),
    ).add(client_calls_in(calls, plan_mode, subagents).to_multiset()) =~= calls.to_multiset());
}

/// A subtask answers its call, whatever comes of it; its run is nested, keeps no checkpoints, has
/// no subtasks of its own, and is given some time.
pub proof fn law_subtask_answers_its_call(
    run_id: Seq<char>,
    call: ToolCallView,
    client_tools: Seq<ToolDefView>,
    guards_cfg: GuardsConfig,
    subagents_cfg: SubagentsConfig,
    now: u64,
    ending: TaskEndingView,
)
    ensures
        match task_begun(run_id, call, client_tools, guards_cfg, subagents_cfg, now) {
            TaskBeginView::Rejected { reply, .. } => reply.id == call.id && reply.name == call.name,
            TaskBeginView::Started(subtask) => {
                &&& subtask.run.folded()
                &&& is_placed(subtask.run)
                &&& pending_is_settled(subtask.run)
                &&& calls_are_settled(subtask.run)
                &&& !subtask.run.session.enabled
                &&& !subtask.run.session.subagents
                &&& subtask.run.session.parent_task_id == Some(call.id)
                &&& subtask.timeout_secs >= 1
            },
        },
        task_ended(run_id, call.id, call.name, ending).1.id == call.id,
        task_ended(run_id, call.id, call.name, ending).1.name == call.name,
{
}

} // verus!
