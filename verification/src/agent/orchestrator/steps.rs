//! The steps of the loop.

use vstd::prelude::*;

use crate::agent::error::{error_code, terminal_for, OrchestratorError};
use crate::agent::guards::{
    clear_noop_progress, observe_noop_turn, pre_llm_guard, wall_exceeded, REASON_TIMEOUT,
};
use crate::agent::middleware::MwEffect;
use crate::agent::orchestrator::rules::{
    announced, announcements, client_calls_in, emitted, last_assistant, messages_of,
    overflow_replies, replies_of, task_calls_in, todo_calls_in, Turned,
};
use crate::agent::orchestrator::state::{
    After, AgentRun, AgentRunView, Ask, Completed, Effect, EffectView, Happening, PersistSession,
    PersistSessionView, Phase, PhaseView, RunAgentOpts, RunAgentOptsView, RunOutcome, RunPersist,
    RunPersistView, SaveRequest, Site, Steered, StepEnv, StepOut, TaskReply,
};
use crate::agent::tools::plan::{
    apply_write_todos, ensure_plan_nudge, nudged, tool_result_err, tool_result_ok,
};
use crate::agent::tools::task::{
    inject_lead_tools, is_server_tool_name, is_task_tool, task_result_err,
};
use crate::dup::{push_all, push_last, Dup};
use crate::llm::{LlmChunk, ToolCall};
use crate::protocol::{
    tool_message, MessageSource, Role, SseEvent, ToolCallView, ToolCallWire, ToolDef, ToolDefView,
    ToolResultRequest, WireMessage, WireMessageView,
};
use crate::runtime::WaitError;
use crate::store::{guards_from, Checkpoint, GuardsSnapshot, PendingTool, RunStatus};
use crate::text::{concat, concat3, decimal};

verus! {

/// The loop and what a step gives, together.
pub open spec fn turned(run: AgentRun, out: StepOut) -> Turned {
    Turned {
        run: run.deep_view(),
        effects: out.effects.deep_view(),
        ask: out.ask.deep_view(),
    }
}

/// The content of the last assistant message; empty where there is none.
pub fn last_assistant_text(context: &Vec<WireMessage>) -> (r: String)
    ensures
        r@ == last_assistant(context.deep_view()),
{
    let ghost all = context.deep_view();
    let mut i: usize = context.len();
    assert(all.take(all.len() as int) =~= all);
    while i > 0
        invariant
            i <= context@.len(),
            all == context.deep_view(),
            last_assistant(all) == last_assistant(all.take(i as int)),
        decreases i,
    {
        proof {
            assert(all.take(i as int).drop_last() =~= all.take(i - 1));
            assert(all.take(i as int).last() == context@[i - 1].deep_view());
        }
        if context[i - 1].role == Role::Assistant {
            return context[i - 1].content.dup();
        }
        i = i - 1;
    }
    String::new()
}

/// Tool calls as an assistant message has them.
pub fn calls_to_wire(calls: &Vec<ToolCall>) -> (r: Vec<ToolCallWire>)
    ensures
        r.deep_view() == calls.deep_view(),
{
    let mut out: Vec<ToolCallWire> = Vec::new();
    let mut i: usize = 0;
    while i < calls.len()
        invariant
            i <= calls@.len(),
            out@.len() == i,
            forall|j: int|
                0 <= j < i ==> (#[trigger] out@[j]).deep_view() == calls@[j].deep_view(),
        decreases calls@.len() - i,
    {
        let call = &calls[i];
        out.push(
            ToolCallWire {
                id: call.id.dup(),
                name: call.name.dup(),
                arguments: call.arguments.dup(),
            },
        );
        i = i + 1;
    }
    assert(out.deep_view() =~= calls.deep_view());
    out
}

fn no_effects() -> (r: Vec<Effect>)
    ensures
        r.deep_view() == Seq::<EffectView>::empty(),
{
    let r: Vec<Effect> = Vec::new();
    assert(r.deep_view() =~= Seq::<EffectView>::empty());
    r
}

fn one_effect(effect: Effect) -> (r: Vec<Effect>)
    ensures
        r.deep_view() == seq![effect.deep_view()],
{
    let r = vec![effect];
    assert(r.deep_view() =~= seq![effect.deep_view()]);
    r
}

/// Adds messages to a context and announces each.
fn join_messages(
    context: &mut Vec<WireMessage>,
    run_id: &str,
    joined: Vec<Steered>,
    source: MessageSource,
) -> (r: Vec<Effect>)
    ensures
        final(context).deep_view() == old(context).deep_view() + messages_of(joined.deep_view()),
        r.deep_view() == announcements(run_id@, joined.deep_view(), source),
{
    let ghost before = context.deep_view();
    let ghost all = joined.deep_view();
    let mut effects = no_effects();
    let mut i: usize = 0;
    assert(before + messages_of(all).take(0) =~= before);
    assert(announcements(run_id@, all, source).take(0) =~= Seq::<EffectView>::empty());
    while i < joined.len()
        invariant
            i <= joined@.len(),
            all == joined.deep_view(),
            context.deep_view() == before + messages_of(all).take(i as int),
            effects.deep_view() == announcements(run_id@, all, source).take(i as int),
        decreases joined@.len() - i,
    {
        let one = &joined[i];
        assert(all[i as int] == one.deep_view());
        push_last(
            &mut effects,
            Effect::Emit(
                SseEvent::MessageCompleted {
                    run_id: run_id.to_owned(),
                    message_id: one.message_id.dup(),
                    role: one.message.role,
                    content: one.message.content.dup(),
                    tool_calls: None,
                    source: Some(source),
                    reasoning_content: None,
                },
            ),
        );
        push_last(context, one.message.dup());
        proof {
            assert(messages_of(all).take(i + 1) =~= messages_of(all).take(i as int).push(
                messages_of(all)[i as int],
            ));
            assert(announcements(run_id@, all, source).take(i + 1) =~= announcements(
                run_id@,
                all,
                source,
            ).take(i as int).push(announced(run_id@, all[i as int], source)));
            assert(context.deep_view() =~= before + messages_of(all).take(i + 1));
        }
        i = i + 1;
    }
    proof {
        assert(messages_of(all).take(i as int) =~= messages_of(all));
        assert(announcements(run_id@, all, source).take(i as int) =~= announcements(
            run_id@,
            all,
            source,
        ));
    }
    effects
}

impl PersistSession {
    /// What a run keeps when it starts.
    pub fn new(
        persist: Option<RunPersist>,
        enabled: bool,
        opts: RunAgentOpts,
        now: u64,
    ) -> (r: Self)
        ensures
            r.deep_view() == session_of(
                persist.deep_view(),
                enabled,
                opts.deep_view(),
                now,
            ),
    {
        let (instance_id, revision, there): (String, u64, bool) = match persist {
            Some(p) => (p.instance_id, p.revision, true),
            None => (String::new(), 0, false),
        };
        PersistSession {
            instance_id,
            enabled: enabled && there,
            revision: if enabled {
                revision
            } else {
                0
            },
            guards: match opts.initial_guards {
                Some(guards) => guards,
                None => GuardsSnapshot::new_at(now),
            },
            pending_tool: None,
            todos: opts.initial_todos,
            plan_mode: opts.plan_mode,
            subagents: opts.subagents,
            subagents_cfg: opts.subagents_cfg,
            fold_stream: opts.fold_stream,
            agent_id: opts.agent_id,
            parent_task_id: opts.parent_task_id,
            guards_cfg: opts.guards_cfg,
            finish_reason: None,
        }
    }
}

/// What a run keeps when it starts: checkpoints go on from the stored revision where they are
/// kept, and the guards are those of the options or new ones.
pub open spec fn session_of(
    persist: Option<RunPersistView>,
    enabled: bool,
    opts: RunAgentOptsView,
    now: u64,
) -> PersistSessionView {
    PersistSessionView {
        instance_id: match persist {
            Some(p) => p.instance_id,
            None => Seq::empty(),
        },
        enabled: enabled && persist is Some,
        revision: match persist {
            Some(p) => if enabled {
                p.revision
            } else {
                0
            },
            None => 0,
        },
        guards: match opts.initial_guards {
            Some(guards) => guards,
            None => guards_from(now),
        },
        pending_tool: None,
        todos: opts.initial_todos,
        plan_mode: opts.plan_mode,
        subagents: opts.subagents,
        subagents_cfg: opts.subagents_cfg,
        fold_stream: opts.fold_stream,
        agent_id: opts.agent_id,
        parent_task_id: opts.parent_task_id,
        guards_cfg: opts.guards_cfg,
        finish_reason: None,
    }
}

/// A run before its first step.
pub open spec fn started(
    run_id: Seq<char>,
    context: Seq<WireMessageView>,
    tools: Seq<ToolDefView>,
    session: PersistSessionView,
    phase: PhaseView,
) -> AgentRunView {
    AgentRunView {
        run_id,
        context: if session.plan_mode {
            nudged(context)
        } else {
            context
        },
        tools,
        session,
        follow_up_rounds: session.guards.follow_up_rounds,
        todo_calls: Seq::empty(),
        task_calls: Seq::empty(),
        client_calls: Seq::empty(),
        phase,
    }
}

impl AgentRun {
    fn started_with(
        run_id: String,
        context: Vec<WireMessage>,
        tools: Vec<ToolDef>,
        session: PersistSession,
        phase: Phase,
    ) -> (r: Self)
        ensures
            r.deep_view() == started(
                run_id@,
                context.deep_view(),
                tools.deep_view(),
                session.deep_view(),
                phase.deep_view(),
            ),
    {
        let mut context = context;
        if session.plan_mode {
            ensure_plan_nudge(&mut context);
        }
        let r = AgentRun {
            run_id,
            context,
            tools,
            follow_up_rounds: session.guards.follow_up_rounds,
            session,
            todo_calls: Vec::new(),
            task_calls: Vec::new(),
            client_calls: Vec::new(),
            phase,
        };
        assert(r.todo_calls.deep_view() =~= Seq::<ToolCallView>::empty());
        assert(r.task_calls.deep_view() =~= Seq::<ToolCallView>::empty());
        assert(r.client_calls.deep_view() =~= Seq::<ToolCallView>::empty());
        r
    }

    /// A run that is to be started. `persist_enabled` says whether checkpoints of it are kept; a
    /// nested run keeps none.
    pub fn run_agent(
        run_id: String,
        context: Vec<WireMessage>,
        tools: Vec<ToolDef>,
        persist: Option<RunPersist>,
        persist_enabled: bool,
        opts: RunAgentOpts,
        now: u64,
    ) -> (r: Self)
        ensures
            r.deep_view() == started(
                run_id@,
                context.deep_view(),
                tools.deep_view(),
                session_of(
                    persist.deep_view(),
                    persist_enabled && !opts.deep_view().fold_stream,
                    opts.deep_view(),
                    now,
                ),
                PhaseView::Start(opts.deep_view().emit_started),
            ),
    {
        let enabled = persist_enabled && !opts.fold_stream;
        let announce = opts.emit_started;
        let session = PersistSession::new(persist, enabled, opts, now);
        AgentRun::started_with(run_id, context, tools, session, Phase::Start(announce))
    }

    /// A run that goes on once the result of a client tool is there. It is never nested.
    pub fn continue_after_pending_tool(
        run_id: String,
        context: Vec<WireMessage>,
        tools: Vec<ToolDef>,
        pending: PendingTool,
        persist: Option<RunPersist>,
        persist_enabled: bool,
        opts: RunAgentOpts,
        now: u64,
    ) -> (r: Self)
        ensures
            r.deep_view() == started(
                run_id@,
                context.deep_view(),
                tools.deep_view(),
                PersistSessionView {
                    pending_tool: Some(pending.deep_view()),
                    fold_stream: false,
                    agent_id: None,
                    parent_task_id: None,
                    ..session_of(persist.deep_view(), persist_enabled, opts.deep_view(), now)
                },
                PhaseView::Resume(pending.deep_view()),
            ),
    {
        let mut session = PersistSession::new(persist, persist_enabled, opts, now);
        session.pending_tool = Some(pending.dup());
        session.fold_stream = false;
        session.agent_id = None;
        session.parent_task_id = None;
        AgentRun::started_with(run_id, context, tools, session, Phase::Resume(pending))
    }

    fn save(
        &mut self,
        effects: Vec<Effect>,
        env: StepEnv,
        status: RunStatus,
        pending: Option<PendingTool>,
        after: After,
    ) -> (r: StepOut)
        requires
            old(self).deep_view().session.revision < u64::MAX,
        ensures
            turned(*final(self), r) == old(self).deep_view().save(
                effects.deep_view(),
                env,
                status,
                pending.deep_view(),
                after.deep_view(),
            ),
    {
        if self.session.enabled && env.persist {
            self.session.guards.touch_at(env.now);
            let checkpoint = Checkpoint {
                run_id: self.run_id.dup(),
                status,
                context: self.context.dup(),
                tools: self.tools.dup(),
                todos: self.session.todos.dup(),
                plan_mode: self.session.plan_mode,
                subagents: self.session.subagents,
                pending_tool: pending.dup(),
                guards: self.session.guards.dup(),
                parent_run_id: None,
                owner_id: Some(self.session.instance_id.dup()),
                revision: self.session.revision + 1,
                finish_reason: self.session.finish_reason.dup(),
            };
            let expected: u64 = self.session.revision;
            self.phase = Phase::Save { after, pending, written: true };
            StepOut { effects, ask: Ask::Save(Some(SaveRequest { checkpoint, expected })) }
        } else {
            self.session.pending_tool = pending.dup();
            self.phase = Phase::Save { after, pending, written: false };
            StepOut { effects, ask: Ask::Save(None) }
        }
    }

    fn wait(&mut self, effects: Vec<Effect>, phase: Phase, ask: Ask) -> (r: StepOut)
        ensures
            turned(*final(self), r) == old(self).deep_view().wait(
                effects.deep_view(),
                phase.deep_view(),
                ask.deep_view(),
            ),
    {
        self.phase = phase;
        StepOut { effects, ask }
    }

    fn done(&mut self, effects: Vec<Effect>, outcome: RunOutcome) -> (r: StepOut)
        ensures
            turned(*final(self), r) == old(self).deep_view().done(
                effects.deep_view(),
                outcome.deep_view(),
            ),
    {
        self.wait(effects, Phase::Done(outcome.dup()), Ask::Return(outcome))
    }

    /// Announces an error and saves the end of the run; a nested run only ends.
    fn fail(&mut self, effects: Vec<Effect>, env: StepEnv, err: OrchestratorError) -> (r: StepOut)
        requires
            old(self).deep_view().session.revision < u64::MAX,
        ensures
            turned(*final(self), r) == old(self).deep_view().fail(
                effects.deep_view(),
                env,
                err.deep_view(),
            ),
    {
        reveal(AgentRunView::fail);
        if self.session.fold_stream {
            return self.done(effects, RunOutcome::Failed(err));
        }
        let mut effects = effects;
        push_last(
            &mut effects,
            Effect::Emit(
                SseEvent::Error {
                    run_id: self.run_id.dup(),
                    message: err.message(),
                    code: Some(error_code(&err).to_owned()),
                },
            ),
        );
        let status = terminal_for(&err);
        self.save(effects, env, status, None, After::Final(RunOutcome::Failed(err)))
    }

    fn run_finished(&self, reason: &str) -> (r: Effect)
        ensures
            r.deep_view() == self.deep_view().run_finished(reason@),
    {
        Effect::Emit(
            SseEvent::RunFinished { run_id: self.run_id.dup(), reason: reason.to_owned() },
        )
    }

    fn cancel(&mut self, effects: Vec<Effect>, env: StepEnv) -> (r: StepOut)
        requires
            old(self).deep_view().session.revision < u64::MAX,
        ensures
            turned(*final(self), r) == old(self).deep_view().cancel(effects.deep_view(), env),
    {
        reveal(AgentRunView::cancel);
        let outcome = RunOutcome::Failed(OrchestratorError::Cancelled);
        if self.session.fold_stream {
            return self.done(effects, outcome);
        }
        let mut effects = effects;
        push_last(&mut effects, self.run_finished("cancelled"));
        self.save(effects, env, RunStatus::Cancelled, None, After::Final(outcome))
    }

    fn guard(&mut self, effects: Vec<Effect>, env: StepEnv, reason: &'static str) -> (r: StepOut)
        requires
            old(self).deep_view().session.revision < u64::MAX,
        ensures
            turned(*final(self), r) == old(self).deep_view().guard(
                effects.deep_view(),
                env,
                reason@,
            ),
    {
        reveal(AgentRunView::guard);
        let outcome = RunOutcome::Failed(OrchestratorError::Guard(reason));
        if self.session.fold_stream {
            return self.done(effects, outcome);
        }
        let mut effects = effects;
        push_last(&mut effects, self.run_finished(reason));
        self.session.finish_reason = Some(reason.to_owned());
        self.save(effects, env, RunStatus::Failed, None, After::Final(outcome))
    }

    fn top(&mut self, effects: Vec<Effect>, env: StepEnv) -> (r: StepOut)
        requires
            old(self).deep_view().session.revision < u64::MAX,
        ensures
            turned(*final(self), r) == old(self).deep_view().top(effects.deep_view(), env),
    {
        reveal(AgentRunView::top);
        if self.session.fold_stream {
            self.ready(effects, env)
        } else {
            self.wait(effects, Phase::Steer(Site::Top), Ask::Steer)
        }
    }

    fn ready(&mut self, effects: Vec<Effect>, env: StepEnv) -> (r: StepOut)
        requires
            old(self).deep_view().session.revision < u64::MAX,
        ensures
            turned(*final(self), r) == old(self).deep_view().ready(effects.deep_view(), env),
    {
        reveal(AgentRunView::ready);
        if env.cancelled {
            return self.cancel(effects, env);
        }
        match pre_llm_guard(&self.session.guards, &self.session.guards_cfg, env.now) {
            Some(reason) => self.guard(effects, env, reason),
            None => self.wait(effects, Phase::Middleware, Ask::Middleware),
        }
    }

    fn steered(&mut self, env: StepEnv, site: Site, joined: Vec<Steered>) -> (r: StepOut)
        requires
            old(self).deep_view().session.revision < u64::MAX,
        ensures
            turned(*final(self), r) == old(self).deep_view().steered(
                env,
                site,
                joined.deep_view(),
            ),
    {
        reveal(AgentRunView::steered);
        assert(joined@.len() == joined.deep_view().len());
        if joined.len() > 0 {
            let effects = join_messages(
                &mut self.context,
                self.run_id.as_str(),
                joined,
                MessageSource::Steer,
            );
            let pending = self.session.pending_tool.dup();
            self.save(effects, env, RunStatus::Running, pending, After::Steer(site))
        } else {
            match site {
                Site::Top => self.ready(no_effects(), env),
                Site::AfterText => self.quiet(no_effects(), env),
                Site::Idle => self.complete(no_effects(), env),
            }
        }
    }

    fn prepared(&mut self, env: StepEnv, context: Vec<WireMessage>, effect: MwEffect) -> (r:
        StepOut)
        requires
            old(self).deep_view().session.revision < u64::MAX,
        ensures
            turned(*final(self), r) == old(self).deep_view().prepared(
                env,
                context.deep_view(),
                effect.deep_view(),
            ),
    {
        reveal(AgentRunView::prepared);
        self.context = context;
        let mut effects = no_effects();
        if !self.session.fold_stream {
            let ghost all = effect.events.deep_view();
            let mut i: usize = 0;
            assert(emitted(all).take(0) =~= Seq::<EffectView>::empty());
            while i < effect.events.len()
                invariant
                    i <= effect.events@.len(),
                    all == effect.events.deep_view(),
                    effects.deep_view() == emitted(all).take(i as int),
                decreases effect.events@.len() - i,
            {
                push_last(&mut effects, Effect::Emit(effect.events[i].dup()));
                i = i + 1;
                assert(emitted(all).take(i as int) =~= emitted(all).take(i - 1).push(
                    emitted(all)[i - 1],
                ));
            }
            assert(emitted(all).take(i as int) =~= emitted(all));
        }
        if effect.checkpoint && !self.session.fold_stream {
            let pending = self.session.pending_tool.dup();
            self.save(effects, env, RunStatus::Running, pending, After::Middleware)
        } else {
            self.open(effects)
        }
    }

    fn open(&mut self, effects: Vec<Effect>) -> (r: StepOut)
        ensures
            turned(*final(self), r) == old(self).deep_view().open(effects.deep_view()),
    {
        reveal(AgentRunView::open);
        let tools = inject_lead_tools(
            self.tools.as_slice(),
            self.session.plan_mode,
            self.session.subagents,
        );
        self.wait(effects, Phase::Open, Ask::OpenStream(tools))
    }

    fn chunk(
        &mut self,
        env: StepEnv,
        message_id: String,
        completed: Option<Completed>,
        chunk: LlmChunk,
    ) -> (r: StepOut)
        requires
            old(self).deep_view().session.revision < u64::MAX,
        ensures
            turned(*final(self), r) == old(self).deep_view().chunk(
                env,
                message_id@,
                completed.deep_view(),
                chunk.deep_view(),
            ),
    {
        reveal(AgentRunView::chunk);
        if env.cancelled {
            return self.cancel(no_effects(), env);
        }
        match chunk {
            LlmChunk::TextDelta(delta) => {
                let effects = if self.session.fold_stream {
                    no_effects()
                } else {
                    one_effect(
                        Effect::Emit(
                            SseEvent::MessageDelta {
                                run_id: self.run_id.dup(),
                                message_id: message_id.dup(),
                                delta,
                            },
                        ),
                    )
                };
                self.wait(effects, Phase::Streaming(message_id, completed), Ask::NextChunk)
            },
            LlmChunk::ReasoningDelta(delta) => {
                let effects = if self.session.fold_stream {
                    no_effects()
                } else {
                    one_effect(
                        Effect::Emit(
                            SseEvent::ReasoningDelta {
                                run_id: self.run_id.dup(),
                                message_id: message_id.dup(),
                                delta,
                            },
                        ),
                    )
                };
                self.wait(effects, Phase::Streaming(message_id, completed), Ask::NextChunk)
            },
            LlmChunk::Completed { content, tool_calls, reasoning_content } => {
                let message = Completed { content, tool_calls, reasoning_content };
                self.wait(
                    no_effects(),
                    Phase::Streaming(message_id, Some(message)),
                    Ask::NextChunk,
                )
            },
        }
    }

    fn stream_end(&mut self, env: StepEnv, message_id: String, completed: Option<Completed>) -> (r:
        StepOut)
        requires
            old(self).deep_view().session.revision < u64::MAX,
        ensures
            turned(*final(self), r) == old(self).deep_view().stream_end(
                env,
                message_id@,
                completed.deep_view(),
            ),
    {
        reveal(AgentRunView::stream_end);
        if env.cancelled {
            return self.cancel(no_effects(), env);
        }
        let message = match completed {
            None => {
                return self.fail(
                    no_effects(),
                    env,
                    OrchestratorError::Llm("llm stream ended without completed chunk".to_owned()),
                );
            },
            Some(message) => message,
        };
        let ghost before = self.deep_view();
        assert(message.tool_calls@.len() == message.tool_calls.deep_view().len());
        let wire: Option<Vec<ToolCallWire>> = if message.tool_calls.len() == 0 {
            None
        } else {
            Some(calls_to_wire(&message.tool_calls))
        };
        let announced_calls = wire.dup();
        push_last(
            &mut self.context,
            WireMessage {
                role: Role::Assistant,
                content: message.content.dup(),
                tool_call_id: None,
                name: None,
                tool_calls: wire,
                reasoning_content: message.reasoning_content.dup(),
            },
        );
        self.session.guards.llm_rounds = self.session.guards.llm_rounds.saturating_add(1);
        assert(self.deep_view() == before.answered(message.deep_view()));
        if self.session.fold_stream {
            self.turn(no_effects(), env, message.tool_calls)
        } else {
            let effects = one_effect(
                Effect::Emit(
                    SseEvent::MessageCompleted {
                        run_id: self.run_id.dup(),
                        message_id,
                        role: Role::Assistant,
                        content: message.content,
                        tool_calls: announced_calls,
                        source: Some(MessageSource::Assistant),
                        reasoning_content: message.reasoning_content,
                    },
                ),
            );
            self.save(
                effects,
                env,
                RunStatus::Running,
                None,
                After::Assistant(message.tool_calls),
            )
        }
    }

    fn turn(&mut self, effects: Vec<Effect>, env: StepEnv, calls: Vec<ToolCall>) -> (r: StepOut)
        requires
            old(self).deep_view().session.revision < u64::MAX,
        ensures
            turned(*final(self), r) == old(self).deep_view().turn(
                effects.deep_view(),
                env,
                calls.deep_view(),
            ),
    {
        reveal(AgentRunView::turn);
        assert(calls@.len() == calls.deep_view().len());
        if calls.len() == 0 {
            if self.session.fold_stream {
                return self.quiet(effects, env);
            }
            return self.wait(effects, Phase::Steer(Site::AfterText), Ask::Steer);
        }
        clear_noop_progress(&mut self.session.guards);
        if wall_exceeded(&self.session.guards, &self.session.guards_cfg, env.now) {
            return self.guard(effects, env, REASON_TIMEOUT);
        }
        let plan_mode = self.session.plan_mode;
        let subagents = self.session.subagents;
        let (todo_calls, task_calls, client_calls) = partition(calls, plan_mode, subagents);
        self.todo_calls = todo_calls;
        self.task_calls = task_calls;
        self.client_calls = client_calls;
        self.work(effects, env)
    }

    fn quiet(&mut self, effects: Vec<Effect>, env: StepEnv) -> (r: StepOut)
        requires
            old(self).deep_view().session.revision < u64::MAX,
        ensures
            turned(*final(self), r) == old(self).deep_view().quiet(effects.deep_view(), env),
    {
        reveal(AgentRunView::quiet);
        let text = last_assistant_text(&self.context);
        let cfg = self.session.guards_cfg;
        match observe_noop_turn(&mut self.session.guards, text.as_str(), &cfg) {
            Some(reason) => self.guard(effects, env, reason),
            None => self.idle(effects, env),
        }
    }

    fn idle(&mut self, effects: Vec<Effect>, env: StepEnv) -> (r: StepOut)
        requires
            old(self).deep_view().session.revision < u64::MAX,
        ensures
            turned(*final(self), r) == old(self).deep_view().idle(effects.deep_view(), env),
    {
        reveal(AgentRunView::idle);
        if env.cancelled {
            self.cancel(effects, env)
        } else if self.session.fold_stream {
            self.complete(effects, env)
        } else {
            self.wait(effects, Phase::FollowUps, Ask::FollowUps)
        }
    }

    fn followed_up(&mut self, env: StepEnv, joined: Vec<Steered>) -> (r: StepOut)
        requires
            old(self).deep_view().counters_fit(),
        ensures
            turned(*final(self), r) == old(self).deep_view().followed_up(env, joined.deep_view()),
    {
        reveal(AgentRunView::followed_up);
        assert(joined@.len() == joined.deep_view().len());
        if joined.len() == 0 {
            return self.wait(no_effects(), Phase::Steer(Site::Idle), Ask::Steer);
        }
        let max: u32 = self.session.guards_cfg.max_follow_up_rounds;
        if self.follow_up_rounds >= max && max > 0 {
            return self.fail(no_effects(), env, OrchestratorError::FollowUpLimit);
        }
        self.follow_up_rounds = self.follow_up_rounds + 1;
        self.session.guards.follow_up_rounds = self.follow_up_rounds;
        let effects = join_messages(
            &mut self.context,
            self.run_id.as_str(),
            joined,
            MessageSource::FollowUp,
        );
        let pending = self.session.pending_tool.dup();
        self.save(effects, env, RunStatus::Running, pending, After::FollowUps)
    }

    fn complete(&mut self, effects: Vec<Effect>, env: StepEnv) -> (r: StepOut)
        requires
            old(self).deep_view().session.revision < u64::MAX,
        ensures
            turned(*final(self), r) == old(self).deep_view().complete(effects.deep_view(), env),
    {
        reveal(AgentRunView::complete);
        let outcome = RunOutcome::Finished(last_assistant_text(&self.context));
        if self.session.fold_stream {
            return self.done(effects, outcome);
        }
        let mut effects = effects;
        push_last(&mut effects, self.run_finished("stop"));
        self.session.guards.follow_up_rounds = self.follow_up_rounds;
        self.save(effects, env, RunStatus::Completed, None, After::Final(outcome))
    }

    fn work(&mut self, effects: Vec<Effect>, env: StepEnv) -> (r: StepOut)
        requires
            old(self).deep_view().session.revision < u64::MAX,
        ensures
            turned(*final(self), r) == old(self).deep_view().work(effects.deep_view(), env),
    {
        reveal(AgentRunView::work);
        assert(self.todo_calls@.len() == self.todo_calls.deep_view().len());
        assert(self.task_calls@.len() == self.task_calls.deep_view().len());
        assert(self.client_calls@.len() == self.client_calls.deep_view().len());
        if self.todo_calls.len() > 0 {
            let ghost all = self.todo_calls.deep_view();
            let call = self.todo_calls.remove(0);
            assert(self.todo_calls.deep_view() =~= all.skip(1));
            self.write_todos(effects, env, call)
        } else if self.task_calls.len() > 0 {
            self.run_tasks(effects)
        } else if self.client_calls.len() > 0 {
            let ghost all = self.client_calls.deep_view();
            let call = self.client_calls.remove(0);
            assert(self.client_calls.deep_view() =~= all.skip(1));
            let pending = self.pending_for(&call);
            self.wait(effects, Phase::Arm(call), Ask::ArmTool(pending))
        } else {
            self.top(effects, env)
        }
    }

    fn run_tasks(&mut self, effects: Vec<Effect>) -> (r: StepOut)
        requires
            old(self).deep_view().todo_calls.len() == 0,
            old(self).deep_view().task_calls.len() > 0,
        ensures
            forall|env: StepEnv| #[trigger]
                old(self).deep_view().work(effects.deep_view(), env) == turned(*final(self), r),
    {
        reveal(AgentRunView::work);
        let limit: u32 = if self.session.subagents_cfg.max_concurrent_subagents < 1 {
            1
        } else {
            self.session.subagents_cfg.max_concurrent_subagents
        };
        let ghost all = self.task_calls.deep_view();
        let ghost before = self.context.deep_view();
        let mut now: Vec<ToolCall> = Vec::new();
        std::mem::swap(&mut now, &mut self.task_calls);
        assert(self.task_calls.deep_view() =~= Seq::<ToolCallView>::empty());
        let late: Vec<ToolCall> = if now.len() > limit as usize {
            now.split_off(limit as usize)
        } else {
            Vec::new()
        };
        proof {
            if all.len() > limit {
                assert(now.deep_view() =~= all.take(limit as int));
                assert(late.deep_view() =~= all.skip(limit as int));
            } else {
                assert(now.deep_view() =~= all);
                assert(late.deep_view() =~= Seq::<ToolCallView>::empty());
            }
        }
        let ghost rest = late.deep_view();
        let number = decimal(limit as u64);
        let error = concat3("max_concurrent_subagents (", number.as_str(), ") exceeded");
        let mut i: usize = 0;
        assert(before + overflow_replies(rest, limit as nat).take(0) =~= before);
        while i < late.len()
            invariant
                i <= late@.len(),
                rest == late.deep_view(),
                error@ == "max_concurrent_subagents ("@ + crate::text::dec(limit as nat)
                    + ") exceeded"@,
                self.context.deep_view() == before + overflow_replies(rest, limit as nat).take(
                    i as int,
                ),
                self.run_id == old(self).run_id,
                self.tools == old(self).tools,
                self.session == old(self).session,
                self.follow_up_rounds == old(self).follow_up_rounds,
                self.todo_calls == old(self).todo_calls,
                self.task_calls.deep_view() == Seq::<ToolCallView>::empty(),
                self.client_calls == old(self).client_calls,
            decreases late@.len() - i,
        {
            push_last(
                &mut self.context,
                tool_message(
                    task_result_err(error.as_str()),
                    late[i].id.dup(),
                    late[i].name.dup(),
                ),
            );
            proof {
                let replies = overflow_replies(rest, limit as nat);
                assert(replies.take(i + 1) =~= replies.take(i as int).push(replies[i as int]));
                assert(self.context.deep_view() =~= before + replies.take(i + 1));
            }
            i = i + 1;
        }
        assert(overflow_replies(rest, limit as nat).take(i as int) =~= overflow_replies(
            rest,
            limit as nat,
        ));
        self.wait(effects, Phase::Tasks, Ask::RunTasks(now))
    }

    fn write_todos(&mut self, effects: Vec<Effect>, env: StepEnv, call: ToolCall) -> (r: StepOut)
        requires
            old(self).deep_view().session.revision < u64::MAX,
        ensures
            turned(*final(self), r) == old(self).deep_view().write_todos(
                effects.deep_view(),
                env,
                call.deep_view(),
            ),
    {
        reveal(AgentRunView::write_todos);
        let mut effects = effects;
        let content = match apply_write_todos(&call.arguments) {
            Ok(todos) => {
                let text = tool_result_ok(todos.as_slice());
                push_last(
                    &mut effects,
                    Effect::Emit(
                        SseEvent::TodosUpdated {
                            run_id: self.run_id.dup(),
                            todos: todos.dup(),
                        },
                    ),
                );
                self.session.todos = todos;
                text
            },
            Err(err) => tool_result_err(err.as_str()),
        };
        push_last(&mut self.context, tool_message(content, call.id, call.name));
        self.save(effects, env, RunStatus::Running, None, After::Todos)
    }

    fn pending_for(&self, call: &ToolCall) -> (r: PendingTool)
        ensures
            r.deep_view() == self.deep_view().pending_for(call.deep_view()),
    {
        PendingTool {
            tool_call_id: call.id.dup(),
            name: call.name.dup(),
            arguments: call.arguments.dup(),
            agent_id: self.session.agent_id.dup(),
            parent_task_id: self.session.parent_task_id.dup(),
        }
    }

    fn tasks_done(&mut self, env: StepEnv, replies: Vec<TaskReply>) -> (r: StepOut)
        requires
            old(self).deep_view().session.revision < u64::MAX,
        ensures
            turned(*final(self), r) == old(self).deep_view().tasks_done(env, replies.deep_view()),
    {
        reveal(AgentRunView::tasks_done);
        let ghost before = self.context.deep_view();
        let ghost all = replies.deep_view();
        let mut messages: Vec<WireMessage> = Vec::new();
        let mut i: usize = 0;
        while i < replies.len()
            invariant
                i <= replies@.len(),
                all == replies.deep_view(),
                messages@.len() == i,
                forall|j: int|
                    0 <= j < i ==> (#[trigger] messages@[j]).deep_view() == replies_of(all)[j],
            decreases replies@.len() - i,
        {
            let reply = &replies[i];
            messages.push(
                tool_message(reply.content.dup(), reply.id.dup(), reply.name.dup()),
            );
            i = i + 1;
        }
        assert(messages.deep_view() =~= replies_of(all));
        push_all(&mut self.context, messages);
        self.save(no_effects(), env, RunStatus::Running, None, After::Tasks)
    }

    fn armed(&mut self, env: StepEnv, call: ToolCall) -> (r: StepOut)
        requires
            old(self).deep_view().session.revision < u64::MAX,
        ensures
            turned(*final(self), r) == old(self).deep_view().armed(env, call.deep_view()),
    {
        reveal(AgentRunView::armed);
        let effects = one_effect(
            Effect::Emit(
                SseEvent::ToolRequest {
                    run_id: self.run_id.dup(),
                    tool_call_id: call.id.dup(),
                    name: call.name.dup(),
                    arguments: call.arguments.dup(),
                    agent_id: self.session.agent_id.dup(),
                    parent_task_id: self.session.parent_task_id.dup(),
                },
            ),
        );
        let pending = self.pending_for(&call);
        if self.session.fold_stream {
            self.session.pending_tool = Some(pending);
            let id = call.id.dup();
            self.wait(effects, Phase::Recv(call), Ask::RecvTool(id))
        } else {
            self.save(effects, env, RunStatus::WaitingTool, Some(pending), After::Request(call))
        }
    }

    fn wait_failed(&mut self, effects: Vec<Effect>, env: StepEnv, err: WaitError) -> (r: StepOut)
        requires
            old(self).deep_view().session.revision < u64::MAX,
        ensures
            turned(*final(self), r) == old(self).deep_view().wait_failed(
                effects.deep_view(),
                env,
                err,
            ),
    {
        reveal(AgentRunView::wait_failed);
        match err {
            WaitError::Cancelled => self.cancel(effects, env),
            WaitError::Timeout => self.fail(effects, env, OrchestratorError::ToolTimeout),
        }
    }

    fn resulted(&mut self, env: StepEnv, call: ToolCall, result: ToolResultRequest) -> (r: StepOut)
        requires
            old(self).deep_view().session.revision < u64::MAX,
        ensures
            turned(*final(self), r) == old(self).deep_view().resulted(
                env,
                call.deep_view(),
                result.deep_view(),
            ),
    {
        reveal(AgentRunView::resulted);
        let content = if result.is_error {
            concat("tool_error:", result.content.as_str())
        } else {
            result.content.dup()
        };
        let effects = one_effect(Effect::RemovePending(call.id));
        push_last(&mut self.context, tool_message(content, result.tool_call_id, call.name));
        if self.session.fold_stream {
            self.session.pending_tool = None;
            self.work(effects, env)
        } else {
            self.save(effects, env, RunStatus::Running, None, After::Result)
        }
    }

    fn saved(&mut self, env: StepEnv, after: After) -> (r: StepOut)
        requires
            !(after is Final) ==> old(self).deep_view().session.revision < u64::MAX,
        ensures
            turned(*final(self), r) == old(self).deep_view().saved(env, after.deep_view()),
    {
        reveal(AgentRunView::saved);
        match after {
            After::Steer(Site::Top) => self.ready(no_effects(), env),
            After::Steer(_) => {
                clear_noop_progress(&mut self.session.guards);
                self.top(no_effects(), env)
            },
            After::Middleware => self.open(no_effects()),
            After::Assistant(calls) => self.turn(no_effects(), env, calls),
            After::Todos | After::Tasks | After::Result => self.work(no_effects(), env),
            After::Request(call) => {
                let id = call.id.dup();
                self.wait(no_effects(), Phase::Recv(call), Ask::RecvTool(id))
            },
            After::FollowUps => self.top(no_effects(), env),
            After::Final(outcome) => self.done(one_effect(Effect::Finish), outcome),
        }
    }

    fn unsaved(&mut self, env: StepEnv, after: After, err: OrchestratorError) -> (r: StepOut)
        requires
            old(self).deep_view().session.revision < u64::MAX,
        ensures
            turned(*final(self), r) == old(self).deep_view().unsaved(
                env,
                after.deep_view(),
                err.deep_view(),
            ),
    {
        reveal(AgentRunView::unsaved);
        match after {
            After::Final(outcome) => self.done(one_effect(Effect::Finish), outcome),
            After::Steer(Site::AfterText) | After::Request(_) | After::Result
            | After::FollowUps => self.done(no_effects(), RunOutcome::Failed(err)),
            _ => self.fail(no_effects(), env, err),
        }
    }

    /// The step of the loop for what happened.
    pub fn step(&mut self, happening: Happening, env: StepEnv) -> (r: StepOut)
        requires
            old(self).deep_view().expects(happening.deep_view()),
            old(self).deep_view().counters_fit(),
        ensures
            turned(*final(self), r) == old(self).deep_view().step(happening.deep_view(), env),
    {
        reveal(AgentRunView::step);
        match (self.phase.dup(), happening) {
            (Phase::Start(announce), Happening::Begin) => {
                let effects = if announce && !self.session.fold_stream {
                    one_effect(
                        Effect::Emit(SseEvent::RunStarted { run_id: self.run_id.dup() }),
                    )
                } else {
                    no_effects()
                };
                self.top(effects, env)
            },
            (Phase::Resume(pending), Happening::Begin) => {
                let call = ToolCall {
                    id: pending.tool_call_id.dup(),
                    name: pending.name.dup(),
                    arguments: pending.arguments.dup(),
                };
                let id = pending.tool_call_id.dup();
                self.wait(
                    one_effect(Effect::UpsertPending(pending)),
                    Phase::Recv(call),
                    Ask::RecvTool(id),
                )
            },
            (Phase::Steer(site), Happening::Steered(joined)) => self.steered(env, site, joined),
            (Phase::Middleware, Happening::MiddlewareDone(context, effect)) => self.prepared(
                env,
                context,
                effect,
            ),
            (Phase::Middleware, Happening::MiddlewareFailed(context, err)) => {
                self.context = context;
                self.fail(no_effects(), env, err)
            },
            (Phase::Open, Happening::StreamOpened(message_id)) => self.wait(
                no_effects(),
                Phase::Streaming(message_id, None),
                Ask::NextChunk,
            ),
            (Phase::Open, Happening::StreamRefused(err)) => self.fail(
                no_effects(),
                env,
                OrchestratorError::Llm(err),
            ),
            (Phase::Streaming(message_id, completed), Happening::Chunk(chunk)) => self.chunk(
                env,
                message_id,
                completed,
                chunk,
            ),
            (Phase::Streaming(..), Happening::ChunkFailed(err)) => if env.cancelled {
                self.cancel(no_effects(), env)
            } else {
                self.fail(no_effects(), env, OrchestratorError::Llm(err))
            },
            (Phase::Streaming(message_id, completed), Happening::StreamEnd) => self.stream_end(
                env,
                message_id,
                completed,
            ),
            (Phase::Save { after, pending, .. }, Happening::Saved) => {
                self.session.revision = self.session.revision + 1;
                self.session.pending_tool = pending;
                self.saved(env, after)
            },
            (Phase::Save { after, .. }, Happening::SaveSkipped) => self.saved(env, after),
            (Phase::Save { after, .. }, Happening::SaveConflict) => self.unsaved(
                env,
                after,
                OrchestratorError::OwnershipLost,
            ),
            (Phase::Save { after, .. }, Happening::SaveFailed(err)) => self.unsaved(
                env,
                after,
                OrchestratorError::Store(err),
            ),
            (Phase::Tasks, Happening::TasksDone(replies)) => self.tasks_done(env, replies),
            (Phase::Arm(call), Happening::Armed) => self.armed(env, call),
            (Phase::Arm(call), Happening::ArmRefused(err)) => self.wait_failed(
                one_effect(Effect::RemovePending(call.id)),
                env,
                err,
            ),
            (Phase::Recv(call), Happening::ToolResult(result)) => self.resulted(env, call, result),
            (Phase::Recv(_), Happening::ToolWaitFailed(err)) => self.wait_failed(
                no_effects(),
                env,
                err,
            ),
            (Phase::FollowUps, Happening::FollowUps(joined)) => self.followed_up(env, joined),
            _ => self.done(
                no_effects(),
                RunOutcome::Failed(OrchestratorError::Cancelled),
            ),
        }
    }
}

fn partition(calls: Vec<ToolCall>, plan_mode: bool, subagents: bool) -> (r: (
    Vec<ToolCall>,
    Vec<ToolCall>,
    Vec<ToolCall>,
))
    ensures
        r.0.deep_view() == todo_calls_in(calls.deep_view(), plan_mode, subagents),
        r.1.deep_view() == task_calls_in(calls.deep_view(), plan_mode, subagents),
        r.2.deep_view() == client_calls_in(calls.deep_view(), plan_mode, subagents),
{
    let ghost all = calls.deep_view();
    let mut todo_calls: Vec<ToolCall> = Vec::new();
    let mut task_calls: Vec<ToolCall> = Vec::new();
    let mut client_calls: Vec<ToolCall> = Vec::new();
    let mut i: usize = 0;
    proof {
        assert(all.take(0) =~= Seq::<ToolCallView>::empty());
        assert(todo_calls.deep_view() =~= Seq::<ToolCallView>::empty());
        assert(task_calls.deep_view() =~= Seq::<ToolCallView>::empty());
        assert(client_calls.deep_view() =~= Seq::<ToolCallView>::empty());
    }
    while i < calls.len()
        invariant
            i <= calls@.len(),
            all == calls.deep_view(),
            todo_calls.deep_view() == todo_calls_in(all.take(i as int), plan_mode, subagents),
            task_calls.deep_view() == task_calls_in(all.take(i as int), plan_mode, subagents),
            client_calls.deep_view() == client_calls_in(all.take(i as int), plan_mode, subagents),
        decreases calls@.len() - i,
    {
        proof {
            assert(all.take(i + 1).drop_last() =~= all.take(i as int));
            assert(all.take(i + 1).last() == calls@[i as int].deep_view());
        }
        let call = &calls[i];
        if is_server_tool_name(call.name.as_str(), plan_mode, subagents) {
            if is_task_tool(call.name.as_str()) {
                push_last(&mut task_calls, call.dup());
            } else {
                push_last(&mut todo_calls, call.dup());
            }
        } else {
            push_last(&mut client_calls, call.dup());
        }
        i = i + 1;
    }
    assert(all.take(all.len() as int) =~= all);
    (todo_calls, task_calls, client_calls)
}

} // verus!
