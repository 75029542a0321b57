//! What each step of the loop does.

use vstd::prelude::*;

use crate::agent::error::OrchestratorErrorView;
use crate::agent::guards::{
    after_noop_turn, noop_reason, over_wall, pre_llm_reason, progressed, REASON_TIMEOUT,
};
use crate::agent::middleware::MwEffectView;
use crate::agent::orchestrator::state::{
    AfterView, AgentRunView, AskView, CompletedView, EffectView, HappeningView, PersistSessionView,
    PhaseView, RunOutcomeView, SaveRequestView, Site, SteeredView, StepEnv, TaskReplyView,
};
use crate::agent::tools::plan::{todos_of, todos_ok_text};
use crate::agent::tools::task::{lead_tools, server_tool, tool_err_text, TASK_NAME};
use crate::llm::LlmChunkView;
use crate::protocol::{
    tool_reply, MessageSource, Role, SseEventView, ToolCallView, ToolResultRequestView,
    WireMessageView,
};
use crate::runtime::WaitError;
use crate::store::{CheckpointView, PendingToolView, RunStatus};
use crate::text::dec;

verus! {

/// The loop after a step, and what the step gives.
#[verifier::ext_equal]
pub struct Turned {
    pub run: AgentRunView,
    pub effects: Seq<EffectView>,
    pub ask: AskView,
}

/// The content of the last assistant message; empty where there is none.
pub open spec fn last_assistant(context: Seq<WireMessageView>) -> Seq<char>
    decreases context.len(),
{
    if context.len() == 0 {
        Seq::empty()
    } else if context.last().role == Role::Assistant {
        context.last().content
    } else {
        last_assistant(context.drop_last())
    }
}

/// The event that announces a message from outside the model.
pub open spec fn announced(
    run_id: Seq<char>,
    joined: SteeredView,
    source: MessageSource,
) -> EffectView {
    EffectView::Emit(
        SseEventView::MessageCompleted {
            run_id,
            message_id: joined.message_id,
            role: joined.message.role,
            content: joined.message.content,
            tool_calls: None,
            source: Some(source),
            reasoning_content: None,
        },
    )
}

pub open spec fn announcements(
    run_id: Seq<char>,
    joined: Seq<SteeredView>,
    source: MessageSource,
) -> Seq<EffectView> {
    Seq::new(joined.len(), |i: int| announced(run_id, joined[i], source))
}

pub open spec fn messages_of(joined: Seq<SteeredView>) -> Seq<WireMessageView> {
    Seq::new(joined.len(), |i: int| joined[i].message)
}

/// The events, to be sent in order.
pub open spec fn emitted(events: Seq<SseEventView>) -> Seq<EffectView> {
    Seq::new(events.len(), |i: int| EffectView::Emit(events[i]))
}

pub open spec fn replies_of(replies: Seq<TaskReplyView>) -> Seq<WireMessageView> {
    Seq::new(
        replies.len(),
        |i: int| tool_reply(replies[i].content, replies[i].id, replies[i].name),
    )
}

/// The content of the message for the result of a client tool.
pub open spec fn result_text(result: ToolResultRequestView) -> Seq<char> {
    if result.is_error {
        "tool_error:"@ + result.content
    } else {
        result.content
    }
}

/// The calls of `write_todos`, in order.
pub open spec fn todo_calls_in(
    calls: Seq<ToolCallView>,
    plan_mode: bool,
    subagents: bool,
) -> Seq<ToolCallView>
    decreases calls.len(),
{
    if calls.len() == 0 {
        Seq::empty()
    } else {
        let rest = todo_calls_in(calls.drop_last(), plan_mode, subagents);
        if server_tool(calls.last().name, plan_mode, subagents) && calls.last().name != TASK_NAME@ {
            rest.push(calls.last())
        } else {
            rest
        }
    }
}

/// The calls of `task`, in order.
pub open spec fn task_calls_in(
    calls: Seq<ToolCallView>,
    plan_mode: bool,
    subagents: bool,
) -> Seq<ToolCallView>
    decreases calls.len(),
{
    if calls.len() == 0 {
        Seq::empty()
    } else {
        let rest = task_calls_in(calls.drop_last(), plan_mode, subagents);
        if server_tool(calls.last().name, plan_mode, subagents) && calls.last().name == TASK_NAME@ {
            rest.push(calls.last())
        } else {
            rest
        }
    }
}

/// The calls of client tools, in order.
pub open spec fn client_calls_in(
    calls: Seq<ToolCallView>,
    plan_mode: bool,
    subagents: bool,
) -> Seq<ToolCallView>
    decreases calls.len(),
{
    if calls.len() == 0 {
        Seq::empty()
    } else {
        let rest = client_calls_in(calls.drop_last(), plan_mode, subagents);
        if server_tool(calls.last().name, plan_mode, subagents) {
            rest
        } else {
            rest.push(calls.last())
        }
    }
}

/// How many subtasks may run at once.
pub open spec fn task_limit(run: AgentRunView) -> nat {
    if run.session.subagents_cfg.max_concurrent_subagents < 1 {
        1
    } else {
        run.session.subagents_cfg.max_concurrent_subagents as nat
    }
}

/// The result of a subtask beyond the limit.
pub open spec fn overflow_text(limit: nat) -> Seq<char> {
    tool_err_text("max_concurrent_subagents ("@ + dec(limit) + ") exceeded"@)
}

pub open spec fn overflow_replies(calls: Seq<ToolCallView>, limit: nat) -> Seq<WireMessageView> {
    Seq::new(
        calls.len(),
        |i: int| tool_reply(overflow_text(limit), calls[i].id, calls[i].name),
    )
}

impl AgentRunView {
    pub open spec fn folded(self) -> bool {
        self.session.fold_stream
    }

    pub open spec fn with_context(self, context: Seq<WireMessageView>) -> Self {
        AgentRunView { context, ..self }
    }

    pub open spec fn with_session(self, session: PersistSessionView) -> Self {
        AgentRunView { session, ..self }
    }

    /// The checkpoint of the run.
    pub open spec fn checkpoint(
        self,
        status: RunStatus,
        pending: Option<PendingToolView>,
        now: u64,
    ) -> CheckpointView {
        CheckpointView {
            run_id: self.run_id,
            status,
            context: self.context,
            tools: self.tools,
            todos: self.session.todos,
            plan_mode: self.session.plan_mode,
            subagents: self.session.subagents,
            pending_tool: pending,
            guards: self.session.guards.touched(now),
            parent_run_id: None,
            owner_id: Some(self.session.instance_id),
            revision: (self.session.revision + 1) as u64,
            finish_reason: self.session.finish_reason,
        }
    }

    /// Saves a checkpoint where checkpoints are kept, and goes on with `after`.
    pub open spec fn save(
        self,
        effects: Seq<EffectView>,
        env: StepEnv,
        status: RunStatus,
        pending: Option<PendingToolView>,
        after: AfterView,
    ) -> Turned {
        if self.session.enabled && env.persist {
            Turned {
                run: AgentRunView {
                    session: PersistSessionView {
                        guards: self.session.guards.touched(env.now),
                        ..self.session
                    },
                    phase: PhaseView::Save { after, pending, written: true },
                    ..self
                },
                effects,
                ask: AskView::Save(
                    Some(
                        SaveRequestView {
                            checkpoint: self.checkpoint(status, pending, env.now),
                            expected: self.session.revision,
                        },
                    ),
                ),
            }
        } else {
            Turned {
                run: AgentRunView {
                    session: PersistSessionView { pending_tool: pending, ..self.session },
                    phase: PhaseView::Save { after, pending, written: false },
                    ..self
                },
                effects,
                ask: AskView::Save(None),
            }
        }
    }

    /// Waits for something.
    pub open spec fn wait(self, effects: Seq<EffectView>, phase: PhaseView, ask: AskView) -> Turned {
        Turned { run: AgentRunView { phase, ..self }, effects, ask }
    }

    /// Ends the loop.
    pub open spec fn done(self, effects: Seq<EffectView>, outcome: RunOutcomeView) -> Turned {
        self.wait(effects, PhaseView::Done(outcome), AskView::Return(outcome))
    }

    /// Ends the loop with an error. A run that is not nested announces it and saves its end.
    #[verifier::opaque]
    pub open spec fn fail(
        self,
        effects: Seq<EffectView>,
        env: StepEnv,
        err: OrchestratorErrorView,
    ) -> Turned {
        if self.folded() {
            self.done(effects, RunOutcomeView::Failed(err))
        } else {
            self.save(
                effects.push(
                    EffectView::Emit(
                        SseEventView::Error {
                            run_id: self.run_id,
                            message: err.message(),
                            code: Some(err.code()),
                        },
                    ),
                ),
                env,
                err.terminal(),
                None,
                AfterView::Final(RunOutcomeView::Failed(err)),
            )
        }
    }

    pub open spec fn run_finished(self, reason: Seq<char>) -> EffectView {
        EffectView::Emit(SseEventView::RunFinished { run_id: self.run_id, reason })
    }

    /// Ends the loop of a cancelled run.
    #[verifier::opaque]
    pub open spec fn cancel(self, effects: Seq<EffectView>, env: StepEnv) -> Turned {
        let outcome = RunOutcomeView::Failed(OrchestratorErrorView::Cancelled);
        if self.folded() {
            self.done(effects, outcome)
        } else {
            self.save(
                effects.push(self.run_finished("cancelled"@)),
                env,
                RunStatus::Cancelled,
                None,
                AfterView::Final(outcome),
            )
        }
    }

    /// Ends the loop of a run that reached a limit.
    #[verifier::opaque]
    pub open spec fn guard(
        self,
        effects: Seq<EffectView>,
        env: StepEnv,
        reason: Seq<char>,
    ) -> Turned {
        let outcome = RunOutcomeView::Failed(OrchestratorErrorView::Guard(reason));
        if self.folded() {
            self.done(effects, outcome)
        } else {
            self.with_session(
                PersistSessionView { finish_reason: Some(reason), ..self.session },
            ).save(
                effects.push(self.run_finished(reason)),
                env,
                RunStatus::Failed,
                None,
                AfterView::Final(outcome),
            )
        }
    }

    /// Takes up steering before the next call of the model. A nested run has none.
    #[verifier::opaque]
    pub open spec fn top(self, effects: Seq<EffectView>, env: StepEnv) -> Turned {
        if self.folded() {
            self.ready(effects, env)
        } else {
            self.wait(effects, PhaseView::Steer(Site::Top), AskView::Steer)
        }
    }

    /// Before the call of the model: the run may be cancelled or have reached a limit.
    #[verifier::opaque]
    pub open spec fn ready(self, effects: Seq<EffectView>, env: StepEnv) -> Turned {
        if env.cancelled {
            self.cancel(effects, env)
        } else {
            match pre_llm_reason(self.session.guards, self.session.guards_cfg, env.now) {
                Some(reason) => self.guard(effects, env, reason),
                None => self.wait(effects, PhaseView::Middleware, AskView::Middleware),
            }
        }
    }

    pub open spec fn with_progress(self) -> Self {
        self.with_session(
            PersistSessionView { guards: progressed(self.session.guards), ..self.session },
        )
    }

    /// Messages have come from outside.
    #[verifier::opaque]
    pub open spec fn steered(
        self,
        env: StepEnv,
        site: Site,
        joined: Seq<SteeredView>,
    ) -> Turned {
        if joined.len() > 0 {
            self.with_context(self.context + messages_of(joined)).save(
                announcements(self.run_id, joined, MessageSource::Steer),
                env,
                RunStatus::Running,
                self.session.pending_tool,
                AfterView::Steer(site),
            )
        } else {
            match site {
                Site::Top => self.ready(Seq::empty(), env),
                Site::AfterText => self.quiet(Seq::empty(), env),
                Site::Idle => self.complete(Seq::empty(), env),
            }
        }
    }

    /// The middlewares are done.
    #[verifier::opaque]
    pub open spec fn prepared(
        self,
        env: StepEnv,
        context: Seq<WireMessageView>,
        effect: MwEffectView,
    ) -> Turned {
        let run = self.with_context(context);
        let effects = if self.folded() {
            Seq::empty()
        } else {
            emitted(effect.events)
        };
        if effect.checkpoint && !self.folded() {
            run.save(
                effects,
                env,
                RunStatus::Running,
                self.session.pending_tool,
                AfterView::Middleware,
            )
        } else {
            run.open(effects)
        }
    }

    /// Calls the model.
    #[verifier::opaque]
    pub open spec fn open(self, effects: Seq<EffectView>) -> Turned {
        self.wait(
            effects,
            PhaseView::Open,
            AskView::OpenStream(
                lead_tools(self.tools, self.session.plan_mode, self.session.subagents),
            ),
        )
    }

    /// The model has streamed a chunk.
    #[verifier::opaque]
    pub open spec fn chunk(
        self,
        env: StepEnv,
        message_id: Seq<char>,
        completed: Option<CompletedView>,
        chunk: LlmChunkView,
    ) -> Turned {
        if env.cancelled {
            self.cancel(Seq::empty(), env)
        } else {
            match chunk {
                LlmChunkView::TextDelta(delta) => self.wait(
                    if self.folded() {
                        Seq::empty()
                    } else {
                        seq![
                            EffectView::Emit(
                                SseEventView::MessageDelta {
                                    run_id: self.run_id,
                                    message_id,
                                    delta,
                                },
                            ),
                        ]
                    },
                    PhaseView::Streaming(message_id, completed),
                    AskView::NextChunk,
                ),
                LlmChunkView::ReasoningDelta(delta) => self.wait(
                    if self.folded() {
                        Seq::empty()
                    } else {
                        seq![
                            EffectView::Emit(
                                SseEventView::ReasoningDelta {
                                    run_id: self.run_id,
                                    message_id,
                                    delta,
                                },
                            ),
                        ]
                    },
                    PhaseView::Streaming(message_id, completed),
                    AskView::NextChunk,
                ),
                LlmChunkView::Completed { content, tool_calls, reasoning_content } => self.wait(
                    Seq::empty(),
                    PhaseView::Streaming(
                        message_id,
                        Some(CompletedView { content, tool_calls, reasoning_content }),
                    ),
                    AskView::NextChunk,
                ),
            }
        }
    }

    /// The message of the model joins the context.
    pub open spec fn answered(self, completed: CompletedView) -> Self {
        AgentRunView {
            context: self.context.push(
                WireMessageView {
                    role: Role::Assistant,
                    content: completed.content,
                    tool_call_id: None,
                    name: None,
                    tool_calls: if completed.tool_calls.len() == 0 {
                        None
                    } else {
                        Some(completed.tool_calls)
                    },
                    reasoning_content: completed.reasoning_content,
                },
            ),
            session: PersistSessionView {
                guards: crate::store::GuardsSnapshotView {
                    llm_rounds: if self.session.guards.llm_rounds < u32::MAX {
                        (self.session.guards.llm_rounds + 1) as u32
                    } else {
                        u32::MAX
                    },
                    ..self.session.guards
                },
                ..self.session
            },
            ..self
        }
    }

    /// The stream of the model is over.
    #[verifier::opaque]
    pub open spec fn stream_end(
        self,
        env: StepEnv,
        message_id: Seq<char>,
        completed: Option<CompletedView>,
    ) -> Turned {
        if env.cancelled {
            self.cancel(Seq::empty(), env)
        } else {
            match completed {
                None => self.fail(
                    Seq::empty(),
                    env,
                    OrchestratorErrorView::Llm("llm stream ended without completed chunk"@),
                ),
                Some(message) => if self.folded() {
                    self.answered(message).turn(Seq::empty(), env, message.tool_calls)
                } else {
                    self.answered(message).save(
                        seq![
                            EffectView::Emit(
                                SseEventView::MessageCompleted {
                                    run_id: self.run_id,
                                    message_id,
                                    role: Role::Assistant,
                                    content: message.content,
                                    tool_calls: if message.tool_calls.len() == 0 {
                                        None
                                    } else {
                                        Some(message.tool_calls)
                                    },
                                    source: Some(MessageSource::Assistant),
                                    reasoning_content: message.reasoning_content,
                                },
                            ),
                        ],
                        env,
                        RunStatus::Running,
                        None,
                        AfterView::Assistant(message.tool_calls),
                    )
                },
            }
        }
    }

    /// The model has made these calls, or none.
    #[verifier::opaque]
    pub open spec fn turn(
        self,
        effects: Seq<EffectView>,
        env: StepEnv,
        calls: Seq<ToolCallView>,
    ) -> Turned {
        if calls.len() == 0 {
            if self.folded() {
                self.quiet(effects, env)
            } else {
                self.wait(effects, PhaseView::Steer(Site::AfterText), AskView::Steer)
            }
        } else {
            let run = self.with_progress();
            if over_wall(run.session.guards, run.session.guards_cfg, env.now) {
                run.guard(effects, env, REASON_TIMEOUT@)
            } else {
                let plan_mode = self.session.plan_mode;
                let subagents = self.session.subagents;
                AgentRunView {
                    todo_calls: todo_calls_in(calls, plan_mode, subagents),
                    task_calls: task_calls_in(calls, plan_mode, subagents),
                    client_calls: client_calls_in(calls, plan_mode, subagents),
                    ..run
                }.work(effects, env)
            }
        }
    }

    /// A turn without tools, and nothing to steer.
    #[verifier::opaque]
    pub open spec fn quiet(self, effects: Seq<EffectView>, env: StepEnv) -> Turned {
        let guards = after_noop_turn(
            self.session.guards,
            last_assistant(self.context),
            self.session.guards_cfg,
        );
        let run = self.with_session(PersistSessionView { guards, ..self.session });
        match noop_reason(guards, self.session.guards_cfg) {
            Some(reason) => run.guard(effects, env, reason),
            None => run.idle(effects, env),
        }
    }

    /// The model has nothing more to do.
    #[verifier::opaque]
    pub open spec fn idle(self, effects: Seq<EffectView>, env: StepEnv) -> Turned {
        if env.cancelled {
            self.cancel(effects, env)
        } else if self.folded() {
            self.complete(effects, env)
        } else {
            self.wait(effects, PhaseView::FollowUps, AskView::FollowUps)
        }
    }

    /// The follow-up policy has answered.
    #[verifier::opaque]
    pub open spec fn followed_up(self, env: StepEnv, joined: Seq<SteeredView>) -> Turned {
        if joined.len() == 0 {
            self.wait(Seq::empty(), PhaseView::Steer(Site::Idle), AskView::Steer)
        } else if self.session.guards_cfg.max_follow_up_rounds > 0 && self.follow_up_rounds
            >= self.session.guards_cfg.max_follow_up_rounds {
            self.fail(Seq::empty(), env, OrchestratorErrorView::FollowUpLimit)
        } else {
            let rounds = (self.follow_up_rounds + 1) as u32;
            AgentRunView {
                context: self.context + messages_of(joined),
                follow_up_rounds: rounds,
                session: PersistSessionView {
                    guards: crate::store::GuardsSnapshotView {
                        follow_up_rounds: rounds,
                        ..self.session.guards
                    },
                    ..self.session
                },
                ..self
            }.save(
                announcements(self.run_id, joined, MessageSource::FollowUp),
                env,
                RunStatus::Running,
                self.session.pending_tool,
                AfterView::FollowUps,
            )
        }
    }

    /// The run is complete.
    #[verifier::opaque]
    pub open spec fn complete(self, effects: Seq<EffectView>, env: StepEnv) -> Turned {
        let outcome = RunOutcomeView::Finished(last_assistant(self.context));
        if self.folded() {
            self.done(effects, outcome)
        } else {
            self.with_session(
                PersistSessionView {
                    guards: crate::store::GuardsSnapshotView {
                        follow_up_rounds: self.follow_up_rounds,
                        ..self.session.guards
                    },
                    ..self.session
                },
            ).save(
                effects.push(self.run_finished("stop"@)),
                env,
                RunStatus::Completed,
                None,
                AfterView::Final(outcome),
            )
        }
    }

    /// The next thing that the model has called for: first `write_todos`, one call at a time, then
    /// the subtasks, all at once, then the client tools, one at a time.
    #[verifier::opaque]
    pub open spec fn work(self, effects: Seq<EffectView>, env: StepEnv) -> Turned {
        if self.todo_calls.len() > 0 {
            AgentRunView { todo_calls: self.todo_calls.skip(1), ..self }.write_todos(
                effects,
                env,
                self.todo_calls[0],
            )
        } else if self.task_calls.len() > 0 {
            let limit = task_limit(self);
            let (now, late) = if self.task_calls.len() > limit {
                (self.task_calls.take(limit as int), self.task_calls.skip(limit as int))
            } else {
                (self.task_calls, Seq::empty())
            };
            AgentRunView {
                context: self.context + overflow_replies(late, limit),
                task_calls: Seq::empty(),
                ..self
            }.wait(effects, PhaseView::Tasks, AskView::RunTasks(now))
        } else if self.client_calls.len() > 0 {
            let call = self.client_calls[0];
            AgentRunView { client_calls: self.client_calls.skip(1), ..self }.wait(
                effects,
                PhaseView::Arm(call),
                AskView::ArmTool(self.pending_for(call)),
            )
        } else {
            self.top(effects, env)
        }
    }

    /// Runs `write_todos`: a list that cannot be read leaves the old one as it is.
    #[verifier::opaque]
    pub open spec fn write_todos(
        self,
        effects: Seq<EffectView>,
        env: StepEnv,
        call: ToolCallView,
    ) -> Turned {
        match todos_of(call.arguments) {
            Ok(todos) => AgentRunView {
                context: self.context.push(tool_reply(todos_ok_text(todos), call.id, call.name)),
                session: PersistSessionView { todos, ..self.session },
                ..self
            }.save(
                effects.push(
                    EffectView::Emit(SseEventView::TodosUpdated { run_id: self.run_id, todos }),
                ),
                env,
                RunStatus::Running,
                None,
                AfterView::Todos,
            ),
            Err(err) => self.with_context(
                self.context.push(tool_reply(tool_err_text(err), call.id, call.name)),
            ).save(effects, env, RunStatus::Running, None, AfterView::Todos),
        }
    }

    /// The record of a client tool whose result is awaited.
    pub open spec fn pending_for(self, call: ToolCallView) -> PendingToolView {
        PendingToolView {
            tool_call_id: call.id,
            name: call.name,
            arguments: call.arguments,
            agent_id: self.session.agent_id,
            parent_task_id: self.session.parent_task_id,
        }
    }

    /// The subtasks are done.
    #[verifier::opaque]
    pub open spec fn tasks_done(self, env: StepEnv, replies: Seq<TaskReplyView>) -> Turned {
        self.with_context(self.context + replies_of(replies)).save(
            Seq::empty(),
            env,
            RunStatus::Running,
            None,
            AfterView::Tasks,
        )
    }

    /// A waiter for a client tool is there: the client is asked to run it.
    #[verifier::opaque]
    pub open spec fn armed(self, env: StepEnv, call: ToolCallView) -> Turned {
        let effects = seq![
            EffectView::Emit(
                SseEventView::ToolRequest {
                    run_id: self.run_id,
                    tool_call_id: call.id,
                    name: call.name,
                    arguments: call.arguments,
                    agent_id: self.session.agent_id,
                    parent_task_id: self.session.parent_task_id,
                },
            ),
        ];
        let pending = Some(self.pending_for(call));
        if self.folded() {
            self.with_session(
                PersistSessionView { pending_tool: pending, ..self.session },
            ).wait(effects, PhaseView::Recv(call), AskView::RecvTool(call.id))
        } else {
            self.save(
                effects,
                env,
                RunStatus::WaitingTool,
                pending,
                AfterView::Request(call),
            )
        }
    }

    #[verifier::opaque]
    pub open spec fn wait_failed(
        self,
        effects: Seq<EffectView>,
        env: StepEnv,
        err: WaitError,
    ) -> Turned {
        match err {
            WaitError::Cancelled => self.cancel(effects, env),
            WaitError::Timeout => self.fail(effects, env, OrchestratorErrorView::ToolTimeout),
        }
    }

    /// The result of a client tool is there.
    #[verifier::opaque]
    pub open spec fn resulted(
        self,
        env: StepEnv,
        call: ToolCallView,
        result: ToolResultRequestView,
    ) -> Turned {
        let run = self.with_context(
            self.context.push(tool_reply(result_text(result), result.tool_call_id, call.name)),
        );
        let effects = seq![EffectView::RemovePending(call.id)];
        if self.folded() {
            run.with_session(PersistSessionView { pending_tool: None, ..run.session }).work(
                effects,
                env,
            )
        } else {
            run.save(effects, env, RunStatus::Running, None, AfterView::Result)
        }
    }

    /// A checkpoint is written, or there was none to write.
    #[verifier::opaque]
    pub open spec fn saved(self, env: StepEnv, after: AfterView) -> Turned {
        match after {
            AfterView::Steer(Site::Top) => self.ready(Seq::empty(), env),
            AfterView::Steer(_) => self.with_progress().top(Seq::empty(), env),
            AfterView::Middleware => self.open(Seq::empty()),
            AfterView::Assistant(calls) => self.turn(Seq::empty(), env, calls),
            AfterView::Todos | AfterView::Tasks | AfterView::Result => self.work(Seq::empty(), env),
            AfterView::Request(call) => self.wait(
                Seq::empty(),
                PhaseView::Recv(call),
                AskView::RecvTool(call.id),
            ),
            AfterView::FollowUps => self.top(Seq::empty(), env),
            AfterView::Final(outcome) => self.done(seq![EffectView::Finish], outcome),
        }
    }

    /// A checkpoint could not be written. While a client tool is asked for, after a turn without
    /// tools and after follow-ups, the loop ends without a further word; elsewhere it fails.
    #[verifier::opaque]
    pub open spec fn unsaved(
        self,
        env: StepEnv,
        after: AfterView,
        err: OrchestratorErrorView,
    ) -> Turned {
        match after {
            AfterView::Final(outcome) => self.done(seq![EffectView::Finish], outcome),
            AfterView::Steer(Site::AfterText) | AfterView::Request(_) | AfterView::Result
            | AfterView::FollowUps => self.done(Seq::empty(), RunOutcomeView::Failed(err)),
            _ => self.fail(Seq::empty(), env, err),
        }
    }

    /// The step of the loop for what happened.
    #[verifier::opaque]
    pub open spec fn step(self, happening: HappeningView, env: StepEnv) -> Turned {
        match (self.phase, happening) {
            (PhaseView::Start(announce), HappeningView::Begin) => self.top(
                if announce && !self.folded() {
                    seq![EffectView::Emit(SseEventView::RunStarted { run_id: self.run_id })]
                } else {
                    Seq::empty()
                },
                env,
            ),
            (PhaseView::Resume(pending), HappeningView::Begin) => self.wait(
                seq![EffectView::UpsertPending(pending)],
                PhaseView::Recv(
                    ToolCallView {
                        id: pending.tool_call_id,
                        name: pending.name,
                        arguments: pending.arguments,
                    },
                ),
                AskView::RecvTool(pending.tool_call_id),
            ),
            (PhaseView::Steer(site), HappeningView::Steered(joined)) => self.steered(
                env,
                site,
                joined,
            ),
            (PhaseView::Middleware, HappeningView::MiddlewareDone(context, effect)) => self.prepared(
                env,
                context,
                effect,
            ),
            (PhaseView::Middleware, HappeningView::MiddlewareFailed(context, err)) => {
                self.with_context(context).fail(Seq::empty(), env, err)
            },
            (PhaseView::Open, HappeningView::StreamOpened(message_id)) => self.wait(
                Seq::empty(),
                PhaseView::Streaming(message_id, None),
                AskView::NextChunk,
            ),
            (PhaseView::Open, HappeningView::StreamRefused(err)) => self.fail(
                Seq::empty(),
                env,
                OrchestratorErrorView::Llm(err),
            ),
            (PhaseView::Streaming(message_id, completed), HappeningView::Chunk(chunk)) => self.chunk(
                env,
                message_id,
                completed,
                chunk,
            ),
            (PhaseView::Streaming(..), HappeningView::ChunkFailed(err)) => if env.cancelled {
                self.cancel(Seq::empty(), env)
            } else {
                self.fail(Seq::empty(), env, OrchestratorErrorView::Llm(err))
            },
            (PhaseView::Streaming(message_id, completed), HappeningView::StreamEnd) => {
                self.stream_end(env, message_id, completed)
            },
            (PhaseView::Save { after, pending, .. }, HappeningView::Saved) => self.with_session(
                PersistSessionView {
                    revision: (self.session.revision + 1) as u64,
                    pending_tool: pending,
                    ..self.session
                },
            ).saved(env, after),
            (PhaseView::Save { after, .. }, HappeningView::SaveSkipped) => self.saved(env, after),
            (PhaseView::Save { after, .. }, HappeningView::SaveConflict) => self.unsaved(
                env,
                after,
                OrchestratorErrorView::OwnershipLost,
            ),
            (PhaseView::Save { after, .. }, HappeningView::SaveFailed(err)) => self.unsaved(
                env,
                after,
                OrchestratorErrorView::Store(err),
            ),
            (PhaseView::Tasks, HappeningView::TasksDone(replies)) => self.tasks_done(env, replies),
            (PhaseView::Arm(call), HappeningView::Armed) => self.armed(env, call),
            (PhaseView::Arm(call), HappeningView::ArmRefused(err)) => self.wait_failed(
                seq![EffectView::RemovePending(call.id)],
                env,
                err,
            ),
            (PhaseView::Recv(call), HappeningView::ToolResult(result)) => self.resulted(
                env,
                call,
                result,
            ),
            (PhaseView::Recv(_), HappeningView::ToolWaitFailed(err)) => self.wait_failed(
                Seq::empty(),
                env,
                err,
            ),
            (PhaseView::FollowUps, HappeningView::FollowUps(joined)) => self.followed_up(
                env,
                joined,
            ),
            _ => self.done(
                Seq::empty(),
                RunOutcomeView::Failed(OrchestratorErrorView::Cancelled),
            ),
        }
    }
}

} // verus!
