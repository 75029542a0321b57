use andromeda::agent::error::{error_code, terminal_for, OrchestratorError};
use andromeda::agent::follow_up::{ExampleOrderFollowUp, FollowUpPolicy};
use andromeda::agent::guards::{REASON_LLM_ROUNDS, REASON_NOOP, REASON_TIMEOUT};
use andromeda::agent::middleware::chain::{ChainAsk, ChainEvent, ChainRun};
use andromeda::agent::middleware::time_context::{
    local_time, TimeContextMiddleware, TIME_CONTEXT_PREFIX,
};
use andromeda::agent::middleware::{
    default_summarize_chain, run_before_llm, Middleware, MwAction, MwEffect, SummarizeMiddleware,
};
use andromeda::agent::orchestrator::state::{
    AgentRun, Ask, Effect, Happening, RunAgentOpts, RunOutcome, RunPersist, Steered, StepEnv,
};
use andromeda::agent::orchestrator::tasks::{begin_task, end_task, TaskBegin, TaskEnding};
use andromeda::agent::summarize::{complete_text, SUMMARY_PREFIX};
use andromeda::config::{ContextConfig, GuardsConfig, SubagentsConfig};
use andromeda::dup::Dup;
use andromeda::json::JsonValue;
use andromeda::llm::{ChunkResult, MockLlm, MockTurn, ToolCall};
use andromeda::protocol::{
    MessageSource, Role, SseEvent, TodoStatus, ToolDef, ToolResultRequest, WireMessage,
};
use andromeda::runtime::{RecvOutcome, RunHandle, RunId};
use andromeda::store::{Checkpoint, GuardsSnapshot, LocalFsRunStore, RunStatus, StoreError};

type Handle = RunHandle<u32, ()>;
type OnTool = Box<dyn FnMut(&mut Handle, &str, &str) -> Option<RecvOutcome>>;
type FollowUps = Box<dyn Fn(&[WireMessage]) -> Vec<WireMessage>>;

/// Everything around a run, played in one thread.
struct World {
    llm: MockLlm,
    handle: Handle,
    stored: Option<Checkpoint>,
    statuses: Vec<RunStatus>,
    events: Vec<SseEvent>,
    follow_up: FollowUps,
    on_tool: OnTool,
    middlewares: Vec<Middleware>,
    now: u64,
    cancel_on_chunk: bool,
}

fn json(raw: &str) -> JsonValue {
    JsonValue::parse(raw).unwrap()
}

fn wire(role: Role, content: &str) -> WireMessage {
    WireMessage {
        role,
        content: content.into(),
        tool_call_id: None,
        name: None,
        tool_calls: None,
        reasoning_content: None,
    }
}

fn user_msg(content: &str) -> WireMessage {
    wire(Role::User, content)
}

fn echo_tool() -> ToolDef {
    ToolDef {
        name: "echo".into(),
        description: "echo".into(),
        parameters: json(r#"{ "type": "object" }"#),
        readonly: None,
    }
}

fn text(content: &str) -> MockTurn {
    MockTurn::TextOnly {
        content: content.into(),
        deltas: vec![content.into()],
    }
}

fn calling(content: &str, calls: &[(&str, &str, &str)]) -> MockTurn {
    MockTurn::WithToolCalls {
        content: content.into(),
        deltas: if content.is_empty() {
            vec![]
        } else {
            vec![content.into()]
        },
        tool_calls: calls
            .iter()
            .map(|(id, name, args)| ToolCall {
                id: id.to_string(),
                name: name.to_string(),
                arguments: json(args),
            })
            .collect(),
    }
}

/// Hands a result in, as a client does.
fn submit(handle: &mut Handle, id: &str, content: &str, is_error: bool) -> Option<RecvOutcome> {
    let result = ToolResultRequest {
        tool_call_id: id.into(),
        content: content.into(),
        is_error,
    };
    match handle.submit_tool_result(&result) {
        Ok(_) => Some(RecvOutcome::Result(result)),
        Err(_) => Some(RecvOutcome::Closed),
    }
}

impl World {
    fn new(turns: Vec<MockTurn>) -> Self {
        World {
            llm: MockLlm::script(turns),
            handle: RunHandle::reopen(RunId("r1".into())),
            stored: None,
            statuses: vec![],
            events: vec![],
            follow_up: Box::new(|_| vec![]),
            on_tool: Box::new(|handle, id, _| submit(handle, id, "ok", false)),
            middlewares: vec![],
            now: 1_000,
            cancel_on_chunk: false,
        }
    }

    fn middleware(&mut self, run: &AgentRun) -> Happening {
        let mut chain = ChainRun::new(
            run.run_id.dup(),
            self.middlewares.clone(),
            run.session.pending_tool.dup(),
            run.context.dup(),
        );
        loop {
            let event = match chain.ask() {
                ChainAsk::End => return chain.into_happening(),
                ChainAsk::Time => ChainEvent::Time(local_time()),
                ChainAsk::Summary(None) => ChainEvent::Reply(Ok(String::new())),
                ChainAsk::Summary(Some(prompt)) => {
                    ChainEvent::Reply(match self.llm.stream(&prompt, &[]) {
                        Ok(items) => complete_text(&items),
                        Err(err) => Err(err),
                    })
                }
            };
            assert!(chain.is_expected(&event), "{event:?}");
            chain.step(event);
        }
    }

    fn joined(&self, messages: Vec<WireMessage>) -> Vec<Steered> {
        messages
            .into_iter()
            .map(|message| Steered {
                message,
                message_id: "m".into(),
            })
            .collect()
    }

    /// Runs a loop to its end; `None` where it waits for ever.
    fn drive(&mut self, run: &mut AgentRun) -> Option<RunOutcome> {
        let mut happening = Happening::Begin;
        let mut items: Vec<ChunkResult> = vec![];
        loop {
            let env = StepEnv {
                now: self.now,
                cancelled: self.handle.is_cancelled(),
                persist: self.handle.persist_enabled(),
            };
            assert!(run.is_expected(&happening), "{happening:?}");
            assert!(run.can_count());
            let out = run.step(happening, env);
            for effect in out.effects {
                match effect {
                    Effect::Emit(event) => self.events.push(event),
                    Effect::UpsertPending(tool) => self.handle.upsert_pending_tool(tool),
                    Effect::RemovePending(id) => self.handle.remove_pending_tool(&id),
                    Effect::Finish => self.handle.finish(),
                }
            }
            happening = match out.ask {
                Ask::Steer => {
                    let messages = self.handle.drain_steer();
                    Happening::Steered(self.joined(messages))
                }
                Ask::Middleware => self.middleware(run),
                Ask::OpenStream(tools) => match self.llm.stream(&run.context, &tools) {
                    Ok(stream) => {
                        items = stream;
                        Happening::StreamOpened("msg".into())
                    }
                    Err(err) => Happening::StreamRefused(err),
                },
                Ask::NextChunk => {
                    if self.cancel_on_chunk {
                        self.handle.cancel();
                    }
                    if items.is_empty() {
                        Happening::StreamEnd
                    } else {
                        match items.remove(0) {
                            Ok(chunk) => Happening::Chunk(chunk),
                            Err(err) => Happening::ChunkFailed(err),
                        }
                    }
                }
                Ask::Save(None) => Happening::SaveSkipped,
                Ask::Save(Some(request)) => {
                    let status = request.checkpoint.status;
                    match LocalFsRunStore::save_cas(
                        &mut self.stored,
                        request.checkpoint,
                        request.expected,
                    ) {
                        Ok(()) => {
                            self.statuses.push(status);
                            Happening::Saved
                        }
                        Err(StoreError::Conflict) => Happening::SaveConflict,
                        Err(err) => Happening::SaveFailed(err.message()),
                    }
                }
                Ask::RunTasks(calls) => {
                    let mut replies = Vec::new();
                    for call in calls {
                        let begun = begin_task(
                            &run.run_id,
                            &call,
                            &run.tools,
                            run.session.guards_cfg,
                            run.session.subagents_cfg,
                            self.now,
                        );
                        match begun {
                            TaskBegin::Rejected { event, reply } => {
                                self.events.push(event);
                                replies.push(reply);
                            }
                            TaskBegin::Started(subtask) => {
                                self.events.push(subtask.event);
                                let mut nested = subtask.run;
                                let ending = match self.drive(&mut nested) {
                                    Some(outcome) => TaskEnding::Ended(outcome),
                                    None => TaskEnding::TimedOut,
                                };
                                self.handle.cancel_waits_for_parent_task(&call.id);
                                let (event, reply) =
                                    end_task(&run.run_id, call.id, call.name, ending);
                                self.events.push(event);
                                replies.push(reply);
                            }
                        }
                    }
                    Happening::TasksDone(replies)
                }
                Ask::ArmTool(pending) => match self.handle.arm_tool(pending, 7) {
                    Ok(()) => Happening::Armed,
                    Err(err) => Happening::ArmRefused(err),
                },
                Ask::RecvTool(id) => {
                    let name = self
                        .handle
                        .pending_tools()
                        .iter()
                        .find(|tool| tool.tool_call_id == id)
                        .map(|tool| tool.name.clone())
                        .unwrap_or_default();
                    let outcome = (self.on_tool)(&mut self.handle, &id, &name)?;
                    match self.handle.recv_tool(&id, outcome) {
                        Ok(result) => Happening::ToolResult(result),
                        Err(err) => Happening::ToolWaitFailed(err),
                    }
                }
                Ask::FollowUps => {
                    let messages = (self.follow_up)(&run.context);
                    Happening::FollowUps(self.joined(messages))
                }
                Ask::Return(outcome) => return Some(outcome),
            };
        }
    }

    fn run(
        &mut self,
        context: Vec<WireMessage>,
        tools: Vec<ToolDef>,
        opts: RunAgentOpts,
    ) -> RunOutcome {
        let persist = if self.handle.persist_enabled() {
            Some(RunPersist {
                instance_id: "node-test".into(),
                revision: self.stored.as_ref().map(|cp| cp.revision).unwrap_or(0),
            })
        } else {
            None
        };
        let enabled = self.handle.persist_enabled();
        let mut run =
            AgentRun::run_agent("r1".into(), context, tools, persist, enabled, opts, self.now);
        self.drive(&mut run).unwrap()
    }

    fn names(&self) -> Vec<&'static str> {
        self.events.iter().map(|e| e.event_name()).collect()
    }

    fn ended_with(&self, wanted: &str) -> bool {
        self.events
            .iter()
            .any(|e| matches!(e, SseEvent::RunFinished { reason, .. } if reason == wanted))
    }
}

fn tight(rounds: u32, wall: u64, follow: u32, noop: u32) -> GuardsConfig {
    GuardsConfig {
        max_llm_rounds: rounds,
        max_run_wall_secs: wall,
        max_follow_up_rounds: follow,
        max_noop_llm_rounds: noop,
    }
}

fn guarded(cfg: GuardsConfig) -> RunAgentOpts {
    RunAgentOpts {
        guards_cfg: cfg,
        ..Default::default()
    }
}

/// Goes on until the assistant has spoken six times.
fn repeat_follow_up() -> FollowUps {
    Box::new(|context| {
        let assistants = context.iter().filter(|m| m.role == Role::Assistant).count();
        if assistants >= 6 {
            vec![]
        } else {
            vec![wire(Role::System, "continue")]
        }
    })
}

#[test]
fn text_only_emits_started_deltas_completed_finished_without_tools() {
    let mut world = World::new(vec![MockTurn::TextOnly {
        content: "hello world".into(),
        deltas: vec!["hello ".into(), "world".into()],
    }]);
    let outcome = world.run(vec![user_msg("hi")], vec![], RunAgentOpts::default());
    assert_eq!(outcome, RunOutcome::Finished("hello world".into()));
    assert_eq!(
        world.names(),
        vec![
            "run.started",
            "message.delta",
            "message.delta",
            "message.completed",
            "run.finished",
        ]
    );
    let events = &world.events;
    match &events[1] {
        SseEvent::MessageDelta { delta, .. } => assert_eq!(delta, "hello "),
        other => panic!("expected first delta, got {other:?}"),
    }
    match &events[2] {
        SseEvent::MessageDelta { delta, .. } => assert_eq!(delta, "world"),
        other => panic!("expected second delta, got {other:?}"),
    }
    match &events[3] {
        SseEvent::MessageCompleted {
            role,
            content,
            tool_calls,
            source,
            ..
        } => {
            assert_eq!(*role, Role::Assistant);
            assert_eq!(content, "hello world");
            assert!(tool_calls.is_none());
            assert_eq!(*source, Some(MessageSource::Assistant));
        }
        other => panic!("expected message.completed, got {other:?}"),
    }
    match &events[4] {
        SseEvent::RunFinished { reason, .. } => assert_eq!(reason, "stop"),
        other => panic!("expected run.finished, got {other:?}"),
    }
    assert!(world.handle.is_finished());
}

#[test]
fn tool_then_text_waits_for_client_tool_result() {
    let mut world = World::new(vec![
        calling("calling echo", &[("call_1", "echo", r#"{ "msg": "hi" }"#)]),
        text("echoed"),
    ]);
    world.on_tool = Box::new(|handle, id, name| {
        assert_eq!(id, "call_1");
        assert_eq!(name, "echo");
        submit(handle, id, "hi", false)
    });
    world.run(vec![user_msg("echo hi")], vec![echo_tool()], RunAgentOpts::default());
    assert!(world.events.iter().any(|e| matches!(
        e,
        SseEvent::ToolRequest { tool_call_id, name, .. } if tool_call_id == "call_1" && name == "echo"
    )));
    let completed: Vec<_> = world
        .events
        .iter()
        .filter_map(|e| match e {
            SseEvent::MessageCompleted {
                source,
                content,
                tool_calls,
                ..
            } => Some((source, content.as_str(), tool_calls.as_ref())),
            _ => None,
        })
        .collect();
    assert_eq!(completed.len(), 2);
    assert_eq!(completed[0].0, &Some(MessageSource::Assistant));
    assert_eq!(completed[0].1, "calling echo");
    assert!(completed[0]
        .2
        .is_some_and(|tc| tc.len() == 1 && tc[0].id == "call_1"));
    assert_eq!(completed[1].0, &Some(MessageSource::Assistant));
    assert_eq!(completed[1].1, "echoed");
    assert!(completed[1].2.is_none());
    match world.events.last() {
        Some(SseEvent::RunFinished { reason, .. }) => assert_eq!(reason, "stop"),
        other => panic!("expected run.finished stop, got {other:?}"),
    }
}

#[test]
fn steer_enqueued_before_second_llm_call_emits_completed_source_steer() {
    let mut world = World::new(vec![
        calling("will echo", &[("call_steer", "echo", r#"{ "msg": "hi" }"#)]),
        text("微辣已记下"),
    ]);
    world.on_tool = Box::new(|handle, id, _| {
        handle.enqueue_steer(vec![user_msg("改成微辣")]).unwrap();
        submit(handle, id, "queued", false)
    });
    world.run(vec![user_msg("下单")], vec![echo_tool()], RunAgentOpts::default());
    let steer_pos = world
        .events
        .iter()
        .position(|e| {
            matches!(
                e,
                SseEvent::MessageCompleted {
                    source: Some(MessageSource::Steer),
                    content,
                    role: Role::User,
                    ..
                } if content == "改成微辣"
            )
        })
        .expect("expected message.completed source=steer");
    let second_assistant_pos = world
        .events
        .iter()
        .position(|e| {
            matches!(
                e,
                SseEvent::MessageCompleted {
                    source: Some(MessageSource::Assistant),
                    content,
                    ..
                } if content == "微辣已记下"
            )
        })
        .expect("expected second assistant message.completed");
    assert!(steer_pos < second_assistant_pos);
    let steers = world
        .events
        .iter()
        .filter(|e| {
            matches!(
                e,
                SseEvent::MessageCompleted {
                    source: Some(MessageSource::Steer),
                    ..
                }
            )
        })
        .count();
    assert_eq!(steers, 1);
}

#[test]
fn example_order_follow_up_triggers_another_llm_turn_after_place_order() {
    let mut world = World::new(vec![
        calling("placing order", &[("call_order", "place_order", r#"{ "item": "noodles" }"#)]),
        text("order placed"),
        calling("sending sms", &[("call_sms", "send_sms", r#"{ "code": "1234" }"#)]),
        text("sms sent"),
    ]);
    world.follow_up = Box::new(|context| ExampleOrderFollowUp.next(context));
    world.on_tool = Box::new(|handle, id, name| {
        let content = match name {
            "place_order" => "order ok",
            "send_sms" => "sent",
            other => panic!("unexpected tool {other}"),
        };
        submit(handle, id, content, false)
    });
    world.run(vec![user_msg("帮我点外卖")], vec![], RunAgentOpts::default());
    let follow_up_pos = world
        .events
        .iter()
        .position(|e| {
            matches!(
                e,
                SseEvent::MessageCompleted {
                    source: Some(MessageSource::FollowUp),
                    content,
                    ..
                } if content.contains("send_sms")
            )
        })
        .expect("expected follow_up message.completed mentioning send_sms");
    let sms_turn_pos = world
        .events
        .iter()
        .position(|e| {
            matches!(
                e,
                SseEvent::MessageCompleted {
                    source: Some(MessageSource::Assistant),
                    content,
                    ..
                } if content == "sms sent"
            )
        })
        .expect("expected assistant turn after follow-up");
    assert!(follow_up_pos < sms_turn_pos);
    assert!(world.ended_with("stop"));
}

#[test]
fn llm_error_emits_error_event() {
    let mut world = World::new(vec![]);
    let outcome = world.run(vec![user_msg("hi")], vec![], RunAgentOpts::default());
    assert_eq!(
        outcome,
        RunOutcome::Failed(OrchestratorError::Llm("mock LLM script exhausted".into()))
    );
    assert_eq!(world.names(), vec!["run.started", "error"]);
    match world.events.last() {
        Some(SseEvent::Error { message, code, .. }) => {
            assert_eq!(message, "llm error: mock LLM script exhausted");
            assert_eq!(code.as_deref(), Some("llm"));
        }
        other => panic!("expected error, got {other:?}"),
    }
}

#[test]
fn tool_wait_timeout_emits_error_event() {
    let mut world = World::new(vec![calling("calling", &[("call_timeout", "echo", "{}")])]);
    world.on_tool = Box::new(|_, _, _| Some(RecvOutcome::TimedOut));
    let outcome = world.run(vec![user_msg("hi")], vec![echo_tool()], RunAgentOpts::default());
    assert_eq!(outcome, RunOutcome::Failed(OrchestratorError::ToolTimeout));
    assert!(world.events.iter().any(|e| matches!(
        e,
        SseEvent::Error { code: Some(code), .. } if code == "timeout"
    )));
}

#[test]
fn llm_round_guard_finishes_before_next_call() {
    let mut world = World::new(vec![text("once")]);
    world.follow_up = repeat_follow_up();
    let outcome = world.run(vec![user_msg("hi")], vec![], guarded(tight(1, 0, 8, 0)));
    assert_eq!(
        outcome,
        RunOutcome::Failed(OrchestratorError::Guard(REASON_LLM_ROUNDS))
    );
    assert!(world.ended_with(REASON_LLM_ROUNDS));
}

#[test]
fn wall_guard_stops_before_llm() {
    let mut world = World::new(vec![]);
    let mut guards = GuardsSnapshot::new_now();
    guards.started_at = "1".into();
    let opts = RunAgentOpts::resume_running(
        false,
        false,
        vec![],
        tight(0, 10, 8, 0),
        Some(guards),
        SubagentsConfig::default(),
    );
    let outcome = world.run(vec![user_msg("hi")], vec![], opts);
    assert_eq!(
        outcome,
        RunOutcome::Failed(OrchestratorError::Guard(REASON_TIMEOUT))
    );
    assert!(world.ended_with(REASON_TIMEOUT));
    assert!(!world.names().contains(&"run.started"));
}

#[test]
fn noop_guard_stops_on_repeated_text() {
    let mut world = World::new(vec![]);
    world.llm = MockLlm::script_then_repeat(vec![], text("still working"));
    world.follow_up = repeat_follow_up();
    let outcome = world.run(vec![user_msg("hi")], vec![], guarded(tight(0, 0, 8, 2)));
    assert_eq!(
        outcome,
        RunOutcome::Failed(OrchestratorError::Guard(REASON_NOOP))
    );
    assert!(world.ended_with(REASON_NOOP));
}

#[test]
fn plan_mode_write_todos_emits_sse_without_tool_request() {
    let mut world = World::new(vec![
        calling(
            "",
            &[(
                "call_todos",
                "write_todos",
                r#"{
                    "todos": [
                        {"id": "t1", "content": "inventory layers", "status": "in_progress"},
                        {"id": "t2", "content": "export", "status": "pending"}
                    ]
                }"#,
            )],
        ),
        text("done"),
    ]);
    world.handle.set_persist(true);
    let opts = RunAgentOpts::lead(
        true,
        false,
        GuardsConfig::default(),
        SubagentsConfig::default(),
    );
    world.run(vec![user_msg("plan a buffer analysis")], vec![], opts);
    assert!(!world.names().contains(&"tool.request"));
    assert!(world.ended_with("stop"));
    let todos = world
        .events
        .iter()
        .find_map(|e| match e {
            SseEvent::TodosUpdated { todos, .. } => Some(todos),
            _ => None,
        })
        .expect("todos");
    assert_eq!(todos.len(), 2);
    assert_eq!(todos[0].status, TodoStatus::InProgress);
    let cp = world.stored.as_ref().expect("checkpoint");
    assert!(cp.plan_mode);
    assert_eq!(cp.todos.len(), 2);
    assert_eq!(cp.todos[0].id, "t1");
}

#[test]
fn plan_mode_invalid_write_todos_keeps_list_and_finishes() {
    let mut world = World::new(vec![
        calling(
            "",
            &[(
                "call_bad",
                "write_todos",
                r#"{ "todos": [{"id": "t1", "content": "x", "status": "doing"}] }"#,
            )],
        ),
        text("ok"),
    ]);
    let opts = RunAgentOpts {
        plan_mode: true,
        ..Default::default()
    };
    world.run(vec![user_msg("hi")], vec![], opts);
    assert!(!world.names().contains(&"todos.updated"));
    assert!(!world.names().contains(&"tool.request"));
    assert!(world.ended_with("stop"));
}

#[test]
fn plan_mode_mixed_turn_order_and_client_tool() {
    let mut world = World::new(vec![
        calling(
            "",
            &[
                (
                    "call_todos",
                    "write_todos",
                    r#"{ "todos": [{"id": "t1", "content": "echo something", "status": "in_progress"}] }"#,
                ),
                ("call_echo", "echo", r#"{"text": "hi"}"#),
            ],
        ),
        text("done"),
    ]);
    world.on_tool = Box::new(|handle, id, name| {
        assert_eq!(name, "echo");
        submit(handle, id, "{\"ok\":true}", false)
    });
    let opts = RunAgentOpts {
        plan_mode: true,
        ..Default::default()
    };
    world.run(vec![user_msg("hi")], vec![echo_tool()], opts);
    let names = world.names();
    let todos_pos = names.iter().position(|n| *n == "todos.updated").expect("todos");
    let tool_pos = names.iter().position(|n| *n == "tool.request").expect("tool");
    assert!(todos_pos < tool_pos);
    assert!(names.contains(&"run.finished"));
}

#[test]
fn server_calls_come_before_client_calls() {
    let mut world = World::new(vec![
        calling(
            "",
            &[
                ("c1", "echo", "{}"),
                ("c2", "task", r#"{ "goal": "g" }"#),
                ("c3", "write_todos", r#"{ "todos": [] }"#),
            ],
        ),
        text("nested"),
        text("done"),
    ]);
    let opts = RunAgentOpts {
        plan_mode: true,
        ..with_subagents(2)
    };
    world.run(vec![user_msg("hi")], vec![echo_tool()], opts);
    let order: Vec<&str> = world
        .names()
        .into_iter()
        .filter(|n| ["todos.updated", "task.started", "task.completed", "tool.request"].contains(n))
        .collect();
    assert_eq!(
        order,
        vec!["todos.updated", "task.started", "task.completed", "tool.request"]
    );
}

fn with_subagents(max: u32) -> RunAgentOpts {
    RunAgentOpts {
        subagents: true,
        subagents_cfg: SubagentsConfig {
            max_concurrent_subagents: max,
            subagent_timeout_secs: 30,
        },
        ..Default::default()
    }
}

#[test]
fn subagent_task_returns_summary_without_nested_deltas() {
    let mut world = World::new(vec![
        calling(
            "",
            &[("call_task", "task", r#"{ "goal": "summarize layers", "agent": "general" }"#)],
        ),
        text("found 3 layers"),
        text("done"),
    ]);
    world.run(vec![user_msg("delegate")], vec![echo_tool()], with_subagents(2));
    assert!(world.names().contains(&"task.started"));
    assert!(world.events.iter().any(|e| matches!(
        e,
        SseEvent::TaskCompleted { summary, .. } if summary == "found 3 layers"
    )));
    let deltas: Vec<&str> = world
        .events
        .iter()
        .filter_map(|e| match e {
            SseEvent::MessageDelta { delta, .. } => Some(delta.as_str()),
            _ => None,
        })
        .collect();
    assert!(!deltas.iter().any(|d| *d == "found 3 layers"));
    assert!(deltas.iter().any(|d| *d == "done"));
    assert!(world.ended_with("stop"));
}

#[test]
fn subagent_client_tool_channel_a() {
    let mut world = World::new(vec![
        calling("", &[("call_task", "task", r#"{ "goal": "echo hi", "agent": "explore" }"#)]),
        calling("", &[("call_echo", "echo", r#"{ "text": "hi" }"#)]),
        text("echoed"),
        text("parent done"),
    ]);
    world.on_tool = Box::new(|handle, id, _| submit(handle, id, "hi", false));
    let tool = ToolDef {
        readonly: Some(true),
        ..echo_tool()
    };
    world.run(vec![user_msg("delegate with tool")], vec![tool], with_subagents(2));
    let request = world
        .events
        .iter()
        .find_map(|e| match e {
            SseEvent::ToolRequest {
                agent_id,
                parent_task_id,
                ..
            } => Some((agent_id.as_deref(), parent_task_id.as_deref())),
            _ => None,
        })
        .expect("tool.request");
    assert_eq!(request, (Some("sub-call_task"), Some("call_task")));
    assert!(world.events.iter().any(|e| matches!(
        e,
        SseEvent::TaskCompleted { summary, .. } if summary == "echoed"
    )));
    assert!(world.ended_with("stop"));
}

#[test]
fn subagent_timeout_while_waiting_tool_clears_orphans() {
    let mut world = World::new(vec![
        calling("", &[("call_task", "task", r#"{ "goal": "hang", "agent": "general" }"#)]),
        calling("", &[("call_echo", "echo", r#"{ "text": "x" }"#)]),
        text("parent after timeout"),
    ]);
    world.on_tool = Box::new(|_, _, _| None);
    world.run(vec![user_msg("delegate hang")], vec![echo_tool()], with_subagents(2));
    assert!(world.events.iter().any(|e| matches!(
        e,
        SseEvent::TaskTimedOut { task_id, .. } if task_id == "call_task"
    )));
    assert!(!world.handle.is_waiting_tool());
    assert!(world.handle.pending_tools().is_empty());
}

#[test]
fn overflow_tasks_return_error_tool_result() {
    let mut world = World::new(vec![
        calling(
            "",
            &[
                ("t1", "task", r#"{ "goal": "a" }"#),
                ("t2", "task", r#"{ "goal": "b" }"#),
                ("t3", "task", r#"{ "goal": "c" }"#),
            ],
        ),
        text("sa"),
        text("sb"),
        text("parent"),
    ]);
    world.run(vec![user_msg("three tasks")], vec![], with_subagents(2));
    let started = world.names().iter().filter(|n| **n == "task.started").count();
    assert_eq!(started, 2, "only first two tasks should start");
    assert!(world.names().contains(&"task.completed"));
    assert!(world.ended_with("stop"));
    let contexts = world.llm.recorded_contexts();
    let last = contexts.last().unwrap();
    let third = last
        .iter()
        .find(|m| m.tool_call_id.as_deref() == Some("t3"))
        .unwrap();
    assert_eq!(
        third.content,
        r#"{"error":"max_concurrent_subagents (2) exceeded","ok":false}"#
    );
}

#[test]
fn a_task_that_cannot_be_read_is_rejected() {
    let mut world = World::new(vec![calling("", &[("t1", "task", "{}")]), text("parent")]);
    world.run(vec![user_msg("x")], vec![], with_subagents(0));
    assert!(world.events.iter().any(|e| matches!(
        e,
        SseEvent::TaskFailed { code: Some(code), .. } if code == "bad_arguments"
    )));
    assert!(world.ended_with("stop"));
}

#[test]
fn a_task_that_fails_tells_its_parent() {
    let mut world = World::new(vec![
        calling("", &[("t1", "task", r#"{ "goal": "a" }"#)]),
        MockTurn::Fail {
            message: "boom".into(),
        },
        text("parent"),
    ]);
    world.run(vec![user_msg("x")], vec![], with_subagents(1));
    assert!(world.events.iter().any(|e| matches!(
        e,
        SseEvent::TaskFailed { code: Some(code), message, .. }
            if code == "llm" && message == "llm error: boom"
    )));
    assert!(world.ended_with("stop"));
}

#[test]
fn persists_waiting_tool_then_completed() {
    let mut world = World::new(vec![
        calling("call", &[("call_1", "echo", r#"{"x": 1}"#)]),
        text("done"),
    ]);
    world.handle.set_persist(true);
    world.run(vec![user_msg("hi")], vec![echo_tool()], RunAgentOpts::default());
    assert_eq!(
        world.statuses,
        vec![
            RunStatus::Running,
            RunStatus::WaitingTool,
            RunStatus::Running,
            RunStatus::Running,
            RunStatus::Completed,
        ]
    );
    let cp = world.stored.as_ref().unwrap();
    assert_eq!(cp.status, RunStatus::Completed);
    assert!(cp.pending_tool.is_none());
    assert_eq!(cp.owner_id.as_deref(), Some("node-test"));
    assert_eq!(cp.revision, 5);
}

#[test]
fn a_run_that_lost_its_checkpoint_fails() {
    let mut world = World::new(vec![text("done")]);
    world.handle.set_persist(true);
    let mut run = AgentRun::run_agent(
        "r1".into(),
        vec![user_msg("hi")],
        vec![],
        Some(RunPersist {
            instance_id: "n".into(),
            revision: 9,
        }),
        true,
        RunAgentOpts::default(),
        world.now,
    );
    let outcome = world.drive(&mut run).unwrap();
    assert_eq!(outcome, RunOutcome::Failed(OrchestratorError::OwnershipLost));
    assert!(world.events.iter().any(|e| matches!(
        e,
        SseEvent::Error { code: Some(code), .. } if code == "not_owner"
    )));
    assert!(world.handle.is_finished());
}

#[test]
fn a_run_goes_on_where_it_waited() {
    let mut world = World::new(vec![calling("call", &[("call_1", "echo", "{}")])]);
    world.handle.set_persist(true);
    world.on_tool = Box::new(|_, _, _| None);
    let mut run = AgentRun::run_agent(
        "r1".into(),
        vec![user_msg("hi")],
        vec![echo_tool()],
        Some(RunPersist {
            instance_id: "node-a".into(),
            revision: 0,
        }),
        true,
        RunAgentOpts::default(),
        world.now,
    );
    assert!(world.drive(&mut run).is_none());
    let cp = world.stored.as_ref().unwrap().dup();
    assert_eq!(cp.status, RunStatus::WaitingTool);
    let pending = cp.pending_tool.unwrap();
    assert_eq!(pending.tool_call_id, "call_1");

    let mut later = World::new(vec![text("done")]);
    later.stored = world.stored;
    later.handle.set_persist(true);
    later.handle.begin_wait_tool("call_1".into(), 1).unwrap();
    let mut resumed = AgentRun::continue_after_pending_tool(
        "r1".into(),
        cp.context,
        cp.tools,
        pending,
        Some(RunPersist {
            instance_id: "node-b".into(),
            revision: cp.revision,
        }),
        true,
        RunAgentOpts::default(),
        later.now,
    );
    let outcome = later.drive(&mut resumed).unwrap();
    assert_eq!(outcome, RunOutcome::Finished("done".into()));
    assert!(later.ended_with("stop"));
    assert_eq!(later.stored.unwrap().status, RunStatus::Completed);
    assert!(resumed
        .context
        .iter()
        .any(|m| m.role == Role::Tool && m.tool_call_id.as_deref() == Some("call_1")));
}

fn long_history() -> Vec<WireMessage> {
    let mut messages = vec![wire(Role::System, "persona")];
    for i in 0..6 {
        messages.push(user_msg(&format!("user-{i}-{}", "x".repeat(20))));
        messages.push(wire(Role::Assistant, &format!("asst-{i}")));
    }
    messages
}

#[test]
fn summarize_emits_sse_and_compresses_context_for_main_llm() {
    let mut world = World::new(vec![
        MockTurn::TextOnly {
            content: "Goal: test\nDone: steps\nFacts: f\nOpen: none".into(),
            deltas: vec![],
        },
        text("done"),
    ]);
    world.middlewares = default_summarize_chain(ContextConfig {
        summarize_threshold_tokens: 1,
        keep_last_messages: 2,
        max_context_tokens: 100_000,
    });
    world.run(long_history(), vec![], RunAgentOpts::default());
    let summarized_idx = world
        .events
        .iter()
        .position(|e| matches!(e, SseEvent::ContextSummarized { .. }))
        .expect("context.summarized");
    let done_idx = world
        .events
        .iter()
        .position(|e| matches!(e, SseEvent::MessageCompleted { content, .. } if content == "done"))
        .expect("message.completed with done");
    assert!(summarized_idx < done_idx);
    let contexts = world.llm.recorded_contexts();
    assert!(contexts.len() >= 2);
    assert!(contexts[1]
        .iter()
        .any(|m| m.role == Role::System && m.content.starts_with(SUMMARY_PREFIX)));
    assert!(matches!(world.events.last(), Some(SseEvent::RunFinished { .. })));
}

#[test]
fn summarize_failure_over_hard_cap_emits_context_overflow() {
    let mut world = World::new(vec![MockTurn::Fail {
        message: "boom".into(),
    }]);
    world.middlewares = default_summarize_chain(ContextConfig {
        summarize_threshold_tokens: 1,
        keep_last_messages: 2,
        max_context_tokens: 1,
    });
    world.run(long_history(), vec![], RunAgentOpts::default());
    match world.events.last() {
        Some(SseEvent::Error { code, .. }) => {
            assert_eq!(code.as_deref(), Some("context_overflow"));
        }
        other => panic!("expected error with context_overflow, got {other:?}"),
    }
}

#[test]
fn a_failed_chain_keeps_what_its_middlewares_wrote() {
    let mut world = World::new(vec![MockTurn::Fail {
        message: "boom".into(),
    }]);
    world.handle.set_persist(true);
    world.middlewares = vec![
        Middleware::TimeContext(TimeContextMiddleware),
        Middleware::Summarize(SummarizeMiddleware {
            config: ContextConfig {
                summarize_threshold_tokens: 1,
                keep_last_messages: 2,
                max_context_tokens: 1,
            },
        }),
    ];
    let outcome = world.run(long_history(), vec![], RunAgentOpts::default());
    assert_eq!(outcome, RunOutcome::Failed(OrchestratorError::ContextOverflow));
    let cp = world.stored.as_ref().expect("checkpoint");
    assert_eq!(cp.status, RunStatus::Failed);
    assert_eq!(cp.context.len(), long_history().len() + 1);
    let times = cp
        .context
        .iter()
        .filter(|m| m.role == Role::System && m.content.starts_with(TIME_CONTEXT_PREFIX))
        .count();
    assert_eq!(times, 1);
}

#[test]
fn cancel_finishes_without_duplicate_error() {
    let mut world = World::new(vec![calling("calling", &[("call_1", "echo", "{}")])]);
    world.on_tool = Box::new(|handle, _, _| {
        handle.cancel();
        Some(RecvOutcome::Closed)
    });
    let outcome = world.run(vec![user_msg("hi")], vec![echo_tool()], RunAgentOpts::default());
    assert_eq!(outcome, RunOutcome::Failed(OrchestratorError::Cancelled));
    let finished = world.names().iter().filter(|n| **n == "run.finished").count();
    assert_eq!(finished, 1);
    assert!(world.ended_with("cancelled"));
    assert!(!world.names().contains(&"error"));
}

#[test]
fn a_run_that_is_cancelled_while_streaming_stops() {
    let mut world = World::new(vec![text("hello")]);
    world.cancel_on_chunk = true;
    let outcome = world.run(vec![user_msg("hi")], vec![], RunAgentOpts::default());
    assert_eq!(outcome, RunOutcome::Failed(OrchestratorError::Cancelled));
    assert_eq!(world.names(), vec!["run.started", "run.finished"]);
    assert!(world.ended_with("cancelled"));
}

#[test]
fn follow_ups_stop_at_their_limit() {
    let mut world = World::new(vec![]);
    world.llm = MockLlm::script_then_repeat(vec![], text("again"));
    world.follow_up = Box::new(|_| vec![wire(Role::System, "continue")]);
    let outcome = world.run(vec![user_msg("hi")], vec![], guarded(tight(0, 0, 3, 0)));
    assert_eq!(outcome, RunOutcome::Failed(OrchestratorError::FollowUpLimit));
    assert_eq!(world.llm.recorded_contexts().len(), 4);
}

#[test]
fn steering_after_a_text_goes_on() {
    let mut world = World::new(vec![text("one"), text("two")]);
    world.handle.enqueue_steer(vec![user_msg("first")]).unwrap();
    world.run(vec![], vec![], RunAgentOpts::default());
    let contexts = world.llm.recorded_contexts();
    assert_eq!(contexts[0].last().unwrap().content, "first");
    assert_eq!(contexts.len(), 1);
}

#[test]
fn a_failed_tool_is_marked_in_the_context() {
    let mut world = World::new(vec![calling("c", &[("call_1", "echo", "{}")]), text("done")]);
    world.on_tool = Box::new(|handle, id, _| submit(handle, id, "no disk", true));
    world.run(vec![user_msg("hi")], vec![echo_tool()], RunAgentOpts::default());
    let contexts = world.llm.recorded_contexts();
    let result = contexts[1].iter().find(|m| m.role == Role::Tool).unwrap();
    assert_eq!(result.content, "tool_error:no disk");
    assert_eq!(result.name.as_deref(), Some("echo"));
}

#[test]
fn run_before_llm_merges_checkpoint() {
    let effect = run_before_llm(vec![
        Ok(MwAction::Continue(MwEffect {
            events: vec![],
            checkpoint: true,
        })),
        Ok(MwAction::Continue(MwEffect::none())),
    ])
    .unwrap();
    assert!(effect.checkpoint);
    assert!(effect.events.is_empty());
}

#[test]
fn errors_have_texts_codes_and_statuses() {
    let cases = [
        (OrchestratorError::Llm("x".into()), "llm error: x", "llm"),
        (OrchestratorError::ToolTimeout, "tool wait timed out", "timeout"),
        (OrchestratorError::Cancelled, "run cancelled", "cancelled"),
        (
            OrchestratorError::FollowUpLimit,
            "follow-up round limit exceeded",
            "follow_up_limit",
        ),
        (
            OrchestratorError::OwnershipLost,
            "lost run ownership (checkpoint conflict)",
            "not_owner",
        ),
        (
            OrchestratorError::Store("x".into()),
            "checkpoint store error: x",
            "store",
        ),
        (
            OrchestratorError::ContextOverflow,
            "context exceeded max_context_tokens",
            "context_overflow",
        ),
        (OrchestratorError::Guard(REASON_NOOP), "guard: ", REASON_NOOP),
    ];
    for (err, text, code) in cases {
        assert!(err.message().starts_with(text));
        assert_eq!(error_code(&err), code);
        let wanted = if err == OrchestratorError::Cancelled {
            RunStatus::Cancelled
        } else {
            RunStatus::Failed
        };
        assert_eq!(terminal_for(&err), wanted);
    }
}
