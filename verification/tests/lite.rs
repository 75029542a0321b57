use andromeda::agent::orchestrator::state::Steered;
use andromeda::config::LoadFailure;
use andromeda::json::JsonValue;
use andromeda::lite::config::{AppConfig, RawConfig};
use andromeda::lite::http::{cancel_run, steer, tool_results, ApiError};
use andromeda::lite::orchestrator::{
    AgentRun, Ask, Happening, OrchestratorError, Outcome, StepOut,
};
use andromeda::lite::run::{RunHandle, RunRegistry};
use andromeda::llm::{ChunkResult, MockLlm, MockTurn, ToolCall};
use andromeda::protocol::{
    MessageSource, Role, SseEvent, SteerRequest, ToolResultRequest, WireMessage,
};
use andromeda::runtime::{RecvOutcome, RunId, SubmitError, WaitError};

fn user_msg(content: &str) -> WireMessage {
    WireMessage {
        role: Role::User,
        content: content.into(),
        tool_call_id: None,
        name: None,
        tool_calls: None,
        reasoning_content: None,
    }
}

fn result(id: &str, content: &str) -> ToolResultRequest {
    ToolResultRequest {
        tool_call_id: id.into(),
        content: content.into(),
        is_error: false,
    }
}

fn joined(messages: Vec<WireMessage>) -> Vec<Steered> {
    messages
        .into_iter()
        .map(|message| Steered {
            message,
            message_id: "m".into(),
        })
        .collect()
}

/// Runs a loop to its end; the answer of a client tool comes from `on_tool`.
fn drive(
    run: &mut AgentRun,
    llm: &mut MockLlm,
    handle: &mut RunHandle<u32>,
    on_tool: &mut dyn FnMut(&mut RunHandle<u32>, &str) -> RecvOutcome,
    follow_ups: &mut Vec<Vec<WireMessage>>,
) -> (Vec<SseEvent>, Outcome) {
    let mut events = Vec::new();
    let mut items: Vec<ChunkResult> = vec![];
    let mut happening = Happening::Begin;
    loop {
        assert!(run.is_expected(&happening));
        let StepOut { events: more, ask } = run.step(happening);
        events.extend(more);
        happening = match ask {
            Ask::Steer => Happening::Steered(joined(handle.drain_steer())),
            Ask::OpenStream(tools) => match llm.stream(&run.context, &tools) {
                Ok(stream) => {
                    items = stream;
                    Happening::StreamOpened("msg".into())
                }
                Err(err) => Happening::StreamRefused(err),
            },
            Ask::NextChunk => {
                if items.is_empty() {
                    Happening::StreamEnd
                } else {
                    match items.remove(0) {
                        Ok(chunk) => Happening::Chunk(chunk),
                        Err(err) => Happening::ChunkFailed(err),
                    }
                }
            }
            Ask::WaitTool(id) => match handle.begin_wait_tool(id.clone(), 1) {
                Err(err) => Happening::ToolWaitFailed(err),
                Ok(()) => {
                    let outcome = on_tool(handle, &id);
                    match handle.recv_tool(outcome) {
                        Ok(result) => Happening::ToolResult(result),
                        Err(err) => Happening::ToolWaitFailed(err),
                    }
                }
            },
            Ask::FollowUps => Happening::FollowUps(joined(if follow_ups.is_empty() {
                vec![]
            } else {
                follow_ups.remove(0)
            })),
            Ask::Return(outcome) => return (events, outcome),
        };
    }
}

fn new_handle() -> RunHandle<u32> {
    RunHandle::new(RunId("r1".into()))
}

fn new_loop() -> AgentRun {
    AgentRun::run_agent("r1".into(), vec![user_msg("hi")], vec![])
}

fn call_turn() -> MockTurn {
    MockTurn::WithToolCalls {
        content: "calling".into(),
        deltas: vec!["calling".into()],
        tool_calls: vec![ToolCall {
            id: "call_1".into(),
            name: "echo".into(),
            arguments: JsonValue::parse("{}").unwrap(),
        }],
    }
}

fn text(content: &str) -> MockTurn {
    MockTurn::TextOnly {
        content: content.into(),
        deltas: vec![content.into()],
    }
}

fn names(events: &[SseEvent]) -> Vec<&'static str> {
    events.iter().map(|e| e.event_name()).collect()
}

#[test]
fn a_text_is_streamed_and_the_run_is_over() {
    let mut llm = MockLlm::script(vec![text("hello")]);
    let (events, outcome) = drive(
        &mut new_loop(),
        &mut llm,
        &mut new_handle(),
        &mut |_, _| RecvOutcome::Closed,
        &mut vec![],
    );
    assert_eq!(outcome, Outcome::Finished);
    assert_eq!(
        names(&events),
        vec!["run.started", "message.delta", "message.completed", "run.finished"]
    );
}

#[test]
fn tool_result_unblocks_waiter() {
    let mut llm = MockLlm::script(vec![call_turn(), text("done")]);
    let (events, outcome) = drive(
        &mut new_loop(),
        &mut llm,
        &mut new_handle(),
        &mut |handle, id| {
            handle.enqueue_steer(vec![user_msg("mild")]).unwrap();
            let answer = result(id, "ok");
            assert_eq!(handle.submit_tool_result(&answer), Ok(1));
            RecvOutcome::Result(answer)
        },
        &mut vec![vec![user_msg("more")], vec![]],
    );
    assert_eq!(
        outcome,
        Outcome::Failed(OrchestratorError::Llm("mock LLM script exhausted".into()))
    );
    assert_eq!(
        names(&events),
        vec![
            "run.started",
            "message.delta",
            "message.completed",
            "tool.request",
            "message.completed",
            "message.delta",
            "message.completed",
            "message.completed",
            "error",
        ]
    );
    assert!(matches!(
        &events[4],
        SseEvent::MessageCompleted { source: Some(MessageSource::Steer), content, .. } if content == "mild"
    ));
    assert!(matches!(
        &events[7],
        SseEvent::MessageCompleted { source: Some(MessageSource::FollowUp), .. }
    ));
    let contexts = llm.recorded_contexts();
    assert!(contexts[1]
        .iter()
        .any(|m| m.role == Role::Tool && m.content == "ok"));
}

#[test]
fn a_tool_that_never_answers_is_an_error() {
    let mut llm = MockLlm::script(vec![call_turn()]);
    let (events, outcome) = drive(
        &mut new_loop(),
        &mut llm,
        &mut new_handle(),
        &mut |_, _| RecvOutcome::TimedOut,
        &mut vec![],
    );
    assert_eq!(outcome, Outcome::Failed(OrchestratorError::ToolTimeout));
    assert!(matches!(
        events.last(),
        Some(SseEvent::Error { code: Some(code), message, .. })
            if code == "timeout" && message == "tool wait timed out"
    ));
}

#[test]
fn a_cancelled_run_says_so_once() {
    let mut llm = MockLlm::script(vec![call_turn()]);
    let (events, outcome) = drive(
        &mut new_loop(),
        &mut llm,
        &mut new_handle(),
        &mut |handle, _| {
            handle.cancel();
            RecvOutcome::Closed
        },
        &mut vec![],
    );
    assert_eq!(outcome, Outcome::Failed(OrchestratorError::Cancelled));
    assert!(matches!(
        events.last(),
        Some(SseEvent::RunFinished { reason, .. }) if reason == "cancelled"
    ));
}

#[test]
fn a_run_that_no_one_reads_is_over() {
    let mut run = new_loop();
    run.step(Happening::Begin);
    assert_eq!(run.sse_closed(), Outcome::Failed(OrchestratorError::SseClosed));
    assert!(!run.is_expected(&Happening::Steered(vec![])));
    let mut run = new_loop();
    run.step(Happening::Begin);
    run.step(Happening::Steered(vec![]));
    run.step(Happening::StreamRefused("boom".into()));
    assert_eq!(
        run.sse_closed(),
        Outcome::Failed(OrchestratorError::Llm("boom".into()))
    );
}

#[test]
fn a_stream_without_an_end_is_an_error() {
    let mut run = new_loop();
    run.step(Happening::Begin);
    run.step(Happening::Steered(vec![]));
    run.step(Happening::StreamOpened("m".into()));
    let out = run.step(Happening::StreamEnd);
    assert!(matches!(out.ask, Ask::Return(Outcome::Failed(OrchestratorError::Llm(_)))));
    assert_eq!(OrchestratorError::SseClosed.message(), "sse channel closed");
    assert_eq!(OrchestratorError::Cancelled.message(), "run cancelled");
}

#[test]
fn one_waits_at_a_time_and_for_its_own_call() {
    let mut handle = new_handle();
    assert_eq!(
        handle.submit_tool_result(&result("call_1", "early")),
        Err(SubmitError::Conflict)
    );
    handle.begin_wait_tool("call_1".into(), 1).unwrap();
    assert_eq!(
        handle.submit_tool_result(&result("call_other", "nope")),
        Err(SubmitError::Conflict)
    );
    assert_eq!(handle.submit_tool_result(&result("call_1", "ok")), Ok(1));
    handle.begin_wait_tool("a".into(), 1).unwrap();
    handle.begin_wait_tool("b".into(), 2).unwrap();
    assert_eq!(
        handle.submit_tool_result(&result("a", "x")),
        Err(SubmitError::Conflict)
    );
    assert_eq!(handle.recv_tool(RecvOutcome::TimedOut), Err(WaitError::Timeout));
    assert_eq!(
        handle.submit_tool_result(&result("b", "x")),
        Err(SubmitError::Conflict)
    );
    handle.finish();
    assert_eq!(handle.enqueue_steer(vec![]), Err(SubmitError::Conflict));
    assert!(!handle.is_cancelled());
    handle.cancel();
    assert!(handle.is_cancelled());
    assert_eq!(handle.begin_wait_tool("c".into(), 3), Err(WaitError::Cancelled));
}

#[test]
fn requests_on_runs() {
    let mut registry: RunRegistry<u32> = RunRegistry::new();
    let id = registry.create();
    assert_eq!(registry.get(&id.0).unwrap().id(), &id);
    assert_eq!(
        tool_results(&mut registry, "x", &result("c", "")),
        Err(ApiError::NotFound)
    );
    assert_eq!(
        tool_results(&mut registry, &id.0, &result("c", "")),
        Err(ApiError::Conflict)
    );
    registry
        .get_mut(&id.0)
        .unwrap()
        .begin_wait_tool("c".into(), 9)
        .unwrap();
    assert_eq!(tool_results(&mut registry, &id.0, &result("c", "")), Ok(9));
    let body = || SteerRequest {
        messages: vec![user_msg("a")],
    };
    assert_eq!(steer(&mut registry, &id.0, body()), Ok(1));
    assert_eq!(steer(&mut registry, "x", body()), Err(ApiError::NotFound));
    assert_eq!(cancel_run(&mut registry, "x"), Err(ApiError::NotFound));
    assert_eq!(cancel_run(&mut registry, &id.0), Ok(()));
    assert_eq!(steer(&mut registry, &id.0, body()), Err(ApiError::Conflict));
    assert_eq!(ApiError::NotFound.status(), 404);
    assert_eq!(ApiError::Conflict.status(), 409);
    assert_eq!(ApiError::Conflict.body().to_text(), r#"{"error":"conflict"}"#);
}

fn raw(api_key: &str) -> RawConfig {
    RawConfig {
        api_key: api_key.into(),
        base_url: None,
        model: None,
        listen: None,
        tool_timeout_secs: None,
        follow_up_policy: None,
    }
}

#[test]
fn the_smaller_server_has_its_own_defaults() {
    let config = AppConfig::load("c.toml", Ok(raw("sk"))).unwrap();
    assert_eq!(config.model, "gpt-4o-mini");
    assert_eq!(config.listen, "127.0.0.1:8080");
    assert_eq!(config.tool_timeout_secs, 60);
    assert_eq!(config.follow_up_policy, "noop");
    assert_eq!(
        AppConfig::load("c.toml", Ok(raw(" "))).unwrap_err(),
        "c.toml: api_key is required"
    );
    assert_eq!(
        AppConfig::load("c.toml", Err(LoadFailure::Parse("bad".into()))).unwrap_err(),
        "failed to parse c.toml: bad"
    );
    assert!(AppConfig::load("c.toml", Err(LoadFailure::Read("x".into())))
        .unwrap_err()
        .starts_with("failed to read c.toml: x\n"));
}
