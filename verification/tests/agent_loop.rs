use andromeda::agent_loop::{
    agent_loop, agent_loop_continue, end_messages, LoopAsk, LoopInput, LoopOut, LoopRun,
};
use andromeda::dup::Dup;
use andromeda::error::LoopError;
use andromeda::event_stream::{EventStream, Polled};
use andromeda::json::JsonValue;
use andromeda::stub_backend::{StubBackend, StubTurn};
use andromeda::types::{AgentContext, AgentEvent, AgentMessage, ContentPart, StopReason};

/// Runs a loop on a scripted backend to its end.
fn drive(
    mut run: LoopRun,
    mut out: LoopOut,
    backend: &mut StubBackend,
    cancelled: bool,
) -> (Vec<AgentEvent>, Vec<AgentMessage>) {
    let mut events = Vec::new();
    loop {
        events.append(&mut out.events);
        let input = match out.ask {
            LoopAsk::Steering => LoopInput::Steering(vec![]),
            LoopAsk::Stream => {
                let mut context = run.context.dup();
                match backend.stream_assistant(&mut context) {
                    Ok((mut more, message)) => {
                        events.append(&mut more);
                        LoopInput::Streamed(context, message)
                    }
                    Err(_) => LoopInput::StreamFailed { cancelled },
                }
            }
            LoopAsk::Execute(call) => match backend.execute_tool(&call) {
                Ok((mut more, message)) => {
                    events.append(&mut more);
                    LoopInput::Executed(message)
                }
                Err(err) => LoopInput::ExecuteFailed(err),
            },
            LoopAsk::ShouldStop(_) => LoopInput::Stop(false),
            LoopAsk::FollowUp => LoopInput::FollowUp(backend.get_follow_up()),
            LoopAsk::Return(messages) => return (events, messages),
        };
        assert!(run.is_expected(&input));
        out = run.run_loop(input);
    }
}

fn user(content: &str) -> AgentMessage {
    AgentMessage::User {
        content: content.into(),
    }
}

fn kind(event: &AgentEvent) -> &'static str {
    match event {
        AgentEvent::AgentStart => "agent_start",
        AgentEvent::AgentEnd { .. } => "agent_end",
        AgentEvent::TurnStart => "turn_start",
        AgentEvent::TurnEnd { .. } => "turn_end",
        AgentEvent::MessageStart { .. } => "message_start",
        AgentEvent::MessageUpdate { .. } => "message_update",
        AgentEvent::MessageEnd { .. } => "message_end",
        AgentEvent::ToolExecutionStart { .. } => "tool_start",
        AgentEvent::ToolExecutionUpdate { .. } => "tool_update",
        AgentEvent::ToolExecutionEnd { .. } => "tool_end",
    }
}

fn tool_turn(name: &str) -> StubTurn {
    StubTurn::AssistantWithTool {
        name: name.into(),
        args: JsonValue::parse("{}").unwrap(),
    }
}

#[test]
fn continue_rejects_empty_and_assistant_tail() {
    let empty = AgentContext::default();
    assert!(matches!(
        agent_loop_continue(empty),
        Err(LoopError::InvalidContinue(_))
    ));

    let assistant_tail = AgentContext {
        messages: vec![AgentMessage::Assistant {
            parts: vec![ContentPart::Text { text: "hi".into() }],
            stop_reason: StopReason::Stop,
        }],
        tools: vec![],
    };
    assert!(matches!(
        agent_loop_continue(assistant_tail),
        Err(LoopError::InvalidContinue(_))
    ));
}

#[test]
fn cancel_token_yields_aborted() {
    let (run, out) = agent_loop(vec![user("hi")], AgentContext::default());
    let (events, messages) = drive(run, out, &mut StubBackend::script(vec![]), true);
    assert!(matches!(events.last(), Some(AgentEvent::AgentEnd { .. })));
    let last = messages.last().expect("expected assistant on abort");
    assert!(
        matches!(
            last,
            AgentMessage::Assistant {
                stop_reason: StopReason::Aborted,
                ..
            }
        ),
        "expected StopReason::Aborted, got {last:?}"
    );
}

#[test]
fn phase_a_tool_then_final_text_event_order() {
    let mut backend = StubBackend::script(vec![
        StubTurn::AssistantWithTool {
            name: "echo".into(),
            args: JsonValue::parse(r#"{"x": 1}"#).unwrap(),
        },
        StubTurn::AssistantText("done".into()),
    ]);
    let (run, out) = agent_loop(vec![user("hi")], AgentContext::default());
    let (events, messages) = drive(run, out, &mut backend, false);
    let kinds: Vec<&str> = events.iter().map(kind).collect();
    assert_eq!(
        kinds,
        vec![
            "agent_start",
            "turn_start",
            "message_start",
            "message_end",
            "message_start",
            "message_update",
            "message_end",
            "tool_start",
            "tool_end",
            "message_start",
            "message_end",
            "turn_end",
            "turn_start",
            "message_start",
            "message_update",
            "message_end",
            "turn_end",
            "agent_end",
        ]
    );
    assert_eq!(messages.len(), 4);
    assert_eq!(messages[0], user("hi"));
    assert!(events.iter().any(|e| matches!(
        e,
        AgentEvent::ToolExecutionStart { args, .. }
            if args.get("x").and_then(|x| x.as_u64()) == Some(1)
    )));
    let result = AgentMessage::ToolResult {
        tool_call_id: "call-0".into(),
        tool_name: "echo".into(),
        content: "ok".into(),
        is_error: false,
        terminate: false,
    };
    assert_eq!(messages[2], result);
    assert_eq!(
        events[9],
        AgentEvent::MessageStart {
            message: result.dup()
        }
    );
    assert_eq!(events[10], AgentEvent::MessageEnd { message: result });
    let done = AgentMessage::Assistant {
        parts: vec![ContentPart::Text { text: "done".into() }],
        stop_reason: StopReason::Stop,
    };
    assert_eq!(messages[3], done);
    assert_eq!(events[15], AgentEvent::MessageEnd { message: done });
    match events.last() {
        Some(AgentEvent::AgentEnd { messages: told }) => assert_eq!(&messages, told),
        other => panic!("expected AgentEnd last, got {other:?}"),
    }
}

#[test]
fn phase_a_follow_up_restarts_outer_loop() {
    let mut backend = StubBackend::script(vec![
        StubTurn::AssistantText("first".into()),
        StubTurn::AssistantText("second".into()),
    ])
    .with_follow_up(user("more"));
    let (run, out) = agent_loop(vec![user("hi")], AgentContext::default());
    let (events, messages) = drive(run, out, &mut backend, false);
    assert_eq!(events.iter().filter(|e| kind(e) == "turn_start").count(), 2);
    assert_eq!(events.iter().filter(|e| kind(e) == "turn_end").count(), 2);
    assert_eq!(events.iter().filter(|e| kind(e) == "agent_end").count(), 1);
    assert_eq!(messages.len(), 4);
    assert_eq!(messages[2], user("more"));
    let texts: Vec<&str> = messages
        .iter()
        .filter_map(|m| match m {
            AgentMessage::Assistant {
                parts,
                stop_reason: StopReason::Stop,
            } => parts.iter().find_map(|p| match p {
                ContentPart::Text { text } => Some(text.as_str()),
                _ => None,
            }),
            _ => None,
        })
        .collect();
    assert_eq!(texts, vec!["first", "second"]);
    assert!(matches!(events.first(), Some(AgentEvent::AgentStart)));
    assert!(matches!(events.last(), Some(AgentEvent::AgentEnd { .. })));
}

#[test]
fn a_failed_stream_is_an_error_where_no_one_cancelled() {
    let (run, out) = agent_loop(vec![user("hi")], AgentContext::default());
    let (_, messages) = drive(run, out, &mut StubBackend::script(vec![]), false);
    assert!(matches!(
        messages.last(),
        Some(AgentMessage::Assistant {
            stop_reason: StopReason::Error,
            ..
        })
    ));
}

#[test]
fn going_on_adds_no_prompt() {
    let context = AgentContext {
        messages: vec![user("hi")],
        tools: vec![],
    };
    let (run, out) = agent_loop_continue(context).unwrap();
    let mut backend = StubBackend::script(vec![StubTurn::AssistantText("done".into())]);
    let (events, messages) = drive(run, out, &mut backend, false);
    assert_eq!(kind(&events[0]), "agent_start");
    assert_eq!(messages.len(), 1);
}

#[test]
fn tools_that_all_terminate_end_the_run() {
    let (mut run, mut out) = agent_loop(vec![user("hi")], AgentContext::default());
    assert!(matches!(out.ask, LoopAsk::Steering));
    out = run.run_loop(LoopInput::Steering(vec![]));
    assert!(matches!(out.ask, LoopAsk::Stream));
    let mut context = run.context.dup();
    let mut backend = StubBackend::script(vec![tool_turn("quit")]);
    let (_, message) = backend.stream_assistant(&mut context).unwrap();
    out = run.run_loop(LoopInput::Streamed(context, message));
    assert!(matches!(out.ask, LoopAsk::Execute(_)));
    out = run.run_loop(LoopInput::Executed(AgentMessage::ToolResult {
        tool_call_id: "call-0".into(),
        tool_name: "quit".into(),
        content: "bye".into(),
        is_error: false,
        terminate: true,
    }));
    match out.ask {
        LoopAsk::ShouldStop(turn) => {
            assert_eq!(turn.tool_results.len(), 1);
            assert_eq!(turn.context_messages_len, 3);
        }
        other => panic!("expected ShouldStop, got {other:?}"),
    }
    out = run.run_loop(LoopInput::Stop(false));
    assert!(matches!(out.ask, LoopAsk::Steering));
    out = run.run_loop(LoopInput::Steering(vec![]));
    assert!(matches!(out.ask, LoopAsk::FollowUp));
    out = run.run_loop(LoopInput::FollowUp(vec![]));
    assert!(matches!(out.ask, LoopAsk::Return(_)));
    assert!(!run.is_expected(&LoopInput::FollowUp(vec![])));
}

#[test]
fn a_tool_that_cannot_be_run_has_an_error_result() {
    let (mut run, _) = agent_loop(vec![user("hi")], AgentContext::default());
    run.run_loop(LoopInput::Steering(vec![]));
    let mut context = run.context.dup();
    let mut backend = StubBackend::script(vec![tool_turn("echo")]);
    let (_, message) = backend.stream_assistant(&mut context).unwrap();
    run.run_loop(LoopInput::Streamed(context, message));
    let out = run.run_loop(LoopInput::ExecuteFailed(LoopError::Backend("boom".into())));
    match out.ask {
        LoopAsk::ShouldStop(turn) => assert_eq!(
            turn.tool_results,
            vec![AgentMessage::ToolResult {
                tool_call_id: "call-0".into(),
                tool_name: "echo".into(),
                content: "backend error: boom".into(),
                is_error: true,
                terminate: false,
            }]
        ),
        other => panic!("expected ShouldStop, got {other:?}"),
    }
}

#[test]
fn a_backend_may_stop_the_loop_after_a_turn() {
    let (mut run, _) = agent_loop(vec![user("hi")], AgentContext::default());
    run.run_loop(LoopInput::Steering(vec![]));
    let mut context = run.context.dup();
    let mut backend = StubBackend::script(vec![StubTurn::AssistantText("x".into())]);
    let (_, message) = backend.stream_assistant(&mut context).unwrap();
    run.run_loop(LoopInput::Streamed(context, message));
    let out = run.run_loop(LoopInput::Stop(true));
    match out.ask {
        LoopAsk::Return(messages) => assert_eq!(messages.len(), 2),
        other => panic!("expected Return, got {other:?}"),
    }
}

#[test]
fn push_complete_event_resolves_result_handle() {
    let mut stream: EventStream<i32, i32, &str> = EventStream::new();
    assert!(stream.result_handle("waiter").is_none());
    assert!(stream.push(1, None).is_none());
    assert_eq!(stream.push(-7, Some(7)), Some(("waiter", 7)));
    assert_eq!(stream.poll_next(), Polled::Item(1));
    assert_eq!(stream.poll_next(), Polled::Item(-7));
    assert_eq!(stream.poll_next(), Polled::Ended);
}

#[test]
fn pusher_allows_concurrent_emit_while_consuming() {
    let mut stream: EventStream<i32, i32, &str> = EventStream::new();
    let mut events = Vec::new();
    assert!(stream.result_handle("waiter").is_none());
    assert_eq!(stream.poll_next(), Polled::Pending);
    stream.push(1, None);
    if let Polled::Item(e) = stream.poll_next() {
        events.push(e);
    }
    assert_eq!(stream.poll_next(), Polled::Pending);
    assert_eq!(stream.push(-42, Some(42)), Some(("waiter", 42)));
    if let Polled::Item(e) = stream.poll_next() {
        events.push(e);
    }
    assert_eq!(stream.poll_next(), Polled::Ended);
    assert_eq!(events, vec![1, -42]);
}

#[test]
fn a_result_is_kept_for_a_waiter_who_comes_late() {
    let mut stream: EventStream<i32, i32, &str> = EventStream::new();
    assert_eq!(stream.poll_next(), Polled::Pending);
    assert!(stream.push(-42, Some(42)).is_none());
    assert!(stream.push(5, None).is_none());
    assert_eq!(stream.result_handle("late"), Some(("late", 42)));
    assert_eq!(stream.poll_next(), Polled::Item(-42));
    assert_eq!(stream.poll_next(), Polled::Ended);
}

#[test]
fn only_the_end_of_a_loop_has_its_messages() {
    let messages = vec![user("hi")];
    let end = AgentEvent::AgentEnd {
        messages: messages.dup(),
    };
    assert_eq!(end_messages(&end), Some(messages));
    assert_eq!(end_messages(&AgentEvent::AgentStart), None);
    assert_eq!(end_messages(&AgentEvent::MessageEnd { message: user("hi") }), None);
}

#[test]
fn a_stream_can_end_without_a_result() {
    let mut stream: EventStream<i32, i32, &str> = EventStream::new();
    assert!(stream.result_handle("w").is_none());
    assert!(stream.end(None).is_none());
    assert_eq!(stream.poll_next(), Polled::Ended);
    assert_eq!(stream.end(Some(3)), Some(("w", 3)));
}

#[test]
fn a_script_numbers_its_calls_and_then_is_over() {
    let mut backend = StubBackend::script(vec![tool_turn("a"), tool_turn("b")]);
    let mut context = AgentContext::default();
    for id in ["call-0", "call-1"] {
        let (events, message) = backend.stream_assistant(&mut context).unwrap();
        assert_eq!(events.len(), 3);
        match message {
            AgentMessage::Assistant { parts, .. } => match &parts[0] {
                ContentPart::ToolCall { id: got, .. } => assert_eq!(got, id),
                other => panic!("expected call, got {other:?}"),
            },
            other => panic!("expected assistant, got {other:?}"),
        }
    }
    assert_eq!(context.messages.len(), 2);
    assert_eq!(
        backend.stream_assistant(&mut context).unwrap_err(),
        LoopError::Backend("stub script exhausted".into())
    );
    assert!(backend
        .execute_tool(&ContentPart::Text { text: "".into() })
        .is_err());
    assert!(backend.get_follow_up().is_empty());
}

#[test]
fn errors_of_the_loop_have_texts() {
    assert_eq!(
        LoopError::InvalidContinue("x".into()).message(),
        "invalid continue: x"
    );
    assert_eq!(LoopError::Backend("x".into()).message(), "backend error: x");
}
