use andromeda::json::JsonValue;
use andromeda::llm::chat::{
    chat_request, tool_defs_to_liter, wire_messages_to_liter, ChatMessage,
};
use andromeda::llm::stream::{
    parse_tool_arguments, FinishReason, MappedLiterStream, StreamAcc, StreamChoice, StreamChunk,
    StreamInput, StreamOutput, StreamToolCall,
};
use andromeda::llm::{LlmChunk, MockLlm, MockTurn, ToolCall};
use andromeda::protocol::{Role, ToolCallWire, ToolDef, WireMessage};

fn json(raw: &str) -> JsonValue {
    JsonValue::parse(raw).unwrap()
}

fn wire(role: Role, content: &str) -> WireMessage {
    WireMessage {
        role,
        content: content.into(),
        tool_call_id: None,
        name: None,
        tool_calls: None,
        reasoning_content: None,
    }
}

fn chunk(
    content: Option<&str>,
    tool_calls: Option<Vec<StreamToolCall>>,
    finish_reason: Option<FinishReason>,
) -> StreamChunk {
    StreamChunk {
        choices: vec![StreamChoice {
            content: content.map(str::to_string),
            tool_calls,
            finish_reason,
        }],
    }
}

#[test]
fn maps_wire_roles_to_liter_messages() {
    let messages = [
        wire(Role::System, "sys"),
        wire(Role::User, "hi"),
        wire(Role::Assistant, "ok"),
        WireMessage {
            role: Role::Tool,
            content: "result".into(),
            tool_call_id: Some("call_1".into()),
            name: Some("echo".into()),
            tool_calls: None,
            reasoning_content: None,
        },
    ];
    let mapped = wire_messages_to_liter(&messages);
    assert_eq!(mapped.len(), 4);
    match &mapped[0] {
        ChatMessage::System { content, .. } => assert_eq!(content, "sys"),
        other => panic!("expected System, got {other:?}"),
    }
    match &mapped[1] {
        ChatMessage::User { content, .. } => assert_eq!(content, "hi"),
        other => panic!("expected User, got {other:?}"),
    }
    match &mapped[2] {
        ChatMessage::Assistant {
            content,
            tool_calls,
            ..
        } => {
            assert_eq!(content.as_deref(), Some("ok"));
            assert!(tool_calls.is_none());
        }
        other => panic!("expected Assistant, got {other:?}"),
    }
    match &mapped[3] {
        ChatMessage::Tool {
            content,
            tool_call_id,
            name,
        } => {
            assert_eq!(tool_call_id, "call_1");
            assert_eq!(name.as_deref(), Some("echo"));
            assert_eq!(content, "result");
        }
        other => panic!("expected Tool, got {other:?}"),
    }
}

#[test]
fn maps_assistant_tool_calls_to_liter() {
    let messages = [WireMessage {
        role: Role::Assistant,
        content: "calling echo".into(),
        tool_call_id: None,
        name: None,
        tool_calls: Some(vec![ToolCallWire {
            id: "call_1".into(),
            name: "echo".into(),
            arguments: json(r#"{ "msg": "hi" }"#),
        }]),
        reasoning_content: None,
    }];
    let mapped = wire_messages_to_liter(&messages);
    match &mapped[0] {
        ChatMessage::Assistant { tool_calls, .. } => {
            let calls = tool_calls.as_ref().expect("assistant tool_calls");
            assert_eq!(calls.len(), 1);
            assert_eq!(calls[0].id, "call_1");
            assert_eq!(calls[0].name, "echo");
            let args = JsonValue::parse(&calls[0].arguments).expect("json args");
            assert_eq!(args, json(r#"{ "msg": "hi" }"#));
        }
        other => panic!("expected Assistant, got {other:?}"),
    }
}

#[test]
fn maps_tool_defs_to_liter_functions() {
    let tools = [ToolDef {
        name: "echo".into(),
        description: "repeat".into(),
        parameters: json(r#"{ "type": "object" }"#),
        readonly: None,
    }];
    let mapped = tool_defs_to_liter(&tools);
    assert_eq!(mapped.len(), 1);
    assert_eq!(mapped[0].name, "echo");
    assert_eq!(mapped[0].description.as_deref(), Some("repeat"));
    assert_eq!(mapped[0].parameters, json(r#"{ "type": "object" }"#));
}

#[test]
fn maps_text_deltas_then_completed() {
    let mut acc = StreamAcc::default();
    let first = acc.apply(&chunk(Some("Hel"), None, None));
    let second = acc.apply(&chunk(Some("lo"), None, Some(FinishReason::Stop)));
    assert_eq!(first, vec![LlmChunk::TextDelta("Hel".into())]);
    assert_eq!(
        second,
        vec![
            LlmChunk::TextDelta("lo".into()),
            LlmChunk::Completed {
                content: "Hello".into(),
                tool_calls: vec![],
                reasoning_content: None,
            },
        ]
    );
    assert!(acc.finish().is_none());
}

#[test]
fn maps_streamed_tool_calls_and_flushes_if_no_finish() {
    let mut acc = StreamAcc::default();
    let start = acc.apply(&chunk(
        None,
        Some(vec![StreamToolCall {
            index: 0,
            id: Some("call_1".into()),
            name: Some("echo".into()),
            arguments: Some("{\"msg\":".into()),
        }]),
        None,
    ));
    let more = acc.apply(&chunk(
        None,
        Some(vec![StreamToolCall {
            index: 0,
            id: None,
            name: None,
            arguments: Some("\"hi\"}".into()),
        }]),
        None,
    ));
    assert!(start.is_empty());
    assert!(more.is_empty());
    match acc.finish() {
        Some(LlmChunk::Completed {
            content,
            tool_calls,
            ..
        }) => {
            assert_eq!(content, "");
            assert_eq!(tool_calls.len(), 1);
            assert_eq!(tool_calls[0].id, "call_1");
            assert_eq!(tool_calls[0].name, "echo");
            assert_eq!(tool_calls[0].arguments, json(r#"{ "msg": "hi" }"#));
        }
        other => panic!("expected Completed, got {other:?}"),
    }
}

#[test]
fn mock_yields_delta_then_completed_with_tool_call() {
    let mut llm = MockLlm::script(vec![MockTurn::WithToolCalls {
        content: "I'll call echo".into(),
        deltas: vec!["I'll ".into(), "call echo".into()],
        tool_calls: vec![ToolCall {
            id: "call_1".into(),
            name: "echo".into(),
            arguments: json(r#"{ "msg": "hi" }"#),
        }],
    }]);
    let messages = [wire(Role::User, "hi")];
    let tools = [ToolDef {
        name: "echo".into(),
        description: "echo".into(),
        parameters: json(r#"{ "type": "object" }"#),
        readonly: None,
    }];
    let mut stream = llm.stream(&messages, &tools).unwrap().into_iter();
    assert_eq!(
        stream.next().unwrap().unwrap(),
        LlmChunk::TextDelta("I'll ".into())
    );
    assert_eq!(
        stream.next().unwrap().unwrap(),
        LlmChunk::TextDelta("call echo".into())
    );
    match stream.next().unwrap().unwrap() {
        LlmChunk::Completed {
            content,
            tool_calls,
            ..
        } => {
            assert_eq!(content, "I'll call echo");
            assert_eq!(tool_calls.len(), 1);
            assert_eq!(tool_calls[0].id, "call_1");
            assert_eq!(tool_calls[0].name, "echo");
            assert_eq!(tool_calls[0].arguments, json(r#"{ "msg": "hi" }"#));
        }
        other => panic!("expected Completed, got {other:?}"),
    }
    assert!(stream.next().is_none());
}

#[test]
fn a_script_that_is_over_fails_or_repeats() {
    let mut llm = MockLlm::script(vec![]);
    assert_eq!(
        llm.stream(&[], &[]).unwrap_err(),
        "mock LLM script exhausted"
    );
    let mut llm = MockLlm::script_then_repeat(
        vec![],
        MockTurn::TextOnly {
            content: "again".into(),
            deltas: vec![],
        },
    );
    for _ in 0..3 {
        assert_eq!(llm.stream(&[wire(Role::User, "x")], &[]).unwrap().len(), 1);
    }
    assert_eq!(llm.recorded_contexts().len(), 3);
}

#[test]
fn arguments_are_json_or_text() {
    assert_eq!(parse_tool_arguments(""), json("{}"));
    assert_eq!(parse_tool_arguments("{\"a\":1}"), json("{\"a\":1}"));
    assert_eq!(parse_tool_arguments("{"), JsonValue::string("{"));
}

#[test]
fn fragments_are_ordered_by_index() {
    let mut acc = StreamAcc::default();
    let part = |index: u32, id: &str| StreamToolCall {
        index,
        id: Some(id.to_string()),
        name: Some("t".into()),
        arguments: None,
    };
    acc.apply(&chunk(None, Some(vec![part(2, "c"), part(0, "a")]), None));
    acc.apply(&chunk(None, Some(vec![part(1, "b")]), None));
    match acc.finish() {
        Some(LlmChunk::Completed { tool_calls, .. }) => {
            let ids: Vec<&str> = tool_calls.iter().map(|c| c.id.as_str()).collect();
            assert_eq!(ids, vec!["a", "b", "c"]);
        }
        other => panic!("expected Completed, got {other:?}"),
    }
    assert!(acc.finish().is_none());
}

#[test]
fn a_stream_ends_with_its_completion() {
    let mut stream = MappedLiterStream::new();
    assert_eq!(stream.poll_next(), StreamOutput::Wait);
    stream.feed(StreamInput::Chunk(chunk(Some("hi"), None, None)));
    assert_eq!(
        stream.poll_next(),
        StreamOutput::Item(Ok(LlmChunk::TextDelta("hi".into())))
    );
    assert_eq!(stream.poll_next(), StreamOutput::Wait);
    stream.feed(StreamInput::End);
    assert_eq!(
        stream.poll_next(),
        StreamOutput::Item(Ok(LlmChunk::Completed {
            content: "hi".into(),
            tool_calls: vec![],
            reasoning_content: None,
        }))
    );
    assert_eq!(stream.poll_next(), StreamOutput::End);
}

#[test]
fn a_stream_that_fails_says_so_and_ends() {
    let mut stream = MappedLiterStream::new();
    stream.feed(StreamInput::Failed("boom".into()));
    assert!(matches!(
        stream.poll_next(),
        StreamOutput::Item(Err(err)) if err.contains("boom")
    ));
    assert_eq!(stream.poll_next(), StreamOutput::End);
}

#[test]
fn a_request_without_tools_names_none() {
    let request = chat_request("m", &[wire(Role::User, "hi")], &[]);
    assert_eq!(request.model, "m");
    assert!(request.tools.is_none());
    assert_eq!(request.messages.len(), 1);
}

#[test]
fn reasoning_goes_back_where_the_turn_used_tools() {
    let mut message = wire(Role::Assistant, "x");
    message.reasoning_content = Some("because".into());
    match &wire_messages_to_liter(&[message])[0] {
        ChatMessage::Assistant {
            reasoning_content, ..
        } => assert_eq!(*reasoning_content, None),
        other => panic!("expected Assistant, got {other:?}"),
    }
    let mut message = wire(Role::Assistant, "x");
    message.reasoning_content = Some("because".into());
    message.tool_calls = Some(vec![ToolCallWire {
        id: "c".into(),
        name: "t".into(),
        arguments: json("{}"),
    }]);
    match &wire_messages_to_liter(&[message])[0] {
        ChatMessage::Assistant {
            reasoning_content, ..
        } => assert_eq!(reasoning_content.as_deref(), Some("because")),
        other => panic!("expected Assistant, got {other:?}"),
    }
}
