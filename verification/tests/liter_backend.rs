use andromeda::error::LoopError;
use andromeda::json::JsonValue;
use andromeda::keyed::Keyed;
use andromeda::liter_backend::{
    begin_stream, consume_stream, dispatch_tool, echo_executor, echo_tool_def, map_finish_reason,
    refused_request, start_tool, to_llm_messages, to_llm_tools, LiterBackend, NamedTool,
    StreamAccumulator, StreamStep, ToolExecResult, ToolExecutor,
};
use andromeda::llm::chat::ChatMessage;
use andromeda::llm::stream::{FinishReason, StreamChoice, StreamChunk, StreamToolCall};
use andromeda::types::{
    AgentContext, AgentEvent, AgentMessage, AgentTool, ContentPart, StopReason, ToolCall,
};

fn json(raw: &str) -> JsonValue {
    JsonValue::parse(raw).unwrap()
}

struct Shout;

impl ToolExecutor for Shout {
    fn execute(&self, args: &JsonValue) -> ToolExecResult {
        ToolExecResult {
            content: args.to_text().to_uppercase(),
            is_error: false,
            terminate: true,
        }
    }
}

fn text_chunk(content: &str) -> StreamChunk {
    StreamChunk {
        choices: vec![StreamChoice {
            content: Some(content.into()),
            tool_calls: None,
            finish_reason: None,
        }],
    }
}

fn finish_chunk(reason: FinishReason) -> StreamChunk {
    StreamChunk {
        choices: vec![StreamChoice {
            content: None,
            tool_calls: None,
            finish_reason: Some(reason),
        }],
    }
}

fn call_chunk(call: StreamToolCall) -> StreamChunk {
    StreamChunk {
        choices: vec![StreamChoice {
            content: None,
            tool_calls: Some(vec![call]),
            finish_reason: None,
        }],
    }
}

#[test]
fn to_llm_messages_maps_user_assistant_tool() {
    let messages = vec![
        AgentMessage::User {
            content: "hello".into(),
        },
        AgentMessage::Assistant {
            parts: vec![
                ContentPart::Text {
                    text: "calling".into(),
                },
                ContentPart::ToolCall {
                    id: "call-1".into(),
                    name: "echo".into(),
                    arguments: json(r#"{"x": 1}"#),
                },
            ],
            stop_reason: StopReason::ToolCalls,
        },
        AgentMessage::ToolResult {
            tool_call_id: "call-1".into(),
            tool_name: "echo".into(),
            content: "ok".into(),
            is_error: false,
            terminate: false,
        },
    ];

    let llm = to_llm_messages(&messages);
    assert_eq!(llm.len(), 3);

    match &llm[0] {
        ChatMessage::User { content, .. } => assert_eq!(content, "hello"),
        other => panic!("expected user, got {other:?}"),
    }

    match &llm[1] {
        ChatMessage::Assistant {
            content,
            tool_calls,
            ..
        } => {
            assert_eq!(content.as_deref(), Some("calling"));
            let calls = tool_calls.as_ref().expect("tool_calls");
            assert_eq!(calls.len(), 1);
            assert_eq!(calls[0].id, "call-1");
            assert_eq!(calls[0].name, "echo");
            assert_eq!(calls[0].arguments, r#"{"x":1}"#);
        }
        other => panic!("expected assistant, got {other:?}"),
    }

    match &llm[2] {
        ChatMessage::Tool {
            content,
            tool_call_id,
            name,
        } => {
            assert_eq!(tool_call_id, "call-1");
            assert_eq!(name.as_deref(), Some("echo"));
            assert_eq!(content, "ok");
        }
        other => panic!("expected tool, got {other:?}"),
    }
}

#[test]
fn accumulate_text_deltas_builds_assistant() {
    let mut acc = StreamAccumulator::new();
    acc.apply_chunk(&text_chunk("Hel"));
    acc.apply_chunk(&text_chunk("lo"));
    acc.apply_chunk(&finish_chunk(FinishReason::Stop));

    let msg = acc.finalize();
    match msg {
        AgentMessage::Assistant { parts, stop_reason } => {
            assert_eq!(stop_reason, StopReason::Stop);
            assert_eq!(
                parts,
                vec![ContentPart::Text {
                    text: "Hello".into()
                }]
            );
        }
        other => panic!("expected assistant, got {other:?}"),
    }
}

#[test]
fn accumulate_tool_call_fragments() {
    let mut acc = StreamAccumulator::new();
    acc.apply_chunk(&call_chunk(StreamToolCall {
        index: 0,
        id: Some("call-9".into()),
        name: Some("echo".into()),
        arguments: Some(r#"{"a":"#.into()),
    }));
    acc.apply_chunk(&call_chunk(StreamToolCall {
        index: 0,
        id: None,
        name: None,
        arguments: Some(r#"1}"#.into()),
    }));
    acc.apply_chunk(&finish_chunk(FinishReason::ToolCalls));

    let msg = acc.finalize();
    match msg {
        AgentMessage::Assistant { parts, stop_reason } => {
            assert_eq!(stop_reason, StopReason::ToolCalls);
            assert_eq!(
                parts,
                vec![ContentPart::ToolCall {
                    id: "call-9".into(),
                    name: "echo".into(),
                    arguments: json(r#"{"a": 1}"#),
                }]
            );
        }
        other => panic!("expected assistant, got {other:?}"),
    }
}

#[test]
fn accumulate_empty_stream_is_error() {
    let acc = StreamAccumulator::new();
    let msg = acc.finalize();
    assert!(matches!(
        msg,
        AgentMessage::Assistant {
            stop_reason: StopReason::Error,
            ..
        }
    ));
}

#[test]
fn echo_executor_returns_message_field() {
    let result = echo_executor(&json(r#"{"message": "hi"}"#));
    assert_eq!(result.content, "hi");
    assert!(!result.is_error);
    assert!(!result.terminate);
}

#[test]
fn echo_executor_falls_back_to_json() {
    let result = echo_executor(&json(r#"{"x": 1}"#));
    assert_eq!(result.content, r#"{"x":1}"#);
    assert!(!result.is_error);
}

#[test]
fn dispatch_tool_runs_echo_or_reports_unregistered() {
    let mut map: Keyed<NamedTool<Shout>> = Keyed::new();
    map.insert("echo".to_string(), NamedTool::Echo);
    let ok = dispatch_tool(&map, "echo", &json(r#"{"message": "ping"}"#));
    assert_eq!(ok.content, "ping");
    assert!(!ok.is_error);

    let missing = dispatch_tool(&map, "unknown", &json("{}"));
    assert!(missing.is_error);
    assert!(missing.content.contains("not registered"));
}

#[test]
fn registered_tools_are_run_by_their_names() {
    let mut backend: LiterBackend<Shout> = LiterBackend::new("m".into()).with_echo();
    backend.register_tool("shout".into(), NamedTool::Custom(Shout));
    let call = ContentPart::ToolCall {
        id: "c1".into(),
        name: "shout".into(),
        arguments: json(r#""hey""#),
    };
    let start = start_tool(&call).unwrap();
    let (end, message) = backend.execute_tool(&call).unwrap();
    assert_eq!(
        vec![start, end],
        vec![
            AgentEvent::ToolExecutionStart {
                tool_call_id: "c1".into(),
                tool_name: "shout".into(),
                args: json(r#""hey""#),
            },
            AgentEvent::ToolExecutionEnd {
                tool_call_id: "c1".into(),
                result: "\"HEY\"".into(),
                is_error: false,
            },
        ]
    );
    assert_eq!(
        message,
        AgentMessage::ToolResult {
            tool_call_id: "c1".into(),
            tool_name: "shout".into(),
            content: "\"HEY\"".into(),
            is_error: false,
            terminate: true,
        }
    );
    assert_eq!(
        backend
            .execute_tool(&ContentPart::Text { text: "x".into() })
            .unwrap_err(),
        LoopError::Backend("execute_tool expected ToolCall content part".into())
    );
    assert_eq!(
        start_tool(&ContentPart::Text { text: "x".into() }).unwrap_err(),
        LoopError::Backend("execute_tool expected ToolCall content part".into())
    );
}

#[test]
fn the_request_has_the_context_and_the_tools() {
    let backend: LiterBackend<Shout> = LiterBackend::new("m".into());
    let mut context = AgentContext::default();
    let request = backend.request(&context);
    assert_eq!(request.model, "m");
    assert!(request.tools.is_none());
    context.messages.push(AgentMessage::System { content: "s".into() });
    context.tools.push(echo_tool_def());
    context.tools.push(AgentTool {
        name: "bare".into(),
        description: "".into(),
        parameters: json("{}"),
    });
    let request = backend.request(&context);
    assert_eq!(request.messages.len(), 1);
    let tools = request.tools.unwrap();
    assert_eq!(tools[0].description.as_deref(), Some("Echo back the given message string."));
    assert_eq!(tools[1].description, None);
    assert!(to_llm_tools(&[]).is_none());
}

#[test]
fn empty_texts_and_calls_are_left_out() {
    let message = AgentMessage::Assistant {
        parts: vec![],
        stop_reason: StopReason::Stop,
    };
    match &to_llm_messages(&[message])[0] {
        ChatMessage::Assistant {
            content,
            tool_calls,
            ..
        } => {
            assert!(content.is_none());
            assert!(tool_calls.is_none());
        }
        other => panic!("expected assistant, got {other:?}"),
    }
}

#[test]
fn reasons_to_stop() {
    assert_eq!(map_finish_reason(Some(FinishReason::Stop), true, true), StopReason::Stop);
    assert_eq!(map_finish_reason(Some(FinishReason::Length), true, true), StopReason::Length);
    assert_eq!(
        map_finish_reason(Some(FinishReason::FunctionCall), false, false),
        StopReason::ToolCalls
    );
    assert_eq!(
        map_finish_reason(Some(FinishReason::ContentFilter), true, true),
        StopReason::Error
    );
    assert_eq!(map_finish_reason(Some(FinishReason::Other), true, true), StopReason::Error);
    assert_eq!(map_finish_reason(None, true, true), StopReason::ToolCalls);
    assert_eq!(map_finish_reason(None, false, true), StopReason::Stop);
    assert_eq!(map_finish_reason(None, false, false), StopReason::Error);
}

#[test]
fn a_stream_is_read_step_by_step() {
    let (mut acc, first) = begin_stream();
    assert!(matches!(first, AgentEvent::MessageStart { .. }));
    let (update, none) = consume_stream(&mut acc, StreamStep::Chunk(text_chunk("a")));
    assert!(none.is_none());
    assert_eq!(
        update,
        AgentEvent::MessageUpdate {
            message: AgentMessage::Assistant {
                parts: vec![ContentPart::Text { text: "a".into() }],
                stop_reason: StopReason::Stop,
            }
        }
    );
    let (_, aborted) = consume_stream(&mut acc, StreamStep::Cancelled);
    assert!(matches!(
        aborted,
        Some(AgentMessage::Assistant {
            stop_reason: StopReason::Aborted,
            ..
        })
    ));
    let (_, done) = consume_stream(&mut acc, StreamStep::End);
    assert!(matches!(
        done,
        Some(AgentMessage::Assistant {
            stop_reason: StopReason::Stop,
            ..
        })
    ));
    let (_, failed) = consume_stream(&mut acc, StreamStep::Failed);
    assert!(matches!(
        failed,
        Some(AgentMessage::Assistant {
            stop_reason: StopReason::Error,
            ..
        })
    ));
}

#[test]
fn a_refused_request_is_an_error_message() {
    let (events, message) = refused_request("503");
    assert_eq!(events.len(), 2);
    assert_eq!(
        message,
        AgentMessage::Assistant {
            parts: vec![ContentPart::Text {
                text: "LLM request failed: 503".into()
            }],
            stop_reason: StopReason::Error,
        }
    );
}

#[test]
fn a_call_is_taken_from_its_part() {
    let part = ContentPart::ToolCall {
        id: "c".into(),
        name: "n".into(),
        arguments: json("1"),
    };
    let call = ToolCall::from_content_part(&part).unwrap();
    assert_eq!(call.id, "c");
    assert_eq!(call.name, "n");
    assert_eq!(call.arguments, json("1"));
    assert!(ToolCall::from_content_part(&ContentPart::Text { text: "".into() }).is_none());
}
