use andromeda::agent::summarize::{
    build_summarizer_prompt, complete_text, estimate_tokens, format_middle_transcript,
    maybe_summarize, split_context, summary_request, SummarizeError, SummarizeOutcome,
    SUMMARY_PREFIX,
};
use andromeda::config::ContextConfig;
use andromeda::json::JsonValue;
use andromeda::llm::{LlmChunk, MockLlm, MockTurn};
use andromeda::protocol::{Role, ToolCallWire, WireMessage};
use andromeda::store::PendingTool;

fn msg(role: Role, content: &str) -> WireMessage {
    WireMessage {
        role,
        content: content.into(),
        tool_call_id: None,
        name: None,
        tool_calls: None,
        reasoning_content: None,
    }
}

fn json(raw: &str) -> JsonValue {
    JsonValue::parse(raw).unwrap()
}

fn calling(id: &str) -> WireMessage {
    WireMessage {
        role: Role::Assistant,
        content: "".into(),
        tool_call_id: None,
        name: None,
        tool_calls: Some(vec![ToolCallWire {
            id: id.into(),
            name: "echo".into(),
            arguments: json("{}"),
        }]),
        reasoning_content: None,
    }
}

fn result_of(id: &str, name: &str, content: &str) -> WireMessage {
    WireMessage {
        role: Role::Tool,
        content: content.into(),
        tool_call_id: Some(id.into()),
        name: Some(name.into()),
        tool_calls: None,
        reasoning_content: None,
    }
}

#[test]
fn estimate_tokens_chars_div_4() {
    let m = msg(Role::User, "abcd");
    assert_eq!(estimate_tokens(&[m]), 1);
}

#[test]
fn split_keeps_leading_real_system_and_tail() {
    let messages = vec![
        msg(Role::System, "you are helpful"),
        msg(Role::User, "u1"),
        msg(Role::Assistant, "a1"),
        msg(Role::User, "u2"),
        msg(Role::Assistant, "a2"),
    ];
    let split = split_context(&messages, 2, None);
    assert_eq!(split.prefix.len(), 1);
    assert_eq!(split.suffix.len(), 2);
    assert_eq!(split.middle.len(), 2);
    assert_eq!(split.middle[0].content, "u1");
}

#[test]
fn split_excludes_summary_system_from_prefix() {
    let messages = vec![
        msg(Role::System, "you are helpful"),
        msg(Role::System, &format!("{SUMMARY_PREFIX}\nold")),
        msg(Role::User, "u1"),
        msg(Role::Assistant, "a1"),
    ];
    let split = split_context(&messages, 2, None);
    assert_eq!(split.prefix.len(), 1);
    assert!(split.middle[0].content.starts_with(SUMMARY_PREFIX));
}

#[test]
fn split_extends_suffix_for_open_tool_chain() {
    let open = vec![
        msg(Role::User, "start"),
        msg(Role::User, "pad"),
        calling("c1"),
    ];
    let split = split_context(&open, 1, None);
    assert!(
        split.suffix.iter().any(|m| m.tool_calls.is_some()),
        "open tool assistant must stay in suffix"
    );
    assert!(split.suffix.len() >= 2);
}

#[test]
fn split_extends_suffix_when_middle_has_assistant_tool_calls() {
    let messages = vec![
        msg(Role::User, "start"),
        calling("c1"),
        result_of("c1", "echo", "ok"),
        msg(Role::User, "tail"),
    ];
    let split = split_context(&messages, 1, None);
    assert!(
        !split
            .middle
            .iter()
            .any(|m| m.role == Role::Assistant && m.tool_calls.is_some()),
        "completed chain assistant must not remain in middle"
    );
    assert!(
        split.suffix.iter().any(|m| m.tool_calls.is_some()),
        "assistant with tool_calls must be pulled into suffix"
    );
}

#[test]
fn split_extends_suffix_for_pending_tool_in_middle() {
    let messages = vec![
        msg(Role::User, "old"),
        msg(Role::User, "older"),
        result_of("pending-1", "run", "result"),
        msg(Role::User, "latest"),
    ];
    let without = split_context(&messages, 1, None);
    assert!(
        without
            .middle
            .iter()
            .any(|m| m.tool_call_id.as_deref() == Some("pending-1")),
        "fixture: without pending expansion the tool result would sit in middle"
    );

    let pending = PendingTool {
        tool_call_id: "pending-1".into(),
        name: "run".into(),
        arguments: json("{}"),
        agent_id: None,
        parent_task_id: None,
    };
    let with_pending = split_context(&messages, 1, Some(&pending));
    assert!(
        with_pending
            .suffix
            .iter()
            .any(|m| m.tool_call_id.as_deref() == Some("pending-1")),
        "pending tool result must be force-kept in suffix"
    );
    assert!(
        !with_pending
            .middle
            .iter()
            .any(|m| m.tool_call_id.as_deref() == Some("pending-1")),
        "pending-related messages must not remain in middle"
    );
}

/// Asks the model for the summary where one is wanted.
fn ask(
    llm: &mut MockLlm,
    context: &Vec<WireMessage>,
    cfg: &ContextConfig,
) -> Result<String, String> {
    match summary_request(context, cfg, None) {
        None => Ok(String::new()),
        Some(prompt) => match llm.stream(&prompt, &[]) {
            Ok(items) => complete_text(&items),
            Err(err) => Err(err),
        },
    }
}

#[test]
fn below_threshold_unchanged() {
    let cfg = ContextConfig {
        summarize_threshold_tokens: 10_000,
        keep_last_messages: 2,
        max_context_tokens: 20_000,
    };
    let ctx = vec![msg(Role::User, "hi")];
    let mut llm = MockLlm::script(vec![]);
    let reply = ask(&mut llm, &ctx, &cfg);
    let out = maybe_summarize(&ctx, &cfg, None, reply).unwrap();
    assert!(matches!(out, SummarizeOutcome::Unchanged));
    assert!(llm.recorded_contexts().is_empty());
}

#[test]
fn over_threshold_replaces_middle() {
    let cfg = ContextConfig {
        summarize_threshold_tokens: 1,
        keep_last_messages: 2,
        max_context_tokens: 100_000,
    };
    let mut ctx = vec![msg(Role::System, "persona")];
    for i in 0..6 {
        ctx.push(msg(Role::User, &format!("user-{i}-{}", "x".repeat(20))));
        ctx.push(msg(Role::Assistant, &format!("asst-{i}")));
    }
    let mut llm = MockLlm::script(vec![MockTurn::TextOnly {
        content: "Goal: test\nDone: steps\nFacts: f\nOpen: none".into(),
        deltas: vec![],
    }]);
    let reply = ask(&mut llm, &ctx, &cfg);
    let out = maybe_summarize(&ctx, &cfg, None, reply).unwrap();
    let SummarizeOutcome::Summarized { context, .. } = out else {
        panic!("expected summarized");
    };
    assert!(context.iter().any(|m| m.content.starts_with(SUMMARY_PREFIX)));
    assert_eq!(llm.recorded_contexts().len(), 1);
}

#[test]
fn summarize_fail_over_max_overflows() {
    let cfg = ContextConfig {
        summarize_threshold_tokens: 1,
        keep_last_messages: 2,
        max_context_tokens: 1,
    };
    let mut ctx = vec![msg(Role::System, "persona")];
    for i in 0..6 {
        ctx.push(msg(Role::User, &format!("user-{i}-{}", "x".repeat(40))));
    }
    let mut llm = MockLlm::script(vec![MockTurn::Fail {
        message: "boom".into(),
    }]);
    let reply = ask(&mut llm, &ctx, &cfg);
    let err = maybe_summarize(&ctx, &cfg, None, reply).unwrap_err();
    assert!(matches!(err, SummarizeError::ContextOverflow { .. }));
}

#[test]
fn a_failed_summary_below_the_cap_leaves_the_context() {
    let cfg = ContextConfig {
        summarize_threshold_tokens: 1,
        keep_last_messages: 1,
        max_context_tokens: 100_000,
    };
    let ctx = vec![
        msg(Role::User, "one two three four"),
        msg(Role::User, "five six seven eight"),
        msg(Role::User, "nine"),
    ];
    let out = maybe_summarize(&ctx, &cfg, None, Err("boom".into())).unwrap();
    assert!(matches!(out, SummarizeOutcome::Unchanged));
}

#[test]
fn a_split_loses_no_message() {
    let messages = vec![
        msg(Role::System, "s"),
        msg(Role::User, "u1"),
        calling("c1"),
        result_of("c1", "echo", "ok"),
        msg(Role::Assistant, "a"),
        msg(Role::User, "u2"),
    ];
    for keep in 0..8 {
        let split = split_context(&messages, keep, None);
        let all: Vec<&WireMessage> = split
            .prefix
            .iter()
            .chain(split.middle.iter())
            .chain(split.suffix.iter())
            .collect();
        assert_eq!(all, messages.iter().collect::<Vec<_>>());
    }
}

#[test]
fn tokens_count_bytes_of_all_texts() {
    assert_eq!(estimate_tokens(&[]), 0);
    assert_eq!(estimate_tokens(&[msg(Role::User, "abcde")]), 2);
    assert_eq!(estimate_tokens(&[msg(Role::User, "中文")]), 2);
}

#[test]
fn the_transcript_names_the_roles() {
    let text = format_middle_transcript(&[msg(Role::User, "hello"), msg(Role::Assistant, "hi")]);
    assert!(text.contains("hello"));
    assert!(text.contains("hi"));
    assert!(text.to_lowercase().contains("user"));
    let prompt = build_summarizer_prompt(&[msg(Role::User, "hello")]);
    assert!(prompt.iter().any(|m| m.content.contains("hello")));
}

#[test]
fn the_text_of_a_completion_is_its_last_word() {
    let items = vec![
        Ok(LlmChunk::TextDelta("x".into())),
        Ok(LlmChunk::Completed {
            content: "done".into(),
            tool_calls: vec![],
            reasoning_content: None,
        }),
    ];
    assert_eq!(complete_text(&items), Ok("done".to_string()));
    assert!(complete_text(&vec![Err("boom".to_string())]).is_err());
    assert!(complete_text(&vec![]).is_err());
}
