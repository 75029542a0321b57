use andromeda::agent::orchestrator::state::{Ask, Happening, Phase, StepEnv};
use andromeda::api::http::{
    cancel_run, claimed, cold_run, cold_start, hot_events, instance_id_or, meta_body, new_run,
    ok_body, resolve_run_or_owner, resumed_event, start_run, steer, steer_body, tool_results,
    ApiError, ColdRun, ColdStart, HotEvents,
};
use andromeda::api::sse::sse_frame;
use andromeda::config::{GuardsConfig, SubagentsConfig};
use andromeda::dup::Dup;
use andromeda::json::JsonValue;
use andromeda::protocol::{
    CreateRunRequest, MessageSource, Role, RunOptions, SseEvent, SteerRequest, TodoItem,
    TodoStatus, ToolCallWire, ToolResultRequest, WireMessage,
};
use andromeda::runtime::{RunHandle, RunId, RunRegistry};
use andromeda::store::{
    Checkpoint, GuardsSnapshot, LocalFsRunStore, PendingTool, RunStatus, StoreError,
};

fn json(raw: &str) -> JsonValue {
    JsonValue::parse(raw).unwrap()
}

fn user_msg(content: &str) -> WireMessage {
    WireMessage {
        role: Role::User,
        content: content.into(),
        tool_call_id: None,
        name: None,
        tool_calls: None,
        reasoning_content: None,
    }
}

fn pending(id: &str) -> PendingTool {
    PendingTool {
        tool_call_id: id.into(),
        name: "echo".into(),
        arguments: json("{}"),
        agent_id: None,
        parent_task_id: None,
    }
}

fn checkpoint(status: RunStatus, owner: &str, revision: u64) -> Checkpoint {
    Checkpoint {
        run_id: "cold-run-1".into(),
        status,
        context: vec![user_msg("hi")],
        tools: vec![],
        todos: vec![],
        plan_mode: false,
        subagents: false,
        pending_tool: if status == RunStatus::WaitingTool {
            Some(pending("call_1"))
        } else {
            None
        },
        guards: GuardsSnapshot::new_at(5),
        parent_run_id: None,
        owner_id: Some(owner.into()),
        revision,
        finish_reason: None,
    }
}

fn result(id: &str) -> ToolResultRequest {
    ToolResultRequest {
        tool_call_id: id.into(),
        content: "x".into(),
        is_error: false,
    }
}

type Registry = RunRegistry<u32, ()>;

#[test]
fn sse_frame_includes_event_and_json_data() {
    let ev = SseEvent::RunStarted {
        run_id: "r1".into(),
    };
    let frame = sse_frame(&ev);
    assert!(frame.starts_with("event: run.started\n"));
    assert!(frame.contains("\"run_id\":\"r1\""));
    assert!(frame.ends_with("\n\n"));
}

#[test]
fn frames_are_exact() {
    assert_eq!(
        sse_frame(&SseEvent::MessageDelta {
            run_id: "r".into(),
            message_id: "m".into(),
            delta: "a\n\"b\"".into(),
        }),
        "event: message.delta\ndata: {\"type\":\"message.delta\",\"run_id\":\"r\",\"message_id\":\"m\",\"delta\":\"a\\n\\\"b\\\"\"}\n\n"
    );
    assert_eq!(
        sse_frame(&SseEvent::ContextSummarized {
            run_id: "r1".into(),
            before_tokens: 90_000,
            after_tokens: 40_000,
            kept_prefix: 2,
            kept_suffix: 24,
        }),
        "event: context.summarized\ndata: {\"type\":\"context.summarized\",\"run_id\":\"r1\",\"before_tokens\":90000,\"after_tokens\":40000,\"kept_prefix\":2,\"kept_suffix\":24}\n\n"
    );
    assert_eq!(
        sse_frame(&SseEvent::MessageCompleted {
            run_id: "r".into(),
            message_id: "m".into(),
            role: Role::Assistant,
            content: "c".into(),
            tool_calls: Some(vec![ToolCallWire {
                id: "i".into(),
                name: "n".into(),
                arguments: json(r#"{"b":1,"a":[true,null,-2]}"#),
            }]),
            source: Some(MessageSource::FollowUp),
            reasoning_content: None,
        }),
        "event: message.completed\ndata: {\"type\":\"message.completed\",\"run_id\":\"r\",\"message_id\":\"m\",\"role\":\"assistant\",\"content\":\"c\",\"tool_calls\":[{\"id\":\"i\",\"name\":\"n\",\"arguments\":{\"a\":[true,null,-2],\"b\":1}}],\"source\":\"follow_up\"}\n\n"
    );
}

#[test]
fn a_frame_has_its_line_breaks_at_its_ends() {
    let frame = sse_frame(&SseEvent::Error {
        run_id: "a\nb".into(),
        message: "\r\n\r\n".into(),
        code: Some("\n\n".into()),
    });
    assert_eq!(frame.matches('\n').count(), 3);
    assert!(!frame.contains('\r'));
    assert_eq!(frame.find("\n\n"), Some(frame.len() - 2));
}

#[test]
fn events_that_differ_in_what_is_left_out_differ_on_the_wire() {
    let request = |agent_id: Option<&str>, parent: Option<&str>| {
        SseEvent::ToolRequest {
            run_id: "r".into(),
            tool_call_id: "c".into(),
            name: "n".into(),
            arguments: json("[]"),
            agent_id: agent_id.map(str::to_string),
            parent_task_id: parent.map(str::to_string),
        }
        .to_json()
    };
    assert_ne!(request(Some("x"), None), request(None, Some("x")));
    assert_ne!(request(Some("x"), None), request(None, None));
}

#[test]
fn an_error_code_is_written_where_there_is_one() {
    let error = |code: Option<&str>| SseEvent::Error {
        run_id: "r1".into(),
        message: "m".into(),
        code: code.map(str::to_string),
    };
    assert_eq!(error(Some("llm")).to_json().str_field("code"), Some("llm"));
    assert!(error(None).to_json().get("code").is_none());
}

/// The event as a client reads it off the wire.
fn on_the_wire(event: &SseEvent) -> serde_json::Value {
    serde_json::from_str(&event.to_json().to_text()).unwrap()
}

#[test]
fn context_summarized_roundtrips() {
    let ev = SseEvent::ContextSummarized {
        run_id: "r1".into(),
        before_tokens: 90_000,
        after_tokens: 40_000,
        kept_prefix: 2,
        kept_suffix: 24,
    };
    let v = on_the_wire(&ev);
    assert_eq!(v["type"], "context.summarized");
    assert_eq!(v["run_id"], "r1");
    assert_eq!(v["before_tokens"], 90_000);
    assert_eq!(v["after_tokens"], 40_000);
    assert_eq!(v["kept_prefix"], 2);
    assert_eq!(v["kept_suffix"], 24);
    assert_eq!(v.as_object().unwrap().len(), 6);
    assert_eq!(ev.event_name(), "context.summarized");
}

#[test]
fn run_resumed_roundtrips() {
    let ev = SseEvent::RunResumed {
        run_id: "r1".into(),
        revision: 3,
        status: "waiting_tool".into(),
    };
    let v = on_the_wire(&ev);
    assert_eq!(v["type"], "run.resumed");
    assert_eq!(v["run_id"], "r1");
    assert_eq!(v["revision"], 3);
    assert_eq!(v["status"], "waiting_tool");
    assert_eq!(v.as_object().unwrap().len(), 4);
    assert_eq!(ev.event_name(), "run.resumed");
}

#[test]
fn todos_updated_event_name_and_roundtrip() {
    let ev = SseEvent::TodosUpdated {
        run_id: "r1".into(),
        todos: vec![TodoItem {
            id: "t1".into(),
            content: "map layers".into(),
            status: TodoStatus::InProgress,
        }],
    };
    assert_eq!(ev.event_name(), "todos.updated");
    let v = on_the_wire(&ev);
    assert_eq!(v["type"], "todos.updated");
    assert_eq!(v["run_id"], "r1");
    assert_eq!(v["todos"].as_array().unwrap().len(), 1);
    assert_eq!(v["todos"][0]["id"], "t1");
    assert_eq!(v["todos"][0]["content"], "map layers");
    assert_eq!(v["todos"][0]["status"], "in_progress");
}

#[test]
fn tool_request_omits_agent_fields_by_default() {
    let ev = SseEvent::ToolRequest {
        run_id: "r1".into(),
        tool_call_id: "c1".into(),
        name: "echo".into(),
        arguments: json("{}"),
        agent_id: None,
        parent_task_id: None,
    };
    let v = on_the_wire(&ev);
    assert!(v.get("agent_id").is_none());
    assert!(v.get("parent_task_id").is_none());
    assert_eq!(v["type"], "tool.request");
    assert_eq!(v["run_id"], "r1");
    assert_eq!(v["tool_call_id"], "c1");
    assert_eq!(v["name"], "echo");
    assert_eq!(v["arguments"].as_object().unwrap().len(), 0);
}

#[test]
fn task_events_roundtrip() {
    let started = SseEvent::TaskStarted {
        run_id: "r1".into(),
        task_id: "t1".into(),
        goal: "explore".into(),
        agent: "explore".into(),
    };
    assert_eq!(started.event_name(), "task.started");
    let v = on_the_wire(&started);
    assert_eq!(v["type"], "task.started");
    assert_eq!(v["run_id"], "r1");
    assert_eq!(v["task_id"], "t1");
    assert_eq!(v["goal"], "explore");
    assert_eq!(v["agent"], "explore");

    let done = SseEvent::TaskCompleted {
        run_id: "r1".into(),
        task_id: "t1".into(),
        summary: "found X".into(),
    };
    assert_eq!(done.event_name(), "task.completed");
    assert_eq!(on_the_wire(&done)["summary"], "found X");
}

#[test]
fn every_event_has_its_name_as_its_type() {
    let run_id = || "r1".to_string();
    let events = vec![
        (SseEvent::RunStarted { run_id: run_id() }, "run.started"),
        (
            SseEvent::RunResumed {
                run_id: run_id(),
                revision: 3,
                status: "waiting_tool".into(),
            },
            "run.resumed",
        ),
        (
            SseEvent::ReasoningDelta {
                run_id: run_id(),
                message_id: "m".into(),
                delta: "d".into(),
            },
            "reasoning.delta",
        ),
        (
            SseEvent::TodosUpdated {
                run_id: run_id(),
                todos: vec![TodoItem {
                    id: "t1".into(),
                    content: "map layers".into(),
                    status: TodoStatus::InProgress,
                }],
            },
            "todos.updated",
        ),
        (
            SseEvent::TaskStarted {
                run_id: run_id(),
                task_id: "t1".into(),
                goal: "explore".into(),
                agent: "explore".into(),
            },
            "task.started",
        ),
        (
            SseEvent::TaskCompleted {
                run_id: run_id(),
                task_id: "t1".into(),
                summary: "found X".into(),
            },
            "task.completed",
        ),
        (
            SseEvent::TaskFailed {
                run_id: run_id(),
                task_id: "t1".into(),
                message: "m".into(),
                code: None,
            },
            "task.failed",
        ),
        (
            SseEvent::TaskTimedOut {
                run_id: run_id(),
                task_id: "t1".into(),
            },
            "task.timed_out",
        ),
        (
            SseEvent::RunFinished {
                run_id: run_id(),
                reason: "stop".into(),
            },
            "run.finished",
        ),
        (
            SseEvent::Error {
                run_id: run_id(),
                message: "m".into(),
                code: None,
            },
            "error",
        ),
    ];
    for (event, name) in events {
        assert_eq!(event.event_name(), name);
        let v: serde_json::Value = serde_json::from_str(&event.to_json().to_text()).unwrap();
        assert_eq!(v["type"], name);
        assert_eq!(v["run_id"], "r1");
        if name == "run.resumed" {
            assert_eq!(v["revision"], 3);
        }
        if name == "todos.updated" {
            assert_eq!(v["todos"][0]["status"], "in_progress");
        }
    }
}

#[test]
fn options_of_a_run_default_to_persistence() {
    let options = RunOptions::default();
    assert!(options.persist);
    assert!(!options.plan_mode);
    assert!(!options.subagents);
}

#[test]
fn tool_results_not_owner_when_checkpoint_owned_elsewhere() {
    let mut registry = Registry::new();
    let stored = Some(checkpoint(RunStatus::WaitingTool, "other-node", 2));
    let err = tool_results(
        &mut registry,
        "owned-elsewhere",
        &stored,
        "this-node",
        &result("c1"),
    )
    .unwrap_err();
    assert_eq!(err.status(), 409);
    assert_eq!(err.body().str_field("code"), Some("not_owner"));
}

#[test]
fn requests_on_unknown_runs_are_refused() {
    let mut registry = Registry::new();
    let err = tool_results(&mut registry, "x", &None, "n", &result("c")).unwrap_err();
    assert_eq!(err, ApiError::NotFound);
    assert_eq!(err.status(), 404);
    assert_eq!(err.body().to_text(), r#"{"error":"run not found"}"#);
    let body = SteerRequest { messages: vec![] };
    assert_eq!(
        steer(&mut registry, "x", &None, "n", body).unwrap_err(),
        ApiError::NotFound
    );
    assert_eq!(cancel_run(&mut registry, "x").unwrap_err(), ApiError::NotFound);
    let own = Some(checkpoint(RunStatus::Running, "n", 1));
    assert_eq!(
        resolve_run_or_owner(&own, "n"),
        ApiError::Conflict { code: None }
    );
    let over = Some(checkpoint(RunStatus::Completed, "other", 1));
    assert_eq!(
        resolve_run_or_owner(&over, "n"),
        ApiError::Conflict { code: None }
    );
    assert_eq!(
        ApiError::Conflict { code: Some("not_owner") }.body().to_text(),
        r#"{"code":"not_owner","error":"conflict"}"#
    );
}

#[test]
fn steer_ok_while_active_conflict_after_finished() {
    let mut registry = Registry::new();
    let id = registry.create();
    let body = SteerRequest {
        messages: vec![user_msg("a"), user_msg("b")],
    };
    assert_eq!(steer(&mut registry, &id.0, &None, "n", body), Ok(2));
    assert_eq!(registry.get_mut(&id.0).unwrap().drain_steer().len(), 2);
    registry.get_mut(&id.0).unwrap().finish();
    let body = SteerRequest {
        messages: vec![user_msg("too late")],
    };
    assert_eq!(
        steer(&mut registry, &id.0, &None, "n", body),
        Err(ApiError::Conflict { code: None })
    );
}

#[test]
fn results_reach_the_waiter_of_a_run_that_is_under_way() {
    let mut registry = Registry::new();
    let id = registry.create();
    registry
        .get_mut(&id.0)
        .unwrap()
        .begin_wait_tool("call_1".into(), 5)
        .unwrap();
    assert_eq!(
        tool_results(&mut registry, &id.0, &None, "n", &result("other")),
        Err(ApiError::Conflict { code: None })
    );
    assert_eq!(
        tool_results(&mut registry, &id.0, &None, "n", &result("call_1")),
        Ok(5)
    );
    assert!(cancel_run(&mut registry, &id.0).is_ok());
    assert!(registry.get(&id.0).unwrap().is_cancelled());
}

#[test]
fn bodies_are_json() {
    assert_eq!(ok_body().to_text(), r#"{"ok":true}"#);
    assert_eq!(steer_body(3).to_text(), r#"{"ok":true,"queued":3}"#);
    assert_eq!(
        meta_body("node-a").to_text(),
        r#"{"created":true,"owner_id":"node-a"}"#
    );
}

#[test]
fn a_blank_instance_id_is_made_up() {
    assert_eq!(instance_id_or("  ", "fresh".into()), "fresh");
    assert_eq!(instance_id_or("node-a", "fresh".into()), "node-a");
}

fn request(persist: bool) -> CreateRunRequest {
    CreateRunRequest {
        messages: vec![user_msg("hi")],
        tools: vec![],
        session_id: None,
        options: RunOptions {
            persist,
            plan_mode: true,
            subagents: false,
        },
    }
}

#[test]
fn a_new_run_is_stored_where_all_agree() {
    let new = new_run(&request(true), "r1", "node", true, true, 9);
    assert!(new.persist);
    let first = new.first.unwrap();
    assert_eq!(first.expected, 0);
    assert_eq!(first.checkpoint.revision, 1);
    assert_eq!(first.checkpoint.owner_id.as_deref(), Some("node"));
    assert!(first.checkpoint.plan_mode);
    for (wanted, enabled, store) in [(false, true, true), (true, false, true), (true, true, false)] {
        let new = new_run(&request(wanted), "r1", "node", enabled, store, 9);
        assert!(!new.persist);
        assert!(new.first.is_none());
    }
    let mut run = start_run(
        request(true),
        "r1".into(),
        "node".into(),
        true,
        1,
        GuardsConfig::default(),
        SubagentsConfig::default(),
        9,
    );
    assert_eq!(run.session.revision, 1);
    assert!(run.context[0].content.contains("write_todos"));
    let out = run.step(
        Happening::Begin,
        StepEnv {
            now: 9,
            cancelled: false,
            persist: true,
        },
    );
    assert_eq!(out.effects.len(), 1);
    assert_eq!(out.ask, Ask::Steer);
}

#[test]
fn cold_resume_from_disk_waiting_tool() {
    let mut slot = Some(checkpoint(RunStatus::WaitingTool, "dead-node", 3));
    let start = cold_start(slot.as_ref().map(|cp| cp.dup()), "cold-run-1", "node-b").unwrap();
    let ColdStart::Claim(claim) = start else {
        panic!("expected a claim");
    };
    let saved = LocalFsRunStore::save_cas(&mut slot, claim.checkpoint.dup(), claim.expected);
    assert!(claimed(saved).is_ok());
    let stored = slot.as_ref().unwrap();
    assert_eq!(stored.owner_id.as_deref(), Some("node-b"));
    assert_eq!(stored.revision, 4);
    assert_eq!(
        resumed_event("cold-run-1", stored),
        SseEvent::RunResumed {
            run_id: "cold-run-1".into(),
            revision: 4,
            status: "waiting_tool".into(),
        }
    );
    let run = cold_run(
        "cold-run-1".into(),
        claim.checkpoint,
        "node-b".into(),
        GuardsConfig::default(),
        SubagentsConfig::default(),
        9,
    )
    .unwrap();
    match run {
        ColdRun::Wait {
            pending,
            event,
            run,
        } => {
            assert_eq!(pending.tool_call_id, "call_1");
            assert!(matches!(event, SseEvent::ToolRequest { .. }));
            assert!(matches!(run.phase, Phase::Resume(_)));
            assert_eq!(run.session.revision, 4);
            assert_eq!(run.session.instance_id, "node-b");
        }
        other => panic!("expected Wait, got {other:?}"),
    }
}

#[test]
fn a_claim_that_comes_late_is_refused() {
    let mut slot = Some(checkpoint(RunStatus::Running, "dead-node", 3));
    let claim_of = |slot: &Option<Checkpoint>, node: &str| {
        match cold_start(slot.as_ref().map(|cp| cp.dup()), "cold-run-1", node).unwrap() {
            ColdStart::Claim(claim) => claim,
            other => panic!("expected a claim, got {other:?}"),
        }
    };
    let first = claim_of(&slot, "a");
    let second = claim_of(&slot, "b");
    assert!(LocalFsRunStore::save_cas(&mut slot, first.checkpoint, first.expected).is_ok());
    let late = LocalFsRunStore::save_cas(&mut slot, second.checkpoint, second.expected);
    assert_eq!(late, Err(StoreError::Conflict));
    assert_eq!(
        claimed(late).unwrap_err(),
        ApiError::Conflict { code: Some("not_owner") }
    );
}

#[test]
fn a_run_that_is_over_is_only_told_of() {
    for (status, wanted) in [
        (RunStatus::Completed, "stop"),
        (RunStatus::Failed, "error"),
        (RunStatus::Cancelled, "cancelled"),
    ] {
        match cold_start(Some(checkpoint(status, "n", 1)), "cold-run-1", "n").unwrap() {
            ColdStart::Over(SseEvent::RunFinished { reason, .. }) => assert_eq!(reason, wanted),
            other => panic!("expected the end, got {other:?}"),
        }
    }
    assert_eq!(cold_start(None, "x", "n").unwrap_err(), ApiError::NotFound);
}

#[test]
fn a_checkpoint_that_waits_for_nothing_cannot_be_taken_up() {
    let mut cp = checkpoint(RunStatus::WaitingTool, "n", 1);
    cp.pending_tool = None;
    let run = cold_run(
        "cold-run-1".into(),
        cp,
        "n".into(),
        GuardsConfig::default(),
        SubagentsConfig::default(),
        9,
    );
    assert_eq!(run.unwrap_err(), ApiError::Conflict { code: None });
    let run = cold_run(
        "cold-run-1".into(),
        checkpoint(RunStatus::Running, "n", 1),
        "n".into(),
        GuardsConfig::default(),
        SubagentsConfig::default(),
        9,
    );
    assert!(matches!(run, Ok(ColdRun::Go(_))));
}

#[test]
fn a_run_is_taken_up_under_the_id_that_was_asked_for() {
    for status in [RunStatus::Running, RunStatus::WaitingTool] {
        let cp = checkpoint(status, "n", 1);
        assert_eq!(cp.run_id, "cold-run-1");
        match resumed_event("other", &cp) {
            SseEvent::RunResumed { run_id, .. } => assert_eq!(run_id, "other"),
            event => panic!("expected RunResumed, got {event:?}"),
        }
        let run = cold_run(
            "other".into(),
            cp,
            "n".into(),
            GuardsConfig::default(),
            SubagentsConfig::default(),
            9,
        );
        match run.unwrap() {
            ColdRun::Go(run) => assert_eq!(run.run_id, "other"),
            ColdRun::Wait { event, run, .. } => {
                assert_eq!(run.run_id, "other");
                assert_eq!(event.to_json().str_field("run_id"), Some("other"));
            }
        }
    }
}

#[test]
fn a_new_subscriber_is_told_where_the_run_is() {
    let mut run: RunHandle<u32, ()> = RunHandle::reopen(RunId("r1".into()));
    match hot_events(&run, 4) {
        HotEvents::Live(events) => assert_eq!(
            events,
            vec![SseEvent::RunResumed {
                run_id: "r1".into(),
                revision: 4,
                status: "running".into(),
            }]
        ),
        other => panic!("expected events, got {other:?}"),
    }
    run.upsert_pending_tool(pending("a"));
    run.upsert_pending_tool(pending("b"));
    run.begin_wait_tool("a".into(), 1).unwrap();
    match hot_events(&run, 4) {
        HotEvents::Live(events) => {
            assert_eq!(events.len(), 3);
            assert!(matches!(
                &events[0],
                SseEvent::RunResumed { status, .. } if status == "waiting_tool"
            ));
            assert!(matches!(&events[1], SseEvent::ToolRequest { .. }));
            assert!(matches!(&events[2], SseEvent::ToolRequest { .. }));
        }
        other => panic!("expected events, got {other:?}"),
    }
    run.finish();
    match hot_events(&run, 4) {
        HotEvents::Over(event) => assert_eq!(
            event,
            SseEvent::RunFinished {
                run_id: "r1".into(),
                reason: "stop".into(),
            }
        ),
        other => panic!("expected the end, got {other:?}"),
    }
}
