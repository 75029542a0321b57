use andromeda::json::JsonValue;
use andromeda::protocol::{Role, ToolResultRequest, WireMessage};
use andromeda::runtime::{
    new_id, EmitOutcome, RecvOutcome, RunHandle, RunId, RunRegistry, SubmitError, WaitError,
};
use andromeda::store::PendingTool;

fn user_msg(content: &str) -> WireMessage {
    WireMessage {
        role: Role::User,
        content: content.into(),
        tool_call_id: None,
        name: None,
        tool_calls: None,
        reasoning_content: None,
    }
}

fn result(id: &str, content: &str) -> ToolResultRequest {
    ToolResultRequest {
        tool_call_id: id.into(),
        content: content.into(),
        is_error: false,
    }
}

fn pending(id: &str, parent: Option<&str>) -> PendingTool {
    PendingTool {
        tool_call_id: id.into(),
        name: "echo".into(),
        arguments: JsonValue::Null,
        agent_id: None,
        parent_task_id: parent.map(str::to_string),
    }
}

type Registry = RunRegistry<u32, u32>;

fn with_run() -> (Registry, RunId) {
    let mut reg = Registry::new();
    let id = reg.create();
    (reg, id)
}

#[test]
fn steer_queues_until_drained() {
    let (mut reg, id) = with_run();
    let h = reg.get_mut(&id.0).unwrap();
    h.enqueue_steer(vec![user_msg("改成微辣")]).unwrap();
    let drained = h.drain_steer();
    assert_eq!(drained.len(), 1);
    assert_eq!(drained[0].role, Role::User);
    assert_eq!(drained[0].content, "改成微辣");
    assert!(h.drain_steer().is_empty());
}

#[test]
fn submit_tool_result_conflicts_when_not_waiting_or_id_mismatch() {
    let (mut reg, id) = with_run();
    let h = reg.get_mut(&id.0).unwrap();
    assert_eq!(
        h.submit_tool_result(&result("call_1", "early")),
        Err(SubmitError::Conflict)
    );
    h.begin_wait_tool("call_1".into(), 11).unwrap();
    assert_eq!(
        h.submit_tool_result(&result("call_other", "nope")),
        Err(SubmitError::Conflict)
    );
    assert_eq!(h.submit_tool_result(&result("call_1", "ok")), Ok(11));
    assert_eq!(
        h.submit_tool_result(&result("call_1", "again")),
        Err(SubmitError::Conflict)
    );
}

#[test]
fn registry_get_returns_cloned_handle() {
    let (mut reg, id) = with_run();
    reg.get_mut(&id.0)
        .unwrap()
        .enqueue_steer(vec![user_msg("via create")])
        .unwrap();
    let drained = reg.get_mut(&id.0).unwrap().drain_steer();
    assert_eq!(drained.len(), 1);
    assert_eq!(drained[0].content, "via create");
    assert_eq!(reg.get(&id.0).unwrap().id(), &id);
    assert!(reg.get("unknown").is_none());
    assert!(reg.get_mut("unknown").is_none());
}

#[test]
fn begin_wait_tool_allows_submit_before_awaiting() {
    let (mut reg, id) = with_run();
    let h = reg.get_mut(&id.0).unwrap();
    h.begin_wait_tool("call_1".into(), 1).unwrap();
    assert!(h.is_waiting_tool());
    let waiter = h.submit_tool_result(&result("call_1", "ok")).unwrap();
    assert_eq!(waiter, 1);
    let got = h
        .recv_tool("call_1", RecvOutcome::Result(result("call_1", "ok")))
        .unwrap();
    assert_eq!(got.content, "ok");
    assert!(!h.is_waiting_tool());
}

#[test]
fn cancel_unblocks_tool_waiter() {
    let (mut reg, id) = with_run();
    let h = reg.get_mut(&id.0).unwrap();
    h.begin_wait_tool("call_1".into(), 1).unwrap();
    h.cancel();
    assert!(h.is_cancelled());
    assert!(!h.is_waiting_tool());
    assert_eq!(
        h.recv_tool("call_1", RecvOutcome::Closed),
        Err(WaitError::Cancelled)
    );
    assert_eq!(
        h.enqueue_steer(vec![user_msg("too late")]),
        Err(SubmitError::Conflict)
    );
    assert_eq!(h.begin_wait_tool("c".into(), 2), Err(WaitError::Cancelled));
}

#[test]
fn arm_tool_records_the_call_and_installs_a_waiter() {
    let (mut reg, id) = with_run();
    let h = reg.get_mut(&id.0).unwrap();
    assert_eq!(h.arm_tool(pending("call_1", None), 4), Ok(()));
    assert!(h.is_waiting_tool());
    assert_eq!(h.pending_tools(), vec![pending("call_1", None)]);
    assert_eq!(h.submit_tool_result(&result("call_1", "ok")), Ok(4));
}

#[test]
fn arm_tool_of_a_cancelled_run_leaves_the_record_alone() {
    let (mut reg, id) = with_run();
    let h = reg.get_mut(&id.0).unwrap();
    h.cancel();
    assert_eq!(h.arm_tool(pending("call_1", None), 4), Err(WaitError::Cancelled));
    assert!(!h.is_waiting_tool());
    assert_eq!(h.pending_tools(), vec![pending("call_1", None)]);
}

#[test]
fn emit_without_subscriber_is_ok() {
    let (mut reg, id) = with_run();
    let run = reg.get_mut(&id.0).unwrap();
    assert_eq!(run.emit_event(true), EmitOutcome::DroppedNoSubscriber);
}

#[test]
fn last_subscriber_wins() {
    let (mut reg, id) = with_run();
    let run = reg.get_mut(&id.0).unwrap();
    run.subscribe(1);
    run.subscribe(2);
    assert_eq!(run.subscriber(), Some(&2));
    assert_eq!(run.emit_event(true), EmitOutcome::Delivered);
}

#[test]
fn drop_subscriber_then_resubscribe() {
    let (mut reg, id) = with_run();
    let run = reg.get_mut(&id.0).unwrap();
    run.subscribe(1);
    assert_eq!(run.emit_event(false), EmitOutcome::DroppedNoSubscriber);
    assert_eq!(run.subscriber(), None);
    run.subscribe(2);
    assert_eq!(run.emit_event(true), EmitOutcome::Delivered);
}

#[test]
fn a_finished_run_refuses_everything() {
    let mut run: RunHandle<u32, u32> = RunHandle::reopen(RunId("r".into()));
    run.subscribe(1);
    run.begin_wait_tool("c".into(), 1).unwrap();
    run.upsert_pending_tool(pending("c", None));
    run.finish();
    run.finish();
    assert!(run.is_finished());
    assert_eq!(run.subscriber(), None);
    assert!(run.pending_tool().is_none());
    assert_eq!(
        run.submit_tool_result(&result("c", "x")),
        Err(SubmitError::Conflict)
    );
    assert_eq!(run.enqueue_steer(vec![]), Err(SubmitError::Conflict));
}

#[test]
fn waits_of_a_nested_task_are_dropped_together() {
    let mut run: RunHandle<u32, u32> = RunHandle::reopen(RunId("r".into()));
    for (id, parent) in [("a", Some("t1")), ("b", Some("t2")), ("c", None), ("d", Some("t1"))] {
        run.upsert_pending_tool(pending(id, parent));
        run.begin_wait_tool(id.into(), 1).unwrap();
    }
    run.cancel_waits_for_parent_task("t1");
    let mut left: Vec<String> = run
        .pending_tools()
        .into_iter()
        .map(|tool| tool.tool_call_id)
        .collect();
    left.sort();
    assert_eq!(left, vec!["b", "c"]);
    assert!(run.submit_tool_result(&result("a", "x")).is_err());
    assert!(run.submit_tool_result(&result("b", "x")).is_ok());
}

#[test]
fn a_wait_that_times_out_leaves_nothing_behind() {
    let mut run: RunHandle<u32, u32> = RunHandle::reopen(RunId("r".into()));
    run.upsert_pending_tool(pending("a", None));
    run.begin_wait_tool("a".into(), 1).unwrap();
    assert_eq!(
        run.recv_tool("a", RecvOutcome::TimedOut),
        Err(WaitError::Timeout)
    );
    assert!(!run.is_waiting_tool());
    assert!(run.pending_tools().is_empty());
}

#[test]
fn ids_are_uuids() {
    let a = new_id();
    let b = new_id();
    assert_eq!(a.len(), 36);
    assert_ne!(a, b);
    assert!(uuid::Uuid::parse_str(&a).is_ok());
}

#[test]
fn persistence_can_be_switched() {
    let mut run: RunHandle<u32, u32> = RunHandle::reopen(RunId("r".into()));
    assert!(!run.persist_enabled());
    run.set_persist(true);
    assert!(run.persist_enabled());
    run.remove_pending_tool("none");
    assert_eq!(SubmitError::Conflict.message(), "run is not waiting for this tool result");
    assert_eq!(WaitError::Timeout.message(), "tool wait timed out");
    assert_eq!(WaitError::Cancelled.message(), "run cancelled");
}
