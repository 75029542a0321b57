use andromeda::dup::Dup;
use andromeda::json::JsonValue;
use andromeda::protocol::{Role, WireMessage};
use andromeda::store::{
    load_revision, seconds_or_zero, unix_now, Checkpoint, GuardsSnapshot, LocalFsRunStore,
    PendingTool, RunStatus, StoreError,
};

fn sample_checkpoint(run_id: &str, revision: u64) -> Checkpoint {
    Checkpoint {
        run_id: run_id.into(),
        status: RunStatus::WaitingTool,
        context: vec![WireMessage {
            role: Role::User,
            content: "hi".into(),
            tool_call_id: None,
            name: None,
            tool_calls: None,
            reasoning_content: None,
        }],
        tools: vec![],
        todos: vec![],
        plan_mode: false,
        subagents: false,
        pending_tool: Some(PendingTool {
            tool_call_id: "call_1".into(),
            name: "echo".into(),
            arguments: JsonValue::parse(r#"{"text": "x"}"#).unwrap(),
            agent_id: None,
            parent_task_id: None,
        }),
        guards: GuardsSnapshot::new_now(),
        parent_run_id: None,
        owner_id: Some("node-a".into()),
        revision,
        finish_reason: None,
    }
}

#[test]
fn save_load_roundtrip() {
    let mut slot = None;
    LocalFsRunStore::save(&mut slot, sample_checkpoint("r1", 1));
    let loaded = slot.expect("present");
    assert_eq!(loaded.run_id, "r1");
    assert_eq!(loaded.revision, 1);
    assert_eq!(loaded.status, RunStatus::WaitingTool);
    assert_eq!(loaded.pending_tool.as_ref().unwrap().tool_call_id, "call_1");
    assert_eq!(loaded.context[0].content, "hi");
    assert_eq!(loaded.owner_id.as_deref(), Some("node-a"));
}

#[test]
fn save_cas_succeeds_then_conflicts_on_stale() {
    let mut slot = None;
    let mut cp = sample_checkpoint("r2", 1);
    LocalFsRunStore::save_cas(&mut slot, cp.dup(), 0).unwrap();

    cp.revision = 2;
    cp.status = RunStatus::Running;
    cp.pending_tool = None;
    LocalFsRunStore::save_cas(&mut slot, cp, 1).unwrap();

    let stale = sample_checkpoint("r2", 2);
    let err = LocalFsRunStore::save_cas(&mut slot, stale, 1).unwrap_err();
    assert!(matches!(err, StoreError::Conflict));

    let loaded = slot.unwrap();
    assert_eq!(loaded.revision, 2);
    assert_eq!(loaded.status, RunStatus::Running);
}

#[test]
fn a_run_that_is_not_stored_has_revision_zero() {
    assert_eq!(load_revision(&None), 0);
    assert_eq!(load_revision(&Some(sample_checkpoint("r", 4))), 4);
    let mut slot = None;
    assert!(LocalFsRunStore::save_cas(&mut slot, sample_checkpoint("r", 1), 1).is_err());
    assert!(slot.is_none());
}

#[test]
fn files_lie_under_the_directory_of_the_run() {
    let store = LocalFsRunStore::new("/data".into());
    assert_eq!(store.root(), "/data");
    assert_eq!(store.run_dir("r3"), vec!["/data", "runs", "r3"]);
    assert_eq!(
        store.checkpoint_path("r3"),
        vec!["/data", "runs", "r3", "checkpoint.json"]
    );
    assert_eq!(store.meta_path("r3"), vec!["/data", "runs", "r3", "meta.json"]);
}

#[test]
fn statuses_have_names_and_three_of_them_are_final() {
    let cases = [
        (RunStatus::Running, "running", false),
        (RunStatus::WaitingTool, "waiting_tool", false),
        (RunStatus::Completed, "completed", true),
        (RunStatus::Failed, "failed", true),
        (RunStatus::Cancelled, "cancelled", true),
    ];
    for (status, name, last) in cases {
        assert_eq!(status.as_str(), name);
        assert_eq!(status.is_terminal(), last);
    }
}

#[test]
fn guards_begin_at_zero_and_remember_when() {
    let before = unix_now();
    assert!(before > 1_600_000_000);
    let mut guards = GuardsSnapshot::new_now();
    assert_eq!(guards.llm_rounds, 0);
    assert_eq!(guards.follow_up_rounds, 0);
    assert_eq!(guards.noop_streak, 0);
    assert_eq!(guards.started_at, guards.updated_at);
    assert!(guards.started_at.parse::<u64>().unwrap() >= before);
    guards.touch_at(7);
    assert_eq!(guards.updated_at, "7");
    guards.touch();
    assert!(guards.updated_at.parse::<u64>().unwrap() >= before);
    assert_eq!(GuardsSnapshot::new_at(12).started_at, "12");
}

#[test]
fn a_clock_before_the_epoch_reads_zero() {
    assert_eq!(seconds_or_zero(Some(12)), 12);
    assert_eq!(seconds_or_zero(None), 0);
}

#[test]
fn store_errors_have_texts() {
    assert_eq!(StoreError::Conflict.message(), "checkpoint revision conflict");
    assert_eq!(StoreError::Io("x".into()).message(), "io error: x");
    assert_eq!(StoreError::Json("x".into()).message(), "json error: x");
}
