//! Checkpoints of runs, and the rules by which they are kept.

use vstd::prelude::*;

use crate::dup::{push_last, Dup};
use crate::json::{Json, JsonValue};
use crate::protocol::{TodoItem, TodoItemView, ToolDef, ToolDefView, WireMessage, WireMessageView};
use crate::text::{concat, dec, decimal};

verus! {

/// Where a run stands.
#[derive(Debug, Clone, Copy, PartialEq, Eq, Structural)]
pub enum RunStatus {
    Running,
    WaitingTool,
    Completed,
    Failed,
    Cancelled,
}

impl DeepView for RunStatus {
    type V = RunStatus;

    open spec fn deep_view(&self) -> RunStatus {
        *self
    }
}

impl RunStatus {
    pub open spec fn label(self) -> Seq<char> {
        match self {
            RunStatus::Running => "running"@,
            RunStatus::WaitingTool => "waiting_tool"@,
            RunStatus::Completed => "completed"@,
            RunStatus::Failed => "failed"@,
            RunStatus::Cancelled => "cancelled"@,
        }
    }

    pub open spec fn terminal(self) -> bool {
        self is Completed || self is Failed || self is Cancelled
    }

    /// The name of the status on the wire.
    pub fn as_str(self) -> (r: &'static str)
        ensures
            r@ == self.label(),
    {
        match self {
            RunStatus::Running => "running",
            RunStatus::WaitingTool => "waiting_tool",
            RunStatus::Completed => "completed",
            RunStatus::Failed => "failed",
            RunStatus::Cancelled => "cancelled",
        }
    }

    /// Whether the run is over.
    pub fn is_terminal(self) -> (r: bool)
        ensures
            r == self.terminal(),
    {
        matches!(self, RunStatus::Completed | RunStatus::Failed | RunStatus::Cancelled)
    }
}

/// A client tool whose result is awaited.
#[derive(Debug, PartialEq)]
pub struct PendingTool {
    pub tool_call_id: String,
    pub name: String,
    pub arguments: JsonValue,
    /// The subagent that asked for the tool.
    pub agent_id: Option<String>,
    /// The `task` call that the subagent runs for.
    pub parent_task_id: Option<String>,
}

/// What a `PendingTool` is.
#[verifier::ext_equal]
pub struct PendingToolView {
    pub tool_call_id: Seq<char>,
    pub name: Seq<char>,
    pub arguments: Json,
    pub agent_id: Option<Seq<char>>,
    pub parent_task_id: Option<Seq<char>>,
}

impl DeepView for PendingTool {
    type V = PendingToolView;

    open spec fn deep_view(&self) -> PendingToolView {
        PendingToolView {
            tool_call_id: self.tool_call_id@,
            name: self.name@,
            arguments: self.arguments.deep_view(),
            agent_id: self.agent_id.deep_view(),
            parent_task_id: self.parent_task_id.deep_view(),
        }
    }
}

impl Dup for PendingTool {
    fn dup(&self) -> (r: Self) {
        PendingTool {
            tool_call_id: self.tool_call_id.dup(),
            name: self.name.dup(),
            arguments: self.arguments.dup(),
            agent_id: self.agent_id.dup(),
            parent_task_id: self.parent_task_id.dup(),
        }
    }
}

/// What the limits of a run are held against.
#[derive(Debug, PartialEq)]
pub struct GuardsSnapshot {
    pub llm_rounds: u32,
    pub follow_up_rounds: u32,
    /// Seconds since the epoch, in decimal.
    pub started_at: String,
    pub updated_at: String,
    pub noop_streak: u32,
    pub last_assistant_norm: String,
}

/// What a `GuardsSnapshot` is.
#[verifier::ext_equal]
pub struct GuardsSnapshotView {
    pub llm_rounds: u32,
    pub follow_up_rounds: u32,
    pub started_at: Seq<char>,
    pub updated_at: Seq<char>,
    pub noop_streak: u32,
    pub last_assistant_norm: Seq<char>,
}

impl DeepView for GuardsSnapshot {
    type V = GuardsSnapshotView;

    open spec fn deep_view(&self) -> GuardsSnapshotView {
        GuardsSnapshotView {
            llm_rounds: self.llm_rounds,
            follow_up_rounds: self.follow_up_rounds,
            started_at: self.started_at@,
            updated_at: self.updated_at@,
            noop_streak: self.noop_streak,
            last_assistant_norm: self.last_assistant_norm@,
        }
    }
}

impl Dup for GuardsSnapshot {
    fn dup(&self) -> (r: Self) {
        GuardsSnapshot {
            llm_rounds: self.llm_rounds,
            follow_up_rounds: self.follow_up_rounds,
            started_at: self.started_at.dup(),
            updated_at: self.updated_at.dup(),
            noop_streak: self.noop_streak,
            last_assistant_norm: self.last_assistant_norm.dup(),
        }
    }
}

/// Reads the clock with `std::time::SystemTime::now`: whole seconds since the Unix epoch, or
/// `None` where the clock stands before it. Nothing is claimed of the reading.
#[verifier::external_body]
fn clock_seconds() -> (r: Option<u64>) {
    std::time::SystemTime::now().duration_since(std::time::UNIX_EPOCH).map(|d| d.as_secs()).ok()
}

/// The seconds of a reading of the clock; zero where the clock stands before the epoch.
pub fn seconds_or_zero(reading: Option<u64>) -> (r: u64)
    ensures
        r == match reading {
            Some(secs) => secs,
            None => 0,
        },
{
    match reading {
        Some(secs) => secs,
        None => 0,
    }
}

/// Seconds since the Unix epoch; zero where the clock stands before it. Any number may come back:
/// nothing is claimed of the time.
pub fn unix_now() -> u64 {
    seconds_or_zero(clock_seconds())
}

/// The guards of a run that starts at `now`.
pub open spec fn guards_from(now: u64) -> GuardsSnapshotView {
    GuardsSnapshotView {
        llm_rounds: 0,
        follow_up_rounds: 0,
        started_at: dec(now as nat),
        updated_at: dec(now as nat),
        noop_streak: 0,
        last_assistant_norm: Seq::empty(),
    }
}

impl GuardsSnapshotView {
    pub open spec fn touched(self, now: u64) -> Self {
        GuardsSnapshotView { updated_at: dec(now as nat), ..self }
    }
}

impl GuardsSnapshot {
    /// The guards of a run that starts at `now`.
    pub fn new_at(now: u64) -> (r: Self)
        ensures
            r.deep_view() == guards_from(now),
    {
        GuardsSnapshot {
            llm_rounds: 0,
            follow_up_rounds: 0,
            started_at: decimal(now),
            updated_at: decimal(now),
            noop_streak: 0,
            last_assistant_norm: String::new(),
        }
    }

    /// The guards of a run that starts at the time of the clock.
    pub fn new_now() -> (r: Self)
        ensures
            exists|now: u64| r.deep_view() == #[trigger] guards_from(now),
    {
        let now: u64 = unix_now();
        GuardsSnapshot::new_at(now)
    }

    /// Records `now` as the time of the last change.
    pub fn touch_at(&mut self, now: u64)
        ensures
            final(self).deep_view() == old(self).deep_view().touched(now),
    {
        self.updated_at = decimal(now);
    }

    /// Records the time of the clock as the time of the last change.
    pub fn touch(&mut self)
        ensures
            exists|now: u64|
                final(self).deep_view() == #[trigger] old(self).deep_view().touched(now),
    {
        let now: u64 = unix_now();
        self.touch_at(now);
    }
}

/// The state of a run as it is kept on disk.
#[derive(Debug, PartialEq)]
pub struct Checkpoint {
    pub run_id: String,
    pub status: RunStatus,
    pub context: Vec<WireMessage>,
    pub tools: Vec<ToolDef>,
    pub todos: Vec<TodoItem>,
    pub plan_mode: bool,
    pub subagents: bool,
    pub pending_tool: Option<PendingTool>,
    pub guards: GuardsSnapshot,
    pub parent_run_id: Option<String>,
    /// The instance that runs the loop.
    pub owner_id: Option<String>,
    pub revision: u64,
    pub finish_reason: Option<String>,
}

/// What a `Checkpoint` is.
#[verifier::ext_equal]
pub struct CheckpointView {
    pub run_id: Seq<char>,
    pub status: RunStatus,
    pub context: Seq<WireMessageView>,
    pub tools: Seq<ToolDefView>,
    pub todos: Seq<TodoItemView>,
    pub plan_mode: bool,
    pub subagents: bool,
    pub pending_tool: Option<PendingToolView>,
    pub guards: GuardsSnapshotView,
    pub parent_run_id: Option<Seq<char>>,
    pub owner_id: Option<Seq<char>>,
    pub revision: u64,
    pub finish_reason: Option<Seq<char>>,
}

impl DeepView for Checkpoint {
    type V = CheckpointView;

    open spec fn deep_view(&self) -> CheckpointView {
        CheckpointView {
            run_id: self.run_id@,
            status: self.status,
            context: self.context.deep_view(),
            tools: self.tools.deep_view(),
            todos: self.todos.deep_view(),
            plan_mode: self.plan_mode,
            subagents: self.subagents,
            pending_tool: self.pending_tool.deep_view(),
            guards: self.guards.deep_view(),
            parent_run_id: self.parent_run_id.deep_view(),
            owner_id: self.owner_id.deep_view(),
            revision: self.revision,
            finish_reason: self.finish_reason.deep_view(),
        }
    }
}

impl Dup for Checkpoint {
    fn dup(&self) -> (r: Self) {
        Checkpoint {
            run_id: self.run_id.dup(),
            status: self.status,
            context: self.context.dup(),
            tools: self.tools.dup(),
            todos: self.todos.dup(),
            plan_mode: self.plan_mode,
            subagents: self.subagents,
            pending_tool: self.pending_tool.dup(),
            guards: self.guards.dup(),
            parent_run_id: self.parent_run_id.dup(),
            owner_id: self.owner_id.dup(),
            revision: self.revision,
            finish_reason: self.finish_reason.dup(),
        }
    }
}

/// Why a checkpoint was not saved or loaded.
#[derive(Debug, PartialEq)]
pub enum StoreError {
    /// The stored revision is not the expected one.
    Conflict,
    Io(String),
    Json(String),
}

/// What `StoreError` is.
#[verifier::ext_equal]
pub enum StoreErrorView {
    Conflict,
    Io(Seq<char>),
    Json(Seq<char>),
}

impl DeepView for StoreError {
    type V = StoreErrorView;

    open spec fn deep_view(&self) -> StoreErrorView {
        match self {
            StoreError::Conflict => StoreErrorView::Conflict,
            StoreError::Io(x) => StoreErrorView::Io(x@),
            StoreError::Json(x) => StoreErrorView::Json(x@),
        }
    }
}

impl StoreErrorView {
    pub open spec fn message(self) -> Seq<char> {
        match self {
            StoreErrorView::Conflict => "checkpoint revision conflict"@,
            StoreErrorView::Io(err) => "io error: "@ + err,
            StoreErrorView::Json(err) => "json error: "@ + err,
        }
    }
}

impl StoreError {
    /// The text of the error.
    pub fn message(&self) -> (r: String)
        ensures
            r@ == self.deep_view().message(),
    {
        match self {
            StoreError::Conflict => "checkpoint revision conflict".to_owned(),
            StoreError::Io(err) => concat("io error: ", err.as_str()),
            StoreError::Json(err) => concat("json error: ", err.as_str()),
        }
    }
}

/// The revision of what is stored; a run that is not stored has revision zero.
pub open spec fn stored_revision(slot: Option<CheckpointView>) -> u64 {
    match slot {
        Some(cp) => cp.revision,
        None => 0,
    }
}

/// What is stored after a compare-and-set, or the conflict.
pub open spec fn cas(
    slot: Option<CheckpointView>,
    cp: CheckpointView,
    expected: u64,
) -> Result<Option<CheckpointView>, StoreErrorView> {
    if stored_revision(slot) == expected {
        Ok(Some(cp))
    } else {
        Err(StoreErrorView::Conflict)
    }
}

/// The directory layout of a store on the local file system. A path is given by its segments.
#[derive(Debug)]
pub struct LocalFsRunStore {
    root: String,
}

impl LocalFsRunStore {
    pub closed spec fn dir(self) -> Seq<char> {
        self.root@
    }

    /// A store under `data_dir`.
    pub fn new(data_dir: String) -> (r: Self)
        ensures
            r.dir() == data_dir@,
    {
        LocalFsRunStore { root: data_dir }
    }

    pub fn root(&self) -> (r: &str)
        ensures
            r@ == self.dir(),
    {
        self.root.as_str()
    }

    /// The directory of a run.
    pub fn run_dir(&self, run_id: &str) -> (r: Vec<String>)
        ensures
            r.deep_view() == seq![self.dir(), "runs"@, run_id@],
    {
        let r = vec![self.root.clone(), "runs".to_owned(), run_id.to_owned()];
        assert(r.deep_view() =~= seq![self.dir(), "runs"@, run_id@]);
        r
    }

    /// The file that holds the checkpoint of a run.
    pub fn checkpoint_path(&self, run_id: &str) -> (r: Vec<String>)
        ensures
            r.deep_view() == seq![self.dir(), "runs"@, run_id@, "checkpoint.json"@],
    {
        let mut r = self.run_dir(run_id);
        push_last(&mut r, "checkpoint.json".to_owned());
        assert(r.deep_view() =~= seq![self.dir(), "runs"@, run_id@, "checkpoint.json"@]);
        r
    }

    /// The file that holds the metadata of a run.
    pub fn meta_path(&self, run_id: &str) -> (r: Vec<String>)
        ensures
            r.deep_view() == seq![self.dir(), "runs"@, run_id@, "meta.json"@],
    {
        let mut r = self.run_dir(run_id);
        push_last(&mut r, "meta.json".to_owned());
        assert(r.deep_view() =~= seq![self.dir(), "runs"@, run_id@, "meta.json"@]);
        r
    }

    /// Replaces what is stored, whatever its revision.
    pub fn save(slot: &mut Option<Checkpoint>, cp: Checkpoint)
        ensures
            final(slot).deep_view() == Some(cp.deep_view()),
    {
        *slot = Some(cp);
    }

    /// Replaces what is stored if its revision is `expected`; a run that is not stored has
    /// revision zero. On a conflict what is stored stays.
    pub fn save_cas(slot: &mut Option<Checkpoint>, cp: Checkpoint, expected: u64) -> (r: Result<
        (),
        StoreError,
    >)
        ensures
            match cas(old(slot).deep_view(), cp.deep_view(), expected) {
                Ok(stored) => r is Ok && final(slot).deep_view() == stored,
                Err(err) => r matches Err(e) && e.deep_view() == err && *final(slot) == *old(slot),
            },
    {
        if load_revision(slot) != expected {
            return Err(StoreError::Conflict);
        }
        *slot = Some(cp);
        Ok(())
    }
}

/// The revision of what is stored; zero where nothing is.
pub fn load_revision(slot: &Option<Checkpoint>) -> (r: u64)
    ensures
        r == stored_revision(slot.deep_view()),
{
    match slot {
        Some(cp) => cp.revision,
        None => 0,
    }
}

/// After a compare-and-set has written a checkpoint, one that still expects another revision is
/// refused, and one that expects the written revision is not.
pub proof fn law_stale_revision_conflicts(
    slot: Option<CheckpointView>,
    first: CheckpointView,
    expected: u64,
    second: CheckpointView,
    expected2: u64,
)
    requires
        cas(slot, first, expected) is Ok,
    ensures
        cas(cas(slot, first, expected)->Ok_0, second, expected2) is Ok <==> expected2
            == first.revision,
        expected2 != first.revision ==> cas(
            cas(slot, first, expected)->Ok_0,
            second,
            expected2,
        ) == Err::<Option<CheckpointView>, _>(StoreErrorView::Conflict),
{
}

} // verus!
