//! The state of the loop of a run, what happens to it, and what it asks for.

use vstd::prelude::*;

use crate::agent::error::{OrchestratorError, OrchestratorErrorView};
use crate::agent::middleware::{MwEffect, MwEffectView};
use crate::config::{default_guards, default_subagents, GuardsConfig, SubagentsConfig};
use crate::dup::Dup;
use crate::llm::{LlmChunk, LlmChunkView, ToolCall};
use crate::protocol::{
    SseEvent, SseEventView, TodoItem, TodoItemView, ToolCallView, ToolDef, ToolDefView,
    ToolResultRequest, ToolResultRequestView, WireMessage, WireMessageView,
};
use crate::runtime::WaitError;
use crate::store::{
    Checkpoint, CheckpointView, GuardsSnapshot, GuardsSnapshotView, PendingTool, PendingToolView,
};

verus! {

/// How many times in a row the agent may go on by itself.
pub const MAX_FOLLOW_UP_ROUNDS: u32 = 8;

/// How a run is to be made.
#[derive(Debug, PartialEq)]
pub struct RunAgentOpts {
    pub plan_mode: bool,
    pub subagents: bool,
    pub subagents_cfg: SubagentsConfig,
    pub guards_cfg: GuardsConfig,
    pub initial_todos: Vec<TodoItem>,
    pub initial_guards: Option<GuardsSnapshot>,
    /// Whether the run announces its start.
    pub emit_started: bool,
    /// Whether the run is nested: it sends no messages, and does not finish the handle.
    pub fold_stream: bool,
    pub agent_id: Option<String>,
    pub parent_task_id: Option<String>,
}

/// What a `RunAgentOpts` is.
#[verifier::ext_equal]
pub struct RunAgentOptsView {
    pub plan_mode: bool,
    pub subagents: bool,
    pub subagents_cfg: SubagentsConfig,
    pub guards_cfg: GuardsConfig,
    pub initial_todos: Seq<TodoItemView>,
    pub initial_guards: Option<GuardsSnapshotView>,
    pub emit_started: bool,
    pub fold_stream: bool,
    pub agent_id: Option<Seq<char>>,
    pub parent_task_id: Option<Seq<char>>,
}

impl DeepView for RunAgentOpts {
    type V = RunAgentOptsView;

    open spec fn deep_view(&self) -> RunAgentOptsView {
        RunAgentOptsView {
            plan_mode: self.plan_mode,
            subagents: self.subagents,
            subagents_cfg: self.subagents_cfg,
            guards_cfg: self.guards_cfg,
            initial_todos: self.initial_todos.deep_view(),
            initial_guards: self.initial_guards.deep_view(),
            emit_started: self.emit_started,
            fold_stream: self.fold_stream,
            agent_id: self.agent_id.deep_view(),
            parent_task_id: self.parent_task_id.deep_view(),
        }
    }
}

impl Dup for RunAgentOpts {
    fn dup(&self) -> (r: Self) {
        RunAgentOpts {
            plan_mode: self.plan_mode,
            subagents: self.subagents,
            subagents_cfg: self.subagents_cfg,
            guards_cfg: self.guards_cfg,
            initial_todos: self.initial_todos.dup(),
            initial_guards: self.initial_guards.dup(),
            emit_started: self.emit_started,
            fold_stream: self.fold_stream,
            agent_id: self.agent_id.dup(),
            parent_task_id: self.parent_task_id.dup(),
        }
    }
}

/// The options of a plain run.
pub open spec fn default_opts() -> RunAgentOptsView {
    RunAgentOptsView {
        plan_mode: false,
        subagents: false,
        subagents_cfg: default_subagents(),
        guards_cfg: default_guards(),
        initial_todos: Seq::empty(),
        initial_guards: None,
        emit_started: true,
        fold_stream: false,
        agent_id: None,
        parent_task_id: None,
    }
}

impl Default for RunAgentOpts {
    fn default() -> (r: Self)
        ensures
            r.deep_view() == default_opts(),
    {
        let r = RunAgentOpts {
            plan_mode: false,
            subagents: false,
            subagents_cfg: SubagentsConfig::default(),
            guards_cfg: GuardsConfig::default(),
            initial_todos: Vec::new(),
            initial_guards: None,
            emit_started: true,
            fold_stream: false,
            agent_id: None,
            parent_task_id: None,
        };
        assert(r.initial_todos.deep_view() =~= Seq::<TodoItemView>::empty());
        r
    }
}

impl RunAgentOpts {
    /// The options of a new run.
    pub fn lead(
        plan_mode: bool,
        subagents: bool,
        guards_cfg: GuardsConfig,
        subagents_cfg: SubagentsConfig,
    ) -> (r: Self)
        ensures
            r.deep_view() == (RunAgentOptsView {
                plan_mode,
                subagents,
                guards_cfg,
                subagents_cfg,
                ..default_opts()
            }),
    {
        let mut r = RunAgentOpts::default();
        r.plan_mode = plan_mode;
        r.subagents = subagents;
        r.guards_cfg = guards_cfg;
        r.subagents_cfg = subagents_cfg;
        r
    }

    /// The options of a run that goes on from a checkpoint.
    pub fn resume_running(
        plan_mode: bool,
        subagents: bool,
        todos: Vec<TodoItem>,
        guards_cfg: GuardsConfig,
        initial_guards: Option<GuardsSnapshot>,
        subagents_cfg: SubagentsConfig,
    ) -> (r: Self)
        ensures
            r.deep_view() == (RunAgentOptsView {
                plan_mode,
                subagents,
                initial_todos: todos.deep_view(),
                guards_cfg,
                initial_guards: initial_guards.deep_view(),
                subagents_cfg,
                emit_started: false,
                ..default_opts()
            }),
    {
        let mut r = RunAgentOpts::lead(plan_mode, subagents, guards_cfg, subagents_cfg);
        r.initial_todos = todos;
        r.initial_guards = initial_guards;
        r.emit_started = false;
        r
    }

    /// The options of the nested run of a subtask.
    pub fn for_subagent(
        parent_task_id: String,
        agent_id: String,
        guards_cfg: GuardsConfig,
        subagents_cfg: SubagentsConfig,
    ) -> (r: Self)
        ensures
            r.deep_view() == (RunAgentOptsView {
                guards_cfg,
                subagents_cfg,
                emit_started: false,
                fold_stream: true,
                agent_id: Some(agent_id@),
                parent_task_id: Some(parent_task_id@),
                ..default_opts()
            }),
    {
        let mut r = RunAgentOpts::lead(false, false, guards_cfg, subagents_cfg);
        r.emit_started = false;
        r.fold_stream = true;
        r.agent_id = Some(agent_id);
        r.parent_task_id = Some(parent_task_id);
        r
    }
}

/// Where the checkpoints of a run go.
#[derive(Debug, PartialEq)]
pub struct RunPersist {
    pub instance_id: String,
    /// The revision of the stored checkpoint; zero where there is none.
    pub revision: u64,
}

/// What a `RunPersist` is.
#[verifier::ext_equal]
pub struct RunPersistView {
    pub instance_id: Seq<char>,
    pub revision: u64,
}

impl DeepView for RunPersist {
    type V = RunPersistView;

    open spec fn deep_view(&self) -> RunPersistView {
        RunPersistView {
            instance_id: self.instance_id@,
            revision: self.revision,
        }
    }
}

impl Dup for RunPersist {
    fn dup(&self) -> (r: Self) {
        RunPersist {
            instance_id: self.instance_id.dup(),
            revision: self.revision,
        }
    }
}

/// What a run keeps besides its context.
#[derive(Debug, PartialEq)]
pub struct PersistSession {
    pub instance_id: String,
    /// Whether checkpoints are written.
    pub enabled: bool,
    pub revision: u64,
    pub guards: GuardsSnapshot,
    pub pending_tool: Option<PendingTool>,
    pub todos: Vec<TodoItem>,
    pub plan_mode: bool,
    pub subagents: bool,
    pub subagents_cfg: SubagentsConfig,
    pub fold_stream: bool,
    pub agent_id: Option<String>,
    pub parent_task_id: Option<String>,
    pub guards_cfg: GuardsConfig,
    pub finish_reason: Option<String>,
}

/// What a `PersistSession` is.
#[verifier::ext_equal]
pub struct PersistSessionView {
    pub instance_id: Seq<char>,
    pub enabled: bool,
    pub revision: u64,
    pub guards: GuardsSnapshotView,
    pub pending_tool: Option<PendingToolView>,
    pub todos: Seq<TodoItemView>,
    pub plan_mode: bool,
    pub subagents: bool,
    pub subagents_cfg: SubagentsConfig,
    pub fold_stream: bool,
    pub agent_id: Option<Seq<char>>,
    pub parent_task_id: Option<Seq<char>>,
    pub guards_cfg: GuardsConfig,
    pub finish_reason: Option<Seq<char>>,
}

impl DeepView for PersistSession {
    type V = PersistSessionView;

    open spec fn deep_view(&self) -> PersistSessionView {
        PersistSessionView {
            instance_id: self.instance_id@,
            enabled: self.enabled,
            revision: self.revision,
            guards: self.guards.deep_view(),
            pending_tool: self.pending_tool.deep_view(),
            todos: self.todos.deep_view(),
            plan_mode: self.plan_mode,
            subagents: self.subagents,
            subagents_cfg: self.subagents_cfg,
            fold_stream: self.fold_stream,
            agent_id: self.agent_id.deep_view(),
            parent_task_id: self.parent_task_id.deep_view(),
            guards_cfg: self.guards_cfg,
            finish_reason: self.finish_reason.deep_view(),
        }
    }
}

/// How a run ended.
#[derive(Debug, PartialEq)]
pub enum RunOutcome {
    /// The run is over; what its last message says.
    Finished(String),
    Failed(OrchestratorError),
}

/// What `RunOutcome` is.
#[verifier::ext_equal]
pub enum RunOutcomeView {
    Finished(Seq<char>),
    Failed(OrchestratorErrorView),
}

impl DeepView for RunOutcome {
    type V = RunOutcomeView;

    open spec fn deep_view(&self) -> RunOutcomeView {
        match self {
            RunOutcome::Finished(x) => RunOutcomeView::Finished(x@),
            RunOutcome::Failed(x) => RunOutcomeView::Failed(x.deep_view()),
        }
    }
}

impl Dup for RunOutcome {
    fn dup(&self) -> (r: Self) {
        match self {
            RunOutcome::Finished(x) => RunOutcome::Finished(x.dup()),
            RunOutcome::Failed(x) => RunOutcome::Failed(x.dup()),
        }
    }
}

/// A message that joins the context from outside.
#[derive(Debug, PartialEq)]
pub struct Steered {
    pub message: WireMessage,
    /// A new id for the event that announces the message.
    pub message_id: String,
}

/// What a `Steered` is.
#[verifier::ext_equal]
pub struct SteeredView {
    pub message: WireMessageView,
    pub message_id: Seq<char>,
}

impl DeepView for Steered {
    type V = SteeredView;

    open spec fn deep_view(&self) -> SteeredView {
        SteeredView {
            message: self.message.deep_view(),
            message_id: self.message_id@,
        }
    }
}

/// The result of a subtask.
#[derive(Debug, PartialEq)]
pub struct TaskReply {
    pub id: String,
    pub name: String,
    pub content: String,
}

/// What a `TaskReply` is.
#[verifier::ext_equal]
pub struct TaskReplyView {
    pub id: Seq<char>,
    pub name: Seq<char>,
    pub content: Seq<char>,
}

impl DeepView for TaskReply {
    type V = TaskReplyView;

    open spec fn deep_view(&self) -> TaskReplyView {
        TaskReplyView {
            id: self.id@,
            name: self.name@,
            content: self.content@,
        }
    }
}

/// A checkpoint to write.
#[derive(Debug, PartialEq)]
pub struct SaveRequest {
    pub checkpoint: Checkpoint,
    /// The revision that must be stored for the write to be made.
    pub expected: u64,
}

/// What a `SaveRequest` is.
#[verifier::ext_equal]
pub struct SaveRequestView {
    pub checkpoint: CheckpointView,
    pub expected: u64,
}

impl DeepView for SaveRequest {
    type V = SaveRequestView;

    open spec fn deep_view(&self) -> SaveRequestView {
        SaveRequestView {
            checkpoint: self.checkpoint.deep_view(),
            expected: self.expected,
        }
    }
}

/// Something to do before what the loop asks for.
#[derive(Debug, PartialEq)]
pub enum Effect {
    /// Send an event to the subscriber.
    Emit(SseEvent),
    /// Record that the result of a client tool is awaited.
    UpsertPending(PendingTool),
    /// Forget the record of a client tool.
    RemovePending(String),
    /// Mark the handle of the run as over.
    Finish,
}

/// What `Effect` is.
#[verifier::ext_equal]
pub enum EffectView {
    Emit(SseEventView),
    UpsertPending(PendingToolView),
    RemovePending(Seq<char>),
    Finish,
}

impl DeepView for Effect {
    type V = EffectView;

    open spec fn deep_view(&self) -> EffectView {
        match self {
            Effect::Emit(x) => EffectView::Emit(x.deep_view()),
            Effect::UpsertPending(x) => EffectView::UpsertPending(x.deep_view()),
            Effect::RemovePending(x) => EffectView::RemovePending(x@),
            Effect::Finish => EffectView::Finish,
        }
    }
}

/// What the loop asks for.
#[derive(Debug, PartialEq)]
pub enum Ask {
    /// Take the messages that were sent to the run.
    Steer,
    /// Run the middlewares on the context.
    Middleware,
    /// Call the model with the context and these tools.
    OpenStream(Vec<ToolDef>),
    /// Read the stream of the model.
    NextChunk,
    /// Write a checkpoint, or do nothing.
    Save(Option<SaveRequest>),
    /// Run the subtasks, all at once.
    RunTasks(Vec<ToolCall>),
    /// Record the client tool and install a waiter for its result.
    ArmTool(PendingTool),
    /// Wait for the result of a client tool.
    RecvTool(String),
    /// Ask the follow-up policy.
    FollowUps,
    /// The loop is over.
    Return(RunOutcome),
}

/// What `Ask` is.
#[verifier::ext_equal]
pub enum AskView {
    Steer,
    Middleware,
    OpenStream(Seq<ToolDefView>),
    NextChunk,
    Save(Option<SaveRequestView>),
    RunTasks(Seq<ToolCallView>),
    ArmTool(PendingToolView),
    RecvTool(Seq<char>),
    FollowUps,
    Return(RunOutcomeView),
}

impl DeepView for Ask {
    type V = AskView;

    open spec fn deep_view(&self) -> AskView {
        match self {
            Ask::Steer => AskView::Steer,
            Ask::Middleware => AskView::Middleware,
            Ask::OpenStream(x) => AskView::OpenStream(x.deep_view()),
            Ask::NextChunk => AskView::NextChunk,
            Ask::Save(x) => AskView::Save(x.deep_view()),
            Ask::RunTasks(x) => AskView::RunTasks(x.deep_view()),
            Ask::ArmTool(x) => AskView::ArmTool(x.deep_view()),
            Ask::RecvTool(x) => AskView::RecvTool(x@),
            Ask::FollowUps => AskView::FollowUps,
            Ask::Return(x) => AskView::Return(x.deep_view()),
        }
    }
}

/// What happened.
#[derive(Debug, PartialEq)]
pub enum Happening {
    Begin,
    Steered(Vec<Steered>),
    /// The context after the middlewares, and what they ask for.
    MiddlewareDone(Vec<WireMessage>, MwEffect),
    /// The context as the middlewares left it, and why one of them failed.
    MiddlewareFailed(Vec<WireMessage>, OrchestratorError),
    /// The model streams; a new id for its message.
    StreamOpened(String),
    StreamRefused(String),
    Chunk(LlmChunk),
    ChunkFailed(String),
    StreamEnd,
    Saved,
    SaveConflict,
    SaveFailed(String),
    /// There was nothing to write.
    SaveSkipped,
    TasksDone(Vec<TaskReply>),
    Armed,
    ArmRefused(WaitError),
    ToolResult(ToolResultRequest),
    ToolWaitFailed(WaitError),
    FollowUps(Vec<Steered>),
}

/// What `Happening` is.
#[verifier::ext_equal]
pub enum HappeningView {
    Begin,
    Steered(Seq<SteeredView>),
    MiddlewareDone(Seq<WireMessageView>, MwEffectView),
    MiddlewareFailed(Seq<WireMessageView>, OrchestratorErrorView),
    StreamOpened(Seq<char>),
    StreamRefused(Seq<char>),
    Chunk(LlmChunkView),
    ChunkFailed(Seq<char>),
    StreamEnd,
    Saved,
    SaveConflict,
    SaveFailed(Seq<char>),
    SaveSkipped,
    TasksDone(Seq<TaskReplyView>),
    Armed,
    ArmRefused(WaitError),
    ToolResult(ToolResultRequestView),
    ToolWaitFailed(WaitError),
    FollowUps(Seq<SteeredView>),
}

impl DeepView for Happening {
    type V = HappeningView;

    open spec fn deep_view(&self) -> HappeningView {
        match self {
            Happening::Begin => HappeningView::Begin,
            Happening::Steered(x) => HappeningView::Steered(x.deep_view()),
            Happening::MiddlewareDone(x0, x1) => HappeningView::MiddlewareDone(x0.deep_view(), x1.deep_view()),
            Happening::MiddlewareFailed(x0, x1) => HappeningView::MiddlewareFailed(x0.deep_view(), x1.deep_view()),
            Happening::StreamOpened(x) => HappeningView::StreamOpened(x@),
            Happening::StreamRefused(x) => HappeningView::StreamRefused(x@),
            Happening::Chunk(x) => HappeningView::Chunk(x.deep_view()),
            Happening::ChunkFailed(x) => HappeningView::ChunkFailed(x@),
            Happening::StreamEnd => HappeningView::StreamEnd,
            Happening::Saved => HappeningView::Saved,
            Happening::SaveConflict => HappeningView::SaveConflict,
            Happening::SaveFailed(x) => HappeningView::SaveFailed(x@),
            Happening::SaveSkipped => HappeningView::SaveSkipped,
            Happening::TasksDone(x) => HappeningView::TasksDone(x.deep_view()),
            Happening::Armed => HappeningView::Armed,
            Happening::ArmRefused(x) => HappeningView::ArmRefused(*x),
            Happening::ToolResult(x) => HappeningView::ToolResult(x.deep_view()),
            Happening::ToolWaitFailed(x) => HappeningView::ToolWaitFailed(*x),
            Happening::FollowUps(x) => HappeningView::FollowUps(x.deep_view()),
        }
    }
}

/// Why the loop takes up messages: before a call of the model, after a turn without tools, or when it would stop.
#[derive(Debug, Clone, Copy, PartialEq, Eq, Structural)]
pub enum Site {
    Top,
    AfterText,
    Idle,
}

impl DeepView for Site {
    type V = Site;

    open spec fn deep_view(&self) -> Site {
        *self
    }
}

/// What comes after a checkpoint.
#[derive(Debug, PartialEq)]
pub enum After {
    Steer(Site),
    Middleware,
    Assistant(Vec<ToolCall>),
    Todos,
    Tasks,
    Request(ToolCall),
    Result,
    FollowUps,
    Final(RunOutcome),
}

/// What `After` is.
#[verifier::ext_equal]
pub enum AfterView {
    Steer(Site),
    Middleware,
    Assistant(Seq<ToolCallView>),
    Todos,
    Tasks,
    Request(ToolCallView),
    Result,
    FollowUps,
    Final(RunOutcomeView),
}

impl DeepView for After {
    type V = AfterView;

    open spec fn deep_view(&self) -> AfterView {
        match self {
            After::Steer(x) => AfterView::Steer(*x),
            After::Middleware => AfterView::Middleware,
            After::Assistant(x) => AfterView::Assistant(x.deep_view()),
            After::Todos => AfterView::Todos,
            After::Tasks => AfterView::Tasks,
            After::Request(x) => AfterView::Request(x.deep_view()),
            After::Result => AfterView::Result,
            After::FollowUps => AfterView::FollowUps,
            After::Final(x) => AfterView::Final(x.deep_view()),
        }
    }
}

impl Dup for After {
    fn dup(&self) -> (r: Self) {
        match self {
            After::Steer(x) => After::Steer(*x),
            After::Middleware => After::Middleware,
            After::Assistant(x) => After::Assistant(x.dup()),
            After::Todos => After::Todos,
            After::Tasks => After::Tasks,
            After::Request(x) => After::Request(x.dup()),
            After::Result => After::Result,
            After::FollowUps => After::FollowUps,
            After::Final(x) => After::Final(x.dup()),
        }
    }
}

/// A completed message of the model.
#[derive(Debug, PartialEq)]
pub struct Completed {
    pub content: String,
    pub tool_calls: Vec<ToolCall>,
    pub reasoning_content: Option<String>,
}

/// What a `Completed` is.
#[verifier::ext_equal]
pub struct CompletedView {
    pub content: Seq<char>,
    pub tool_calls: Seq<ToolCallView>,
    pub reasoning_content: Option<Seq<char>>,
}

impl DeepView for Completed {
    type V = CompletedView;

    open spec fn deep_view(&self) -> CompletedView {
        CompletedView {
            content: self.content@,
            tool_calls: self.tool_calls.deep_view(),
            reasoning_content: self.reasoning_content.deep_view(),
        }
    }
}

impl Dup for Completed {
    fn dup(&self) -> (r: Self) {
        Completed {
            content: self.content.dup(),
            tool_calls: self.tool_calls.dup(),
            reasoning_content: self.reasoning_content.dup(),
        }
    }
}

/// What the loop waits for.
#[derive(Debug, PartialEq)]
pub enum Phase {
    /// Whether the run announces its start.
    Start(bool),
    Resume(PendingTool),
    Steer(Site),
    Middleware,
    Open,
    Streaming(String, Option<Completed>),
    Save {
        after: After,
        pending: Option<PendingTool>,
        written: bool,
    },
    Tasks,
    Arm(ToolCall),
    Recv(ToolCall),
    FollowUps,
    Done(RunOutcome),
}

/// What `Phase` is.
#[verifier::ext_equal]
pub enum PhaseView {
    Start(bool),
    Resume(PendingToolView),
    Steer(Site),
    Middleware,
    Open,
    Streaming(Seq<char>, Option<CompletedView>),
    Save {
        after: AfterView,
        pending: Option<PendingToolView>,
        written: bool,
    },
    Tasks,
    Arm(ToolCallView),
    Recv(ToolCallView),
    FollowUps,
    Done(RunOutcomeView),
}

impl DeepView for Phase {
    type V = PhaseView;

    open spec fn deep_view(&self) -> PhaseView {
        match self {
            Phase::Start(x) => PhaseView::Start(*x),
            Phase::Resume(x) => PhaseView::Resume(x.deep_view()),
            Phase::Steer(x) => PhaseView::Steer(*x),
            Phase::Middleware => PhaseView::Middleware,
            Phase::Open => PhaseView::Open,
            Phase::Streaming(x0, x1) => PhaseView::Streaming(x0@, x1.deep_view()),
            Phase::Save { after, pending, written } => PhaseView::Save {
                after: after.deep_view(),
                pending: pending.deep_view(),
                written: *written,
            },
            Phase::Tasks => PhaseView::Tasks,
            Phase::Arm(x) => PhaseView::Arm(x.deep_view()),
            Phase::Recv(x) => PhaseView::Recv(x.deep_view()),
            Phase::FollowUps => PhaseView::FollowUps,
            Phase::Done(x) => PhaseView::Done(x.deep_view()),
        }
    }
}

impl Dup for Phase {
    fn dup(&self) -> (r: Self) {
        match self {
            Phase::Start(x) => Phase::Start(*x),
            Phase::Resume(x) => Phase::Resume(x.dup()),
            Phase::Steer(x) => Phase::Steer(*x),
            Phase::Middleware => Phase::Middleware,
            Phase::Open => Phase::Open,
            Phase::Streaming(x0, x1) => Phase::Streaming(x0.dup(), x1.dup()),
            Phase::Save { after, pending, written } => Phase::Save {
                after: after.dup(),
                pending: pending.dup(),
                written: *written,
            },
            Phase::Tasks => Phase::Tasks,
            Phase::Arm(x) => Phase::Arm(x.dup()),
            Phase::Recv(x) => Phase::Recv(x.dup()),
            Phase::FollowUps => Phase::FollowUps,
            Phase::Done(x) => Phase::Done(x.dup()),
        }
    }
}

/// The loop of a run.
#[derive(Debug, PartialEq)]
pub struct AgentRun {
    pub run_id: String,
    pub context: Vec<WireMessage>,
    /// The tools of the client.
    pub tools: Vec<ToolDef>,
    pub session: PersistSession,
    pub follow_up_rounds: u32,
    /// Calls of `write_todos` that are still to be run.
    pub todo_calls: Vec<ToolCall>,
    pub task_calls: Vec<ToolCall>,
    pub client_calls: Vec<ToolCall>,
    pub phase: Phase,
}

/// What a `AgentRun` is.
#[verifier::ext_equal]
pub struct AgentRunView {
    pub run_id: Seq<char>,
    pub context: Seq<WireMessageView>,
    pub tools: Seq<ToolDefView>,
    pub session: PersistSessionView,
    pub follow_up_rounds: u32,
    pub todo_calls: Seq<ToolCallView>,
    pub task_calls: Seq<ToolCallView>,
    pub client_calls: Seq<ToolCallView>,
    pub phase: PhaseView,
}

impl DeepView for AgentRun {
    type V = AgentRunView;

    open spec fn deep_view(&self) -> AgentRunView {
        AgentRunView {
            run_id: self.run_id@,
            context: self.context.deep_view(),
            tools: self.tools.deep_view(),
            session: self.session.deep_view(),
            follow_up_rounds: self.follow_up_rounds,
            todo_calls: self.todo_calls.deep_view(),
            task_calls: self.task_calls.deep_view(),
            client_calls: self.client_calls.deep_view(),
            phase: self.phase.deep_view(),
        }
    }
}

/// What a step of the loop gives: things to do, in order, and then what it asks for.
#[derive(Debug, PartialEq)]
pub struct StepOut {
    pub effects: Vec<Effect>,
    pub ask: Ask,
}

/// What a `StepOut` is.
#[verifier::ext_equal]
pub struct StepOutView {
    pub effects: Seq<EffectView>,
    pub ask: AskView,
}

impl DeepView for StepOut {
    type V = StepOutView;

    open spec fn deep_view(&self) -> StepOutView {
        StepOutView {
            effects: self.effects.deep_view(),
            ask: self.ask.deep_view(),
        }
    }
}

/// What the step sees of its surroundings.
#[derive(Debug, Clone, Copy, PartialEq, Eq, Structural)]
pub struct StepEnv {
    /// Seconds since the epoch.
    pub now: u64,
    /// Whether the run was cancelled.
    pub cancelled: bool,
    /// Whether checkpoints of the run are kept.
    pub persist: bool,
}

impl AgentRunView {
    /// Whether the loop waits for this.
    pub open spec fn expects(self, happening: HappeningView) -> bool {
        match self.phase {
            PhaseView::Start(_) | PhaseView::Resume(_) => happening is Begin,
            PhaseView::Steer(_) => happening is Steered,
            PhaseView::Middleware => happening is MiddlewareDone || happening is MiddlewareFailed,
            PhaseView::Open => happening is StreamOpened || happening is StreamRefused,
            PhaseView::Streaming(..) => happening is Chunk || happening is ChunkFailed
                || happening is StreamEnd,
            PhaseView::Save { written, .. } => if written {
                happening is Saved || happening is SaveConflict || happening is SaveFailed
            } else {
                happening is SaveSkipped
            },
            PhaseView::Tasks => happening is TasksDone,
            PhaseView::Arm(_) => happening is Armed || happening is ArmRefused,
            PhaseView::Recv(_) => happening is ToolResult || happening is ToolWaitFailed,
            PhaseView::FollowUps => happening is FollowUps,
            PhaseView::Done(_) => false,
        }
    }

    /// Whether the counters of the run can still go up: a step may write one checkpoint and ask for
    /// the next.
    pub open spec fn counters_fit(self) -> bool {
        self.session.revision < u64::MAX - 1 && self.follow_up_rounds < u32::MAX
    }
}

impl AgentRun {
    /// Whether the loop waits for this.
    pub fn is_expected(&self, happening: &Happening) -> (r: bool)
        ensures
            r == self.deep_view().expects(happening.deep_view()),
    {
        match &self.phase {
            Phase::Start(_) | Phase::Resume(_) => matches!(happening, Happening::Begin),
            Phase::Steer(_) => matches!(happening, Happening::Steered(_)),
            Phase::Middleware => matches!(
                happening,
                Happening::MiddlewareDone(..) | Happening::MiddlewareFailed(..)
            ),
            Phase::Open => matches!(
                happening,
                Happening::StreamOpened(_) | Happening::StreamRefused(_)
            ),
            Phase::Streaming(..) => matches!(
                happening,
                Happening::Chunk(_) | Happening::ChunkFailed(_) | Happening::StreamEnd
            ),
            Phase::Save { written, .. } => if *written {
                matches!(
                    happening,
                    Happening::Saved | Happening::SaveConflict | Happening::SaveFailed(_)
                )
            } else {
                matches!(happening, Happening::SaveSkipped)
            },
            Phase::Tasks => matches!(happening, Happening::TasksDone(_)),
            Phase::Arm(_) => matches!(happening, Happening::Armed | Happening::ArmRefused(_)),
            Phase::Recv(_) => matches!(
                happening,
                Happening::ToolResult(_) | Happening::ToolWaitFailed(_)
            ),
            Phase::FollowUps => matches!(happening, Happening::FollowUps(_)),
            Phase::Done(_) => false,
        }
    }

    /// Whether the counters of the run can still go up: a step may write one checkpoint and ask for
    /// the next.
    pub fn can_count(&self) -> (r: bool)
        ensures
            r == self.deep_view().counters_fit(),
    {
        self.session.revision < u64::MAX - 1 && self.follow_up_rounds < u32::MAX
    }
}

} // verus!
