//! Wire types: messages, tools, requests and the events of a run.

use vstd::prelude::*;

use crate::dup::Dup;
use crate::json::{Json, JsonValue};

verus! {

/// Who a message is from.
#[derive(Debug, Clone, Copy, PartialEq, Eq, Structural)]
pub enum Role {
    User,
    Assistant,
    System,
    Tool,
}

impl DeepView for Role {
    type V = Role;

    open spec fn deep_view(&self) -> Role {
        *self
    }
}

/// A tool call that an assistant message makes.
#[derive(Debug, PartialEq)]
pub struct ToolCallWire {
    pub id: String,
    pub name: String,
    pub arguments: JsonValue,
}

/// What a tool call is.
#[verifier::ext_equal]
pub struct ToolCallView {
    pub id: Seq<char>,
    pub name: Seq<char>,
    pub arguments: Json,
}

impl DeepView for ToolCallWire {
    type V = ToolCallView;

    open spec fn deep_view(&self) -> ToolCallView {
        ToolCallView {
            id: self.id@,
            name: self.name@,
            arguments: self.arguments.deep_view(),
        }
    }
}

impl Dup for ToolCallWire {
    fn dup(&self) -> (r: Self) {
        ToolCallWire {
            id: self.id.dup(),
            name: self.name.dup(),
            arguments: self.arguments.dup(),
        }
    }
}

/// A message of the conversation.
#[derive(Debug, PartialEq)]
pub struct WireMessage {
    pub role: Role,
    pub content: String,
    pub tool_call_id: Option<String>,
    pub name: Option<String>,
    pub tool_calls: Option<Vec<ToolCallWire>>,
    /// Thinking tokens of the provider; sent back when the turn used tools.
    pub reasoning_content: Option<String>,
}

/// What a `WireMessage` is.
#[verifier::ext_equal]
pub struct WireMessageView {
    pub role: Role,
    pub content: Seq<char>,
    pub tool_call_id: Option<Seq<char>>,
    pub name: Option<Seq<char>>,
    pub tool_calls: Option<Seq<ToolCallView>>,
    pub reasoning_content: Option<Seq<char>>,
}

impl DeepView for WireMessage {
    type V = WireMessageView;

    open spec fn deep_view(&self) -> WireMessageView {
        WireMessageView {
            role: self.role,
            content: self.content@,
            tool_call_id: self.tool_call_id.deep_view(),
            name: self.name.deep_view(),
            tool_calls: self.tool_calls.deep_view(),
            reasoning_content: self.reasoning_content.deep_view(),
        }
    }
}

impl Dup for WireMessage {
    fn dup(&self) -> (r: Self) {
        WireMessage {
            role: self.role,
            content: self.content.dup(),
            tool_call_id: self.tool_call_id.dup(),
            name: self.name.dup(),
            tool_calls: self.tool_calls.dup(),
            reasoning_content: self.reasoning_content.dup(),
        }
    }
}

/// A message with nothing but a role and a text.
pub open spec fn plain(role: Role, content: Seq<char>) -> WireMessageView {
    WireMessageView {
        role,
        content,
        tool_call_id: None,
        name: None,
        tool_calls: None,
        reasoning_content: None,
    }
}

/// A message with nothing but a role and a text.
pub fn plain_message(role: Role, content: String) -> (r: WireMessage)
    ensures
        r.deep_view() == plain(role, content@),
{
    WireMessage {
        role,
        content,
        tool_call_id: None,
        name: None,
        tool_calls: None,
        reasoning_content: None,
    }
}

/// The result of a tool.
pub open spec fn tool_reply(
    content: Seq<char>,
    tool_call_id: Seq<char>,
    name: Seq<char>,
) -> WireMessageView {
    WireMessageView {
        role: Role::Tool,
        content,
        tool_call_id: Some(tool_call_id),
        name: Some(name),
        tool_calls: None,
        reasoning_content: None,
    }
}

/// The result of a tool.
pub fn tool_message(content: String, tool_call_id: String, name: String) -> (r: WireMessage)
    ensures
        r.deep_view() == tool_reply(content@, tool_call_id@, name@),
{
    WireMessage {
        role: Role::Tool,
        content,
        tool_call_id: Some(tool_call_id),
        name: Some(name),
        tool_calls: None,
        reasoning_content: None,
    }
}

/// A tool that the model may call.
#[derive(Debug, PartialEq)]
pub struct ToolDef {
    pub name: String,
    pub description: String,
    pub parameters: JsonValue,
    /// Whether an `explore` subagent may use the tool.
    pub readonly: Option<bool>,
}

/// What a `ToolDef` is.
#[verifier::ext_equal]
pub struct ToolDefView {
    pub name: Seq<char>,
    pub description: Seq<char>,
    pub parameters: Json,
    pub readonly: Option<bool>,
}

impl DeepView for ToolDef {
    type V = ToolDefView;

    open spec fn deep_view(&self) -> ToolDefView {
        ToolDefView {
            name: self.name@,
            description: self.description@,
            parameters: self.parameters.deep_view(),
            readonly: self.readonly,
        }
    }
}

impl Dup for ToolDef {
    fn dup(&self) -> (r: Self) {
        ToolDef {
            name: self.name.dup(),
            description: self.description.dup(),
            parameters: self.parameters.dup(),
            readonly: self.readonly,
        }
    }
}

/// How far a todo is.
#[derive(Debug, Clone, Copy, PartialEq, Eq, Structural)]
pub enum TodoStatus {
    Pending,
    InProgress,
    Completed,
    Cancelled,
}

impl DeepView for TodoStatus {
    type V = TodoStatus;

    open spec fn deep_view(&self) -> TodoStatus {
        *self
    }
}

/// An item of the task list of a run.
#[derive(Debug, PartialEq)]
pub struct TodoItem {
    pub id: String,
    pub content: String,
    pub status: TodoStatus,
}

/// What a `TodoItem` is.
#[verifier::ext_equal]
pub struct TodoItemView {
    pub id: Seq<char>,
    pub content: Seq<char>,
    pub status: TodoStatus,
}

impl DeepView for TodoItem {
    type V = TodoItemView;

    open spec fn deep_view(&self) -> TodoItemView {
        TodoItemView {
            id: self.id@,
            content: self.content@,
            status: self.status,
        }
    }
}

impl Dup for TodoItem {
    fn dup(&self) -> (r: Self) {
        TodoItem {
            id: self.id.dup(),
            content: self.content.dup(),
            status: self.status,
        }
    }
}

/// Options of a new run.
#[derive(Debug, Clone, Copy, PartialEq, Eq, Structural)]
pub struct RunOptions {
    /// Keep a checkpoint of the run, where the server keeps any.
    pub persist: bool,
    /// Offer the server tool `write_todos`.
    pub plan_mode: bool,
    /// Offer the server tool `task`.
    pub subagents: bool,
}

impl Default for RunOptions {
    fn default() -> (r: Self)
        ensures
            r == (RunOptions { persist: true, plan_mode: false, subagents: false }),
    {
        RunOptions { persist: true, plan_mode: false, subagents: false }
    }
}

/// The body of a request for a new run.
#[derive(Debug, PartialEq)]
pub struct CreateRunRequest {
    pub messages: Vec<WireMessage>,
    pub tools: Vec<ToolDef>,
    pub session_id: Option<String>,
    pub options: RunOptions,
}

/// What a `CreateRunRequest` is.
#[verifier::ext_equal]
pub struct CreateRunRequestView {
    pub messages: Seq<WireMessageView>,
    pub tools: Seq<ToolDefView>,
    pub session_id: Option<Seq<char>>,
    pub options: RunOptions,
}

impl DeepView for CreateRunRequest {
    type V = CreateRunRequestView;

    open spec fn deep_view(&self) -> CreateRunRequestView {
        CreateRunRequestView {
            messages: self.messages.deep_view(),
            tools: self.tools.deep_view(),
            session_id: self.session_id.deep_view(),
            options: self.options,
        }
    }
}

impl Dup for CreateRunRequest {
    fn dup(&self) -> (r: Self) {
        CreateRunRequest {
            messages: self.messages.dup(),
            tools: self.tools.dup(),
            session_id: self.session_id.dup(),
            options: self.options,
        }
    }
}

/// The result of a tool that the client ran.
#[derive(Debug, PartialEq)]
pub struct ToolResultRequest {
    pub tool_call_id: String,
    pub content: String,
    pub is_error: bool,
}

/// What a `ToolResultRequest` is.
#[verifier::ext_equal]
pub struct ToolResultRequestView {
    pub tool_call_id: Seq<char>,
    pub content: Seq<char>,
    pub is_error: bool,
}

impl DeepView for ToolResultRequest {
    type V = ToolResultRequestView;

    open spec fn deep_view(&self) -> ToolResultRequestView {
        ToolResultRequestView {
            tool_call_id: self.tool_call_id@,
            content: self.content@,
            is_error: self.is_error,
        }
    }
}

impl Dup for ToolResultRequest {
    fn dup(&self) -> (r: Self) {
        ToolResultRequest {
            tool_call_id: self.tool_call_id.dup(),
            content: self.content.dup(),
            is_error: self.is_error,
        }
    }
}

/// Messages to add to a run that is under way.
#[derive(Debug, PartialEq)]
pub struct SteerRequest {
    pub messages: Vec<WireMessage>,
}

/// What a `SteerRequest` is.
#[verifier::ext_equal]
pub struct SteerRequestView {
    pub messages: Seq<WireMessageView>,
}

impl DeepView for SteerRequest {
    type V = SteerRequestView;

    open spec fn deep_view(&self) -> SteerRequestView {
        SteerRequestView {
            messages: self.messages.deep_view(),
        }
    }
}

impl Dup for SteerRequest {
    fn dup(&self) -> (r: Self) {
        SteerRequest {
            messages: self.messages.dup(),
        }
    }
}

/// Where a completed message came from.
#[derive(Debug, Clone, Copy, PartialEq, Eq, Structural)]
pub enum MessageSource {
    Assistant,
    Steer,
    FollowUp,
}

impl DeepView for MessageSource {
    type V = MessageSource;

    open spec fn deep_view(&self) -> MessageSource {
        *self
    }
}

/// An event that a run sends to its subscriber.
#[derive(Debug, PartialEq)]
pub enum SseEvent {
    RunStarted {
        run_id: String,
    },
    RunResumed {
        run_id: String,
        revision: u64,
        status: String,
    },
    ContextSummarized {
        run_id: String,
        before_tokens: u64,
        after_tokens: u64,
        kept_prefix: usize,
        kept_suffix: usize,
    },
    MessageDelta {
        run_id: String,
        message_id: String,
        delta: String,
    },
    ReasoningDelta {
        run_id: String,
        message_id: String,
        delta: String,
    },
    MessageCompleted {
        run_id: String,
        message_id: String,
        role: Role,
        content: String,
        tool_calls: Option<Vec<ToolCallWire>>,
        source: Option<MessageSource>,
        reasoning_content: Option<String>,
    },
    ToolRequest {
        run_id: String,
        tool_call_id: String,
        name: String,
        arguments: JsonValue,
        agent_id: Option<String>,
        parent_task_id: Option<String>,
    },
    TodosUpdated {
        run_id: String,
        todos: Vec<TodoItem>,
    },
    TaskStarted {
        run_id: String,
        task_id: String,
        goal: String,
        agent: String,
    },
    TaskCompleted {
        run_id: String,
        task_id: String,
        summary: String,
    },
    TaskFailed {
        run_id: String,
        task_id: String,
        message: String,
        code: Option<String>,
    },
    TaskTimedOut {
        run_id: String,
        task_id: String,
    },
    RunFinished {
        run_id: String,
        reason: String,
    },
    Error {
        run_id: String,
        message: String,
        code: Option<String>,
    },
}

/// What `SseEvent` is.
#[verifier::ext_equal]
pub enum SseEventView {
    RunStarted {
        run_id: Seq<char>,
    },
    RunResumed {
        run_id: Seq<char>,
        revision: u64,
        status: Seq<char>,
    },
    ContextSummarized {
        run_id: Seq<char>,
        before_tokens: u64,
        after_tokens: u64,
        kept_prefix: usize,
        kept_suffix: usize,
    },
    MessageDelta {
        run_id: Seq<char>,
        message_id: Seq<char>,
        delta: Seq<char>,
    },
    ReasoningDelta {
        run_id: Seq<char>,
        message_id: Seq<char>,
        delta: Seq<char>,
    },
    MessageCompleted {
        run_id: Seq<char>,
        message_id: Seq<char>,
        role: Role,
        content: Seq<char>,
        tool_calls: Option<Seq<ToolCallView>>,
        source: Option<MessageSource>,
        reasoning_content: Option<Seq<char>>,
    },
    ToolRequest {
        run_id: Seq<char>,
        tool_call_id: Seq<char>,
        name: Seq<char>,
        arguments: Json,
        agent_id: Option<Seq<char>>,
        parent_task_id: Option<Seq<char>>,
    },
    TodosUpdated {
        run_id: Seq<char>,
        todos: Seq<TodoItemView>,
    },
    TaskStarted {
        run_id: Seq<char>,
        task_id: Seq<char>,
        goal: Seq<char>,
        agent: Seq<char>,
    },
    TaskCompleted {
        run_id: Seq<char>,
        task_id: Seq<char>,
        summary: Seq<char>,
    },
    TaskFailed {
        run_id: Seq<char>,
        task_id: Seq<char>,
        message: Seq<char>,
        code: Option<Seq<char>>,
    },
    TaskTimedOut {
        run_id: Seq<char>,
        task_id: Seq<char>,
    },
    RunFinished {
        run_id: Seq<char>,
        reason: Seq<char>,
    },
    Error {
        run_id: Seq<char>,
        message: Seq<char>,
        code: Option<Seq<char>>,
    },
}

impl DeepView for SseEvent {
    type V = SseEventView;

    open spec fn deep_view(&self) -> SseEventView {
        match self {
            SseEvent::RunStarted { run_id } => SseEventView::RunStarted {
                run_id: run_id@,
            },
            SseEvent::RunResumed { run_id, revision, status } => SseEventView::RunResumed {
                run_id: run_id@,
                revision: *revision,
                status: status@,
            },
            SseEvent::ContextSummarized {
                run_id,
                before_tokens,
                after_tokens,
                kept_prefix,
                kept_suffix,
            } => SseEventView::ContextSummarized {
                run_id: run_id@,
                before_tokens: *before_tokens,
                after_tokens: *after_tokens,
                kept_prefix: *kept_prefix,
                kept_suffix: *kept_suffix,
            },
            SseEvent::MessageDelta { run_id, message_id, delta } => SseEventView::MessageDelta {
                run_id: run_id@,
                message_id: message_id@,
                delta: delta@,
            },
            SseEvent::ReasoningDelta { run_id, message_id, delta } => SseEventView::ReasoningDelta {
                run_id: run_id@,
                message_id: message_id@,
                delta: delta@,
            },
            SseEvent::MessageCompleted {
                run_id,
                message_id,
                role,
                content,
                tool_calls,
                source,
                reasoning_content,
            } => SseEventView::MessageCompleted {
                run_id: run_id@,
                message_id: message_id@,
                role: *role,
                content: content@,
                tool_calls: tool_calls.deep_view(),
                source: *source,
                reasoning_content: reasoning_content.deep_view(),
            },
            SseEvent::ToolRequest {
                run_id,
                tool_call_id,
                name,
                arguments,
                agent_id,
                parent_task_id,
            } => SseEventView::ToolRequest {
                run_id: run_id@,
                tool_call_id: tool_call_id@,
                name: name@,
                arguments: arguments.deep_view(),
                agent_id: agent_id.deep_view(),
                parent_task_id: parent_task_id.deep_view(),
            },
            SseEvent::TodosUpdated { run_id, todos } => SseEventView::TodosUpdated {
                run_id: run_id@,
                todos: todos.deep_view(),
            },
            SseEvent::TaskStarted { run_id, task_id, goal, agent } => SseEventView::TaskStarted {
                run_id: run_id@,
                task_id: task_id@,
                goal: goal@,
                agent: agent@,
            },
            SseEvent::TaskCompleted { run_id, task_id, summary } => SseEventView::TaskCompleted {
                run_id: run_id@,
                task_id: task_id@,
                summary: summary@,
            },
            SseEvent::TaskFailed { run_id, task_id, message, code } => SseEventView::TaskFailed {
                run_id: run_id@,
                task_id: task_id@,
                message: message@,
                code: code.deep_view(),
            },
            SseEvent::TaskTimedOut { run_id, task_id } => SseEventView::TaskTimedOut {
                run_id: run_id@,
                task_id: task_id@,
            },
            SseEvent::RunFinished { run_id, reason } => SseEventView::RunFinished {
                run_id: run_id@,
                reason: reason@,
            },
            SseEvent::Error { run_id, message, code } => SseEventView::Error {
                run_id: run_id@,
                message: message@,
                code: code.deep_view(),
            },
        }
    }
}

impl Dup for SseEvent {
    fn dup(&self) -> (r: Self) {
        match self {
            SseEvent::RunStarted { run_id } => SseEvent::RunStarted {
                run_id: run_id.dup(),
            },
            SseEvent::RunResumed { run_id, revision, status } => SseEvent::RunResumed {
                run_id: run_id.dup(),
                revision: *revision,
                status: status.dup(),
            },
            SseEvent::ContextSummarized {
                run_id,
                before_tokens,
                after_tokens,
                kept_prefix,
                kept_suffix,
            } => SseEvent::ContextSummarized {
                run_id: run_id.dup(),
                before_tokens: *before_tokens,
                after_tokens: *after_tokens,
                kept_prefix: *kept_prefix,
                kept_suffix: *kept_suffix,
            },
            SseEvent::MessageDelta { run_id, message_id, delta } => SseEvent::MessageDelta {
                run_id: run_id.dup(),
                message_id: message_id.dup(),
                delta: delta.dup(),
            },
            SseEvent::ReasoningDelta { run_id, message_id, delta } => SseEvent::ReasoningDelta {
                run_id: run_id.dup(),
                message_id: message_id.dup(),
                delta: delta.dup(),
            },
            SseEvent::MessageCompleted {
                run_id,
                message_id,
                role,
                content,
                tool_calls,
                source,
                reasoning_content,
            } => SseEvent::MessageCompleted {
                run_id: run_id.dup(),
                message_id: message_id.dup(),
                role: *role,
                content: content.dup(),
                tool_calls: tool_calls.dup(),
                source: *source,
                reasoning_content: reasoning_content.dup(),
            },
            SseEvent::ToolRequest {
                run_id,
                tool_call_id,
                name,
                arguments,
                agent_id,
                parent_task_id,
            } => SseEvent::ToolRequest {
                run_id: run_id.dup(),
                tool_call_id: tool_call_id.dup(),
                name: name.dup(),
                arguments: arguments.dup(),
                agent_id: agent_id.dup(),
                parent_task_id: parent_task_id.dup(),
            },
            SseEvent::TodosUpdated { run_id, todos } => SseEvent::TodosUpdated {
                run_id: run_id.dup(),
                todos: todos.dup(),
            },
            SseEvent::TaskStarted { run_id, task_id, goal, agent } => SseEvent::TaskStarted {
                run_id: run_id.dup(),
                task_id: task_id.dup(),
                goal: goal.dup(),
                agent: agent.dup(),
            },
            SseEvent::TaskCompleted { run_id, task_id, summary } => SseEvent::TaskCompleted {
                run_id: run_id.dup(),
                task_id: task_id.dup(),
                summary: summary.dup(),
            },
            SseEvent::TaskFailed { run_id, task_id, message, code } => SseEvent::TaskFailed {
                run_id: run_id.dup(),
                task_id: task_id.dup(),
                message: message.dup(),
                code: code.dup(),
            },
            SseEvent::TaskTimedOut { run_id, task_id } => SseEvent::TaskTimedOut {
                run_id: run_id.dup(),
                task_id: task_id.dup(),
            },
            SseEvent::RunFinished { run_id, reason } => SseEvent::RunFinished {
                run_id: run_id.dup(),
                reason: reason.dup(),
            },
            SseEvent::Error { run_id, message, code } => SseEvent::Error {
                run_id: run_id.dup(),
                message: message.dup(),
                code: code.dup(),
            },
        }
    }
}

impl SseEventView {
    /// The name of the event on the wire.
    pub open spec fn event_name(self) -> Seq<char> {
        match self {
            SseEventView::RunStarted { .. } => "run.started"@,
            SseEventView::RunResumed { .. } => "run.resumed"@,
            SseEventView::ContextSummarized { .. } => "context.summarized"@,
            SseEventView::MessageDelta { .. } => "message.delta"@,
            SseEventView::ReasoningDelta { .. } => "reasoning.delta"@,
            SseEventView::MessageCompleted { .. } => "message.completed"@,
            SseEventView::ToolRequest { .. } => "tool.request"@,
            SseEventView::TodosUpdated { .. } => "todos.updated"@,
            SseEventView::TaskStarted { .. } => "task.started"@,
            SseEventView::TaskCompleted { .. } => "task.completed"@,
            SseEventView::TaskFailed { .. } => "task.failed"@,
            SseEventView::TaskTimedOut { .. } => "task.timed_out"@,
            SseEventView::RunFinished { .. } => "run.finished"@,
            SseEventView::Error { .. } => "error"@,
        }
    }
}

impl SseEvent {
    /// The name of the event on the wire.
    pub fn event_name(&self) -> (r: &'static str)
        ensures
            r@ == self.deep_view().event_name(),
    {
        match self {
            SseEvent::RunStarted { .. } => "run.started",
            SseEvent::RunResumed { .. } => "run.resumed",
            SseEvent::ContextSummarized { .. } => "context.summarized",
            SseEvent::MessageDelta { .. } => "message.delta",
            SseEvent::ReasoningDelta { .. } => "reasoning.delta",
            SseEvent::MessageCompleted { .. } => "message.completed",
            SseEvent::ToolRequest { .. } => "tool.request",
            SseEvent::TodosUpdated { .. } => "todos.updated",
            SseEvent::TaskStarted { .. } => "task.started",
            SseEvent::TaskCompleted { .. } => "task.completed",
            SseEvent::TaskFailed { .. } => "task.failed",
            SseEvent::TaskTimedOut { .. } => "task.timed_out",
            SseEvent::RunFinished { .. } => "run.finished",
            SseEvent::Error { .. } => "error",
        }
    }
}

/// A plain message has its role and its text, and nothing else.
pub proof fn law_plain_message_has_its_text(role: Role, content: Seq<char>)
    ensures
        plain(role, content).role == role,
        plain(role, content).content == content,
        plain(role, content).tool_call_id is None,
        plain(role, content).name is None,
        plain(role, content).tool_calls is None,
        plain(role, content).reasoning_content is None,
{
}

/// The result of a tool says what it is, for which call and by which tool; it makes no calls.
pub proof fn law_tool_reply_is_for_its_call(
    content: Seq<char>,
    call_id: Seq<char>,
    tool: Seq<char>,
)
    ensures
        tool_reply(content, call_id, tool).role == Role::Tool,
        tool_reply(content, call_id, tool).content == content,
        tool_reply(content, call_id, tool).tool_call_id == Some(call_id),
        tool_reply(content, call_id, tool).name == Some(tool),
        tool_reply(content, call_id, tool).tool_calls is None,
        tool_reply(content, call_id, tool).reasoning_content is None,
{
}

} // verus!
