//! Messages, events and tools of the turn-based loop.

use vstd::prelude::*;

use crate::dup::Dup;
use crate::json::{Json, JsonValue};
use crate::protocol::ToolCallView;

verus! {

/// A part of an assistant message.
#[derive(Debug, PartialEq)]
pub enum ContentPart {
    Text {
        text: String,
    },
    ToolCall {
        id: String,
        name: String,
        arguments: JsonValue,
    },
}

/// What `ContentPart` is.
#[verifier::ext_equal]
pub enum ContentPartView {
    Text {
        text: Seq<char>,
    },
    ToolCall {
        id: Seq<char>,
        name: Seq<char>,
        arguments: Json,
    },
}

impl DeepView for ContentPart {
    type V = ContentPartView;

    open spec fn deep_view(&self) -> ContentPartView {
        match self {
            ContentPart::Text { text } => ContentPartView::Text {
                text: text@,
            },
            ContentPart::ToolCall { id, name, arguments } => ContentPartView::ToolCall {
                id: id@,
                name: name@,
                arguments: arguments.deep_view(),
            },
        }
    }
}

impl Dup for ContentPart {
    fn dup(&self) -> (r: Self) {
        match self {
            ContentPart::Text { text } => ContentPart::Text {
                text: text.dup(),
            },
            ContentPart::ToolCall { id, name, arguments } => ContentPart::ToolCall {
                id: id.dup(),
                name: name.dup(),
                arguments: arguments.dup(),
            },
        }
    }
}

/// Why an assistant message ends.
#[derive(Debug, Clone, Copy, PartialEq, Eq, Structural)]
pub enum StopReason {
    Stop,
    ToolCalls,
    Length,
    Error,
    Aborted,
}

impl DeepView for StopReason {
    type V = StopReason;

    open spec fn deep_view(&self) -> StopReason {
        *self
    }
}

/// A message of the loop.
#[derive(Debug, PartialEq)]
pub enum AgentMessage {
    User {
        content: String,
    },
    Assistant {
        parts: Vec<ContentPart>,
        stop_reason: StopReason,
    },
    ToolResult {
        tool_call_id: String,
        tool_name: String,
        content: String,
        is_error: bool,
        terminate: bool,
    },
    System {
        content: String,
    },
}

/// What `AgentMessage` is.
#[verifier::ext_equal]
pub enum AgentMessageView {
    User {
        content: Seq<char>,
    },
    Assistant {
        parts: Seq<ContentPartView>,
        stop_reason: StopReason,
    },
    ToolResult {
        tool_call_id: Seq<char>,
        tool_name: Seq<char>,
        content: Seq<char>,
        is_error: bool,
        terminate: bool,
    },
    System {
        content: Seq<char>,
    },
}

impl DeepView for AgentMessage {
    type V = AgentMessageView;

    open spec fn deep_view(&self) -> AgentMessageView {
        match self {
            AgentMessage::User { content } => AgentMessageView::User {
                content: content@,
            },
            AgentMessage::Assistant { parts, stop_reason } => AgentMessageView::Assistant {
                parts: parts.deep_view(),
                stop_reason: *stop_reason,
            },
            AgentMessage::ToolResult {
                tool_call_id,
                tool_name,
                content,
                is_error,
                terminate,
            } => AgentMessageView::ToolResult {
                tool_call_id: tool_call_id@,
                tool_name: tool_name@,
                content: content@,
                is_error: *is_error,
                terminate: *terminate,
            },
            AgentMessage::System { content } => AgentMessageView::System {
                content: content@,
            },
        }
    }
}

impl Dup for AgentMessage {
    fn dup(&self) -> (r: Self) {
        match self {
            AgentMessage::User { content } => AgentMessage::User {
                content: content.dup(),
            },
            AgentMessage::Assistant { parts, stop_reason } => AgentMessage::Assistant {
                parts: parts.dup(),
                stop_reason: *stop_reason,
            },
            AgentMessage::ToolResult {
                tool_call_id,
                tool_name,
                content,
                is_error,
                terminate,
            } => AgentMessage::ToolResult {
                tool_call_id: tool_call_id.dup(),
                tool_name: tool_name.dup(),
                content: content.dup(),
                is_error: *is_error,
                terminate: *terminate,
            },
            AgentMessage::System { content } => AgentMessage::System {
                content: content.dup(),
            },
        }
    }
}

/// What the loop tells of.
#[derive(Debug, PartialEq)]
pub enum AgentEvent {
    AgentStart,
    AgentEnd {
        messages: Vec<AgentMessage>,
    },
    TurnStart,
    TurnEnd {
        message: AgentMessage,
        tool_results: Vec<AgentMessage>,
    },
    MessageStart {
        message: AgentMessage,
    },
    MessageUpdate {
        message: AgentMessage,
    },
    MessageEnd {
        message: AgentMessage,
    },
    ToolExecutionStart {
        tool_call_id: String,
        tool_name: String,
        args: JsonValue,
    },
    ToolExecutionUpdate {
        tool_call_id: String,
        partial: String,
    },
    ToolExecutionEnd {
        tool_call_id: String,
        result: String,
        is_error: bool,
    },
}

/// What `AgentEvent` is.
#[verifier::ext_equal]
pub enum AgentEventView {
    AgentStart,
    AgentEnd {
        messages: Seq<AgentMessageView>,
    },
    TurnStart,
    TurnEnd {
        message: AgentMessageView,
        tool_results: Seq<AgentMessageView>,
    },
    MessageStart {
        message: AgentMessageView,
    },
    MessageUpdate {
        message: AgentMessageView,
    },
    MessageEnd {
        message: AgentMessageView,
    },
    ToolExecutionStart {
        tool_call_id: Seq<char>,
        tool_name: Seq<char>,
        args: Json,
    },
    ToolExecutionUpdate {
        tool_call_id: Seq<char>,
        partial: Seq<char>,
    },
    ToolExecutionEnd {
        tool_call_id: Seq<char>,
        result: Seq<char>,
        is_error: bool,
    },
}

impl DeepView for AgentEvent {
    type V = AgentEventView;

    open spec fn deep_view(&self) -> AgentEventView {
        match self {
            AgentEvent::AgentStart => AgentEventView::AgentStart,
            AgentEvent::AgentEnd { messages } => AgentEventView::AgentEnd {
                messages: messages.deep_view(),
            },
            AgentEvent::TurnStart => AgentEventView::TurnStart,
            AgentEvent::TurnEnd { message, tool_results } => AgentEventView::TurnEnd {
                message: message.deep_view(),
                tool_results: tool_results.deep_view(),
            },
            AgentEvent::MessageStart { message } => AgentEventView::MessageStart {
                message: message.deep_view(),
            },
            AgentEvent::MessageUpdate { message } => AgentEventView::MessageUpdate {
                message: message.deep_view(),
            },
            AgentEvent::MessageEnd { message } => AgentEventView::MessageEnd {
                message: message.deep_view(),
            },
            AgentEvent::ToolExecutionStart {
                tool_call_id,
                tool_name,
                args,
            } => AgentEventView::ToolExecutionStart {
                tool_call_id: tool_call_id@,
                tool_name: tool_name@,
                args: args.deep_view(),
            },
            AgentEvent::ToolExecutionUpdate {
                tool_call_id,
                partial,
            } => AgentEventView::ToolExecutionUpdate {
                tool_call_id: tool_call_id@,
                partial: partial@,
            },
            AgentEvent::ToolExecutionEnd {
                tool_call_id,
                result,
                is_error,
            } => AgentEventView::ToolExecutionEnd {
                tool_call_id: tool_call_id@,
                result: result@,
                is_error: *is_error,
            },
        }
    }
}

impl Dup for AgentEvent {
    fn dup(&self) -> (r: Self) {
        match self {
            AgentEvent::AgentStart => AgentEvent::AgentStart,
            AgentEvent::AgentEnd { messages } => AgentEvent::AgentEnd {
                messages: messages.dup(),
            },
            AgentEvent::TurnStart => AgentEvent::TurnStart,
            AgentEvent::TurnEnd { message, tool_results } => AgentEvent::TurnEnd {
                message: message.dup(),
                tool_results: tool_results.dup(),
            },
            AgentEvent::MessageStart { message } => AgentEvent::MessageStart {
                message: message.dup(),
            },
            AgentEvent::MessageUpdate { message } => AgentEvent::MessageUpdate {
                message: message.dup(),
            },
            AgentEvent::MessageEnd { message } => AgentEvent::MessageEnd {
                message: message.dup(),
            },
            AgentEvent::ToolExecutionStart {
                tool_call_id,
                tool_name,
                args,
            } => AgentEvent::ToolExecutionStart {
                tool_call_id: tool_call_id.dup(),
                tool_name: tool_name.dup(),
                args: args.dup(),
            },
            AgentEvent::ToolExecutionUpdate {
                tool_call_id,
                partial,
            } => AgentEvent::ToolExecutionUpdate {
                tool_call_id: tool_call_id.dup(),
                partial: partial.dup(),
            },
            AgentEvent::ToolExecutionEnd {
                tool_call_id,
                result,
                is_error,
            } => AgentEvent::ToolExecutionEnd {
                tool_call_id: tool_call_id.dup(),
                result: result.dup(),
                is_error: *is_error,
            },
        }
    }
}

/// A tool that the model may call.
#[derive(Debug, PartialEq)]
pub struct AgentTool {
    pub name: String,
    pub description: String,
    pub parameters: JsonValue,
}

/// What a `AgentTool` is.
#[verifier::ext_equal]
pub struct AgentToolView {
    pub name: Seq<char>,
    pub description: Seq<char>,
    pub parameters: Json,
}

impl DeepView for AgentTool {
    type V = AgentToolView;

    open spec fn deep_view(&self) -> AgentToolView {
        AgentToolView {
            name: self.name@,
            description: self.description@,
            parameters: self.parameters.deep_view(),
        }
    }
}

impl Dup for AgentTool {
    fn dup(&self) -> (r: Self) {
        AgentTool {
            name: self.name.dup(),
            description: self.description.dup(),
            parameters: self.parameters.dup(),
        }
    }
}

/// What the model is given.
#[derive(Debug, PartialEq)]
pub struct AgentContext {
    pub messages: Vec<AgentMessage>,
    pub tools: Vec<AgentTool>,
}

/// What a `AgentContext` is.
#[verifier::ext_equal]
pub struct AgentContextView {
    pub messages: Seq<AgentMessageView>,
    pub tools: Seq<AgentToolView>,
}

impl DeepView for AgentContext {
    type V = AgentContextView;

    open spec fn deep_view(&self) -> AgentContextView {
        AgentContextView {
            messages: self.messages.deep_view(),
            tools: self.tools.deep_view(),
        }
    }
}

impl Dup for AgentContext {
    fn dup(&self) -> (r: Self) {
        AgentContext {
            messages: self.messages.dup(),
            tools: self.tools.dup(),
        }
    }
}

impl Default for AgentContext {
    fn default() -> (r: Self)
        ensures
            r.deep_view() == (AgentContextView { messages: Seq::empty(), tools: Seq::empty() }),
    {
        let r = AgentContext { messages: Vec::new(), tools: Vec::new() };
        assert(r.messages.deep_view() =~= Seq::<AgentMessageView>::empty());
        assert(r.tools.deep_view() =~= Seq::<AgentToolView>::empty());
        r
    }
}

/// A tool call.
#[derive(Debug, PartialEq)]
pub struct ToolCall {
    pub id: String,
    pub name: String,
    pub arguments: JsonValue,
}

impl DeepView for ToolCall {
    type V = ToolCallView;

    open spec fn deep_view(&self) -> ToolCallView {
        ToolCallView {
            id: self.id@,
            name: self.name@,
            arguments: self.arguments.deep_view(),
        }
    }
}

impl Dup for ToolCall {
    fn dup(&self) -> (r: Self) {
        ToolCall {
            id: self.id.dup(),
            name: self.name.dup(),
            arguments: self.arguments.dup(),
        }
    }
}

impl ContentPartView {
    /// The tool call that the part is, if it is one.
    pub open spec fn call(self) -> Option<ToolCallView> {
        match self {
            ContentPartView::ToolCall { id, name, arguments } => Some(
                ToolCallView { id, name, arguments },
            ),
            ContentPartView::Text { .. } => None,
        }
    }
}

impl ToolCall {
    /// The tool call that a part is, if it is one.
    pub fn from_content_part(part: &ContentPart) -> (r: Option<Self>)
        ensures
            r.deep_view() == part.deep_view().call(),
    {
        match part {
            ContentPart::ToolCall { id, name, arguments } => Some(
                ToolCall { id: id.dup(), name: name.dup(), arguments: arguments.dup() },
            ),
            ContentPart::Text { .. } => None,
        }
    }
}

/// A part is a tool call exactly where it was made as one, and then it is just that call.
pub proof fn law_part_is_its_call(part: ContentPartView, tool_call: ToolCallView)
    ensures
        part.call() == Some(tool_call) <==> part == (ContentPartView::ToolCall {
            id: tool_call.id,
            name: tool_call.name,
            arguments: tool_call.arguments,
        }),
        part.call() is None <==> part is Text,
{
}

} // verus!
