//! Requests to the provider: chat messages and function tools.

use vstd::prelude::*;

use crate::dup::Dup;
use crate::json::{json_text, Json, JsonValue};
use crate::protocol::{
    Role, ToolCallView, ToolCallWire, ToolDef, ToolDefView, WireMessage, WireMessageView,
};

verus! {

/// A function call of an assistant message.
#[derive(Debug, PartialEq)]
pub struct ChatToolCall {
    pub id: String,
    pub name: String,
    /// The arguments as JSON text.
    pub arguments: String,
}

/// What a `ChatToolCall` is.
#[verifier::ext_equal]
pub struct ChatToolCallView {
    pub id: Seq<char>,
    pub name: Seq<char>,
    pub arguments: Seq<char>,
}

impl DeepView for ChatToolCall {
    type V = ChatToolCallView;

    open spec fn deep_view(&self) -> ChatToolCallView {
        ChatToolCallView {
            id: self.id@,
            name: self.name@,
            arguments: self.arguments@,
        }
    }
}

/// A message of a request to the provider.
#[allow(inconsistent_fields)]
#[derive(Debug, PartialEq)]
pub enum ChatMessage {
    System {
        content: String,
        name: Option<String>,
    },
    User {
        content: String,
        name: Option<String>,
    },
    Assistant {
        content: Option<String>,
        name: Option<String>,
        tool_calls: Option<Vec<ChatToolCall>>,
        reasoning_content: Option<String>,
    },
    Tool {
        content: String,
        tool_call_id: String,
        name: Option<String>,
    },
}

/// What `ChatMessage` is.
#[allow(inconsistent_fields)]
#[verifier::ext_equal]
pub enum ChatMessageView {
    System {
        content: Seq<char>,
        name: Option<Seq<char>>,
    },
    User {
        content: Seq<char>,
        name: Option<Seq<char>>,
    },
    Assistant {
        content: Option<Seq<char>>,
        name: Option<Seq<char>>,
        tool_calls: Option<Seq<ChatToolCallView>>,
        reasoning_content: Option<Seq<char>>,
    },
    Tool {
        content: Seq<char>,
        tool_call_id: Seq<char>,
        name: Option<Seq<char>>,
    },
}

impl DeepView for ChatMessage {
    type V = ChatMessageView;

    open spec fn deep_view(&self) -> ChatMessageView {
        match self {
            ChatMessage::System { content, name } => ChatMessageView::System {
                content: content@,
                name: name.deep_view(),
            },
            ChatMessage::User { content, name } => ChatMessageView::User {
                content: content@,
                name: name.deep_view(),
            },
            ChatMessage::Assistant {
                content,
                name,
                tool_calls,
                reasoning_content,
            } => ChatMessageView::Assistant {
                content: content.deep_view(),
                name: name.deep_view(),
                tool_calls: tool_calls.deep_view(),
                reasoning_content: reasoning_content.deep_view(),
            },
            ChatMessage::Tool { content, tool_call_id, name } => ChatMessageView::Tool {
                content: content@,
                tool_call_id: tool_call_id@,
                name: name.deep_view(),
            },
        }
    }
}

/// A function that the provider may call.
#[derive(Debug, PartialEq)]
pub struct ChatTool {
    pub name: String,
    pub description: Option<String>,
    pub parameters: JsonValue,
}

/// What a `ChatTool` is.
#[verifier::ext_equal]
pub struct ChatToolView {
    pub name: Seq<char>,
    pub description: Option<Seq<char>>,
    pub parameters: Json,
}

impl DeepView for ChatTool {
    type V = ChatToolView;

    open spec fn deep_view(&self) -> ChatToolView {
        ChatToolView {
            name: self.name@,
            description: self.description.deep_view(),
            parameters: self.parameters.deep_view(),
        }
    }
}

/// A tool call, with its arguments as JSON text.
pub open spec fn chat_call(call: ToolCallView) -> ChatToolCallView {
    ChatToolCallView { id: call.id, name: call.name, arguments: json_text(call.arguments) }
}

pub open spec fn chat_calls(calls: Seq<ToolCallView>) -> Seq<ChatToolCallView> {
    Seq::new(calls.len(), |i: int| chat_call(calls[i]))
}

/// The chat message of a message. The thinking tokens of an assistant turn go back to the provider
/// when the turn used tools.
pub open spec fn chat_message(m: WireMessageView) -> ChatMessageView {
    match m.role {
        Role::System => ChatMessageView::System { content: m.content, name: m.name },
        Role::User => ChatMessageView::User { content: m.content, name: m.name },
        Role::Assistant => ChatMessageView::Assistant {
            content: Some(m.content),
            name: m.name,
            tool_calls: match m.tool_calls {
                Some(calls) => Some(chat_calls(calls)),
                None => None,
            },
            reasoning_content: if m.tool_calls is Some {
                m.reasoning_content
            } else {
                None
            },
        },
        Role::Tool => ChatMessageView::Tool {
            content: m.content,
            tool_call_id: match m.tool_call_id {
                Some(id) => id,
                None => Seq::empty(),
            },
            name: m.name,
        },
    }
}

fn calls_to_chat(calls: &Vec<ToolCallWire>) -> (r: Vec<ChatToolCall>)
    ensures
        r.deep_view() == chat_calls(calls.deep_view()),
{
    let mut out: Vec<ChatToolCall> = Vec::new();
    let mut i: usize = 0;
    while i < calls.len()
        invariant
            i <= calls@.len(),
            out@.len() == i,
            forall|j: int|
                0 <= j < i ==> (#[trigger] out@[j]).deep_view() == chat_call(
                    calls@[j].deep_view(),
                ),
        decreases calls@.len() - i,
    {
        let call = &calls[i];
        out.push(
            ChatToolCall {
                id: call.id.dup(),
                name: call.name.dup(),
                arguments: call.arguments.to_text(),
            },
        );
        i = i + 1;
    }
    assert(out.deep_view() =~= chat_calls(calls.deep_view()));
    out
}

/// The chat message of a message.
pub fn wire_to_liter(msg: &WireMessage) -> (r: ChatMessage)
    ensures
        r.deep_view() == chat_message(msg.deep_view()),
{
    match msg.role {
        Role::System => ChatMessage::System { content: msg.content.dup(), name: msg.name.dup() },
        Role::User => ChatMessage::User { content: msg.content.dup(), name: msg.name.dup() },
        Role::Assistant => {
            let tool_calls = match &msg.tool_calls {
                Some(calls) => Some(calls_to_chat(calls)),
                None => None,
            };
            let reasoning_content = if msg.tool_calls.is_some() {
                msg.reasoning_content.dup()
            } else {
                None
            };
            ChatMessage::Assistant {
                content: Some(msg.content.dup()),
                name: msg.name.dup(),
                tool_calls,
                reasoning_content,
            }
        },
        Role::Tool => {
            let tool_call_id = match &msg.tool_call_id {
                Some(id) => id.dup(),
                None => String::new(),
            };
            ChatMessage::Tool { content: msg.content.dup(), tool_call_id, name: msg.name.dup() }
        },
    }
}

pub open spec fn chat_messages(messages: Seq<WireMessageView>) -> Seq<ChatMessageView> {
    Seq::new(messages.len(), |i: int| chat_message(messages[i]))
}

/// The chat messages of a conversation, in order.
pub fn wire_messages_to_liter(messages: &[WireMessage]) -> (r: Vec<ChatMessage>)
    ensures
        r.deep_view() == chat_messages(messages.deep_view()),
{
    let mut out: Vec<ChatMessage> = Vec::new();
    let mut i: usize = 0;
    while i < messages.len()
        invariant
            i <= messages@.len(),
            out@.len() == i,
            forall|j: int|
                0 <= j < i ==> (#[trigger] out@[j]).deep_view() == chat_message(
                    messages@[j].deep_view(),
                ),
        decreases messages@.len() - i,
    {
        out.push(wire_to_liter(&messages[i]));
        i = i + 1;
    }
    assert(out.deep_view() =~= chat_messages(messages.deep_view()));
    out
}

/// The function of a tool.
pub open spec fn chat_tool(tool: ToolDefView) -> ChatToolView {
    ChatToolView {
        name: tool.name,
        description: Some(tool.description),
        parameters: tool.parameters,
    }
}

pub open spec fn chat_tools(tools: Seq<ToolDefView>) -> Seq<ChatToolView> {
    Seq::new(tools.len(), |i: int| chat_tool(tools[i]))
}

/// The functions of the tools, in order.
pub fn tool_defs_to_liter(tools: &[ToolDef]) -> (r: Vec<ChatTool>)
    ensures
        r.deep_view() == chat_tools(tools.deep_view()),
{
    let mut out: Vec<ChatTool> = Vec::new();
    let mut i: usize = 0;
    while i < tools.len()
        invariant
            i <= tools@.len(),
            out@.len() == i,
            forall|j: int|
                0 <= j < i ==> (#[trigger] out@[j]).deep_view() == chat_tool(tools@[j].deep_view()),
        decreases tools@.len() - i,
    {
        let tool = &tools[i];
        out.push(
            ChatTool {
                name: tool.name.dup(),
                description: Some(tool.description.dup()),
                parameters: tool.parameters.dup(),
            },
        );
        i = i + 1;
    }
    assert(out.deep_view() =~= chat_tools(tools.deep_view()));
    out
}

/// A request to the provider.
#[derive(Debug, PartialEq)]
pub struct ChatRequest {
    pub model: String,
    pub messages: Vec<ChatMessage>,
    pub tools: Option<Vec<ChatTool>>,
}

/// What a `ChatRequest` is.
#[verifier::ext_equal]
pub struct ChatRequestView {
    pub model: Seq<char>,
    pub messages: Seq<ChatMessageView>,
    pub tools: Option<Seq<ChatToolView>>,
}

impl DeepView for ChatRequest {
    type V = ChatRequestView;

    open spec fn deep_view(&self) -> ChatRequestView {
        ChatRequestView {
            model: self.model@,
            messages: self.messages.deep_view(),
            tools: self.tools.deep_view(),
        }
    }
}

/// The request for a conversation; without tools it names none.
pub open spec fn chat_request_of(
    model: Seq<char>,
    messages: Seq<WireMessageView>,
    tools: Seq<ToolDefView>,
) -> ChatRequestView {
    ChatRequestView {
        model,
        messages: chat_messages(messages),
        tools: if tools.len() == 0 {
            None
        } else {
            Some(chat_tools(tools))
        },
    }
}

/// The request for a conversation.
pub fn chat_request(model: &str, messages: &[WireMessage], tools: &[ToolDef]) -> (r: ChatRequest)
    ensures
        r.deep_view() == chat_request_of(model@, messages.deep_view(), tools.deep_view()),
{
    let functions = tool_defs_to_liter(tools);
    assert(functions@.len() == functions.deep_view().len());
    ChatRequest {
        model: model.to_owned(),
        messages: wire_messages_to_liter(messages),
        tools: if functions.len() == 0 {
            None
        } else {
            Some(functions)
        },
    }
}

} // verus!
