//! A backend that streams assistant messages from a provider and runs registered tools.

use vstd::prelude::*;

use crate::agent_loop::pair;
use crate::dup::{push_last, Dup};
use crate::error::{LoopError, LoopErrorView};
use crate::json::{item_trees, json_parsed, json_text, Json, JsonValue};
use crate::keyed::Keyed;
use crate::llm::chat::{
    ChatMessage, ChatMessageView, ChatRequest, ChatRequestView, ChatTool, ChatToolCall,
    ChatToolCallView, ChatToolView,
};
use crate::llm::stream::{
    with_fragments, FinishReason, PartialCallView, PartialCalls, StreamChoice, StreamChoiceView,
    StreamChunk, StreamChunkView,
};
use crate::text::concat;
use crate::types::{
    AgentContext, AgentContextView, AgentEvent, AgentEventView, AgentMessage, AgentMessageView,
    AgentTool, AgentToolView, ContentPart, ContentPartView, StopReason,
};

verus! {

/// What a tool gives.
#[derive(Debug, PartialEq)]
pub struct ToolExecResult {
    pub content: String,
    pub is_error: bool,
    pub terminate: bool,
}

/// What a `ToolExecResult` is.
#[verifier::ext_equal]
pub struct ToolExecResultView {
    pub content: Seq<char>,
    pub is_error: bool,
    pub terminate: bool,
}

impl DeepView for ToolExecResult {
    type V = ToolExecResultView;

    open spec fn deep_view(&self) -> ToolExecResultView {
        ToolExecResultView {
            content: self.content@,
            is_error: self.is_error,
            terminate: self.terminate,
        }
    }
}

/// A tool that can be registered.
pub trait ToolExecutor {
    fn execute(&self, args: &JsonValue) -> ToolExecResult;
}

/// A tool under a name: the echo tool that comes with the backend, or one of the caller's.
pub enum NamedTool<E> {
    Echo,
    Custom(E),
}

/// What the echo tool gives: the `message`, or else all its arguments as JSON text.
pub open spec fn echoed(args: Json) -> ToolExecResultView {
    ToolExecResultView {
        content: match args.str_field("message"@) {
            Some(message) => message,
            None => json_text(args),
        },
        is_error: false,
        terminate: false,
    }
}

/// The echo tool.
pub fn echo_executor(args: &JsonValue) -> (r: ToolExecResult)
    ensures
        r.deep_view() == echoed(args.deep_view()),
{
    let content = match args.str_field("message") {
        Some(message) => message.to_owned(),
        None => args.to_text(),
    };
    ToolExecResult { content, is_error: false, terminate: false }
}

/// The schema of the echo tool.
pub open spec fn echo_def() -> AgentToolView {
    AgentToolView {
        name: "echo"@,
        description: "Echo back the given message string."@,
        parameters: Json::Obj(
            seq![
                (
                    "properties"@,
                    Json::Obj(
                        seq![
                            (
                                "message"@,
                                Json::Obj(
                                    seq![
                                        ("description"@, Json::Str("Text to echo"@)),
                                        ("type"@, Json::Str("string"@)),
                                    ],
                                ),
                            ),
                        ],
                    ),
                ),
                ("required"@, Json::Arr(seq![Json::Str("message"@)])),
                ("type"@, Json::Str("object"@)),
            ],
        ),
    }
}

/// The schema of the echo tool.
pub fn echo_tool_def() -> (r: AgentTool)
    ensures
        r.deep_view() == echo_def(),
{
    let message = JsonValue::object2(
        "description",
        JsonValue::string("Text to echo"),
        "type",
        JsonValue::string("string"),
    );
    let required = vec![JsonValue::string("message")];
    assert(item_trees(required@) =~= seq![Json::Str("message"@)]);
    let parameters = JsonValue::object3(
        "properties",
        JsonValue::object1("message", message),
        "required",
        JsonValue::array(required),
        "type",
        JsonValue::string("object"),
    );
    AgentTool {
        name: "echo".to_owned(),
        description: "Echo back the given message string.".to_owned(),
        parameters,
    }
}

/// A tool call on the way to the provider: its arguments are JSON text.
pub open spec fn llm_call(id: Seq<char>, name: Seq<char>, arguments: Json) -> ChatToolCallView {
    ChatToolCallView { id, name, arguments: json_text(arguments) }
}

/// The texts of the parts, one after the other.
pub open spec fn text_of(parts: Seq<ContentPartView>) -> Seq<char>
    decreases parts.len(),
{
    if parts.len() == 0 {
        Seq::empty()
    } else {
        match parts.last() {
            ContentPartView::Text { text } => text_of(parts.drop_last()) + text,
            ContentPartView::ToolCall { .. } => text_of(parts.drop_last()),
        }
    }
}

/// The tool calls among the parts, in order.
pub open spec fn llm_calls_of(parts: Seq<ContentPartView>) -> Seq<ChatToolCallView>
    decreases parts.len(),
{
    if parts.len() == 0 {
        Seq::empty()
    } else {
        match parts.last() {
            ContentPartView::Text { .. } => llm_calls_of(parts.drop_last()),
            ContentPartView::ToolCall { id, name, arguments } => llm_calls_of(
                parts.drop_last(),
            ).push(llm_call(id, name, arguments)),
        }
    }
}

/// The text, or nothing where it is empty.
pub open spec fn unless_empty(text: Seq<char>) -> Option<Seq<char>> {
    if text.len() == 0 {
        None
    } else {
        Some(text)
    }
}

/// A message on the way to the provider.
pub open spec fn llm_message(message: AgentMessageView) -> ChatMessageView {
    match message {
        AgentMessageView::User { content } => ChatMessageView::User { content, name: None },
        AgentMessageView::System { content } => ChatMessageView::System { content, name: None },
        AgentMessageView::Assistant { parts, .. } => ChatMessageView::Assistant {
            content: unless_empty(text_of(parts)),
            name: None,
            tool_calls: if llm_calls_of(parts).len() == 0 {
                None
            } else {
                Some(llm_calls_of(parts))
            },
            reasoning_content: None,
        },
        AgentMessageView::ToolResult { tool_call_id, tool_name, content, .. } => {
            ChatMessageView::Tool { content, tool_call_id, name: unless_empty(tool_name) }
        },
    }
}

pub open spec fn llm_messages(messages: Seq<AgentMessageView>) -> Seq<ChatMessageView> {
    Seq::new(messages.len(), |i: int| llm_message(messages[i]))
}

fn nonempty(text: &String) -> (r: Option<String>)
    ensures
        r.deep_view() == unless_empty(text@),
{
    if text.as_str().is_empty() {
        None
    } else {
        Some(text.dup())
    }
}

/// A message on the way to the provider.
pub fn agent_message_to_llm(message: &AgentMessage) -> (r: ChatMessage)
    ensures
        r.deep_view() == llm_message(message.deep_view()),
{
    match message {
        AgentMessage::User { content } => ChatMessage::User { content: content.dup(), name: None },
        AgentMessage::System { content } => ChatMessage::System {
            content: content.dup(),
            name: None,
        },
        AgentMessage::Assistant { parts, .. } => {
            let ghost all = parts.deep_view();
            let mut text = String::new();
            let mut tool_calls: Vec<ChatToolCall> = Vec::new();
            let mut i: usize = 0;
            assert(all.take(0) =~= Seq::<ContentPartView>::empty());
            assert(tool_calls.deep_view() =~= Seq::<ChatToolCallView>::empty());
            while i < parts.len()
                invariant
                    i <= parts@.len(),
                    all == parts.deep_view(),
                    text@ == text_of(all.take(i as int)),
                    tool_calls.deep_view() == llm_calls_of(all.take(i as int)),
                decreases parts@.len() - i,
            {
                proof {
                    assert(all.take(i + 1).drop_last() =~= all.take(i as int));
                    assert(all.take(i + 1).last() == parts@[i as int].deep_view());
                }
                match &parts[i] {
                    ContentPart::Text { text: more } => {
                        text.append(more.as_str());
                    },
                    ContentPart::ToolCall { id, name, arguments } => {
                        push_last(
                            &mut tool_calls,
                            ChatToolCall {
                                id: id.dup(),
                                name: name.dup(),
                                arguments: arguments.to_text(),
                            },
                        );
                    },
                }
                i = i + 1;
            }
            assert(all.take(i as int) =~= all);
            assert(tool_calls@.len() == tool_calls.deep_view().len());
            ChatMessage::Assistant {
                content: nonempty(&text),
                name: None,
                tool_calls: if tool_calls.len() == 0 {
                    None
                } else {
                    Some(tool_calls)
                },
                reasoning_content: None,
            }
        },
        AgentMessage::ToolResult { tool_call_id, tool_name, content, .. } => ChatMessage::Tool {
            content: content.dup(),
            tool_call_id: tool_call_id.dup(),
            name: nonempty(tool_name),
        },
    }
}

/// The messages on the way to the provider.
pub fn to_llm_messages(messages: &[AgentMessage]) -> (r: Vec<ChatMessage>)
    ensures
        r.deep_view() == llm_messages(messages.deep_view()),
{
    let mut out: Vec<ChatMessage> = Vec::new();
    let mut i: usize = 0;
    while i < messages.len()
        invariant
            i <= messages@.len(),
            out@.len() == i,
            forall|k: int|
                0 <= k < i ==> (#[trigger] out@[k]).deep_view() == llm_message(
                    messages@[k].deep_view(),
                ),
        decreases messages@.len() - i,
    {
        out.push(agent_message_to_llm(&messages[i]));
        i = i + 1;
    }
    assert(out.deep_view() =~= llm_messages(messages.deep_view()));
    out
}

/// A tool on the way to the provider.
pub open spec fn llm_tool(tool: AgentToolView) -> ChatToolView {
    ChatToolView {
        name: tool.name,
        description: unless_empty(tool.description),
        parameters: tool.parameters,
    }
}

/// The tools on the way to the provider; none at all where there are none.
pub open spec fn llm_tools(tools: Seq<AgentToolView>) -> Option<Seq<ChatToolView>> {
    if tools.len() == 0 {
        None
    } else {
        Some(Seq::new(tools.len(), |i: int| llm_tool(tools[i])))
    }
}

/// The tools on the way to the provider.
pub fn to_llm_tools(tools: &[AgentTool]) -> (r: Option<Vec<ChatTool>>)
    ensures
        r.deep_view() == llm_tools(tools.deep_view()),
{
    assert(tools@.len() == tools.deep_view().len());
    if tools.len() == 0 {
        return None;
    }
    let mut out: Vec<ChatTool> = Vec::new();
    let mut i: usize = 0;
    while i < tools.len()
        invariant
            i <= tools@.len(),
            out@.len() == i,
            forall|k: int|
                0 <= k < i ==> (#[trigger] out@[k]).deep_view() == llm_tool(tools@[k].deep_view()),
        decreases tools@.len() - i,
    {
        let tool = &tools[i];
        out.push(
            ChatTool {
                name: tool.name.dup(),
                description: nonempty(&tool.description),
                parameters: tool.parameters.dup(),
            },
        );
        i = i + 1;
    }
    let ghost views = tools.deep_view();
    assert(out.deep_view() =~= Seq::new(views.len(), |k: int| llm_tool(views[k])));
    Some(out)
}

/// Why an assistant message ends, by what the provider said; where it said nothing, by what there
/// is of the message.
pub open spec fn stop_reason_of(
    reason: Option<FinishReason>,
    has_tools: bool,
    has_text: bool,
) -> StopReason {
    match reason {
        Some(FinishReason::Stop) => StopReason::Stop,
        Some(FinishReason::Length) => StopReason::Length,
        Some(FinishReason::ToolCalls) | Some(FinishReason::FunctionCall) => StopReason::ToolCalls,
        Some(_) => StopReason::Error,
        None => if has_tools {
            StopReason::ToolCalls
        } else if has_text {
            StopReason::Stop
        } else {
            StopReason::Error
        },
    }
}

/// Why an assistant message ends.
pub fn map_finish_reason(reason: Option<FinishReason>, has_tools: bool, has_text: bool) -> (r:
    StopReason)
    ensures
        r == stop_reason_of(reason, has_tools, has_text),
{
    match reason {
        Some(FinishReason::Stop) => StopReason::Stop,
        Some(FinishReason::Length) => StopReason::Length,
        Some(FinishReason::ToolCalls) | Some(FinishReason::FunctionCall) => StopReason::ToolCalls,
        Some(_) => StopReason::Error,
        None => if has_tools {
            StopReason::ToolCalls
        } else if has_text {
            StopReason::Stop
        } else {
            StopReason::Error
        },
    }
}

/// Gathers the chunks of a stream into an assistant message.
pub struct StreamAccumulator {
    text: String,
    tool_calls: PartialCalls,
    finish_reason: Option<FinishReason>,
    saw_choice: bool,
    stream_error: bool,
}

/// What a `StreamAccumulator` is.
#[verifier::ext_equal]
pub struct StreamAccumulatorView {
    pub text: Seq<char>,
    pub tool_calls: Seq<PartialCallView>,
    pub finish_reason: Option<FinishReason>,
    pub saw_choice: bool,
    pub stream_error: bool,
}

impl DeepView for StreamAccumulator {
    type V = StreamAccumulatorView;

    closed spec fn deep_view(&self) -> StreamAccumulatorView {
        StreamAccumulatorView {
            text: self.text@,
            tool_calls: self.tool_calls.deep_view(),
            finish_reason: self.finish_reason,
            saw_choice: self.saw_choice,
            stream_error: self.stream_error,
        }
    }
}

/// The arguments of a call: its text as JSON, or that text itself.
pub open spec fn read_arguments(raw: Seq<char>) -> Json {
    match json_parsed(raw) {
        Some(tree) => tree,
        None => Json::Str(raw),
    }
}

pub open spec fn call_part(call: PartialCallView) -> ContentPartView {
    ContentPartView::ToolCall {
        id: call.id,
        name: call.name,
        arguments: read_arguments(call.arguments),
    }
}

impl StreamAccumulatorView {
    /// With the delta of one choice: the text goes on, tool calls grow by their fragments, and the
    /// last reason to finish holds.
    pub open spec fn choice(self, choice: StreamChoiceView) -> Self {
        StreamAccumulatorView {
            text: match choice.content {
                Some(more) => self.text + more,
                None => self.text,
            },
            tool_calls: match choice.tool_calls {
                Some(fragments) => with_fragments(self.tool_calls, fragments),
                None => self.tool_calls,
            },
            finish_reason: match choice.finish_reason {
                Some(reason) => Some(reason),
                None => self.finish_reason,
            },
            ..self
        }
    }

    pub open spec fn choices(self, choices: Seq<StreamChoiceView>) -> Self
        decreases choices.len(),
    {
        if choices.len() == 0 {
            self
        } else {
            self.choices(choices.drop_last()).choice(choices.last())
        }
    }

    /// With a chunk.
    pub open spec fn chunk(self, chunk: StreamChunkView) -> Self {
        StreamAccumulatorView {
            saw_choice: self.saw_choice || chunk.choices.len() > 0,
            ..self.choices(chunk.choices)
        }
    }

    /// The parts so far: the text, and then the tool calls by their indices.
    pub open spec fn parts(self) -> Seq<ContentPartView> {
        let calls = Seq::new(self.tool_calls.len(), |i: int| call_part(self.tool_calls[i]));
        if self.text.len() == 0 {
            calls
        } else {
            seq![ContentPartView::Text { text: self.text }] + calls
        }
    }

    /// The message so far, with a reason to stop.
    pub open spec fn snapshot(self, stop_reason: StopReason) -> AgentMessageView {
        AgentMessageView::Assistant { parts: self.parts(), stop_reason }
    }

    /// The message at the end of the stream. A stream that broke or had nothing is an error.
    pub open spec fn finished(self) -> AgentMessageView {
        self.snapshot(
            if self.stream_error || !self.saw_choice {
                StopReason::Error
            } else {
                stop_reason_of(
                    self.finish_reason,
                    self.tool_calls.len() > 0,
                    self.text.len() > 0,
                )
            },
        )
    }
}

/// An accumulator that has seen nothing.
pub open spec fn fresh_accumulator() -> StreamAccumulatorView {
    StreamAccumulatorView {
        text: Seq::empty(),
        tool_calls: Seq::empty(),
        finish_reason: None,
        saw_choice: false,
        stream_error: false,
    }
}

impl StreamAccumulator {
    pub closed spec fn wf(self) -> bool {
        self.tool_calls.wf()
    }

    pub fn new() -> (r: Self)
        ensures
            r.wf(),
            r.deep_view() == fresh_accumulator(),
    {
        StreamAccumulator {
            text: String::new(),
            tool_calls: PartialCalls::new(),
            finish_reason: None,
            saw_choice: false,
            stream_error: false,
        }
    }

    fn apply_choice(&mut self, choice: &StreamChoice)
        requires
            old(self).wf(),
        ensures
            final(self).wf(),
            final(self).deep_view() == old(self).deep_view().choice(choice.deep_view()),
    {
        if let Some(reason) = choice.finish_reason {
            self.finish_reason = Some(reason);
        }
        if let Some(content) = &choice.content {
            self.text.append(content.as_str());
        }
        if let Some(fragments) = &choice.tool_calls {
            self.tool_calls.add_fragments(fragments);
        }
    }

    /// Takes in a chunk.
    pub fn apply_chunk(&mut self, chunk: &StreamChunk)
        requires
            old(self).wf(),
        ensures
            final(self).wf(),
            final(self).deep_view() == old(self).deep_view().chunk(chunk.deep_view()),
    {
        let ghost before = self.deep_view();
        let ghost all = chunk.deep_view().choices;
        let mut i: usize = 0;
        assert(all.take(0) =~= Seq::<StreamChoiceView>::empty());
        while i < chunk.choices.len()
            invariant
                i <= chunk.choices@.len(),
                all == chunk.choices.deep_view(),
                self.wf(),
                self.deep_view() == before.choices(all.take(i as int)),
            decreases chunk.choices@.len() - i,
        {
            proof {
                assert(all.take(i + 1).drop_last() =~= all.take(i as int));
                assert(all.take(i + 1).last() == chunk.choices@[i as int].deep_view());
            }
            self.apply_choice(&chunk.choices[i]);
            i = i + 1;
        }
        proof {
            assert(all.take(i as int) =~= all);
            lemma_choices_keep_flags(before, all);
        }
        if chunk.choices.len() > 0 {
            self.saw_choice = true;
        }
    }

    /// Notes that the stream broke.
    pub fn mark_stream_error(&mut self)
        requires
            old(self).wf(),
        ensures
            final(self).wf(),
            final(self).deep_view() == (StreamAccumulatorView {
                stream_error: true,
                ..old(self).deep_view()
            }),
    {
        self.stream_error = true;
    }

    fn parts(&self) -> (r: Vec<ContentPart>)
        ensures
            r.deep_view() == self.deep_view().parts(),
    {
        let mut parts: Vec<ContentPart> = Vec::new();
        assert(parts.deep_view() =~= Seq::<ContentPartView>::empty());
        if !self.text.as_str().is_empty() {
            push_last(&mut parts, ContentPart::Text { text: self.text.dup() });
            assert(parts.deep_view() =~= seq![ContentPartView::Text { text: self.text@ }]);
        }
        let ghost head = parts.deep_view();
        let ghost calls = self.tool_calls.deep_view();
        let ghost rest = Seq::new(calls.len(), |k: int| call_part(calls[k]));
        let mut i: usize = 0;
        assert(head + rest.take(0) =~= head);
        while i < self.tool_calls.len()
            invariant
                i <= calls.len(),
                calls == self.tool_calls.deep_view(),
                rest == Seq::new(calls.len(), |k: int| call_part(calls[k])),
                parts.deep_view() == head + rest.take(i as int),
            decreases calls.len() - i,
        {
            let call = self.tool_calls.get(i);
            let arguments = match JsonValue::parse(call.arguments.as_str()) {
                Some(value) => value,
                None => JsonValue::string(call.arguments.as_str()),
            };
            push_last(
                &mut parts,
                ContentPart::ToolCall { id: call.id.dup(), name: call.name.dup(), arguments },
            );
            proof {
                assert(rest.take(i + 1) =~= rest.take(i as int).push(rest[i as int]));
                assert(parts.deep_view() =~= head + rest.take(i + 1));
            }
            i = i + 1;
        }
        proof {
            assert(rest.take(i as int) =~= rest);
            assert(self.deep_view().parts() =~= head + rest);
        }
        parts
    }

    /// The message so far.
    pub fn snapshot(&self, stop_reason: StopReason) -> (r: AgentMessage)
        ensures
            r.deep_view() == self.deep_view().snapshot(stop_reason),
    {
        AgentMessage::Assistant { parts: self.parts(), stop_reason }
    }

    /// The message at the end of the stream.
    pub fn finalize(&self) -> (r: AgentMessage)
        ensures
            r.deep_view() == self.deep_view().finished(),
    {
        if self.stream_error || !self.saw_choice {
            return self.snapshot(StopReason::Error);
        }
        let has_tools = self.tool_calls.len() > 0;
        let has_text = !self.text.as_str().is_empty();
        self.snapshot(map_finish_reason(self.finish_reason, has_tools, has_text))
    }
}

proof fn lemma_choices_keep_flags(
    acc: StreamAccumulatorView,
    choices: Seq<StreamChoiceView>,
)
    ensures
        acc.choices(choices).saw_choice == acc.saw_choice,
        acc.choices(choices).stream_error == acc.stream_error,
    decreases choices.len(),
{
    if choices.len() > 0 {
        lemma_choices_keep_flags(acc, choices.drop_last());
    }
}

/// What comes of waiting for the next chunk. A run that is cancelled does not wait.
#[derive(Debug, PartialEq)]
pub enum StreamStep {
    Cancelled,
    End,
    Failed,
    Chunk(StreamChunk),
}

/// What `StreamStep` is.
#[verifier::ext_equal]
pub enum StreamStepView {
    Cancelled,
    End,
    Failed,
    Chunk(StreamChunkView),
}

impl DeepView for StreamStep {
    type V = StreamStepView;

    open spec fn deep_view(&self) -> StreamStepView {
        match self {
            StreamStep::Cancelled => StreamStepView::Cancelled,
            StreamStep::End => StreamStepView::End,
            StreamStep::Failed => StreamStepView::Failed,
            StreamStep::Chunk(x) => StreamStepView::Chunk(x.deep_view()),
        }
    }
}

/// The event and, where the message is over, the message that one step of reading a stream gives.
pub open spec fn consumed(acc: StreamAccumulatorView, step: StreamStepView) -> (
    StreamAccumulatorView,
    AgentEventView,
    Option<AgentMessageView>,
) {
    match step {
        StreamStepView::Cancelled => {
            let message = acc.snapshot(StopReason::Aborted);
            (acc, AgentEventView::MessageEnd { message }, Some(message))
        },
        StreamStepView::End => {
            let message = acc.finished();
            (acc, AgentEventView::MessageEnd { message }, Some(message))
        },
        StreamStepView::Failed => {
            let next = StreamAccumulatorView { stream_error: true, ..acc };
            let message = next.finished();
            (next, AgentEventView::MessageEnd { message }, Some(message))
        },
        StreamStepView::Chunk(chunk) => {
            let next = acc.chunk(chunk);
            (next, AgentEventView::MessageUpdate { message: next.snapshot(StopReason::Stop) }, None)
        },
    }
}

/// The event that an assistant message begins: it is still empty.
pub open spec fn message_begins() -> AgentEventView {
    AgentEventView::MessageStart {
        message: AgentMessageView::Assistant {
            parts: Seq::empty(),
            stop_reason: StopReason::Stop,
        },
    }
}

/// Begins to read a stream.
pub fn begin_stream() -> (r: (StreamAccumulator, AgentEvent))
    ensures
        r.0.wf(),
        r.0.deep_view() == fresh_accumulator(),
        r.1.deep_view() == message_begins(),
{
    let parts: Vec<ContentPart> = Vec::new();
    assert(parts.deep_view() =~= Seq::<ContentPartView>::empty());
    let message = AgentMessage::Assistant { parts, stop_reason: StopReason::Stop };
    (StreamAccumulator::new(), AgentEvent::MessageStart { message })
}

/// One step of reading a stream: the event to send, and the message once it is over.
pub fn consume_stream(acc: &mut StreamAccumulator, step: StreamStep) -> (r: (
    AgentEvent,
    Option<AgentMessage>,
))
    requires
        old(acc).wf(),
    ensures
        final(acc).wf(),
        (final(acc).deep_view(), r.0.deep_view(), r.1.deep_view()) == consumed(
            old(acc).deep_view(),
            step.deep_view(),
        ),
{
    let message = match step {
        StreamStep::Cancelled => acc.snapshot(StopReason::Aborted),
        StreamStep::End => acc.finalize(),
        StreamStep::Failed => {
            acc.mark_stream_error();
            acc.finalize()
        },
        StreamStep::Chunk(chunk) => {
            acc.apply_chunk(&chunk);
            return (AgentEvent::MessageUpdate { message: acc.snapshot(StopReason::Stop) }, None);
        },
    };
    (AgentEvent::MessageEnd { message: message.dup() }, Some(message))
}

/// The message of a request that the provider refused.
pub open spec fn refused_message(err: Seq<char>) -> AgentMessageView {
    AgentMessageView::Assistant {
        parts: seq![ContentPartView::Text { text: "LLM request failed: "@ + err }],
        stop_reason: StopReason::Error,
    }
}

/// The message of a request that the provider refused, and the events of it.
pub fn refused_request(err: &str) -> (r: (Vec<AgentEvent>, AgentMessage))
    ensures
        r.0.deep_view() == pair(refused_message(err@)),
        r.1.deep_view() == refused_message(err@),
{
    let parts = vec![ContentPart::Text { text: concat("LLM request failed: ", err) }];
    assert(parts.deep_view() =~= seq![
        ContentPartView::Text { text: "LLM request failed: "@ + err@ },
    ]);
    let message = AgentMessage::Assistant { parts, stop_reason: StopReason::Error };
    let events = vec![
        AgentEvent::MessageStart { message: message.dup() },
        AgentEvent::MessageEnd { message: message.dup() },
    ];
    assert(events.deep_view() =~= pair(refused_message(err@)));
    (events, message)
}

/// The result of a tool that no one registered.
pub open spec fn unregistered(name: Seq<char>) -> ToolExecResultView {
    ToolExecResultView {
        content: "tool not registered: "@ + name,
        is_error: true,
        terminate: false,
    }
}

/// The event that goes out before a tool is run.
pub open spec fn tool_started(id: Seq<char>, name: Seq<char>, args: Json) -> AgentEventView {
    AgentEventView::ToolExecutionStart { tool_call_id: id, tool_name: name, args }
}

/// The event and the message of a tool that was run.
pub open spec fn tool_ran(id: Seq<char>, name: Seq<char>, outcome: ToolExecResultView) -> (
    AgentEventView,
    AgentMessageView,
) {
    (
        AgentEventView::ToolExecutionEnd {
            tool_call_id: id,
            result: outcome.content,
            is_error: outcome.is_error,
        },
        AgentMessageView::ToolResult {
            tool_call_id: id,
            tool_name: name,
            content: outcome.content,
            is_error: outcome.is_error,
            terminate: outcome.terminate,
        },
    )
}

/// The event that goes out before a tool is run.
pub fn start_tool(call: &ContentPart) -> (r: Result<AgentEvent, LoopError>)
    ensures
        match call.deep_view() {
            ContentPartView::Text { .. } => r matches Err(err) && err.deep_view() == not_a_call(),
            ContentPartView::ToolCall { id, name, arguments } => r matches Ok(event)
                && event.deep_view() == tool_started(id, name, arguments),
        },
{
    match call {
        ContentPart::Text { .. } => Err(
            LoopError::Backend("execute_tool expected ToolCall content part".to_owned()),
        ),
        ContentPart::ToolCall { id, name, arguments } => Ok(
            AgentEvent::ToolExecutionStart {
                tool_call_id: id.dup(),
                tool_name: name.dup(),
                args: arguments.dup(),
            },
        ),
    }
}

/// The event and the message of a tool that was run.
pub fn finish_tool(id: &String, name: &String, outcome: ToolExecResult) -> (r: (
    AgentEvent,
    AgentMessage,
))
    ensures
        (r.0.deep_view(), r.1.deep_view()) == tool_ran(id@, name@, outcome.deep_view()),
{
    let event = AgentEvent::ToolExecutionEnd {
        tool_call_id: id.dup(),
        result: outcome.content.dup(),
        is_error: outcome.is_error,
    };
    let message = AgentMessage::ToolResult {
        tool_call_id: id.dup(),
        tool_name: name.dup(),
        content: outcome.content,
        is_error: outcome.is_error,
        terminate: outcome.terminate,
    };
    (event, message)
}

/// The refusal to run something that is no tool call.
pub open spec fn not_a_call() -> LoopErrorView {
    LoopErrorView::Backend("execute_tool expected ToolCall content part"@)
}

/// Whether a result can come from a tool under a name: the tool of the caller decides where it is
/// one; the echo tool and a name that no one registered leave nothing open.
pub open spec fn may_give<E: ToolExecutor>(
    executors: Map<Seq<char>, NamedTool<E>>,
    name: Seq<char>,
    args: JsonValue,
    outcome: ToolExecResult,
) -> bool {
    if !executors.dom().contains(name) {
        outcome.deep_view() == unregistered(name)
    } else {
        match executors[name] {
            NamedTool::Echo => outcome.deep_view() == echoed(args.deep_view()),
            NamedTool::Custom(tool) => call_ensures(E::execute, (&tool, &args), outcome),
        }
    }
}

/// Runs the tool of a name.
pub fn dispatch_tool<E: ToolExecutor>(
    executors: &Keyed<NamedTool<E>>,
    tool_name: &str,
    args: &JsonValue,
) -> (r: ToolExecResult)
    requires
        executors.wf(),
    ensures
        may_give(executors@, tool_name@, *args, r),
{
    match executors.get(tool_name) {
        Some(NamedTool::Echo) => echo_executor(args),
        Some(NamedTool::Custom(tool)) => tool.execute(args),
        None => ToolExecResult {
            content: concat("tool not registered: ", tool_name),
            is_error: true,
            terminate: false,
        },
    }
}

/// The request for the next assistant message.
pub open spec fn request_of(model: Seq<char>, context: AgentContextView) -> ChatRequestView {
    ChatRequestView {
        model,
        messages: llm_messages(context.messages),
        tools: llm_tools(context.tools),
    }
}

/// A backend for a model, with the tools that are registered on it.
pub struct LiterBackend<E> {
    model: String,
    executors: Keyed<NamedTool<E>>,
}

impl<E: ToolExecutor> LiterBackend<E> {
    pub closed spec fn wf(self) -> bool {
        self.executors.wf()
    }

    pub closed spec fn model(self) -> Seq<char> {
        self.model@
    }

    /// The registered tools by their names.
    pub closed spec fn tools(self) -> Map<Seq<char>, NamedTool<E>> {
        self.executors@
    }

    pub fn new(model: String) -> (r: Self)
        ensures
            r.wf(),
            r.model() == model@,
            r.tools() == Map::<Seq<char>, NamedTool<E>>::empty(),
    {
        LiterBackend { model, executors: Keyed::new() }
    }

    /// Registers a tool, in place of any with its name.
    pub fn register_tool(&mut self, name: String, tool: NamedTool<E>)
        requires
            old(self).wf(),
        ensures
            final(self).wf(),
            final(self).model() == old(self).model(),
            final(self).tools() == old(self).tools().insert(name@, tool),
    {
        self.executors.insert(name, tool);
    }

    /// Registers the echo tool.
    pub fn with_echo(self) -> (r: Self)
        requires
            self.wf(),
        ensures
            r.wf(),
            r.model() == self.model(),
            r.tools() == self.tools().insert("echo"@, NamedTool::Echo),
    {
        let mut backend = self;
        backend.register_tool("echo".to_owned(), NamedTool::Echo);
        backend
    }

    /// The request for the next assistant message.
    pub fn request(&self, context: &AgentContext) -> (r: ChatRequest)
        ensures
            r.deep_view() == (ChatRequestView {
                model: self.model(),
                messages: llm_messages(context.deep_view().messages),
                tools: llm_tools(context.deep_view().tools),
            }),
            r.deep_view() == request_of(self.model(), context.deep_view()),
    {
        ChatRequest {
            model: self.model.dup(),
            messages: to_llm_messages(context.messages.as_slice()),
            tools: to_llm_tools(context.tools.as_slice()),
        }
    }

    /// Runs a tool call whose start was announced: the event of its end, and the message.
    pub fn execute_tool(&self, call: &ContentPart) -> (r: Result<
        (AgentEvent, AgentMessage),
        LoopError,
    >)
        requires
            self.wf(),
        ensures
            match call {
                ContentPart::Text { .. } => r matches Err(err) && err.deep_view() == not_a_call(),
                ContentPart::ToolCall { id, name, arguments } => r matches Ok(ran) && exists|
                    outcome: ToolExecResult,
                | #[trigger]
                    may_give(self.tools(), name@, *arguments, outcome) && (
                    ran.0.deep_view(),
                    ran.1.deep_view(),
                ) == tool_ran(id@, name@, outcome.deep_view()),
            },
    {
        match call {
            ContentPart::Text { .. } => Err(
                LoopError::Backend("execute_tool expected ToolCall content part".to_owned()),
            ),
            ContentPart::ToolCall { id, name, arguments } => {
                let outcome = dispatch_tool(&self.executors, name.as_str(), arguments);
                assert(may_give(self.tools(), name@, *arguments, outcome));
                Ok(finish_tool(id, name, outcome))
            },
        }
    }
}

/// Adds an assistant message to the context.
pub fn record_message(context: &mut AgentContext, message: &AgentMessage)
    ensures
        final(context).deep_view() == (AgentContextView {
            messages: old(context).deep_view().messages.push(message.deep_view()),
            ..old(context).deep_view()
        }),
{
    push_last(&mut context.messages, message.dup());
}

/// The text of the chunks makes up the text of the message, in the order in which it came.
pub proof fn law_text_is_gathered(acc: StreamAccumulatorView, a: Seq<char>, b: Seq<char>)
    ensures
        acc.chunk(text_chunk(a)).chunk(text_chunk(b)) == acc.chunk(text_chunk(a + b)),
{
    reveal_with_fuel(StreamAccumulatorView::choices, 2);
    assert(acc.text + a + b =~= acc.text + (a + b));
}

/// A chunk that has only text.
pub open spec fn text_chunk(text: Seq<char>) -> StreamChunkView {
    StreamChunkView {
        choices: seq![
            StreamChoiceView { content: Some(text), tool_calls: None, finish_reason: None },
        ],
    }
}

/// A stream that broke, or that had nothing, ends in an error, whatever came of it.
pub proof fn law_broken_stream_is_an_error(acc: StreamAccumulatorView)
    ensures
        acc.stream_error || !acc.saw_choice ==> acc.finished() == acc.snapshot(StopReason::Error),
        consumed(acc, StreamStepView::Failed).2 == Some(acc.snapshot(StopReason::Error)),
        consumed(acc, StreamStepView::Cancelled).2 == Some(acc.snapshot(StopReason::Aborted)),
{
    let broken = StreamAccumulatorView { stream_error: true, ..acc };
    assert(broken.parts() =~= acc.parts());
}

} // verus!
