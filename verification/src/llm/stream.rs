//! Streamed completions: fragments of text and tool calls, gathered into chunks.

use vstd::prelude::*;

use crate::dup::{push_last, Dup};
use crate::json::{json_parsed, Json, JsonValue};
use crate::llm::{
    chunk_view, chunk_views, ChunkResult, ChunkResultView, LlmChunk, LlmChunkView, ToolCall,
};
use crate::protocol::ToolCallView;

verus! {

/// Why the provider ended a choice.
#[derive(Debug, Clone, Copy, PartialEq, Eq, Structural)]
pub enum FinishReason {
    Stop,
    Length,
    ToolCalls,
    ContentFilter,
    FunctionCall,
    Other,
}

impl DeepView for FinishReason {
    type V = FinishReason;

    open spec fn deep_view(&self) -> FinishReason {
        *self
    }
}

/// A fragment of a tool call.
#[derive(Debug, PartialEq)]
pub struct StreamToolCall {
    pub index: u32,
    pub id: Option<String>,
    pub name: Option<String>,
    pub arguments: Option<String>,
}

/// What a `StreamToolCall` is.
#[verifier::ext_equal]
pub struct StreamToolCallView {
    pub index: u32,
    pub id: Option<Seq<char>>,
    pub name: Option<Seq<char>>,
    pub arguments: Option<Seq<char>>,
}

impl DeepView for StreamToolCall {
    type V = StreamToolCallView;

    open spec fn deep_view(&self) -> StreamToolCallView {
        StreamToolCallView {
            index: self.index,
            id: self.id.deep_view(),
            name: self.name.deep_view(),
            arguments: self.arguments.deep_view(),
        }
    }
}

/// What a chunk adds to a choice.
#[derive(Debug, PartialEq)]
pub struct StreamChoice {
    pub content: Option<String>,
    pub tool_calls: Option<Vec<StreamToolCall>>,
    pub finish_reason: Option<FinishReason>,
}

/// What a `StreamChoice` is.
#[verifier::ext_equal]
pub struct StreamChoiceView {
    pub content: Option<Seq<char>>,
    pub tool_calls: Option<Seq<StreamToolCallView>>,
    pub finish_reason: Option<FinishReason>,
}

impl DeepView for StreamChoice {
    type V = StreamChoiceView;

    open spec fn deep_view(&self) -> StreamChoiceView {
        StreamChoiceView {
            content: self.content.deep_view(),
            tool_calls: self.tool_calls.deep_view(),
            finish_reason: self.finish_reason,
        }
    }
}

/// A chunk of a streamed completion.
#[derive(Debug, PartialEq)]
pub struct StreamChunk {
    pub choices: Vec<StreamChoice>,
}

/// What a `StreamChunk` is.
#[verifier::ext_equal]
pub struct StreamChunkView {
    pub choices: Seq<StreamChoiceView>,
}

impl DeepView for StreamChunk {
    type V = StreamChunkView;

    open spec fn deep_view(&self) -> StreamChunkView {
        StreamChunkView {
            choices: self.choices.deep_view(),
        }
    }
}

/// A tool call as far as its fragments have come.
#[derive(Debug, PartialEq)]
pub struct PartialCall {
    pub index: u32,
    pub id: String,
    pub name: String,
    pub arguments: String,
}

/// What a `PartialCall` is.
#[verifier::ext_equal]
pub struct PartialCallView {
    pub index: u32,
    pub id: Seq<char>,
    pub name: Seq<char>,
    pub arguments: Seq<char>,
}

impl DeepView for PartialCall {
    type V = PartialCallView;

    open spec fn deep_view(&self) -> PartialCallView {
        PartialCallView {
            index: self.index,
            id: self.id@,
            name: self.name@,
            arguments: self.arguments@,
        }
    }
}

/// A tool call of which nothing has come.
pub open spec fn empty_call(index: u32) -> PartialCallView {
    PartialCallView {
        index,
        id: Seq::empty(),
        name: Seq::empty(),
        arguments: Seq::empty(),
    }
}

impl PartialCallView {
    /// A later id or name replaces the earlier one; arguments are appended.
    pub open spec fn plus(self, fragment: StreamToolCallView) -> Self {
        PartialCallView {
            index: self.index,
            id: match fragment.id {
                Some(id) => id,
                None => self.id,
            },
            name: match fragment.name {
                Some(name) => name,
                None => self.name,
            },
            arguments: match fragment.arguments {
                Some(arguments) => self.arguments + arguments,
                None => self.arguments,
            },
        }
    }
}

/// The calls, in ascending order of their indices, after a fragment has come.
pub open spec fn with_fragment(
    calls: Seq<PartialCallView>,
    fragment: StreamToolCallView,
) -> Seq<PartialCallView>
    decreases calls.len(),
{
    if calls.len() == 0 || fragment.index < calls[0].index {
        seq![empty_call(fragment.index).plus(fragment)] + calls
    } else if calls[0].index == fragment.index {
        seq![calls[0].plus(fragment)] + calls.skip(1)
    } else {
        seq![calls[0]] + with_fragment(calls.skip(1), fragment)
    }
}

/// The calls after the fragments have come in order.
pub open spec fn with_fragments(
    calls: Seq<PartialCallView>,
    fragments: Seq<StreamToolCallView>,
) -> Seq<PartialCallView>
    decreases fragments.len(),
{
    if fragments.len() == 0 {
        calls
    } else {
        with_fragment(with_fragments(calls, fragments.drop_last()), fragments.last())
    }
}

/// Whether the indices ascend.
pub open spec fn ascending(calls: Seq<PartialCallView>) -> bool {
    forall|i: int, j: int| 0 <= i < j < calls.len() ==> calls[i].index < calls[j].index
}

proof fn lemma_with_fragment_at(
    calls: Seq<PartialCallView>,
    fragment: StreamToolCallView,
    k: int,
)
    requires
        0 <= k <= calls.len(),
        forall|i: int| 0 <= i < k ==> calls[i].index < fragment.index,
        k < calls.len() ==> fragment.index <= calls[k].index,
    ensures
        with_fragment(calls, fragment) == calls.take(k) + with_fragment(calls.skip(k), fragment),
    decreases k,
{
    if k == 0 {
        assert(calls.take(0) + with_fragment(calls.skip(0), fragment) =~= with_fragment(
            calls,
            fragment,
        )) by {
            assert(calls.skip(0) =~= calls);
        }
    } else {
        let tail = calls.skip(1);
        assert forall|i: int| 0 <= i < k - 1 implies tail[i].index < fragment.index by {
            assert(tail[i] == calls[i + 1]);
        }
        lemma_with_fragment_at(tail, fragment, k - 1);
        assert(tail.skip(k - 1) =~= calls.skip(k));
        assert(seq![calls[0]] + (tail.take(k - 1) + with_fragment(tail.skip(k - 1), fragment))
            =~= calls.take(k) + with_fragment(calls.skip(k), fragment));
    }
}

/// Fragments keep the indices in ascending order.
pub proof fn law_fragments_keep_order(
    calls: Seq<PartialCallView>,
    fragment: StreamToolCallView,
)
    requires
        ascending(calls),
    ensures
        ascending(with_fragment(calls, fragment)),
    decreases calls.len(),
{
    let r = with_fragment(calls, fragment);
    if calls.len() == 0 || fragment.index < calls[0].index {
    } else if calls[0].index == fragment.index {
    } else {
        let tail = calls.skip(1);
        assert(ascending(tail)) by {
            assert forall|i: int, j: int| 0 <= i < j < tail.len() implies tail[i].index
                < tail[j].index by {
                assert(tail[i] == calls[i + 1] && tail[j] == calls[j + 1]);
            }
        }
        law_fragments_keep_order(tail, fragment);
        lemma_first_index(tail, fragment);
        let rest = with_fragment(tail, fragment);
        assert forall|i: int, j: int| 0 <= i < j < r.len() implies r[i].index < r[j].index by {
            assert(r[j] == rest[j - 1]);
            if i > 0 {
                assert(r[i] == rest[i - 1]);
            } else {
                assert(rest[0].index <= rest[j - 1].index);
                assert(tail.len() > 0 ==> tail[0] == calls[1]);
            }
        }
    }
}

proof fn lemma_first_index(calls: Seq<PartialCallView>, fragment: StreamToolCallView)
    ensures
        with_fragment(calls, fragment).len() > 0,
        with_fragment(calls, fragment)[0].index == fragment.index || (calls.len() > 0
            && with_fragment(calls, fragment)[0].index == calls[0].index),
{
}

/// The tool calls of a streamed completion, in ascending order of their indices.
pub struct PartialCalls {
    calls: Vec<PartialCall>,
}

impl DeepView for PartialCalls {
    type V = Seq<PartialCallView>;

    closed spec fn deep_view(&self) -> Seq<PartialCallView> {
        self.calls.deep_view()
    }
}

impl PartialCalls {
    pub closed spec fn wf(self) -> bool {
        ascending(self.calls.deep_view())
    }

    /// No tool call yet.
    pub fn new() -> (r: Self)
        ensures
            r.wf(),
            r.deep_view() == Seq::<PartialCallView>::empty(),
    {
        let r = PartialCalls { calls: Vec::new() };
        assert(r.calls.deep_view() =~= Seq::<PartialCallView>::empty());
        r
    }

    pub fn len(&self) -> (r: usize)
        ensures
            r == self.deep_view().len(),
    {
        self.calls.len()
    }

    pub fn get(&self, i: usize) -> (r: &PartialCall)
        requires
            i < self.deep_view().len(),
        ensures
            r.deep_view() == self.deep_view()[i as int],
    {
        &self.calls[i]
    }

    /// Takes in one fragment.
    pub fn add_fragment(&mut self, fragment: &StreamToolCall)
        requires
            old(self).wf(),
        ensures
            final(self).wf(),
            final(self).deep_view() == with_fragment(
                old(self).deep_view(),
                fragment.deep_view(),
            ),
    {
        let ghost before = self.calls.deep_view();
        let ghost f = fragment.deep_view();
        let mut k: usize = 0;
        while k < self.calls.len() && self.calls[k].index < fragment.index
            invariant
                k <= self.calls@.len(),
                *self == *old(self),
                before == self.calls.deep_view(),
                f == fragment.deep_view(),
                forall|i: int| 0 <= i < k ==> #[trigger] before[i].index < f.index,
            decreases self.calls@.len() - k,
        {
            k = k + 1;
        }
        proof {
            law_fragments_keep_order(before, f);
            lemma_with_fragment_at(before, f, k as int);
        }
        if k < self.calls.len() && self.calls[k].index == fragment.index {
            let call = merged(&self.calls[k], fragment);
            self.calls.set(k, call);
            proof {
                let rest = before.skip(k as int);
                assert(rest[0] == before[k as int]);
                assert(self.calls.deep_view() =~= before.take(k as int) + (seq![
                    rest[0].plus(f),
                ] + rest.skip(1)));
            }
        } else {
            let blank = PartialCall {
                index: fragment.index,
                id: String::new(),
                name: String::new(),
                arguments: String::new(),
            };
            let call = merged(&blank, fragment);
            self.calls.insert(k, call);
            proof {
                let rest = before.skip(k as int);
                assert(self.calls.deep_view() =~= before.take(k as int) + (seq![
                    empty_call(f.index).plus(f),
                ] + rest));
            }
        }
    }

    /// Takes in the fragments in order.
    pub fn add_fragments(&mut self, fragments: &Vec<StreamToolCall>)
        requires
            old(self).wf(),
        ensures
            final(self).wf(),
            final(self).deep_view() == with_fragments(
                old(self).deep_view(),
                fragments.deep_view(),
            ),
    {
        let ghost all = fragments.deep_view();
        let mut i: usize = 0;
        assert(all.take(0) =~= Seq::<StreamToolCallView>::empty());
        while i < fragments.len()
            invariant
                i <= fragments@.len(),
                all == fragments.deep_view(),
                self.wf(),
                self.deep_view() == with_fragments(old(self).deep_view(), all.take(i as int)),
            decreases fragments@.len() - i,
        {
            proof {
                assert(all.take(i + 1).drop_last() =~= all.take(i as int));
                assert(all.take(i + 1).last() == fragments@[i as int].deep_view());
            }
            self.add_fragment(&fragments[i]);
            i = i + 1;
        }
        assert(all.take(all.len() as int) =~= all);
    }
}

fn merged(call: &PartialCall, fragment: &StreamToolCall) -> (r: PartialCall)
    ensures
        r.deep_view() == call.deep_view().plus(fragment.deep_view()),
{
    let id = match &fragment.id {
        Some(id) => id.dup(),
        None => call.id.dup(),
    };
    let name = match &fragment.name {
        Some(name) => name.dup(),
        None => call.name.dup(),
    };
    let mut arguments = call.arguments.dup();
    match &fragment.arguments {
        Some(more) => {
            arguments.append(more.as_str());
        },
        None => {},
    }
    PartialCall { index: call.index, id, name, arguments }
}

/// The arguments of a tool call, as its text gives them: an empty text stands for no arguments,
/// and a text that is not JSON for itself.
pub open spec fn arguments_of(raw: Seq<char>) -> Json {
    if raw.len() == 0 {
        Json::Obj(Seq::empty())
    } else {
        match json_parsed(raw) {
            Some(tree) => tree,
            None => Json::Str(raw),
        }
    }
}

/// Reads the arguments of a tool call.
pub fn parse_tool_arguments(raw: &str) -> (r: JsonValue)
    ensures
        r.deep_view() == arguments_of(raw@),
{
    if raw.is_empty() {
        let entries: Vec<(String, JsonValue)> = Vec::new();
        assert(crate::json::entry_trees(entries@) =~= Seq::<(Seq<char>, Json)>::empty());
        return JsonValue::object(entries);
    }
    match JsonValue::parse(raw) {
        Some(value) => value,
        None => JsonValue::string(raw),
    }
}

/// The tool calls that the gathered fragments make.
pub open spec fn finished_calls(calls: Seq<PartialCallView>) -> Seq<ToolCallView> {
    Seq::new(
        calls.len(),
        |i: int|
            ToolCallView {
                id: calls[i].id,
                name: calls[i].name,
                arguments: arguments_of(calls[i].arguments),
            },
    )
}

/// Gathers the chunks of a completion into the items of a stream.
pub struct StreamAcc {
    content: String,
    tools: PartialCalls,
    completed: bool,
}

/// What a `StreamAcc` is.
#[verifier::ext_equal]
pub struct StreamAccView {
    pub content: Seq<char>,
    pub tools: Seq<PartialCallView>,
    pub completed: bool,
}

impl DeepView for StreamAcc {
    type V = StreamAccView;

    closed spec fn deep_view(&self) -> StreamAccView {
        StreamAccView {
            content: self.content@,
            tools: self.tools.deep_view(),
            completed: self.completed,
        }
    }
}

impl StreamAccView {
    /// The completed message.
    pub open spec fn message(self) -> LlmChunkView {
        LlmChunkView::Completed {
            content: self.content,
            tool_calls: finished_calls(self.tools),
            reasoning_content: None,
        }
    }

    /// The state after a choice, and the items that it gives: its text, unless empty, and the
    /// completed message once a finish reason has come.
    pub open spec fn choice(self, choice: StreamChoiceView) -> (Self, Seq<LlmChunkView>) {
        let text = match choice.content {
            Some(text) => text,
            None => Seq::empty(),
        };
        let deltas = if text.len() > 0 {
            seq![LlmChunkView::TextDelta(text)]
        } else {
            Seq::empty()
        };
        let gathered = StreamAccView {
            content: self.content + text,
            tools: match choice.tool_calls {
                Some(fragments) => with_fragments(self.tools, fragments),
                None => self.tools,
            },
            completed: self.completed,
        };
        if choice.finish_reason is Some && !self.completed {
            (
                StreamAccView { completed: true, ..gathered },
                deltas.push(gathered.message()),
            )
        } else {
            (gathered, deltas)
        }
    }

    /// The state after the choices of a chunk, and the items that they give.
    pub open spec fn choices(self, choices: Seq<StreamChoiceView>) -> (Self, Seq<LlmChunkView>)
        decreases choices.len(),
    {
        if choices.len() == 0 {
            (self, Seq::empty())
        } else {
            let (mid, items) = self.choices(choices.drop_last());
            let (end, more) = mid.choice(choices.last());
            (end, items + more)
        }
    }
}

impl StreamAcc {
    pub closed spec fn wf(self) -> bool {
        self.tools.wf()
    }

    fn message(&self) -> (r: LlmChunk)
        ensures
            r.deep_view() == self.deep_view().message(),
    {
        let mut calls: Vec<ToolCall> = Vec::new();
        let ghost all = self.tools.deep_view();
        let mut i: usize = 0;
        while i < self.tools.len()
            invariant
                i <= all.len(),
                all == self.tools.deep_view(),
                calls.deep_view() == finished_calls(all).take(i as int),
            decreases all.len() - i,
        {
            let call = self.tools.get(i);
            let done = ToolCall {
                id: call.id.dup(),
                name: call.name.dup(),
                arguments: parse_tool_arguments(call.arguments.as_str()),
            };
            push_last(&mut calls, done);
            i = i + 1;
            assert(finished_calls(all).take(i as int) =~= finished_calls(all).take(i - 1).push(
                finished_calls(all)[i - 1],
            ));
        }
        assert(finished_calls(all).take(i as int) =~= finished_calls(all));
        LlmChunk::Completed {
            content: self.content.dup(),
            tool_calls: calls,
            reasoning_content: None,
        }
    }

    fn apply_choice(&mut self, choice: &StreamChoice, out: &mut Vec<LlmChunk>)
        requires
            old(self).wf(),
        ensures
            final(self).wf(),
            final(self).deep_view() == old(self).deep_view().choice(choice.deep_view()).0,
            final(out).deep_view() == old(out).deep_view() + old(self).deep_view().choice(
                choice.deep_view(),
            ).1,
    {
        let ghost start = self.deep_view();
        let ghost items0 = out.deep_view();
        match &choice.content {
            Some(text) => {
                if !text.as_str().is_empty() {
                    self.content.append(text.as_str());
                    push_last(out, LlmChunk::TextDelta(text.dup()));
                } else {
                    assert(self.content@ =~= start.content + text@);
                }
            },
            None => {
                assert(self.content@ =~= start.content + Seq::<char>::empty());
            },
        }
        match &choice.tool_calls {
            Some(fragments) => {
                self.tools.add_fragments(fragments);
            },
            None => {},
        }
        if choice.finish_reason.is_some() && !self.completed {
            let item = self.message();
            self.completed = true;
            push_last(out, item);
        }
        assert(out.deep_view() =~= items0 + start.choice(choice.deep_view()).1);
    }

    /// Takes in a chunk and returns the items of the stream that it gives.
    pub fn apply(&mut self, chunk: &StreamChunk) -> (r: Vec<LlmChunk>)
        requires
            old(self).wf(),
        ensures
            final(self).wf(),
            (final(self).deep_view(), r.deep_view()) == old(self).deep_view().choices(
                chunk.deep_view().choices,
            ),
    {
        let mut out: Vec<LlmChunk> = Vec::new();
        let ghost all = chunk.deep_view().choices;
        let mut i: usize = 0;
        assert(all.take(0) =~= Seq::<StreamChoiceView>::empty());
        assert(out.deep_view() =~= Seq::<LlmChunkView>::empty());
        while i < chunk.choices.len()
            invariant
                i <= chunk.choices@.len(),
                all == chunk.choices.deep_view(),
                self.wf(),
                self.deep_view() == old(self).deep_view().choices(all.take(i as int)).0,
                out.deep_view() == old(self).deep_view().choices(all.take(i as int)).1,
            decreases chunk.choices@.len() - i,
        {
            proof {
                assert(all.take(i + 1).drop_last() =~= all.take(i as int));
                assert(all.take(i + 1).last() == chunk.choices@[i as int].deep_view());
            }
            self.apply_choice(&chunk.choices[i], &mut out);
            i = i + 1;
        }
        assert(all.take(all.len() as int) =~= all);
        out
    }

    /// The completed message, if no finish reason has given it.
    pub fn finish(&mut self) -> (r: Option<LlmChunk>)
        requires
            old(self).wf(),
        ensures
            final(self).wf(),
            final(self).deep_view() == (StreamAccView { completed: true, ..old(self).deep_view() }),
            r.deep_view() == (if old(self).deep_view().completed {
                None
            } else {
                Some(old(self).deep_view().message())
            }),
    {
        if self.completed {
            None
        } else {
            let item = self.message();
            self.completed = true;
            Some(item)
        }
    }
}

/// A state of which nothing has come.
pub open spec fn fresh_acc() -> StreamAccView {
    StreamAccView { content: Seq::empty(), tools: Seq::empty(), completed: false }
}

impl Default for StreamAcc {
    fn default() -> (r: Self)
        ensures
            r.wf(),
            r.deep_view() == fresh_acc(),
    {
        StreamAcc { content: String::new(), tools: PartialCalls::new(), completed: false }
    }
}

/// How many completed messages there are among the items.
pub open spec fn completed_count(items: Seq<LlmChunkView>) -> nat
    decreases items.len(),
{
    if items.len() == 0 {
        0
    } else {
        completed_count(items.drop_last()) + (if items.last() is Completed {
            1nat
        } else {
            0
        })
    }
}

proof fn lemma_completed_count_concat(a: Seq<LlmChunkView>, b: Seq<LlmChunkView>)
    ensures
        completed_count(a + b) == completed_count(a) + completed_count(b),
    decreases b.len(),
{
    if b.len() == 0 {
        assert(a + b =~= a);
    } else {
        assert((a + b).drop_last() =~= a + b.drop_last());
        assert((a + b).last() == b.last());
        lemma_completed_count_concat(a, b.drop_last());
    }
}

/// A stream is completed at most once: after a chunk, the message has been given exactly if the
/// state says so, and never again by a later one.
pub proof fn law_completed_once(acc: StreamAccView, choices: Seq<StreamChoiceView>)
    ensures
        ({
            let (end, items) = acc.choices(choices);
            &&& acc.completed ==> end.completed && completed_count(items) == 0
            &&& !acc.completed ==> completed_count(items) == if end.completed {
                1nat
            } else {
                0
            }
        }),
    decreases choices.len(),
{
    reveal_with_fuel(completed_count, 3);
    if choices.len() > 0 {
        let (mid, items) = acc.choices(choices.drop_last());
        let (end, more) = mid.choice(choices.last());
        law_completed_once(acc, choices.drop_last());
        lemma_completed_count_concat(items, more);
        assert(more.len() == 2 ==> more.drop_last() =~= seq![more[0]]);
        assert(more.len() == 1 ==> more.drop_last() =~= Seq::<LlmChunkView>::empty());
        assert(more.len() == 2 ==> seq![more[0]].drop_last() =~= Seq::<LlmChunkView>::empty());
    }
}

/// What the provider hands over.
#[derive(Debug, PartialEq)]
pub enum StreamInput {
    /// The provider has ended the stream.
    End,
    /// The provider has failed.
    Failed(String),
    Chunk(StreamChunk),
}

/// What `StreamInput` is.
#[verifier::ext_equal]
pub enum StreamInputView {
    End,
    Failed(Seq<char>),
    Chunk(StreamChunkView),
}

impl DeepView for StreamInput {
    type V = StreamInputView;

    open spec fn deep_view(&self) -> StreamInputView {
        match self {
            StreamInput::End => StreamInputView::End,
            StreamInput::Failed(x) => StreamInputView::Failed(x@),
            StreamInput::Chunk(x) => StreamInputView::Chunk(x.deep_view()),
        }
    }
}

/// What a reader of the stream gets.
#[derive(Debug, PartialEq)]
pub enum StreamOutput {
    Item(ChunkResult),
    /// The stream is over.
    End,
    /// Nothing is ready until the provider hands over more.
    Wait,
}

/// What a `StreamOutput` is.
#[verifier::ext_equal]
pub enum StreamOutputView {
    Item(ChunkResultView),
    End,
    Wait,
}

impl DeepView for StreamOutput {
    type V = StreamOutputView;

    open spec fn deep_view(&self) -> StreamOutputView {
        match self {
            StreamOutput::Item(item) => StreamOutputView::Item(chunk_view(*item)),
            StreamOutput::End => StreamOutputView::End,
            StreamOutput::Wait => StreamOutputView::Wait,
        }
    }
}

/// The stream of a provider, read item by item.
pub struct MappedLiterStream {
    acc: StreamAcc,
    pending: Vec<ChunkResult>,
    ended: bool,
}

/// What a `MappedLiterStream` is.
#[verifier::ext_equal]
pub struct MappedStreamView {
    pub acc: StreamAccView,
    pub pending: Seq<ChunkResultView>,
    pub ended: bool,
}

impl DeepView for MappedLiterStream {
    type V = MappedStreamView;

    closed spec fn deep_view(&self) -> MappedStreamView {
        MappedStreamView {
            acc: self.acc.deep_view(),
            pending: chunk_views(self.pending@),
            ended: self.ended,
        }
    }
}

pub open spec fn ok_items(items: Seq<LlmChunkView>) -> Seq<ChunkResultView> {
    Seq::new(items.len(), |i: int| Ok::<LlmChunkView, Seq<char>>(items[i]))
}

impl MappedStreamView {
    /// The state after the provider has handed over `input`. The end of the provider completes
    /// the message if no finish reason did; its failure is the last item.
    pub open spec fn fed(self, input: StreamInputView) -> Self {
        match input {
            StreamInputView::End => MappedStreamView {
                acc: StreamAccView { completed: true, ..self.acc },
                pending: if self.acc.completed {
                    self.pending
                } else {
                    self.pending.push(Ok(self.acc.message()))
                },
                ended: true,
            },
            StreamInputView::Failed(err) => MappedStreamView {
                pending: self.pending.push(Err(err)),
                ended: true,
                ..self
            },
            StreamInputView::Chunk(chunk) => MappedStreamView {
                acc: self.acc.choices(chunk.choices).0,
                pending: self.pending + ok_items(self.acc.choices(chunk.choices).1),
                ..self
            },
        }
    }

    /// What a read gives.
    pub open spec fn output(self) -> StreamOutputView {
        if self.pending.len() > 0 {
            StreamOutputView::Item(self.pending[0])
        } else if self.ended {
            StreamOutputView::End
        } else {
            StreamOutputView::Wait
        }
    }

    /// The state after a read.
    pub open spec fn read(self) -> Self {
        if self.pending.len() > 0 {
            MappedStreamView { pending: self.pending.skip(1), ..self }
        } else {
            self
        }
    }
}

impl MappedLiterStream {
    pub closed spec fn wf(self) -> bool {
        self.acc.wf()
    }

    /// A stream of which nothing has come.
    pub fn new() -> (r: Self)
        ensures
            r.wf(),
            r.deep_view() == (MappedStreamView {
                acc: fresh_acc(),
                pending: Seq::empty(),
                ended: false,
            }),
    {
        let r = MappedLiterStream {
            acc: StreamAcc::default(),
            pending: Vec::new(),
            ended: false,
        };
        assert(chunk_views(r.pending@) =~= Seq::<ChunkResultView>::empty());
        r
    }

    /// Takes in what the provider hands over.
    pub fn feed(&mut self, input: StreamInput)
        requires
            old(self).wf(),
        ensures
            final(self).wf(),
            final(self).deep_view() == old(self).deep_view().fed(input.deep_view()),
    {
        let ghost before = self.deep_view();
        match input {
            StreamInput::End => {
                self.ended = true;
                match self.acc.finish() {
                    Some(item) => {
                        self.pending.push(Ok(item));
                        assert(chunk_views(self.pending@) =~= before.pending.push(
                            Ok(item.deep_view()),
                        ));
                    },
                    None => {},
                }
            },
            StreamInput::Failed(err) => {
                self.ended = true;
                self.pending.push(Err(err));
                assert(chunk_views(self.pending@) =~= before.pending.push(Err(err@)));
            },
            StreamInput::Chunk(chunk) => {
                let items = self.acc.apply(&chunk);
                let ghost all = items.deep_view();
                let ghost mut i: int = 0;
                assert(ok_items(all).take(0) =~= Seq::<ChunkResultView>::empty());
                assert(before.pending + Seq::<ChunkResultView>::empty() =~= before.pending);
                let mut rest = items;
                while rest.len() > 0
                    invariant
                        0 <= i,
                        i + rest@.len() == all.len(),
                        rest.deep_view() == all.skip(i),
                        self.wf(),
                        self.ended == before.ended,
                        self.acc.deep_view() == before.acc.choices(chunk.deep_view().choices).0,
                        chunk_views(self.pending@) == before.pending + ok_items(all).take(
                            i,
                        ),
                    decreases rest@.len(),
                {
                    let ghost pending0 = chunk_views(self.pending@);
                    let ghost rest0 = rest.deep_view();
                    let item = rest.remove(0);
                    assert(rest.deep_view() =~= rest0.skip(1));
                    assert(rest0.skip(1) =~= all.skip(i + 1));
                    assert(item.deep_view() == rest0[0]);
                    self.pending.push(Ok(item));
                    assert(chunk_views(self.pending@) =~= pending0.push(Ok(all[i])));
                    assert(ok_items(all).take(i + 1) =~= ok_items(all).take(i).push(Ok(all[i])));
                    assert(chunk_views(self.pending@) =~= before.pending + ok_items(all).take(
                        i + 1,
                    ));
                    proof {
                        i = i + 1;
                    }
                }
                assert(ok_items(all).take(i) =~= ok_items(all));
            },
        }
    }

    /// Reads the next item, if one is ready.
    pub fn poll_next(&mut self) -> (r: StreamOutput)
        requires
            old(self).wf(),
        ensures
            final(self).wf(),
            r.deep_view() == old(self).deep_view().output(),
            final(self).deep_view() == old(self).deep_view().read(),
    {
        if self.pending.len() > 0 {
            let item = self.pending.remove(0);
            assert(chunk_views(self.pending@) =~= old(self).deep_view().pending.skip(1));
            StreamOutput::Item(item)
        } else if self.ended {
            StreamOutput::End
        } else {
            StreamOutput::Wait
        }
    }
}

/// A stream whose provider has ended, and of which all items have been read, stays over.
pub proof fn law_ended_stream_stays_over(stream: MappedStreamView)
    requires
        stream.ended,
        stream.pending.len() == 0,
    ensures
        stream.output() == StreamOutputView::End,
        stream.read() == stream,
{
}

/// A provider that ends without a finish reason still completes the message.
pub proof fn law_end_completes_message(stream: MappedStreamView)
    requires
        !stream.acc.completed,
    ensures
        stream.fed(StreamInputView::End).pending.len() == stream.pending.len() + 1,
        stream.fed(StreamInputView::End).pending.last() == Ok::<LlmChunkView, Seq<char>>(
            stream.acc.message(),
        ),
        stream.fed(StreamInputView::End).acc.completed,
{
}

} // verus!
