//! The model port: what a model streams, and a scripted model.

pub mod chat;
pub mod laws;
pub mod stream;

use vstd::prelude::*;

use crate::dup::{dup_all, push_last, Dup};
use crate::json::JsonValue;
use crate::protocol::{ToolCallView, ToolDef, WireMessage, WireMessageView};

verus! {

/// A tool call that the model makes.
#[derive(Debug, PartialEq)]
pub struct ToolCall {
    pub id: String,
    pub name: String,
    pub arguments: JsonValue,
}

impl DeepView for ToolCall {
    type V = ToolCallView;

    open spec fn deep_view(&self) -> ToolCallView {
        ToolCallView {
            id: self.id@,
            name: self.name@,
            arguments: self.arguments.deep_view(),
        }
    }
}

impl Dup for ToolCall {
    fn dup(&self) -> (r: Self) {
        ToolCall {
            id: self.id.dup(),
            name: self.name.dup(),
            arguments: self.arguments.dup(),
        }
    }
}

/// One item of the stream of a model.
#[derive(Debug, PartialEq)]
pub enum LlmChunk {
    TextDelta(String),
    ReasoningDelta(String),
    Completed {
        content: String,
        tool_calls: Vec<ToolCall>,
        reasoning_content: Option<String>,
    },
}

/// What `LlmChunk` is.
#[verifier::ext_equal]
pub enum LlmChunkView {
    TextDelta(Seq<char>),
    ReasoningDelta(Seq<char>),
    Completed {
        content: Seq<char>,
        tool_calls: Seq<ToolCallView>,
        reasoning_content: Option<Seq<char>>,
    },
}

impl DeepView for LlmChunk {
    type V = LlmChunkView;

    open spec fn deep_view(&self) -> LlmChunkView {
        match self {
            LlmChunk::TextDelta(x) => LlmChunkView::TextDelta(x@),
            LlmChunk::ReasoningDelta(x) => LlmChunkView::ReasoningDelta(x@),
            LlmChunk::Completed {
                content,
                tool_calls,
                reasoning_content,
            } => LlmChunkView::Completed {
                content: content@,
                tool_calls: tool_calls.deep_view(),
                reasoning_content: reasoning_content.deep_view(),
            },
        }
    }
}

impl Dup for LlmChunk {
    fn dup(&self) -> (r: Self) {
        match self {
            LlmChunk::TextDelta(x) => LlmChunk::TextDelta(x.dup()),
            LlmChunk::ReasoningDelta(x) => LlmChunk::ReasoningDelta(x.dup()),
            LlmChunk::Completed { content, tool_calls, reasoning_content } => LlmChunk::Completed {
                content: content.dup(),
                tool_calls: tool_calls.dup(),
                reasoning_content: reasoning_content.dup(),
            },
        }
    }
}

/// One turn of a scripted model.
#[derive(Debug, PartialEq)]
pub enum MockTurn {
    TextOnly {
        content: String,
        deltas: Vec<String>,
    },
    WithToolCalls {
        content: String,
        deltas: Vec<String>,
        tool_calls: Vec<ToolCall>,
    },
    /// The call itself fails.
    Fail {
        message: String,
    },
}

/// What `MockTurn` is.
#[verifier::ext_equal]
pub enum MockTurnView {
    TextOnly {
        content: Seq<char>,
        deltas: Seq<Seq<char>>,
    },
    WithToolCalls {
        content: Seq<char>,
        deltas: Seq<Seq<char>>,
        tool_calls: Seq<ToolCallView>,
    },
    Fail {
        message: Seq<char>,
    },
}

impl DeepView for MockTurn {
    type V = MockTurnView;

    open spec fn deep_view(&self) -> MockTurnView {
        match self {
            MockTurn::TextOnly { content, deltas } => MockTurnView::TextOnly {
                content: content@,
                deltas: deltas.deep_view(),
            },
            MockTurn::WithToolCalls { content, deltas, tool_calls } => MockTurnView::WithToolCalls {
                content: content@,
                deltas: deltas.deep_view(),
                tool_calls: tool_calls.deep_view(),
            },
            MockTurn::Fail { message } => MockTurnView::Fail {
                message: message@,
            },
        }
    }
}

impl Dup for MockTurn {
    fn dup(&self) -> (r: Self) {
        match self {
            MockTurn::TextOnly { content, deltas } => MockTurn::TextOnly {
                content: content.dup(),
                deltas: deltas.dup(),
            },
            MockTurn::WithToolCalls { content, deltas, tool_calls } => MockTurn::WithToolCalls {
                content: content.dup(),
                deltas: deltas.dup(),
                tool_calls: tool_calls.dup(),
            },
            MockTurn::Fail { message } => MockTurn::Fail {
                message: message.dup(),
            },
        }
    }
}

/// An item of a stream, or the error that ends it.
pub type ChunkResult = Result<LlmChunk, String>;

pub type ChunkResultView = Result<LlmChunkView, Seq<char>>;

pub open spec fn chunk_view(c: ChunkResult) -> ChunkResultView {
    match c {
        Ok(chunk) => Ok(chunk.deep_view()),
        Err(err) => Err(err@),
    }
}

/// What the items of a stream are.
pub open spec fn chunk_views(s: Seq<ChunkResult>) -> Seq<ChunkResultView> {
    Seq::new(s.len(), |i: int| chunk_view(s[i]))
}

/// The stream of a scripted turn: its deltas, then the completed message.
pub open spec fn turn_chunks(turn: MockTurnView) -> Seq<ChunkResultView> {
    match turn {
        MockTurnView::TextOnly { content, deltas } => scripted_chunks(
            content,
            deltas,
            Seq::empty(),
        ),
        MockTurnView::WithToolCalls { content, deltas, tool_calls } => scripted_chunks(
            content,
            deltas,
            tool_calls,
        ),
        MockTurnView::Fail { .. } => Seq::empty(),
    }
}

pub open spec fn scripted_chunks(
    content: Seq<char>,
    deltas: Seq<Seq<char>>,
    tool_calls: Seq<ToolCallView>,
) -> Seq<ChunkResultView> {
    Seq::new(
        deltas.len(),
        |i: int| Ok::<LlmChunkView, Seq<char>>(LlmChunkView::TextDelta(deltas[i])),
    ).push(Ok(LlmChunkView::Completed { content, tool_calls, reasoning_content: None }))
}

/// A model that plays a script, then repeats one turn or fails, and records what it was sent.
pub struct MockLlm {
    turns: Vec<MockTurn>,
    repeat: Option<MockTurn>,
    recorded: Vec<Vec<WireMessage>>,
}

/// What a `MockLlm` is.
#[verifier::ext_equal]
pub struct MockLlmView {
    pub turns: Seq<MockTurnView>,
    pub repeat: Option<MockTurnView>,
    pub recorded: Seq<Seq<WireMessageView>>,
}

impl DeepView for MockLlm {
    type V = MockLlmView;

    closed spec fn deep_view(&self) -> MockLlmView {
        MockLlmView {
            turns: self.turns.deep_view(),
            repeat: self.repeat.deep_view(),
            recorded: self.recorded.deep_view(),
        }
    }
}

impl MockLlmView {
    /// The turn that the next call plays.
    pub open spec fn next_turn(self) -> Option<MockTurnView> {
        if self.turns.len() > 0 {
            Some(self.turns[0])
        } else {
            self.repeat
        }
    }

    /// What the next call returns.
    pub open spec fn reply(self) -> Result<Seq<ChunkResultView>, Seq<char>> {
        match self.next_turn() {
            None => Err("mock LLM script exhausted"@),
            Some(MockTurnView::Fail { message }) => Err(message),
            Some(turn) => Ok(turn_chunks(turn)),
        }
    }

    /// The model after a call with `messages`.
    pub open spec fn after(self, messages: Seq<WireMessageView>) -> Self {
        MockLlmView {
            turns: if self.turns.len() > 0 {
                self.turns.skip(1)
            } else {
                self.turns
            },
            recorded: self.recorded.push(messages),
            ..self
        }
    }
}

fn play(content: String, deltas: Vec<String>, tool_calls: Vec<ToolCall>) -> (r: Vec<ChunkResult>)
    ensures
        chunk_views(r@) == scripted_chunks(
            content@,
            deltas.deep_view(),
            tool_calls.deep_view(),
        ),
{
    let ghost texts = deltas.deep_view();
    let mut out: Vec<ChunkResult> = Vec::new();
    let mut i: usize = 0;
    while i < deltas.len()
        invariant
            i <= deltas@.len(),
            texts == deltas.deep_view(),
            out@.len() == i,
            forall|j: int|
                0 <= j < i ==> chunk_view(#[trigger] out@[j]) == Ok::<LlmChunkView, Seq<char>>(
                    LlmChunkView::TextDelta(texts[j]),
                ),
        decreases deltas@.len() - i,
    {
        out.push(Ok(LlmChunk::TextDelta(deltas[i].dup())));
        i = i + 1;
    }
    out.push(Ok(LlmChunk::Completed { content, tool_calls, reasoning_content: None }));
    assert(chunk_views(out@) =~= scripted_chunks(content@, texts, tool_calls.deep_view()));
    out
}

impl MockLlm {
    /// A model that plays `turns` and then fails.
    pub fn script(turns: Vec<MockTurn>) -> (r: Self)
        ensures
            r.deep_view() == (MockLlmView {
                turns: turns.deep_view(),
                repeat: None,
                recorded: Seq::empty(),
            }),
    {
        let r = MockLlm { turns, repeat: None, recorded: Vec::new() };
        assert(r.recorded.deep_view() =~= Seq::<Seq<WireMessageView>>::empty());
        r
    }

    /// A model that plays `turns` and then `repeat` forever.
    pub fn script_then_repeat(turns: Vec<MockTurn>, repeat: MockTurn) -> (r: Self)
        ensures
            r.deep_view() == (MockLlmView {
                turns: turns.deep_view(),
                repeat: Some(repeat.deep_view()),
                recorded: Seq::empty(),
            }),
    {
        let r = MockLlm { turns, repeat: Some(repeat), recorded: Vec::new() };
        assert(r.recorded.deep_view() =~= Seq::<Seq<WireMessageView>>::empty());
        r
    }

    /// The messages of each call so far.
    pub fn recorded_contexts(&self) -> (r: Vec<Vec<WireMessage>>)
        ensures
            r.deep_view() == self.deep_view().recorded,
    {
        self.recorded.dup()
    }

    /// The stream of a scripted turn.
    pub fn turn_to_chunks(turn: MockTurn) -> (r: Vec<ChunkResult>)
        ensures
            chunk_views(r@) == turn_chunks(turn.deep_view()),
    {
        match turn {
            MockTurn::TextOnly { content, deltas } => {
                let calls: Vec<ToolCall> = Vec::new();
                assert(calls.deep_view() =~= Seq::<ToolCallView>::empty());
                play(content, deltas, calls)
            },
            MockTurn::WithToolCalls { content, deltas, tool_calls } => play(
                content,
                deltas,
                tool_calls,
            ),
            MockTurn::Fail { .. } => {
                let out: Vec<ChunkResult> = Vec::new();
                assert(chunk_views(out@) =~= Seq::<ChunkResultView>::empty());
                out
            },
        }
    }

    /// Plays the next turn: records `messages` and returns the items of the stream in order.
    pub fn stream(&mut self, messages: &[WireMessage], _tools: &[ToolDef]) -> (r: Result<
        Vec<ChunkResult>,
        String,
    >)
        ensures
            final(self).deep_view() == old(self).deep_view().after(messages.deep_view()),
            match r {
                Ok(chunks) => old(self).deep_view().reply() == Ok::<_, Seq<char>>(
                    chunk_views(chunks@),
                ),
                Err(err) => old(self).deep_view().reply() == Err::<Seq<ChunkResultView>, _>(err@),
            },
    {
        push_last(&mut self.recorded, dup_all(messages));
        let turn = if self.turns.len() > 0 {
            let head = self.turns.remove(0);
            assert(self.turns.deep_view() =~= old(self).turns.deep_view().skip(1));
            head
        } else {
            match &self.repeat {
                Some(turn) => turn.dup(),
                None => {
                    return Err("mock LLM script exhausted".to_owned());
                },
            }
        };
        match turn {
            MockTurn::Fail { message } => Err(message),
            turn => Ok(MockLlm::turn_to_chunks(turn)),
        }
    }
}

} // verus!
