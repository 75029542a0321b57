//! The loop of a run of the smaller server, as a machine that is told what happened and says what
//! to do next.

use vstd::prelude::*;

use crate::agent::orchestrator::rules::{messages_of, result_text};
use crate::agent::orchestrator::state::{Completed, CompletedView, Steered, SteeredView};
use crate::agent::orchestrator::steps::calls_to_wire;
use crate::dup::{push_last, Dup};
use crate::llm::{LlmChunk, LlmChunkView, ToolCall};
use crate::protocol::{
    plain, plain_message, tool_message, tool_reply, MessageSource, Role, SseEvent, SseEventView,
    ToolCallView, ToolCallWire, ToolDef, ToolDefView, ToolResultRequest, ToolResultRequestView,
    WireMessage, WireMessageView,
};
use crate::runtime::WaitError;
use crate::text::concat;

verus! {

/// Why a run ends early.
#[derive(Debug, PartialEq)]
pub enum OrchestratorError {
    Llm(String),
    ToolTimeout,
    Cancelled,
    /// No one reads the events.
    SseClosed,
}

/// What `OrchestratorError` is.
#[verifier::ext_equal]
pub enum OrchestratorErrorView {
    Llm(Seq<char>),
    ToolTimeout,
    Cancelled,
    SseClosed,
}

impl DeepView for OrchestratorError {
    type V = OrchestratorErrorView;

    open spec fn deep_view(&self) -> OrchestratorErrorView {
        match self {
            OrchestratorError::Llm(x) => OrchestratorErrorView::Llm(x@),
            OrchestratorError::ToolTimeout => OrchestratorErrorView::ToolTimeout,
            OrchestratorError::Cancelled => OrchestratorErrorView::Cancelled,
            OrchestratorError::SseClosed => OrchestratorErrorView::SseClosed,
        }
    }
}

impl Dup for OrchestratorError {
    fn dup(&self) -> (r: Self) {
        match self {
            OrchestratorError::Llm(x) => OrchestratorError::Llm(x.dup()),
            OrchestratorError::ToolTimeout => OrchestratorError::ToolTimeout,
            OrchestratorError::Cancelled => OrchestratorError::Cancelled,
            OrchestratorError::SseClosed => OrchestratorError::SseClosed,
        }
    }
}

impl OrchestratorErrorView {
    pub open spec fn message(self) -> Seq<char> {
        match self {
            OrchestratorErrorView::Llm(err) => "llm error: "@ + err,
            OrchestratorErrorView::ToolTimeout => "tool wait timed out"@,
            OrchestratorErrorView::Cancelled => "run cancelled"@,
            OrchestratorErrorView::SseClosed => "sse channel closed"@,
        }
    }

    pub open spec fn code(self) -> Option<Seq<char>> {
        match self {
            OrchestratorErrorView::Llm(_) => Some("llm"@),
            OrchestratorErrorView::ToolTimeout => Some("timeout"@),
            OrchestratorErrorView::Cancelled => Some("cancelled"@),
            OrchestratorErrorView::SseClosed => None,
        }
    }
}

impl OrchestratorError {
    /// The text of the error.
    pub fn message(&self) -> (r: String)
        ensures
            r@ == self.deep_view().message(),
    {
        match self {
            OrchestratorError::Llm(err) => concat("llm error: ", err.as_str()),
            OrchestratorError::ToolTimeout => "tool wait timed out".to_owned(),
            OrchestratorError::Cancelled => "run cancelled".to_owned(),
            OrchestratorError::SseClosed => "sse channel closed".to_owned(),
        }
    }
}

/// The code of an error on the wire.
pub fn error_code(err: &OrchestratorError) -> (r: Option<String>)
    ensures
        r.deep_view() == err.deep_view().code(),
{
    match err {
        OrchestratorError::Llm(_) => Some("llm".to_owned()),
        OrchestratorError::ToolTimeout => Some("timeout".to_owned()),
        OrchestratorError::Cancelled => Some("cancelled".to_owned()),
        OrchestratorError::SseClosed => None,
    }
}

/// How a run ended.
#[derive(Debug, PartialEq)]
pub enum Outcome {
    Finished,
    Failed(OrchestratorError),
}

/// What `Outcome` is.
#[verifier::ext_equal]
pub enum OutcomeView {
    Finished,
    Failed(OrchestratorErrorView),
}

impl DeepView for Outcome {
    type V = OutcomeView;

    open spec fn deep_view(&self) -> OutcomeView {
        match self {
            Outcome::Finished => OutcomeView::Finished,
            Outcome::Failed(x) => OutcomeView::Failed(x.deep_view()),
        }
    }
}

impl Dup for Outcome {
    fn dup(&self) -> (r: Self) {
        match self {
            Outcome::Finished => Outcome::Finished,
            Outcome::Failed(x) => Outcome::Failed(x.dup()),
        }
    }
}

/// What the loop asks for.
#[derive(Debug, PartialEq)]
pub enum Ask {
    /// For the messages that were queued.
    Steer,
    /// For the model, with the context of the run.
    OpenStream(Vec<ToolDef>),
    NextChunk,
    /// For the result of a client tool.
    WaitTool(String),
    FollowUps,
    Return(Outcome),
}

/// What `Ask` is.
#[verifier::ext_equal]
pub enum AskView {
    Steer,
    OpenStream(Seq<ToolDefView>),
    NextChunk,
    WaitTool(Seq<char>),
    FollowUps,
    Return(OutcomeView),
}

impl DeepView for Ask {
    type V = AskView;

    open spec fn deep_view(&self) -> AskView {
        match self {
            Ask::Steer => AskView::Steer,
            Ask::OpenStream(x) => AskView::OpenStream(x.deep_view()),
            Ask::NextChunk => AskView::NextChunk,
            Ask::WaitTool(x) => AskView::WaitTool(x@),
            Ask::FollowUps => AskView::FollowUps,
            Ask::Return(x) => AskView::Return(x.deep_view()),
        }
    }
}

/// What happened.
#[derive(Debug, PartialEq)]
pub enum Happening {
    Begin,
    Steered(Vec<Steered>),
    /// With the id of the message.
    StreamOpened(String),
    StreamRefused(String),
    Chunk(LlmChunk),
    ChunkFailed(String),
    StreamEnd,
    ToolResult(ToolResultRequest),
    ToolWaitFailed(WaitError),
    FollowUps(Vec<Steered>),
}

/// What `Happening` is.
#[verifier::ext_equal]
pub enum HappeningView {
    Begin,
    Steered(Seq<SteeredView>),
    StreamOpened(Seq<char>),
    StreamRefused(Seq<char>),
    Chunk(LlmChunkView),
    ChunkFailed(Seq<char>),
    StreamEnd,
    ToolResult(ToolResultRequestView),
    ToolWaitFailed(WaitError),
    FollowUps(Seq<SteeredView>),
}

impl DeepView for Happening {
    type V = HappeningView;

    open spec fn deep_view(&self) -> HappeningView {
        match self {
            Happening::Begin => HappeningView::Begin,
            Happening::Steered(x) => HappeningView::Steered(x.deep_view()),
            Happening::StreamOpened(x) => HappeningView::StreamOpened(x@),
            Happening::StreamRefused(x) => HappeningView::StreamRefused(x@),
            Happening::Chunk(x) => HappeningView::Chunk(x.deep_view()),
            Happening::ChunkFailed(x) => HappeningView::ChunkFailed(x@),
            Happening::StreamEnd => HappeningView::StreamEnd,
            Happening::ToolResult(x) => HappeningView::ToolResult(x.deep_view()),
            Happening::ToolWaitFailed(x) => HappeningView::ToolWaitFailed(*x),
            Happening::FollowUps(x) => HappeningView::FollowUps(x.deep_view()),
        }
    }
}

/// What the loop waits for.
#[derive(Debug, PartialEq)]
pub enum Phase {
    Start,
    Steer,
    Open,
    Streaming(String, Option<Completed>),
    Tool(ToolCall),
    FollowUps,
    Done(Outcome),
}

/// What `Phase` is.
#[verifier::ext_equal]
pub enum PhaseView {
    Start,
    Steer,
    Open,
    Streaming(Seq<char>, Option<CompletedView>),
    Tool(ToolCallView),
    FollowUps,
    Done(OutcomeView),
}

impl DeepView for Phase {
    type V = PhaseView;

    open spec fn deep_view(&self) -> PhaseView {
        match self {
            Phase::Start => PhaseView::Start,
            Phase::Steer => PhaseView::Steer,
            Phase::Open => PhaseView::Open,
            Phase::Streaming(x0, x1) => PhaseView::Streaming(x0@, x1.deep_view()),
            Phase::Tool(x) => PhaseView::Tool(x.deep_view()),
            Phase::FollowUps => PhaseView::FollowUps,
            Phase::Done(x) => PhaseView::Done(x.deep_view()),
        }
    }
}

impl Dup for Phase {
    fn dup(&self) -> (r: Self) {
        match self {
            Phase::Start => Phase::Start,
            Phase::Steer => Phase::Steer,
            Phase::Open => Phase::Open,
            Phase::Streaming(x0, x1) => Phase::Streaming(x0.dup(), x1.dup()),
            Phase::Tool(x) => Phase::Tool(x.dup()),
            Phase::FollowUps => Phase::FollowUps,
            Phase::Done(x) => Phase::Done(x.dup()),
        }
    }
}

/// The loop of a run.
#[derive(Debug, PartialEq)]
pub struct AgentRun {
    pub run_id: String,
    pub context: Vec<WireMessage>,
    pub tools: Vec<ToolDef>,
    /// Calls that are still to be made.
    pub calls: Vec<ToolCall>,
    pub phase: Phase,
}

/// What a `AgentRun` is.
#[verifier::ext_equal]
pub struct AgentRunView {
    pub run_id: Seq<char>,
    pub context: Seq<WireMessageView>,
    pub tools: Seq<ToolDefView>,
    pub calls: Seq<ToolCallView>,
    pub phase: PhaseView,
}

impl DeepView for AgentRun {
    type V = AgentRunView;

    open spec fn deep_view(&self) -> AgentRunView {
        AgentRunView {
            run_id: self.run_id@,
            context: self.context.deep_view(),
            tools: self.tools.deep_view(),
            calls: self.calls.deep_view(),
            phase: self.phase.deep_view(),
        }
    }
}

/// What a step gives: the events to send, and then what to do.
#[derive(Debug, PartialEq)]
pub struct StepOut {
    pub events: Vec<SseEvent>,
    pub ask: Ask,
}

/// What a `StepOut` is.
#[verifier::ext_equal]
pub struct StepOutView {
    pub events: Seq<SseEventView>,
    pub ask: AskView,
}

impl DeepView for StepOut {
    type V = StepOutView;

    open spec fn deep_view(&self) -> StepOutView {
        StepOutView {
            events: self.events.deep_view(),
            ask: self.ask.deep_view(),
        }
    }
}

/// The loop after a step, and what the step gives.
#[verifier::ext_equal]
pub struct Turned {
    pub run: AgentRunView,
    pub events: Seq<SseEventView>,
    pub ask: AskView,
}

/// The event that announces a message from outside the model.
pub open spec fn announced(
    run_id: Seq<char>,
    joined: SteeredView,
    source: MessageSource,
) -> SseEventView {
    SseEventView::MessageCompleted {
        run_id,
        message_id: joined.message_id,
        role: joined.message.role,
        content: joined.message.content,
        tool_calls: None,
        source: Some(source),
        reasoning_content: None,
    }
}

pub open spec fn announcements(
    run_id: Seq<char>,
    joined: Seq<SteeredView>,
    source: MessageSource,
) -> Seq<SseEventView> {
    Seq::new(joined.len(), |i: int| announced(run_id, joined[i], source))
}

impl AgentRunView {
    /// Whether the loop waits for this.
    pub open spec fn expects(self, happening: HappeningView) -> bool {
        match self.phase {
            PhaseView::Start => happening is Begin,
            PhaseView::Steer => happening is Steered,
            PhaseView::Open => happening is StreamOpened || happening is StreamRefused,
            PhaseView::Streaming(..) => happening is Chunk || happening is ChunkFailed
                || happening is StreamEnd,
            PhaseView::Tool(_) => happening is ToolResult || happening is ToolWaitFailed,
            PhaseView::FollowUps => happening is FollowUps,
            PhaseView::Done(_) => false,
        }
    }

    pub open spec fn wait(self, events: Seq<SseEventView>, phase: PhaseView, ask: AskView) -> Turned {
        Turned { run: AgentRunView { phase, ..self }, events, ask }
    }

    pub open spec fn done(self, events: Seq<SseEventView>, outcome: OutcomeView) -> Turned {
        self.wait(events, PhaseView::Done(outcome), AskView::Return(outcome))
    }

    /// Ends the loop with an error, which is announced.
    pub open spec fn fail(self, err: OrchestratorErrorView) -> Turned {
        self.done(
            seq![
                SseEventView::Error {
                    run_id: self.run_id,
                    message: err.message(),
                    code: err.code(),
                },
            ],
            OutcomeView::Failed(err),
        )
    }

    pub open spec fn finished(self, reason: Seq<char>) -> SseEventView {
        SseEventView::RunFinished { run_id: self.run_id, reason }
    }

    /// Messages join the context.
    pub open spec fn joined(self, joined: Seq<SteeredView>) -> Self {
        AgentRunView { context: self.context + messages_of(joined), ..self }
    }

    /// The next call; once there is none, steering is taken up and the model is called again.
    pub open spec fn next_call(self, events: Seq<SseEventView>) -> Turned {
        if self.calls.len() > 0 {
            let call = self.calls[0];
            AgentRunView { calls: self.calls.skip(1), ..self }.wait(
                events.push(
                    SseEventView::ToolRequest {
                        run_id: self.run_id,
                        tool_call_id: call.id,
                        name: call.name,
                        arguments: call.arguments,
                        agent_id: None,
                        parent_task_id: None,
                    },
                ),
                PhaseView::Tool(call),
                AskView::WaitTool(call.id),
            )
        } else {
            self.wait(events, PhaseView::Steer, AskView::Steer)
        }
    }

    /// The model has streamed a chunk.
    pub open spec fn chunk(
        self,
        message_id: Seq<char>,
        completed: Option<CompletedView>,
        chunk: LlmChunkView,
    ) -> Turned {
        match chunk {
            LlmChunkView::TextDelta(delta) => self.wait(
                seq![SseEventView::MessageDelta { run_id: self.run_id, message_id, delta }],
                PhaseView::Streaming(message_id, completed),
                AskView::NextChunk,
            ),
            LlmChunkView::ReasoningDelta(_) => self.wait(
                Seq::empty(),
                PhaseView::Streaming(message_id, completed),
                AskView::NextChunk,
            ),
            LlmChunkView::Completed { content, tool_calls, reasoning_content } => self.wait(
                Seq::empty(),
                PhaseView::Streaming(
                    message_id,
                    Some(CompletedView { content, tool_calls, reasoning_content }),
                ),
                AskView::NextChunk,
            ),
        }
    }

    /// The stream of the model is over.
    pub open spec fn stream_end(
        self,
        message_id: Seq<char>,
        completed: Option<CompletedView>,
    ) -> Turned {
        match completed {
            None => self.fail(
                OrchestratorErrorView::Llm("llm stream ended without completed chunk"@),
            ),
            Some(message) => {
                let events = seq![
                    SseEventView::MessageCompleted {
                        run_id: self.run_id,
                        message_id,
                        role: Role::Assistant,
                        content: message.content,
                        tool_calls: if message.tool_calls.len() == 0 {
                            None
                        } else {
                            Some(message.tool_calls)
                        },
                        source: Some(MessageSource::Assistant),
                        reasoning_content: None,
                    },
                ];
                let run = AgentRunView {
                    context: self.context.push(plain(Role::Assistant, message.content)),
                    calls: message.tool_calls,
                    ..self
                };
                if message.tool_calls.len() == 0 {
                    run.wait(events, PhaseView::FollowUps, AskView::FollowUps)
                } else {
                    run.next_call(events)
                }
            },
        }
    }

    /// The step of the loop for what happened.
    pub open spec fn step(self, happening: HappeningView) -> Turned {
        match (self.phase, happening) {
            (PhaseView::Start, HappeningView::Begin) => self.wait(
                seq![SseEventView::RunStarted { run_id: self.run_id }],
                PhaseView::Steer,
                AskView::Steer,
            ),
            (PhaseView::Steer, HappeningView::Steered(joined)) => self.joined(joined).wait(
                announcements(self.run_id, joined, MessageSource::Steer),
                PhaseView::Open,
                AskView::OpenStream(self.tools),
            ),
            (PhaseView::Open, HappeningView::StreamOpened(message_id)) => self.wait(
                Seq::empty(),
                PhaseView::Streaming(message_id, None),
                AskView::NextChunk,
            ),
            (PhaseView::Open, HappeningView::StreamRefused(err)) => self.fail(
                OrchestratorErrorView::Llm(err),
            ),
            (PhaseView::Streaming(message_id, completed), HappeningView::Chunk(chunk)) => {
                self.chunk(message_id, completed, chunk)
            },
            (PhaseView::Streaming(..), HappeningView::ChunkFailed(err)) => self.fail(
                OrchestratorErrorView::Llm(err),
            ),
            (PhaseView::Streaming(message_id, completed), HappeningView::StreamEnd) => {
                self.stream_end(message_id, completed)
            },
            (PhaseView::Tool(call), HappeningView::ToolResult(result)) => AgentRunView {
                context: self.context.push(
                    tool_reply(result_text(result), result.tool_call_id, call.name),
                ),
                ..self
            }.next_call(Seq::empty()),
            (PhaseView::Tool(_), HappeningView::ToolWaitFailed(WaitError::Timeout)) => self.fail(
                OrchestratorErrorView::ToolTimeout,
            ),
            (PhaseView::Tool(_), HappeningView::ToolWaitFailed(WaitError::Cancelled)) => self.done(
                seq![self.finished("cancelled"@)],
                OutcomeView::Failed(OrchestratorErrorView::Cancelled),
            ),
            (PhaseView::FollowUps, HappeningView::FollowUps(joined)) => if joined.len() == 0 {
                self.done(seq![self.finished("stop"@)], OutcomeView::Finished)
            } else {
                self.joined(joined).wait(
                    announcements(self.run_id, joined, MessageSource::FollowUp),
                    PhaseView::Steer,
                    AskView::Steer,
                )
            },
            _ => self.done(
                Seq::empty(),
                OutcomeView::Failed(OrchestratorErrorView::Cancelled),
            ),
        }
    }

    /// What a run comes to where its events can no longer be sent: an error that it ended with
    /// stays, anything else is lost.
    pub open spec fn unheard(self) -> OutcomeView {
        match self.phase {
            PhaseView::Done(OutcomeView::Failed(err)) => OutcomeView::Failed(err),
            _ => OutcomeView::Failed(OrchestratorErrorView::SseClosed),
        }
    }
}

/// The loop and what a step gives, together.
pub open spec fn turned(run: AgentRun, out: StepOut) -> Turned {
    Turned {
        run: run.deep_view(),
        events: out.events.deep_view(),
        ask: out.ask.deep_view(),
    }
}

fn no_events() -> (r: Vec<SseEvent>)
    ensures
        r.deep_view() == Seq::<SseEventView>::empty(),
{
    let r: Vec<SseEvent> = Vec::new();
    assert(r.deep_view() =~= Seq::<SseEventView>::empty());
    r
}

fn one_event(event: SseEvent) -> (r: Vec<SseEvent>)
    ensures
        r.deep_view() == seq![event.deep_view()],
{
    let r = vec![event];
    assert(r.deep_view() =~= seq![event.deep_view()]);
    r
}

impl AgentRun {
    /// A run that is to be started.
    pub fn run_agent(run_id: String, context: Vec<WireMessage>, tools: Vec<ToolDef>) -> (r: Self)
        ensures
            r.deep_view() == (AgentRunView {
                run_id: run_id@,
                context: context.deep_view(),
                tools: tools.deep_view(),
                calls: Seq::empty(),
                phase: PhaseView::Start,
            }),
    {
        let r = AgentRun { run_id, context, tools, calls: Vec::new(), phase: Phase::Start };
        assert(r.calls.deep_view() =~= Seq::<ToolCallView>::empty());
        r
    }

    fn wait(&mut self, events: Vec<SseEvent>, phase: Phase, ask: Ask) -> (r: StepOut)
        ensures
            turned(*final(self), r) == old(self).deep_view().wait(
                events.deep_view(),
                phase.deep_view(),
                ask.deep_view(),
            ),
    {
        self.phase = phase;
        StepOut { events, ask }
    }

    fn done(&mut self, events: Vec<SseEvent>, outcome: Outcome) -> (r: StepOut)
        ensures
            turned(*final(self), r) == old(self).deep_view().done(
                events.deep_view(),
                outcome.deep_view(),
            ),
    {
        self.wait(events, Phase::Done(outcome.dup()), Ask::Return(outcome))
    }

    fn fail(&mut self, err: OrchestratorError) -> (r: StepOut)
        ensures
            turned(*final(self), r) == old(self).deep_view().fail(err.deep_view()),
    {
        let events = one_event(
            SseEvent::Error {
                run_id: self.run_id.dup(),
                message: err.message(),
                code: error_code(&err),
            },
        );
        self.done(events, Outcome::Failed(err))
    }

    fn finished(&self, reason: &str) -> (r: SseEvent)
        ensures
            r.deep_view() == self.deep_view().finished(reason@),
    {
        SseEvent::RunFinished { run_id: self.run_id.dup(), reason: reason.to_owned() }
    }

    fn join_all(&mut self, joined: Vec<Steered>, source: MessageSource) -> (r: Vec<SseEvent>)
        ensures
            final(self).deep_view() == old(self).deep_view().joined(joined.deep_view()),
            r.deep_view() == announcements(
                old(self).deep_view().run_id,
                joined.deep_view(),
                source,
            ),
    {
        let ghost before = self.context.deep_view();
        let ghost all = joined.deep_view();
        let ghost expected = announcements(self.run_id@, all, source);
        let mut events = no_events();
        let mut i: usize = 0;
        assert(before + messages_of(all).take(0) =~= before);
        assert(expected.take(0) =~= Seq::<SseEventView>::empty());
        while i < joined.len()
            invariant
                i <= joined@.len(),
                all == joined.deep_view(),
                expected == announcements(self.run_id@, all, source),
                self.context.deep_view() == before + messages_of(all).take(i as int),
                events.deep_view() == expected.take(i as int),
                self.run_id == old(self).run_id,
                self.tools == old(self).tools,
                self.calls == old(self).calls,
                self.phase == old(self).phase,
            decreases joined@.len() - i,
        {
            let one = &joined[i];
            assert(all[i as int] == one.deep_view());
            push_last(
                &mut events,
                SseEvent::MessageCompleted {
                    run_id: self.run_id.dup(),
                    message_id: one.message_id.dup(),
                    role: one.message.role,
                    content: one.message.content.dup(),
                    tool_calls: None,
                    source: Some(source),
                    reasoning_content: None,
                },
            );
            push_last(&mut self.context, one.message.dup());
            proof {
                assert(messages_of(all).take(i + 1) =~= messages_of(all).take(i as int).push(
                    messages_of(all)[i as int],
                ));
                assert(expected.take(i + 1) =~= expected.take(i as int).push(
                    announced(self.run_id@, all[i as int], source),
                ));
                assert(self.context.deep_view() =~= before + messages_of(all).take(i + 1));
            }
            i = i + 1;
        }
        proof {
            assert(messages_of(all).take(i as int) =~= messages_of(all));
            assert(expected.take(i as int) =~= expected);
        }
        events
    }

    fn next_call(&mut self, events: Vec<SseEvent>) -> (r: StepOut)
        ensures
            turned(*final(self), r) == old(self).deep_view().next_call(events.deep_view()),
    {
        let ghost all = self.calls.deep_view();
        assert(self.calls@.len() == all.len());
        if self.calls.len() == 0 {
            return self.wait(events, Phase::Steer, Ask::Steer);
        }
        let mut events = events;
        let call = self.calls.remove(0);
        assert(self.calls.deep_view() =~= all.skip(1));
        push_last(
            &mut events,
            SseEvent::ToolRequest {
                run_id: self.run_id.dup(),
                tool_call_id: call.id.dup(),
                name: call.name.dup(),
                arguments: call.arguments.dup(),
                agent_id: None,
                parent_task_id: None,
            },
        );
        let id = call.id.dup();
        self.wait(events, Phase::Tool(call), Ask::WaitTool(id))
    }

    fn chunk(&mut self, message_id: String, completed: Option<Completed>, chunk: LlmChunk) -> (r:
        StepOut)
        ensures
            turned(*final(self), r) == old(self).deep_view().chunk(
                message_id@,
                completed.deep_view(),
                chunk.deep_view(),
            ),
    {
        match chunk {
            LlmChunk::TextDelta(delta) => {
                let events = one_event(
                    SseEvent::MessageDelta {
                        run_id: self.run_id.dup(),
                        message_id: message_id.dup(),
                        delta,
                    },
                );
                self.wait(events, Phase::Streaming(message_id, completed), Ask::NextChunk)
            },
            LlmChunk::ReasoningDelta(_) => self.wait(
                no_events(),
                Phase::Streaming(message_id, completed),
                Ask::NextChunk,
            ),
            LlmChunk::Completed { content, tool_calls, reasoning_content } => {
                let message = Completed { content, tool_calls, reasoning_content };
                self.wait(
                    no_events(),
                    Phase::Streaming(message_id, Some(message)),
                    Ask::NextChunk,
                )
            },
        }
    }

    fn stream_end(&mut self, message_id: String, completed: Option<Completed>) -> (r: StepOut)
        ensures
            turned(*final(self), r) == old(self).deep_view().stream_end(
                message_id@,
                completed.deep_view(),
            ),
    {
        let message = match completed {
            None => {
                return self.fail(
                    OrchestratorError::Llm("llm stream ended without completed chunk".to_owned()),
                );
            },
            Some(message) => message,
        };
        assert(message.tool_calls@.len() == message.tool_calls.deep_view().len());
        let wire: Option<Vec<ToolCallWire>> = if message.tool_calls.len() == 0 {
            None
        } else {
            Some(calls_to_wire(&message.tool_calls))
        };
        let events = one_event(
            SseEvent::MessageCompleted {
                run_id: self.run_id.dup(),
                message_id,
                role: Role::Assistant,
                content: message.content.dup(),
                tool_calls: wire,
                source: Some(MessageSource::Assistant),
                reasoning_content: None,
            },
        );
        push_last(&mut self.context, plain_message(Role::Assistant, message.content));
        self.calls = message.tool_calls;
        if self.calls.len() == 0 {
            self.wait(events, Phase::FollowUps, Ask::FollowUps)
        } else {
            self.next_call(events)
        }
    }

    /// Whether the loop waits for this.
    pub fn is_expected(&self, happening: &Happening) -> (r: bool)
        ensures
            r == self.deep_view().expects(happening.deep_view()),
    {
        match &self.phase {
            Phase::Start => matches!(happening, Happening::Begin),
            Phase::Steer => matches!(happening, Happening::Steered(_)),
            Phase::Open => matches!(
                happening,
                Happening::StreamOpened(_) | Happening::StreamRefused(_)
            ),
            Phase::Streaming(..) => matches!(
                happening,
                Happening::Chunk(_) | Happening::ChunkFailed(_) | Happening::StreamEnd
            ),
            Phase::Tool(_) => matches!(
                happening,
                Happening::ToolResult(_) | Happening::ToolWaitFailed(_)
            ),
            Phase::FollowUps => matches!(happening, Happening::FollowUps(_)),
            Phase::Done(_) => false,
        }
    }

    /// The step of the loop for what happened.
    pub fn step(&mut self, happening: Happening) -> (r: StepOut)
        requires
            old(self).deep_view().expects(happening.deep_view()),
        ensures
            turned(*final(self), r) == old(self).deep_view().step(happening.deep_view()),
    {
        match (self.phase.dup(), happening) {
            (Phase::Start, Happening::Begin) => {
                let events = one_event(SseEvent::RunStarted { run_id: self.run_id.dup() });
                self.wait(events, Phase::Steer, Ask::Steer)
            },
            (Phase::Steer, Happening::Steered(joined)) => {
                let events = self.join_all(joined, MessageSource::Steer);
                let tools = self.tools.dup();
                self.wait(events, Phase::Open, Ask::OpenStream(tools))
            },
            (Phase::Open, Happening::StreamOpened(message_id)) => self.wait(
                no_events(),
                Phase::Streaming(message_id, None),
                Ask::NextChunk,
            ),
            (Phase::Open, Happening::StreamRefused(err)) => self.fail(OrchestratorError::Llm(err)),
            (Phase::Streaming(message_id, completed), Happening::Chunk(chunk)) => self.chunk(
                message_id,
                completed,
                chunk,
            ),
            (Phase::Streaming(..), Happening::ChunkFailed(err)) => self.fail(
                OrchestratorError::Llm(err),
            ),
            (Phase::Streaming(message_id, completed), Happening::StreamEnd) => self.stream_end(
                message_id,
                completed,
            ),
            (Phase::Tool(call), Happening::ToolResult(result)) => {
                let content = if result.is_error {
                    concat("tool_error:", result.content.as_str())
                } else {
                    result.content.dup()
                };
                push_last(&mut self.context, tool_message(content, result.tool_call_id, call.name));
                self.next_call(no_events())
            },
            (Phase::Tool(_), Happening::ToolWaitFailed(WaitError::Timeout)) => self.fail(
                OrchestratorError::ToolTimeout,
            ),
            (Phase::Tool(_), Happening::ToolWaitFailed(WaitError::Cancelled)) => {
                let events = one_event(self.finished("cancelled"));
                self.done(events, Outcome::Failed(OrchestratorError::Cancelled))
            },
            (Phase::FollowUps, Happening::FollowUps(joined)) => {
                assert(joined@.len() == joined.deep_view().len());
                if joined.len() == 0 {
                    let events = one_event(self.finished("stop"));
                    self.done(events, Outcome::Finished)
                } else {
                    let events = self.join_all(joined, MessageSource::FollowUp);
                    self.wait(events, Phase::Steer, Ask::Steer)
                }
            },
            _ => self.done(no_events(), Outcome::Failed(OrchestratorError::Cancelled)),
        }
    }

    /// Ends the loop where its events can no longer be sent.
    pub fn sse_closed(&mut self) -> (r: Outcome)
        ensures
            r.deep_view() == old(self).deep_view().unheard(),
            final(self).deep_view() == (AgentRunView {
                phase: PhaseView::Done(old(self).deep_view().unheard()),
                ..old(self).deep_view()
            }),
    {
        let outcome = match &self.phase {
            Phase::Done(Outcome::Failed(err)) => Outcome::Failed(err.dup()),
            _ => Outcome::Failed(OrchestratorError::SseClosed),
        };
        self.phase = Phase::Done(outcome.dup());
        outcome
    }
}

/// Whether an event says that a run is over.
pub open spec fn says_over(event: SseEventView) -> bool {
    event is RunFinished || event is Error
}

/// A run says that it is over in its last event, and in no other.
pub proof fn law_end_is_said_once(run: AgentRunView, happening: HappeningView)
    requires
        run.expects(happening),
    ensures
        ({
            let t = run.step(happening);
            &&& t.run.phase is Done ==> t.events.len() == 1 && says_over(t.events[0])
            &&& !(t.run.phase is Done) ==> forall|i: int|
                0 <= i < t.events.len() ==> !says_over(#[trigger] t.events[i])
            &&& t.run.run_id == run.run_id
            &&& t.run.tools == run.tools
            &&& run.context.is_prefix_of(t.run.context)
        }),
{
}

/// Each call of the model is asked for before the model is called again: a run that takes up
/// steering after a result has no call left.
pub proof fn law_all_calls_come_before_the_model(run: AgentRunView, happening: HappeningView)
    requires
        run.expects(happening),
        run.phase is Tool || run.calls.len() == 0,
    ensures
        ({
            let t = run.step(happening);
            !(t.run.phase is Done) ==> t.run.phase is Tool || t.run.calls.len() == 0
        }),
{
}

} // verus!
