//! The turn-based loop, as a machine that is told what happened and says what to do next.
//!
//! The inner loop runs turns while the model calls tools or messages come in; the outer loop goes
//! on with follow-up messages.

use vstd::prelude::*;

use crate::backend::{TurnSnapshot, TurnSnapshotView};
use crate::dup::{push_all, push_last, Dup};
use crate::error::{LoopError, LoopErrorView};
use crate::types::{
    AgentContext, AgentContextView, AgentEvent, AgentEventView, AgentMessage, AgentMessageView,
    ContentPart, ContentPartView, StopReason,
};

verus! {

/// What the loop waits for.
#[derive(Debug, PartialEq)]
pub enum LoopPhase {
    Steering,
    Streaming,
    Executing {
        assistant: AgentMessage,
        call: ContentPart,
    },
    Stopping,
    Following,
    Over,
}

/// What `LoopPhase` is.
#[verifier::ext_equal]
pub enum LoopPhaseView {
    Steering,
    Streaming,
    Executing {
        assistant: AgentMessageView,
        call: ContentPartView,
    },
    Stopping,
    Following,
    Over,
}

impl DeepView for LoopPhase {
    type V = LoopPhaseView;

    open spec fn deep_view(&self) -> LoopPhaseView {
        match self {
            LoopPhase::Steering => LoopPhaseView::Steering,
            LoopPhase::Streaming => LoopPhaseView::Streaming,
            LoopPhase::Executing { assistant, call } => LoopPhaseView::Executing {
                assistant: assistant.deep_view(),
                call: call.deep_view(),
            },
            LoopPhase::Stopping => LoopPhaseView::Stopping,
            LoopPhase::Following => LoopPhaseView::Following,
            LoopPhase::Over => LoopPhaseView::Over,
        }
    }
}

impl Dup for LoopPhase {
    fn dup(&self) -> (r: Self) {
        match self {
            LoopPhase::Steering => LoopPhase::Steering,
            LoopPhase::Streaming => LoopPhase::Streaming,
            LoopPhase::Executing { assistant, call } => LoopPhase::Executing {
                assistant: assistant.dup(),
                call: call.dup(),
            },
            LoopPhase::Stopping => LoopPhase::Stopping,
            LoopPhase::Following => LoopPhase::Following,
            LoopPhase::Over => LoopPhase::Over,
        }
    }
}

/// What the loop asks for.
#[derive(Debug, PartialEq)]
pub enum LoopAsk {
    /// For messages that have come in.
    Steering,
    /// For the next assistant message, with the context of the loop.
    Stream,
    Execute(ContentPart),
    /// Whether the loop stops after the turn.
    ShouldStop(TurnSnapshot),
    FollowUp,
    /// The loop is over: these are the messages of the run.
    Return(Vec<AgentMessage>),
}

/// What `LoopAsk` is.
#[verifier::ext_equal]
pub enum LoopAskView {
    Steering,
    Stream,
    Execute(ContentPartView),
    ShouldStop(TurnSnapshotView),
    FollowUp,
    Return(Seq<AgentMessageView>),
}

impl DeepView for LoopAsk {
    type V = LoopAskView;

    open spec fn deep_view(&self) -> LoopAskView {
        match self {
            LoopAsk::Steering => LoopAskView::Steering,
            LoopAsk::Stream => LoopAskView::Stream,
            LoopAsk::Execute(x) => LoopAskView::Execute(x.deep_view()),
            LoopAsk::ShouldStop(x) => LoopAskView::ShouldStop(x.deep_view()),
            LoopAsk::FollowUp => LoopAskView::FollowUp,
            LoopAsk::Return(x) => LoopAskView::Return(x.deep_view()),
        }
    }
}

/// What happened.
#[derive(Debug, PartialEq)]
pub enum LoopInput {
    Steering(Vec<AgentMessage>),
    /// The context with the message in it, and the message.
    Streamed(AgentContext, AgentMessage),
    StreamFailed {
        cancelled: bool,
    },
    Executed(AgentMessage),
    ExecuteFailed(LoopError),
    Stop(bool),
    FollowUp(Vec<AgentMessage>),
}

/// What `LoopInput` is.
#[verifier::ext_equal]
pub enum LoopInputView {
    Steering(Seq<AgentMessageView>),
    Streamed(AgentContextView, AgentMessageView),
    StreamFailed {
        cancelled: bool,
    },
    Executed(AgentMessageView),
    ExecuteFailed(LoopErrorView),
    Stop(bool),
    FollowUp(Seq<AgentMessageView>),
}

impl DeepView for LoopInput {
    type V = LoopInputView;

    open spec fn deep_view(&self) -> LoopInputView {
        match self {
            LoopInput::Steering(x) => LoopInputView::Steering(x.deep_view()),
            LoopInput::Streamed(x0, x1) => LoopInputView::Streamed(x0.deep_view(), x1.deep_view()),
            LoopInput::StreamFailed { cancelled } => LoopInputView::StreamFailed {
                cancelled: *cancelled,
            },
            LoopInput::Executed(x) => LoopInputView::Executed(x.deep_view()),
            LoopInput::ExecuteFailed(x) => LoopInputView::ExecuteFailed(x.deep_view()),
            LoopInput::Stop(x) => LoopInputView::Stop(*x),
            LoopInput::FollowUp(x) => LoopInputView::FollowUp(x.deep_view()),
        }
    }
}

/// The loop.
#[derive(Debug, PartialEq)]
pub struct LoopRun {
    pub context: AgentContext,
    /// The messages of this run.
    pub new_messages: Vec<AgentMessage>,
    /// Whether a turn is over.
    pub turned: bool,
    /// Whether the last turn calls for another.
    pub more_tools: bool,
    /// Calls of the turn that are still to be run.
    pub calls: Vec<ContentPart>,
    /// Results of the turn so far.
    pub results: Vec<AgentMessage>,
    /// Whether all of them end the run.
    pub all_terminate: bool,
    pub phase: LoopPhase,
}

/// What a `LoopRun` is.
#[verifier::ext_equal]
pub struct LoopRunView {
    pub context: AgentContextView,
    pub new_messages: Seq<AgentMessageView>,
    pub turned: bool,
    pub more_tools: bool,
    pub calls: Seq<ContentPartView>,
    pub results: Seq<AgentMessageView>,
    pub all_terminate: bool,
    pub phase: LoopPhaseView,
}

impl DeepView for LoopRun {
    type V = LoopRunView;

    open spec fn deep_view(&self) -> LoopRunView {
        LoopRunView {
            context: self.context.deep_view(),
            new_messages: self.new_messages.deep_view(),
            turned: self.turned,
            more_tools: self.more_tools,
            calls: self.calls.deep_view(),
            results: self.results.deep_view(),
            all_terminate: self.all_terminate,
            phase: self.phase.deep_view(),
        }
    }
}

/// What a step gives: the events to send, and then what to do.
#[derive(Debug, PartialEq)]
pub struct LoopOut {
    pub events: Vec<AgentEvent>,
    pub ask: LoopAsk,
}

/// What a `LoopOut` is.
#[verifier::ext_equal]
pub struct LoopOutView {
    pub events: Seq<AgentEventView>,
    pub ask: LoopAskView,
}

impl DeepView for LoopOut {
    type V = LoopOutView;

    open spec fn deep_view(&self) -> LoopOutView {
        LoopOutView {
            events: self.events.deep_view(),
            ask: self.ask.deep_view(),
        }
    }
}

/// The loop after a step, and what the step gives.
#[verifier::ext_equal]
pub struct LoopTurned {
    pub run: LoopRunView,
    pub events: Seq<AgentEventView>,
    pub ask: LoopAskView,
}

/// The events that announce messages: a start and an end for each, in order.
pub open spec fn pairs(messages: Seq<AgentMessageView>) -> Seq<AgentEventView>
    decreases messages.len(),
{
    if messages.len() == 0 {
        Seq::empty()
    } else {
        pairs(messages.drop_last()) + pair(messages.last())
    }
}

pub open spec fn pair(message: AgentMessageView) -> Seq<AgentEventView> {
    seq![AgentEventView::MessageStart { message }, AgentEventView::MessageEnd { message }]
}

/// The tool calls of a message, in order.
pub open spec fn tool_parts(message: AgentMessageView) -> Seq<ContentPartView> {
    match message {
        AgentMessageView::Assistant { parts, .. } => only_calls(parts),
        _ => Seq::empty(),
    }
}

pub open spec fn only_calls(parts: Seq<ContentPartView>) -> Seq<ContentPartView>
    decreases parts.len(),
{
    if parts.len() == 0 {
        Seq::empty()
    } else if parts.last() is ToolCall {
        only_calls(parts.drop_last()).push(parts.last())
    } else {
        only_calls(parts.drop_last())
    }
}

/// Whether a message ends the run.
pub open spec fn broke_off(message: AgentMessageView) -> bool {
    match message {
        AgentMessageView::Assistant { stop_reason, .. } => stop_reason == StopReason::Error
            || stop_reason == StopReason::Aborted,
        _ => false,
    }
}

/// Whether a tool result ends the run.
pub open spec fn terminates(message: AgentMessageView) -> bool {
    match message {
        AgentMessageView::ToolResult { terminate, .. } => terminate,
        _ => false,
    }
}

/// The result of a tool that could not be run.
pub open spec fn failed_result(call: ContentPartView, err: LoopErrorView) -> AgentMessageView {
    let (tool_call_id, tool_name) = match call {
        ContentPartView::ToolCall { id, name, .. } => (id, name),
        ContentPartView::Text { .. } => (Seq::empty(), Seq::empty()),
    };
    AgentMessageView::ToolResult {
        tool_call_id,
        tool_name,
        content: err.message(),
        is_error: true,
        terminate: false,
    }
}

impl LoopRunView {
    /// Whether the loop waits for this.
    pub open spec fn expects(self, input: LoopInputView) -> bool {
        match self.phase {
            LoopPhaseView::Steering => input is Steering,
            LoopPhaseView::Streaming => input is Streamed || input is StreamFailed,
            LoopPhaseView::Executing { .. } => input is Executed || input is ExecuteFailed,
            LoopPhaseView::Stopping => input is Stop,
            LoopPhaseView::Following => input is FollowUp,
            LoopPhaseView::Over => false,
        }
    }

    pub open spec fn wait(
        self,
        events: Seq<AgentEventView>,
        phase: LoopPhaseView,
        ask: LoopAskView,
    ) -> LoopTurned {
        LoopTurned { run: LoopRunView { phase, ..self }, events, ask }
    }

    /// Adds messages to the context and to the run.
    pub open spec fn joined(self, messages: Seq<AgentMessageView>) -> Self {
        LoopRunView {
            context: AgentContextView {
                messages: self.context.messages + messages,
                ..self.context
            },
            new_messages: self.new_messages + messages,
            ..self
        }
    }

    /// Ends the loop.
    pub open spec fn over(self, events: Seq<AgentEventView>) -> LoopTurned {
        self.wait(
            events.push(AgentEventView::AgentEnd { messages: self.new_messages }),
            LoopPhaseView::Over,
            LoopAskView::Return(self.new_messages),
        )
    }

    /// Starts a turn with the messages that have come in.
    pub open spec fn turn(self, pending: Seq<AgentMessageView>) -> LoopTurned {
        let first = if self.turned {
            seq![AgentEventView::TurnStart]
        } else {
            Seq::empty()
        };
        self.joined(pending).wait(
            first + pairs(pending),
            LoopPhaseView::Streaming,
            LoopAskView::Stream,
        )
    }

    /// Messages have come in, or none.
    pub open spec fn steered(self, pending: Seq<AgentMessageView>) -> LoopTurned {
        if self.more_tools || pending.len() > 0 {
            self.turn(pending)
        } else {
            self.wait(Seq::empty(), LoopPhaseView::Following, LoopAskView::FollowUp)
        }
    }

    /// A turn that broke off ends the run.
    pub open spec fn broken(self, message: AgentMessageView) -> LoopTurned {
        self.over(seq![AgentEventView::TurnEnd { message, tool_results: Seq::empty() }])
    }

    /// The assistant has answered; the context has its message already.
    pub open spec fn streamed(
        self,
        context: AgentContextView,
        assistant: AgentMessageView,
    ) -> LoopTurned {
        let run = LoopRunView {
            context,
            new_messages: self.new_messages.push(assistant),
            results: Seq::empty(),
            all_terminate: true,
            ..self
        };
        let calls = tool_parts(assistant);
        if broke_off(assistant) {
            run.broken(assistant)
        } else if calls.len() == 0 {
            LoopRunView { more_tools: false, ..run }.turn_over(Seq::empty(), assistant)
        } else {
            LoopRunView { calls: calls.skip(1), ..run }.wait(
                Seq::empty(),
                LoopPhaseView::Executing { assistant, call: calls[0] },
                LoopAskView::Execute(calls[0]),
            )
        }
    }

    /// The assistant could not be reached.
    pub open spec fn stream_failed(self, cancelled: bool) -> LoopTurned {
        let message = AgentMessageView::Assistant {
            parts: Seq::empty(),
            stop_reason: if cancelled {
                StopReason::Aborted
            } else {
                StopReason::Error
            },
        };
        self.joined(seq![message]).broken(message)
    }

    /// A tool was run.
    pub open spec fn executed(
        self,
        assistant: AgentMessageView,
        result: AgentMessageView,
    ) -> LoopTurned {
        let run = LoopRunView {
            results: self.results.push(result),
            all_terminate: self.all_terminate && terminates(result),
            ..self.joined(seq![result])
        };
        if self.calls.len() > 0 {
            LoopRunView { calls: self.calls.skip(1), ..run }.wait(
                pair(result),
                LoopPhaseView::Executing { assistant, call: self.calls[0] },
                LoopAskView::Execute(self.calls[0]),
            )
        } else {
            LoopRunView { more_tools: !run.all_terminate, ..run }.turn_over(pair(result), assistant)
        }
    }

    /// The turn is over.
    pub open spec fn turn_over(
        self,
        events: Seq<AgentEventView>,
        message: AgentMessageView,
    ) -> LoopTurned {
        self.wait(
            events.push(AgentEventView::TurnEnd { message, tool_results: self.results }),
            LoopPhaseView::Stopping,
            LoopAskView::ShouldStop(
                TurnSnapshotView {
                    message,
                    tool_results: self.results,
                    context_messages_len: self.context.messages.len() as usize,
                    new_messages: self.new_messages,
                },
            ),
        )
    }

    /// The step of the loop for what happened.
    pub open spec fn step(self, input: LoopInputView) -> LoopTurned {
        match (self.phase, input) {
            (LoopPhaseView::Steering, LoopInputView::Steering(pending)) => self.steered(pending),
            (LoopPhaseView::Streaming, LoopInputView::Streamed(context, assistant)) => {
                self.streamed(context, assistant)
            },
            (LoopPhaseView::Streaming, LoopInputView::StreamFailed { cancelled }) => {
                self.stream_failed(cancelled)
            },
            (LoopPhaseView::Executing { assistant, .. }, LoopInputView::Executed(result)) => {
                self.executed(assistant, result)
            },
            (LoopPhaseView::Executing { assistant, call }, LoopInputView::ExecuteFailed(err)) => {
                self.executed(assistant, failed_result(call, err))
            },
            (LoopPhaseView::Stopping, LoopInputView::Stop(stop)) => if stop {
                self.over(Seq::empty())
            } else {
                LoopRunView { turned: true, ..self }.wait(
                    Seq::empty(),
                    LoopPhaseView::Steering,
                    LoopAskView::Steering,
                )
            },
            (LoopPhaseView::Following, LoopInputView::FollowUp(messages)) => if messages.len() > 0 {
                LoopRunView { more_tools: true, ..self }.turn(messages)
            } else {
                self.over(Seq::empty())
            },
            _ => self.over(Seq::empty()),
        }
    }
}

/// A loop that is to run, before any message has come in.
pub open spec fn fresh_loop(context: AgentContextView) -> LoopRunView {
    LoopRunView {
        context,
        new_messages: Seq::empty(),
        turned: false,
        more_tools: true,
        calls: Seq::empty(),
        results: Seq::empty(),
        all_terminate: true,
        phase: LoopPhaseView::Steering,
    }
}

/// A new loop with prompts.
pub open spec fn loop_started(
    prompts: Seq<AgentMessageView>,
    context: AgentContextView,
) -> LoopTurned {
    fresh_loop(context).joined(prompts).wait(
        seq![AgentEventView::AgentStart, AgentEventView::TurnStart] + pairs(prompts),
        LoopPhaseView::Steering,
        LoopAskView::Steering,
    )
}

/// Why a context cannot be gone on with: it is empty, or the assistant had the last word.
pub open spec fn continue_error(context: AgentContextView) -> Option<LoopErrorView> {
    if context.messages.len() == 0 {
        Some(LoopErrorView::InvalidContinue("no messages in context"@))
    } else if context.messages.last() is Assistant {
        Some(LoopErrorView::InvalidContinue("cannot continue from assistant message"@))
    } else {
        None
    }
}

/// The loop and what a step gives, together.
pub open spec fn loop_turned(run: LoopRun, out: LoopOut) -> LoopTurned {
    LoopTurned {
        run: run.deep_view(),
        events: out.events.deep_view(),
        ask: out.ask.deep_view(),
    }
}

fn no_events() -> (r: Vec<AgentEvent>)
    ensures
        r.deep_view() == Seq::<AgentEventView>::empty(),
{
    let r: Vec<AgentEvent> = Vec::new();
    assert(r.deep_view() =~= Seq::<AgentEventView>::empty());
    r
}

fn announce(events: &mut Vec<AgentEvent>, message: &AgentMessage)
    ensures
        final(events).deep_view() == old(events).deep_view() + pair(message.deep_view()),
{
    push_last(events, AgentEvent::MessageStart { message: message.dup() });
    push_last(events, AgentEvent::MessageEnd { message: message.dup() });
    assert(events.deep_view() =~= old(events).deep_view() + pair(message.deep_view()));
}

fn announce_all(events: &mut Vec<AgentEvent>, messages: &Vec<AgentMessage>)
    ensures
        final(events).deep_view() == old(events).deep_view() + pairs(messages.deep_view()),
{
    let ghost all = messages.deep_view();
    let ghost before = events.deep_view();
    let mut i: usize = 0;
    assert(before + pairs(all.take(0)) =~= before);
    while i < messages.len()
        invariant
            i <= messages@.len(),
            all == messages.deep_view(),
            events.deep_view() == before + pairs(all.take(i as int)),
        decreases messages@.len() - i,
    {
        announce(events, &messages[i]);
        proof {
            assert(all.take(i + 1).drop_last() =~= all.take(i as int));
            assert(all.take(i + 1).last() == messages@[i as int].deep_view());
            assert(events.deep_view() =~= before + pairs(all.take(i + 1)));
        }
        i = i + 1;
    }
    assert(all.take(i as int) =~= all);
}

fn calls_of(message: &AgentMessage) -> (r: Vec<ContentPart>)
    ensures
        r.deep_view() == tool_parts(message.deep_view()),
{
    let mut out: Vec<ContentPart> = Vec::new();
    assert(out.deep_view() =~= Seq::<ContentPartView>::empty());
    if let AgentMessage::Assistant { parts, .. } = message {
        let ghost all = parts.deep_view();
        let mut i: usize = 0;
        assert(all.take(0) =~= Seq::<ContentPartView>::empty());
        while i < parts.len()
            invariant
                i <= parts@.len(),
                all == parts.deep_view(),
                out.deep_view() == only_calls(all.take(i as int)),
            decreases parts@.len() - i,
        {
            proof {
                assert(all.take(i + 1).drop_last() =~= all.take(i as int));
                assert(all.take(i + 1).last() == parts@[i as int].deep_view());
            }
            if matches!(&parts[i], ContentPart::ToolCall { .. }) {
                push_last(&mut out, parts[i].dup());
            }
            i = i + 1;
        }
        assert(all.take(i as int) =~= all);
    }
    out
}

fn is_terminate(message: &AgentMessage) -> (r: bool)
    ensures
        r == terminates(message.deep_view()),
{
    match message {
        AgentMessage::ToolResult { terminate, .. } => *terminate,
        _ => false,
    }
}

fn is_broken(message: &AgentMessage) -> (r: bool)
    ensures
        r == broke_off(message.deep_view()),
{
    match message {
        AgentMessage::Assistant { stop_reason, .. } => *stop_reason == StopReason::Error
            || *stop_reason == StopReason::Aborted,
        _ => false,
    }
}

fn error_tool_result(call: &ContentPart, err: LoopError) -> (r: AgentMessage)
    ensures
        r.deep_view() == failed_result(call.deep_view(), err.deep_view()),
{
    let (tool_call_id, tool_name) = match call {
        ContentPart::ToolCall { id, name, .. } => (id.dup(), name.dup()),
        ContentPart::Text { .. } => (String::new(), String::new()),
    };
    AgentMessage::ToolResult {
        tool_call_id,
        tool_name,
        content: err.message(),
        is_error: true,
        terminate: false,
    }
}

fn validate_continue(context: &AgentContext) -> (r: Result<(), LoopError>)
    ensures
        match r {
            Ok(_) => continue_error(context.deep_view()) is None,
            Err(err) => continue_error(context.deep_view()) == Some(err.deep_view()),
        },
{
    assert(context.messages@.len() == context.deep_view().messages.len());
    if context.messages.len() == 0 {
        return Err(LoopError::InvalidContinue("no messages in context".to_owned()));
    }
    if matches!(
        &context.messages[context.messages.len() - 1],
        AgentMessage::Assistant { .. }
    ) {
        return Err(
            LoopError::InvalidContinue("cannot continue from assistant message".to_owned()),
        );
    }
    Ok(())
}

fn fresh(context: AgentContext) -> (r: LoopRun)
    ensures
        r.deep_view() == fresh_loop(context.deep_view()),
{
    let r = LoopRun {
        context,
        new_messages: Vec::new(),
        turned: false,
        more_tools: true,
        calls: Vec::new(),
        results: Vec::new(),
        all_terminate: true,
        phase: LoopPhase::Steering,
    };
    assert(r.new_messages.deep_view() =~= Seq::<AgentMessageView>::empty());
    assert(r.calls.deep_view() =~= Seq::<ContentPartView>::empty());
    assert(r.results.deep_view() =~= Seq::<AgentMessageView>::empty());
    r
}

fn opening() -> (r: Vec<AgentEvent>)
    ensures
        r.deep_view() == seq![AgentEventView::AgentStart, AgentEventView::TurnStart],
{
    let r = vec![AgentEvent::AgentStart, AgentEvent::TurnStart];
    assert(r.deep_view() =~= seq![AgentEventView::AgentStart, AgentEventView::TurnStart]);
    r
}

/// Starts a new loop, with `prompts` added to the context.
pub fn agent_loop(prompts: Vec<AgentMessage>, context: AgentContext) -> (r: (LoopRun, LoopOut))
    ensures
        loop_turned(r.0, r.1) == loop_started(prompts.deep_view(), context.deep_view()),
{
    let mut run = fresh(context);
    let mut events = opening();
    announce_all(&mut events, &prompts);
    run.join_all(prompts);
    let out = run.wait(events, LoopPhase::Steering, LoopAsk::Steering);
    (run, out)
}

/// Goes on with a context without a new prompt. Refused where the context is empty or the
/// assistant had the last word.
pub fn agent_loop_continue(context: AgentContext) -> (r: Result<(LoopRun, LoopOut), LoopError>)
    ensures
        match r {
            Ok(started) => continue_error(context.deep_view()) is None && loop_turned(
                started.0,
                started.1,
            ) == loop_started(Seq::empty(), context.deep_view()),
            Err(err) => continue_error(context.deep_view()) == Some(err.deep_view()),
        },
{
    match validate_continue(&context) {
        Err(err) => Err(err),
        Ok(()) => {
            let ghost view = context.deep_view();
            let mut run = fresh(context);
            let events = opening();
            let out = run.wait(events, LoopPhase::Steering, LoopAsk::Steering);
            proof {
                let none = Seq::<AgentMessageView>::empty();
                assert(events.deep_view() + pairs(none) =~= events.deep_view());
                assert(view.messages + none =~= view.messages);
                assert(none + none =~= none);
            }
            Ok((run, out))
        },
    }
}

impl LoopRun {
    fn wait(&mut self, events: Vec<AgentEvent>, phase: LoopPhase, ask: LoopAsk) -> (r: LoopOut)
        ensures
            loop_turned(*final(self), r) == old(self).deep_view().wait(
                events.deep_view(),
                phase.deep_view(),
                ask.deep_view(),
            ),
    {
        self.phase = phase;
        LoopOut { events, ask }
    }

    fn join_all(&mut self, messages: Vec<AgentMessage>)
        ensures
            final(self).deep_view() == old(self).deep_view().joined(messages.deep_view()),
    {
        push_all(&mut self.context.messages, messages.dup());
        push_all(&mut self.new_messages, messages);
    }

    fn join(&mut self, message: AgentMessage)
        ensures
            final(self).deep_view() == old(self).deep_view().joined(seq![message.deep_view()]),
    {
        push_last(&mut self.context.messages, message.dup());
        push_last(&mut self.new_messages, message);
        proof {
            let view = old(self).deep_view();
            assert(self.deep_view().context.messages =~= view.context.messages + seq![
                message.deep_view(),
            ]);
            assert(self.deep_view().new_messages =~= view.new_messages + seq![
                message.deep_view(),
            ]);
        }
    }

    fn over(&mut self, events: Vec<AgentEvent>) -> (r: LoopOut)
        ensures
            loop_turned(*final(self), r) == old(self).deep_view().over(events.deep_view()),
    {
        let mut events = events;
        push_last(&mut events, AgentEvent::AgentEnd { messages: self.new_messages.dup() });
        let messages = self.new_messages.dup();
        self.wait(events, LoopPhase::Over, LoopAsk::Return(messages))
    }

    fn turn(&mut self, pending: Vec<AgentMessage>) -> (r: LoopOut)
        ensures
            loop_turned(*final(self), r) == old(self).deep_view().turn(pending.deep_view()),
    {
        let mut events = no_events();
        if self.turned {
            push_last(&mut events, AgentEvent::TurnStart);
            assert(events.deep_view() =~= seq![AgentEventView::TurnStart]);
        }
        announce_all(&mut events, &pending);
        self.join_all(pending);
        self.wait(events, LoopPhase::Streaming, LoopAsk::Stream)
    }

    fn steered(&mut self, pending: Vec<AgentMessage>) -> (r: LoopOut)
        ensures
            loop_turned(*final(self), r) == old(self).deep_view().steered(pending.deep_view()),
    {
        assert(pending@.len() == pending.deep_view().len());
        if self.more_tools || pending.len() > 0 {
            self.turn(pending)
        } else {
            self.wait(no_events(), LoopPhase::Following, LoopAsk::FollowUp)
        }
    }

    fn broken(&mut self, message: AgentMessage) -> (r: LoopOut)
        ensures
            loop_turned(*final(self), r) == old(self).deep_view().broken(message.deep_view()),
    {
        let none: Vec<AgentMessage> = Vec::new();
        assert(none.deep_view() =~= Seq::<AgentMessageView>::empty());
        let mut events = no_events();
        push_last(&mut events, AgentEvent::TurnEnd { message, tool_results: none });
        assert(events.deep_view() =~= seq![
            AgentEventView::TurnEnd {
                message: message.deep_view(),
                tool_results: Seq::empty(),
            },
        ]);
        self.over(events)
    }

    fn streamed(&mut self, context: AgentContext, assistant: AgentMessage) -> (r: LoopOut)
        ensures
            loop_turned(*final(self), r) == old(self).deep_view().streamed(
                context.deep_view(),
                assistant.deep_view(),
            ),
    {
        self.context = context;
        push_last(&mut self.new_messages, assistant.dup());
        self.results = Vec::new();
        self.all_terminate = true;
        assert(self.results.deep_view() =~= Seq::<AgentMessageView>::empty());
        if is_broken(&assistant) {
            return self.broken(assistant);
        }
        let mut calls = calls_of(&assistant);
        let ghost all = calls.deep_view();
        assert(calls@.len() == all.len());
        if calls.len() == 0 {
            self.more_tools = false;
            self.turn_over(no_events(), assistant)
        } else {
            let call = calls.remove(0);
            assert(calls.deep_view() =~= all.skip(1));
            self.calls = calls;
            let again = call.dup();
            self.wait(no_events(), LoopPhase::Executing { assistant, call }, LoopAsk::Execute(again))
        }
    }

    fn stream_failed(&mut self, cancelled: bool) -> (r: LoopOut)
        ensures
            loop_turned(*final(self), r) == old(self).deep_view().stream_failed(cancelled),
    {
        let parts: Vec<ContentPart> = Vec::new();
        assert(parts.deep_view() =~= Seq::<ContentPartView>::empty());
        let message = AgentMessage::Assistant {
            parts,
            stop_reason: if cancelled {
                StopReason::Aborted
            } else {
                StopReason::Error
            },
        };
        self.join(message.dup());
        self.broken(message)
    }

    fn executed(&mut self, assistant: AgentMessage, result: AgentMessage) -> (r: LoopOut)
        ensures
            loop_turned(*final(self), r) == old(self).deep_view().executed(
                assistant.deep_view(),
                result.deep_view(),
            ),
    {
        self.all_terminate = self.all_terminate && is_terminate(&result);
        let mut events = no_events();
        announce(&mut events, &result);
        assert(events.deep_view() =~= pair(result.deep_view()));
        self.join(result.dup());
        push_last(&mut self.results, result);
        let ghost all = self.calls.deep_view();
        assert(self.calls@.len() == all.len());
        if self.calls.len() > 0 {
            let call = self.calls.remove(0);
            assert(self.calls.deep_view() =~= all.skip(1));
            let again = call.dup();
            self.wait(events, LoopPhase::Executing { assistant, call }, LoopAsk::Execute(again))
        } else {
            self.more_tools = !self.all_terminate;
            self.turn_over(events, assistant)
        }
    }

    fn turn_over(&mut self, events: Vec<AgentEvent>, message: AgentMessage) -> (r: LoopOut)
        ensures
            loop_turned(*final(self), r) == old(self).deep_view().turn_over(
                events.deep_view(),
                message.deep_view(),
            ),
    {
        let mut events = events;
        push_last(
            &mut events,
            AgentEvent::TurnEnd { message: message.dup(), tool_results: self.results.dup() },
        );
        let snapshot = TurnSnapshot {
            message,
            tool_results: self.results.dup(),
            context_messages_len: self.context.messages.len(),
            new_messages: self.new_messages.dup(),
        };
        self.wait(events, LoopPhase::Stopping, LoopAsk::ShouldStop(snapshot))
    }

    /// Whether the loop waits for this.
    pub fn is_expected(&self, input: &LoopInput) -> (r: bool)
        ensures
            r == self.deep_view().expects(input.deep_view()),
    {
        match &self.phase {
            LoopPhase::Steering => matches!(input, LoopInput::Steering(_)),
            LoopPhase::Streaming => matches!(
                input,
                LoopInput::Streamed(..) | LoopInput::StreamFailed { .. }
            ),
            LoopPhase::Executing { .. } => matches!(
                input,
                LoopInput::Executed(_) | LoopInput::ExecuteFailed(_)
            ),
            LoopPhase::Stopping => matches!(input, LoopInput::Stop(_)),
            LoopPhase::Following => matches!(input, LoopInput::FollowUp(_)),
            LoopPhase::Over => false,
        }
    }

    /// The step of the loop for what happened.
    pub fn run_loop(&mut self, input: LoopInput) -> (r: LoopOut)
        requires
            old(self).deep_view().expects(input.deep_view()),
        ensures
            loop_turned(*final(self), r) == old(self).deep_view().step(input.deep_view()),
    {
        match (self.phase.dup(), input) {
            (LoopPhase::Steering, LoopInput::Steering(pending)) => self.steered(pending),
            (LoopPhase::Streaming, LoopInput::Streamed(context, assistant)) => self.streamed(
                context,
                assistant,
            ),
            (LoopPhase::Streaming, LoopInput::StreamFailed { cancelled }) => self.stream_failed(
                cancelled,
            ),
            (LoopPhase::Executing { assistant, .. }, LoopInput::Executed(result)) => self.executed(
                assistant,
                result,
            ),
            (LoopPhase::Executing { assistant, call }, LoopInput::ExecuteFailed(err)) => {
                let result = error_tool_result(&call, err);
                self.executed(assistant, result)
            },
            (LoopPhase::Stopping, LoopInput::Stop(stop)) => if stop {
                self.over(no_events())
            } else {
                self.turned = true;
                self.wait(no_events(), LoopPhase::Steering, LoopAsk::Steering)
            },
            (LoopPhase::Following, LoopInput::FollowUp(messages)) => {
                assert(messages@.len() == messages.deep_view().len());
                if messages.len() > 0 {
                    self.more_tools = true;
                    self.turn(messages)
                } else {
                    self.over(no_events())
                }
            },
            _ => self.over(no_events()),
        }
    }
}

/// The messages of a loop, where an event ends it.
pub fn end_messages(event: &AgentEvent) -> (r: Option<Vec<AgentMessage>>)
    ensures
        r.deep_view() == (match event.deep_view() {
            AgentEventView::AgentEnd { messages } => Some(messages),
            _ => None,
        }),
{
    match event {
        AgentEvent::AgentEnd { messages } => Some(messages.dup()),
        _ => None,
    }
}

/// How many events start a turn, less how many end one.
pub open spec fn open_turns(events: Seq<AgentEventView>) -> int
    decreases events.len(),
{
    if events.len() == 0 {
        0
    } else {
        open_turns(events.drop_last()) + match events.last() {
            AgentEventView::TurnStart => 1int,
            AgentEventView::TurnEnd { .. } => -1,
            _ => 0,
        }
    }
}

/// How many turns are open where the loop is: at most one.
pub open spec fn turns_open(run: LoopRunView) -> int {
    match run.phase {
        LoopPhaseView::Streaming | LoopPhaseView::Executing { .. } => 1,
        LoopPhaseView::Steering => if run.turned {
            0
        } else {
            1
        },
        _ => 0,
    }
}

/// Whether the loop can be where it is: every call of the turn is answered, being run, or still to
/// be run; and a loop that has no turn behind it has one before it.
pub open spec fn loop_inv(run: LoopRunView) -> bool {
    &&& run.phase matches LoopPhaseView::Executing { assistant, .. } ==> run.results.len() + 1
        + run.calls.len() == tool_parts(assistant).len()
    &&& !run.turned ==> run.more_tools || run.phase is Stopping || run.phase is Over
    &&& run.phase is Following ==> run.turned
}

proof fn lemma_open_turns_add(a: Seq<AgentEventView>, b: Seq<AgentEventView>)
    ensures
        open_turns(a + b) == open_turns(a) + open_turns(b),
    decreases b.len(),
{
    if b.len() == 0 {
        assert(a + b =~= a);
    } else {
        assert((a + b).drop_last() =~= a + b.drop_last());
        lemma_open_turns_add(a, b.drop_last());
    }
}

proof fn lemma_pair_is_quiet(message: AgentMessageView)
    ensures
        open_turns(pair(message)) == 0,
{
    reveal_with_fuel(open_turns, 3);
}

proof fn lemma_pairs_are_quiet(messages: Seq<AgentMessageView>)
    ensures
        open_turns(pairs(messages)) == 0,
        forall|i: int|
            0 <= i < pairs(messages).len() ==> !(#[trigger] pairs(messages)[i] is AgentEnd),
    decreases messages.len(),
{
    if messages.len() > 0 {
        lemma_pairs_are_quiet(messages.drop_last());
        lemma_pair_is_quiet(messages.last());
        lemma_open_turns_add(pairs(messages.drop_last()), pair(messages.last()));
    }
}

proof fn lemma_one_more(events: Seq<AgentEventView>, event: AgentEventView)
    ensures
        open_turns(events.push(event)) == open_turns(events) + match event {
            AgentEventView::TurnStart => 1int,
            AgentEventView::TurnEnd { .. } => -1,
            _ => 0,
        },
{
    assert(events.push(event).drop_last() =~= events);
}

proof fn lemma_turn(run: LoopRunView, pending: Seq<AgentMessageView>)
    ensures
        open_turns(run.turn(pending).events) == if run.turned {
            1int
        } else {
            0
        },
        forall|i: int|
            0 <= i < run.turn(pending).events.len() ==> !(#[trigger] run.turn(
                pending,
            ).events[i] is AgentEnd),
{
    lemma_pairs_are_quiet(pending);
    let first = if run.turned {
        seq![AgentEventView::TurnStart]
    } else {
        Seq::<AgentEventView>::empty()
    };
    lemma_open_turns_add(first, pairs(pending));
    reveal_with_fuel(open_turns, 2);
}

/// A loop starts with one open turn.
pub proof fn law_loop_starts_with_a_turn(
    prompts: Seq<AgentMessageView>,
    context: AgentContextView,
)
    ensures
        loop_started(prompts, context).events[0] == AgentEventView::AgentStart,
        open_turns(loop_started(prompts, context).events) == 1,
        turns_open(loop_started(prompts, context).run) == 1,
        loop_inv(loop_started(prompts, context).run),
{
    let first = seq![AgentEventView::AgentStart, AgentEventView::TurnStart];
    lemma_pairs_are_quiet(prompts);
    lemma_open_turns_add(first, pairs(prompts));
    reveal_with_fuel(open_turns, 3);
}

/// Turns open and close one after the other: a step starts and ends as many as the loop's place
/// before and after it says.
pub proof fn law_turns_are_balanced(run: LoopRunView, input: LoopInputView)
    requires
        loop_inv(run),
        run.expects(input),
    ensures
        open_turns(run.step(input).events) == turns_open(run.step(input).run) - turns_open(run),
        loop_inv(run.step(input).run),
{
    reveal_with_fuel(open_turns, 3);
    let none = Seq::<AgentEventView>::empty();
    match (run.phase, input) {
        (LoopPhaseView::Steering, LoopInputView::Steering(pending)) => {
            lemma_turn(run, pending);
        },
        (LoopPhaseView::Following, LoopInputView::FollowUp(messages)) => {
            lemma_turn(LoopRunView { more_tools: true, ..run }, messages);
            lemma_one_more(none, AgentEventView::AgentEnd { messages: run.new_messages });
        },
        (LoopPhaseView::Streaming, LoopInputView::Streamed(context, assistant)) => {
            let end = AgentEventView::TurnEnd { message: assistant, tool_results: Seq::empty() };
            lemma_one_more(none, end);
            lemma_one_more(
                seq![end],
                AgentEventView::AgentEnd { messages: run.new_messages.push(assistant) },
            );
            assert(none.push(end) =~= seq![end]);
        },
        (LoopPhaseView::Streaming, LoopInputView::StreamFailed { cancelled }) => {
            let events = run.step(input).events;
            lemma_one_more(none, events[0]);
            lemma_one_more(seq![events[0]], events[1]);
            assert(none.push(events[0]) =~= seq![events[0]]);
            assert(events =~= seq![events[0]].push(events[1]));
        },
        (LoopPhaseView::Executing { assistant, call }, _) => {
            let result = match input {
                LoopInputView::Executed(result) => result,
                LoopInputView::ExecuteFailed(err) => failed_result(call, err),
                _ => arbitrary(),
            };
            lemma_pair_is_quiet(result);
            let end = AgentEventView::TurnEnd {
                message: assistant,
                tool_results: run.results.push(result),
            };
            lemma_one_more(pair(result), end);
        },
        (LoopPhaseView::Stopping, LoopInputView::Stop(stop)) => {
            lemma_one_more(none, AgentEventView::AgentEnd { messages: run.new_messages });
        },
        _ => {},
    }
}

/// A run ends with one last event, which has the messages of the run, and returns just those; no
/// other step says that the run is over.
pub proof fn law_end_has_the_messages(run: LoopRunView, input: LoopInputView)
    requires
        run.expects(input),
    ensures
        ({
            let t = run.step(input);
            let end = AgentEventView::AgentEnd { messages: t.run.new_messages };
            if t.run.phase is Over {
                t.events.len() > 0 && t.events.last() == end && t.ask == LoopAskView::Return(
                    t.run.new_messages,
                )
            } else {
                &&& !(t.ask is Return)
                &&& forall|i: int|
                    0 <= i < t.events.len() ==> !(#[trigger] t.events[i] is AgentEnd)
            }
        }),
{
    match (run.phase, input) {
        (LoopPhaseView::Steering, LoopInputView::Steering(pending)) => {
            lemma_turn(run, pending);
        },
        (LoopPhaseView::Following, LoopInputView::FollowUp(messages)) => {
            lemma_turn(LoopRunView { more_tools: true, ..run }, messages);
        },
        _ => {},
    }
}

/// The messages of a run are only added to.
pub proof fn law_messages_grow(run: LoopRunView, input: LoopInputView)
    requires
        run.expects(input),
    ensures
        run.new_messages.is_prefix_of(run.step(input).run.new_messages),
{
}

/// When a turn is over, each of its tool calls has its result.
pub proof fn law_calls_are_answered(run: LoopRunView, input: LoopInputView)
    requires
        loop_inv(run),
        run.expects(input),
    ensures
        run.step(input).ask matches LoopAskView::ShouldStop(turn) ==> turn.tool_results.len()
            == tool_parts(turn.message).len(),
{
}

/// A run whose stream fails ends, and its last message says whether it was cancelled.
pub proof fn law_failed_stream_ends_the_run(run: LoopRunView, cancelled: bool)
    requires
        run.phase is Streaming,
    ensures
        ({
            let t = run.step(LoopInputView::StreamFailed { cancelled });
            &&& t.run.phase is Over
            &&& t.run.new_messages.last() == AgentMessageView::Assistant {
                parts: Seq::empty(),
                stop_reason: if cancelled {
                    StopReason::Aborted
                } else {
                    StopReason::Error
                },
            }
        }),
{
}

} // verus!
