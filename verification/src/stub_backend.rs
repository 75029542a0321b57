//! A backend that plays a script.

use vstd::prelude::*;

use crate::dup::{push_last, Dup};
use crate::error::{LoopError, LoopErrorView};
use crate::json::{Json, JsonValue};
use crate::liter_backend::{
    finish_tool, not_a_call, tool_ran, tool_started, ToolExecResult, ToolExecResultView,
};
use crate::text::{concat, dec, decimal};
use crate::types::{
    AgentContext, AgentContextView, AgentEvent, AgentEventView, AgentMessage, AgentMessageView,
    ContentPart, ContentPartView, StopReason,
};

verus! {

/// One scripted assistant turn.
#[derive(Debug, PartialEq)]
pub enum StubTurn {
    AssistantWithTool {
        name: String,
        args: JsonValue,
    },
    AssistantText(String),
}

/// What `StubTurn` is.
#[verifier::ext_equal]
pub enum StubTurnView {
    AssistantWithTool {
        name: Seq<char>,
        args: Json,
    },
    AssistantText(Seq<char>),
}

impl DeepView for StubTurn {
    type V = StubTurnView;

    open spec fn deep_view(&self) -> StubTurnView {
        match self {
            StubTurn::AssistantWithTool { name, args } => StubTurnView::AssistantWithTool {
                name: name@,
                args: args.deep_view(),
            },
            StubTurn::AssistantText(x) => StubTurnView::AssistantText(x@),
        }
    }
}

/// A backend that plays a script of turns, with made-up tool results.
#[derive(Debug)]
pub struct StubBackend {
    turns: Vec<StubTurn>,
    follow_ups: Vec<AgentMessage>,
    call_ids: u64,
}

/// What a `StubBackend` is.
#[verifier::ext_equal]
pub struct StubBackendView {
    pub turns: Seq<StubTurnView>,
    pub follow_ups: Seq<AgentMessageView>,
    pub call_ids: u64,
}

impl DeepView for StubBackend {
    type V = StubBackendView;

    closed spec fn deep_view(&self) -> StubBackendView {
        StubBackendView {
            turns: self.turns.deep_view(),
            follow_ups: self.follow_ups.deep_view(),
            call_ids: self.call_ids,
        }
    }
}

/// The message of a scripted turn; `n` is the number of its call.
pub open spec fn scripted(turn: StubTurnView, n: u64) -> AgentMessageView {
    match turn {
        StubTurnView::AssistantWithTool { name, args } => AgentMessageView::Assistant {
            parts: seq![
                ContentPartView::ToolCall { id: "call-"@ + dec(n as nat), name, arguments: args },
            ],
            stop_reason: StopReason::ToolCalls,
        },
        StubTurnView::AssistantText(text) => AgentMessageView::Assistant {
            parts: seq![ContentPartView::Text { text }],
            stop_reason: StopReason::Stop,
        },
    }
}

impl StubBackendView {
    /// After a turn is played.
    pub open spec fn after_turn(self) -> Self {
        if self.turns.len() == 0 {
            self
        } else {
            StubBackendView {
                turns: self.turns.skip(1),
                call_ids: if self.turns[0] is AssistantWithTool {
                    next_number(self.call_ids)
                } else {
                    self.call_ids
                },
                ..self
            }
        }
    }

    /// After a follow-up is asked for, and what there is.
    pub open spec fn after_follow_up(self) -> (Self, Seq<AgentMessageView>) {
        if self.follow_ups.len() == 0 {
            (self, Seq::empty())
        } else {
            (
                StubBackendView { follow_ups: self.follow_ups.skip(1), ..self },
                seq![self.follow_ups[0]],
            )
        }
    }
}

/// The number after `n`, which is zero after the last.
pub open spec fn next_number(n: u64) -> u64 {
    if n == u64::MAX {
        0
    } else {
        (n + 1) as u64
    }
}

/// What a scripted message is streamed as.
pub open spec fn streamed_events(message: AgentMessageView) -> Seq<AgentEventView> {
    seq![
        AgentEventView::MessageStart { message },
        AgentEventView::MessageUpdate { message },
        AgentEventView::MessageEnd { message },
    ]
}

/// What every tool gives.
pub open spec fn stub_outcome() -> ToolExecResultView {
    ToolExecResultView { content: "ok"@, is_error: false, terminate: false }
}

impl StubBackend {
    /// A backend that plays these turns.
    pub fn script(turns: Vec<StubTurn>) -> (r: Self)
        ensures
            r.deep_view() == (StubBackendView {
                turns: turns.deep_view(),
                follow_ups: Seq::empty(),
                call_ids: 0,
            }),
    {
        let r = StubBackend { turns, follow_ups: Vec::new(), call_ids: 0 };
        assert(r.follow_ups.deep_view() =~= Seq::<AgentMessageView>::empty());
        r
    }

    /// Adds a follow-up message, which is given out once.
    pub fn with_follow_up(self, message: AgentMessage) -> (r: Self)
        ensures
            r.deep_view() == (StubBackendView {
                follow_ups: self.deep_view().follow_ups.push(message.deep_view()),
                ..self.deep_view()
            }),
    {
        let mut backend = self;
        push_last(&mut backend.follow_ups, message);
        backend
    }

    fn next_call_id(&mut self) -> (r: String)
        ensures
            r@ == "call-"@ + dec(old(self).deep_view().call_ids as nat),
            final(self).deep_view() == (StubBackendView {
                call_ids: next_number(old(self).deep_view().call_ids),
                ..old(self).deep_view()
            }),
    {
        let n: u64 = self.call_ids;
        self.call_ids = n.wrapping_add(1);
        let number = decimal(n);
        concat("call-", number.as_str())
    }

    /// Plays the next turn: its message joins the context, and its events are given. Fails once
    /// the script is over.
    pub fn stream_assistant(&mut self, context: &mut AgentContext) -> (r: Result<
        (Vec<AgentEvent>, AgentMessage),
        LoopError,
    >)
        ensures
            ({
                let before = old(self).deep_view();
                if before.turns.len() == 0 {
                    &&& r matches Err(err) && err.deep_view() == LoopErrorView::Backend(
                        "stub script exhausted"@,
                    )
                    &&& final(self).deep_view() == before
                    &&& final(context).deep_view() == old(context).deep_view()
                } else {
                    let message = scripted(before.turns[0], before.call_ids);
                    &&& r matches Ok(played) && played.0.deep_view() == streamed_events(message)
                        && played.1.deep_view() == message
                    &&& final(self).deep_view() == (StubBackendView {
                        turns: before.turns.skip(1),
                        call_ids: if before.turns[0] is AssistantWithTool {
                            next_number(before.call_ids)
                        } else {
                            before.call_ids
                        },
                        ..before
                    })
                    &&& final(context).deep_view() == (AgentContextView {
                        messages: old(context).deep_view().messages.push(message),
                        ..old(context).deep_view()
                    })
                }
            }),
            final(self).deep_view() == old(self).deep_view().after_turn(),
    {
        let ghost all = self.turns.deep_view();
        assert(self.turns@.len() == all.len());
        if self.turns.len() == 0 {
            return Err(LoopError::Backend("stub script exhausted".to_owned()));
        }
        let turn = self.turns.remove(0);
        assert(self.turns.deep_view() =~= all.skip(1));
        let message = match turn {
            StubTurn::AssistantWithTool { name, args } => {
                let id = self.next_call_id();
                let parts = vec![ContentPart::ToolCall { id, name, arguments: args }];
                assert(parts.deep_view() =~= seq![parts@[0].deep_view()]);
                AgentMessage::Assistant { parts, stop_reason: StopReason::ToolCalls }
            },
            StubTurn::AssistantText(text) => {
                let parts = vec![ContentPart::Text { text }];
                assert(parts.deep_view() =~= seq![parts@[0].deep_view()]);
                AgentMessage::Assistant { parts, stop_reason: StopReason::Stop }
            },
        };
        let events = vec![
            AgentEvent::MessageStart { message: message.dup() },
            AgentEvent::MessageUpdate { message: message.dup() },
            AgentEvent::MessageEnd { message: message.dup() },
        ];
        assert(events.deep_view() =~= streamed_events(message.deep_view()));
        push_last(&mut context.messages, message.dup());
        Ok((events, message))
    }

    /// Runs a tool call: every tool gives `ok`, with the events of its start and its end.
    pub fn execute_tool(&self, call: &ContentPart) -> (r: Result<
        (Vec<AgentEvent>, AgentMessage),
        LoopError,
    >)
        ensures
            match call.deep_view() {
                ContentPartView::Text { .. } => r matches Err(err) && err.deep_view()
                    == not_a_call(),
                ContentPartView::ToolCall { id, name, arguments } => r matches Ok(ran)
                    && ran.0.deep_view() == seq![
                    tool_started(id, name, arguments),
                    tool_ran(id, name, stub_outcome()).0,
                ] && ran.1.deep_view() == tool_ran(id, name, stub_outcome()).1,
            },
    {
        match call {
            ContentPart::Text { .. } => Err(
                LoopError::Backend("execute_tool expected ToolCall content part".to_owned()),
            ),
            ContentPart::ToolCall { id, name, arguments } => {
                let start = AgentEvent::ToolExecutionStart {
                    tool_call_id: id.dup(),
                    tool_name: name.dup(),
                    args: arguments.dup(),
                };
                let outcome = ToolExecResult {
                    content: "ok".to_owned(),
                    is_error: false,
                    terminate: false,
                };
                let (end, message) = finish_tool(id, name, outcome);
                let events = vec![start, end];
                assert(events.deep_view() =~= seq![start.deep_view(), end.deep_view()]);
                Ok((events, message))
            },
        }
    }

    /// The next follow-up message, if there is one.
    pub fn get_follow_up(&mut self) -> (r: Vec<AgentMessage>)
        ensures
            ({
                let before = old(self).deep_view();
                if before.follow_ups.len() == 0 {
                    r.deep_view() == Seq::<AgentMessageView>::empty() && final(self).deep_view()
                        == before
                } else {
                    r.deep_view() == seq![before.follow_ups[0]] && final(self).deep_view() == (
                    StubBackendView { follow_ups: before.follow_ups.skip(1), ..before })
                }
            }),
            (final(self).deep_view(), r.deep_view()) == old(self).deep_view().after_follow_up(),
    {
        let ghost all = self.follow_ups.deep_view();
        assert(self.follow_ups@.len() == all.len());
        let mut out: Vec<AgentMessage> = Vec::new();
        assert(out.deep_view() =~= Seq::<AgentMessageView>::empty());
        if self.follow_ups.len() > 0 {
            let message = self.follow_ups.remove(0);
            assert(self.follow_ups.deep_view() =~= all.skip(1));
            push_last(&mut out, message);
            assert(out.deep_view() =~= seq![all[0]]);
        }
        out
    }
}

} // verus!
