//! What the loop tells a backend of a turn.

use vstd::prelude::*;

use crate::types::{AgentMessage, AgentMessageView};

verus! {

/// A turn that is over.
#[derive(Debug, PartialEq)]
pub struct TurnSnapshot {
    pub message: AgentMessage,
    pub tool_results: Vec<AgentMessage>,
    pub context_messages_len: usize,
    pub new_messages: Vec<AgentMessage>,
}

/// What a `TurnSnapshot` is.
#[verifier::ext_equal]
pub struct TurnSnapshotView {
    pub message: AgentMessageView,
    pub tool_results: Seq<AgentMessageView>,
    pub context_messages_len: usize,
    pub new_messages: Seq<AgentMessageView>,
}

impl DeepView for TurnSnapshot {
    type V = TurnSnapshotView;

    open spec fn deep_view(&self) -> TurnSnapshotView {
        TurnSnapshotView {
            message: self.message.deep_view(),
            tool_results: self.tool_results.deep_view(),
            context_messages_len: self.context_messages_len,
            new_messages: self.new_messages.deep_view(),
        }
    }
}

} // verus!
