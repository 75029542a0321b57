//! Why a run ends early.

use vstd::prelude::*;

use crate::dup::Dup;
use crate::store::RunStatus;
use crate::text::concat;

verus! {

/// Why a run ends early.
#[derive(Debug, PartialEq)]
pub enum OrchestratorError {
    Llm(String),
    ToolTimeout,
    Cancelled,
    FollowUpLimit,
    /// Another instance has written the checkpoint.
    OwnershipLost,
    Store(String),
    ContextOverflow,
    /// A limit of the run was reached.
    Guard(&'static str),
}

/// What `OrchestratorError` is.
#[verifier::ext_equal]
pub enum OrchestratorErrorView {
    Llm(Seq<char>),
    ToolTimeout,
    Cancelled,
    FollowUpLimit,
    OwnershipLost,
    Store(Seq<char>),
    ContextOverflow,
    Guard(Seq<char>),
}

impl DeepView for OrchestratorError {
    type V = OrchestratorErrorView;

    open spec fn deep_view(&self) -> OrchestratorErrorView {
        match self {
            OrchestratorError::Llm(x) => OrchestratorErrorView::Llm(x@),
            OrchestratorError::ToolTimeout => OrchestratorErrorView::ToolTimeout,
            OrchestratorError::Cancelled => OrchestratorErrorView::Cancelled,
            OrchestratorError::FollowUpLimit => OrchestratorErrorView::FollowUpLimit,
            OrchestratorError::OwnershipLost => OrchestratorErrorView::OwnershipLost,
            OrchestratorError::Store(x) => OrchestratorErrorView::Store(x@),
            OrchestratorError::ContextOverflow => OrchestratorErrorView::ContextOverflow,
            OrchestratorError::Guard(x) => OrchestratorErrorView::Guard(x@),
        }
    }
}

impl Dup for OrchestratorError {
    fn dup(&self) -> (r: Self) {
        match self {
            OrchestratorError::Llm(x) => OrchestratorError::Llm(x.dup()),
            OrchestratorError::ToolTimeout => OrchestratorError::ToolTimeout,
            OrchestratorError::Cancelled => OrchestratorError::Cancelled,
            OrchestratorError::FollowUpLimit => OrchestratorError::FollowUpLimit,
            OrchestratorError::OwnershipLost => OrchestratorError::OwnershipLost,
            OrchestratorError::Store(x) => OrchestratorError::Store(x.dup()),
            OrchestratorError::ContextOverflow => OrchestratorError::ContextOverflow,
            OrchestratorError::Guard(x) => OrchestratorError::Guard(*x),
        }
    }
}

impl OrchestratorErrorView {
    pub open spec fn message(self) -> Seq<char> {
        match self {
            OrchestratorErrorView::Llm(err) => "llm error: "@ + err,
            OrchestratorErrorView::ToolTimeout => "tool wait timed out"@,
            OrchestratorErrorView::Cancelled => "run cancelled"@,
            OrchestratorErrorView::FollowUpLimit => "follow-up round limit exceeded"@,
            OrchestratorErrorView::OwnershipLost => "lost run ownership (checkpoint conflict)"@,
            OrchestratorErrorView::Store(err) => "checkpoint store error: "@ + err,
            OrchestratorErrorView::ContextOverflow => "context exceeded max_context_tokens"@,
            OrchestratorErrorView::Guard(reason) => "guard: "@ + reason,
        }
    }

    pub open spec fn code(self) -> Seq<char> {
        match self {
            OrchestratorErrorView::Llm(_) => "llm"@,
            OrchestratorErrorView::ToolTimeout => "timeout"@,
            OrchestratorErrorView::Cancelled => "cancelled"@,
            OrchestratorErrorView::FollowUpLimit => "follow_up_limit"@,
            OrchestratorErrorView::OwnershipLost => "not_owner"@,
            OrchestratorErrorView::Store(_) => "store"@,
            OrchestratorErrorView::ContextOverflow => "context_overflow"@,
            OrchestratorErrorView::Guard(reason) => reason,
        }
    }

    /// The status of a run that ends with the error.
    pub open spec fn terminal(self) -> RunStatus {
        match self {
            OrchestratorErrorView::Cancelled => RunStatus::Cancelled,
            _ => RunStatus::Failed,
        }
    }
}

impl OrchestratorError {
    /// The text of the error.
    pub fn message(&self) -> (r: String)
        ensures
            r@ == self.deep_view().message(),
    {
        match self {
            OrchestratorError::Llm(err) => concat("llm error: ", err.as_str()),
            OrchestratorError::ToolTimeout => "tool wait timed out".to_owned(),
            OrchestratorError::Cancelled => "run cancelled".to_owned(),
            OrchestratorError::FollowUpLimit => "follow-up round limit exceeded".to_owned(),
            OrchestratorError::OwnershipLost => "lost run ownership (checkpoint conflict)"
                .to_owned(),
            OrchestratorError::Store(err) => concat("checkpoint store error: ", err.as_str()),
            OrchestratorError::ContextOverflow => "context exceeded max_context_tokens".to_owned(),
            OrchestratorError::Guard(reason) => concat("guard: ", reason),
        }
    }
}

/// The code of an error on the wire.
pub fn error_code(err: &OrchestratorError) -> (r: &'static str)
    ensures
        r@ == err.deep_view().code(),
{
    match err {
        OrchestratorError::Llm(_) => "llm",
        OrchestratorError::ToolTimeout => "timeout",
        OrchestratorError::Cancelled => "cancelled",
        OrchestratorError::FollowUpLimit => "follow_up_limit",
        OrchestratorError::OwnershipLost => "not_owner",
        OrchestratorError::Store(_) => "store",
        OrchestratorError::ContextOverflow => "context_overflow",
        OrchestratorError::Guard(reason) => reason,
    }
}

/// The status of a run that ends with the error.
pub fn terminal_for(err: &OrchestratorError) -> (r: RunStatus)
    ensures
        r == err.deep_view().terminal(),
{
    match err {
        OrchestratorError::Cancelled => RunStatus::Cancelled,
        _ => RunStatus::Failed,
    }
}

/// A run that ends with an error is over.
pub proof fn law_error_is_terminal(err: OrchestratorErrorView)
    ensures
        err.terminal().terminal(),
        err.terminal() == RunStatus::Cancelled <==> err is Cancelled,
{
}

} // verus!
