//! Errors of the turn-based loop.

use vstd::prelude::*;

use crate::text::concat;

verus! {

/// Why the loop cannot go on.
#[derive(Debug, PartialEq)]
pub enum LoopError {
    InvalidContinue(String),
    Backend(String),
}

/// What `LoopError` is.
#[verifier::ext_equal]
pub enum LoopErrorView {
    InvalidContinue(Seq<char>),
    Backend(Seq<char>),
}

impl DeepView for LoopError {
    type V = LoopErrorView;

    open spec fn deep_view(&self) -> LoopErrorView {
        match self {
            LoopError::InvalidContinue(x) => LoopErrorView::InvalidContinue(x@),
            LoopError::Backend(x) => LoopErrorView::Backend(x@),
        }
    }
}

impl LoopErrorView {
    pub open spec fn message(self) -> Seq<char> {
        match self {
            LoopErrorView::InvalidContinue(err) => "invalid continue: "@ + err,
            LoopErrorView::Backend(err) => "backend error: "@ + err,
        }
    }
}

impl LoopError {
    /// The text of the error.
    pub fn message(&self) -> (r: String)
        ensures
            r@ == self.deep_view().message(),
    {
        match self {
            LoopError::InvalidContinue(err) => concat("invalid continue: ", err.as_str()),
            LoopError::Backend(err) => concat("backend error: ", err.as_str()),
        }
    }
}

} // verus!
