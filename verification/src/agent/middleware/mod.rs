//! What runs before each call of the model.

pub mod chain;
pub mod laws;
pub mod time_context;

use vstd::prelude::*;

use crate::agent::error::{OrchestratorError, OrchestratorErrorView};
use crate::agent::middleware::time_context::TimeContextMiddleware;
use crate::agent::summarize::{
    asked_for, maybe_summarize, outcome_view, summarized, summary_request, text_view,
    SummarizeError, SummarizeOutcome, SummarizeOutcomeView,
};
use crate::config::ContextConfig;
use crate::dup::{push_all, push_last, Dup};
use crate::protocol::{SseEvent, SseEventView, WireMessage, WireMessageView};
use crate::store::PendingTool;

verus! {

/// What a middleware asks of the loop.
#[derive(Debug, PartialEq)]
pub struct MwEffect {
    pub events: Vec<SseEvent>,
    /// Whether the context is to be saved.
    pub checkpoint: bool,
}

/// What a `MwEffect` is.
#[verifier::ext_equal]
pub struct MwEffectView {
    pub events: Seq<SseEventView>,
    pub checkpoint: bool,
}

impl DeepView for MwEffect {
    type V = MwEffectView;

    open spec fn deep_view(&self) -> MwEffectView {
        MwEffectView {
            events: self.events.deep_view(),
            checkpoint: self.checkpoint,
        }
    }
}

impl Dup for MwEffect {
    fn dup(&self) -> (r: Self) {
        MwEffect {
            events: self.events.dup(),
            checkpoint: self.checkpoint,
        }
    }
}

/// What the loop does after a middleware.
#[derive(Debug, PartialEq)]
pub enum MwAction {
    Continue(MwEffect),
}

/// What `MwAction` is.
#[verifier::ext_equal]
pub enum MwActionView {
    Continue(MwEffectView),
}

impl DeepView for MwAction {
    type V = MwActionView;

    open spec fn deep_view(&self) -> MwActionView {
        match self {
            MwAction::Continue(x) => MwActionView::Continue(x.deep_view()),
        }
    }
}

pub open spec fn no_effect() -> MwEffectView {
    MwEffectView { events: Seq::empty(), checkpoint: false }
}

impl MwEffectView {
    /// Both effects: the events in order, and a checkpoint if either asks for one.
    pub open spec fn merged(self, more: MwEffectView) -> Self {
        MwEffectView {
            events: self.events + more.events,
            checkpoint: self.checkpoint || more.checkpoint,
        }
    }
}

impl MwEffect {
    /// No effect.
    pub fn none() -> (r: Self)
        ensures
            r.deep_view() == no_effect(),
    {
        let r = MwEffect { events: Vec::new(), checkpoint: false };
        assert(r.events.deep_view() =~= Seq::<SseEventView>::empty());
        r
    }
}

pub type MwResult = Result<MwAction, OrchestratorError>;

pub type MwResultView = Result<MwActionView, OrchestratorErrorView>;

pub open spec fn mw_view(r: MwResult) -> MwResultView {
    match r {
        Ok(action) => Ok(action.deep_view()),
        Err(err) => Err(err.deep_view()),
    }
}

pub open spec fn mw_views(s: Seq<MwResult>) -> Seq<MwResultView> {
    Seq::new(s.len(), |i: int| mw_view(s[i]))
}

/// The effect of a chain, or its first error.
pub open spec fn chain_effect(outcomes: Seq<MwResultView>) -> Result<
    MwEffectView,
    OrchestratorErrorView,
>
    decreases outcomes.len(),
{
    if outcomes.len() == 0 {
        Ok(no_effect())
    } else {
        match chain_effect(outcomes.drop_last()) {
            Err(err) => Err(err),
            Ok(effect) => match outcomes.last() {
                Err(err) => Err(err),
                Ok(MwActionView::Continue(more)) => Ok(effect.merged(more)),
            },
        }
    }
}

proof fn lemma_chain_error_stays(outcomes: Seq<MwResultView>, k: int)
    requires
        0 <= k <= outcomes.len(),
        chain_effect(outcomes.take(k)) is Err,
    ensures
        chain_effect(outcomes) == chain_effect(outcomes.take(k)),
    decreases outcomes.len() - k,
{
    if k == outcomes.len() {
        assert(outcomes.take(k) =~= outcomes);
    } else {
        assert(outcomes.take(k + 1).drop_last() =~= outcomes.take(k));
        lemma_chain_error_stays(outcomes, k + 1);
    }
}

/// Merges what the middlewares of a chain returned, in order; the chain stops at an error.
pub fn run_before_llm(outcomes: Vec<MwResult>) -> (r: Result<MwEffect, OrchestratorError>)
    ensures
        match r {
            Ok(effect) => chain_effect(mw_views(outcomes@)) == Ok::<_, OrchestratorErrorView>(
                effect.deep_view(),
            ),
            Err(err) => chain_effect(mw_views(outcomes@)) == Err::<MwEffectView, _>(
                err.deep_view(),
            ),
        },
{
    let ghost all = mw_views(outcomes@);
    let mut merged = MwEffect::none();
    let mut i: usize = 0;
    assert(all.take(0) =~= Seq::<MwResultView>::empty());
    while i < outcomes.len()
        invariant
            i <= outcomes@.len(),
            all == mw_views(outcomes@),
            chain_effect(all.take(i as int)) == Ok::<_, OrchestratorErrorView>(
                merged.deep_view(),
            ),
        decreases outcomes@.len() - i,
    {
        proof {
            assert(all.take(i + 1).drop_last() =~= all.take(i as int));
            assert(all.take(i + 1).last() == mw_view(outcomes@[i as int]));
        }
        match &outcomes[i] {
            Ok(MwAction::Continue(effect)) => {
                push_all(&mut merged.events, effect.events.dup());
                merged.checkpoint = merged.checkpoint || effect.checkpoint;
            },
            Err(err) => {
                proof {
                    lemma_chain_error_stays(all, i + 1);
                }
                return Err(err.dup());
            },
        }
        i = i + 1;
    }
    assert(all.take(all.len() as int) =~= all);
    Ok(merged)
}

/// Summarises a context that has grown over the threshold.
#[derive(Debug, Clone, Copy, PartialEq, Eq, Structural)]
pub struct SummarizeMiddleware {
    pub config: ContextConfig,
}

impl SummarizeMiddleware {
    pub fn name(&self) -> (r: &'static str)
        ensures
            r@ == "summarize"@,
    {
        "summarize"
    }

    /// What to ask the model before `before_llm`; `None` where it need not be asked.
    pub fn request(&self, context: &Vec<WireMessage>, pending: Option<&PendingTool>) -> (r: Option<
        Vec<WireMessage>,
    >)
        ensures
            r.deep_view() == asked_for(context.deep_view(), self.config, pending.deep_view()),
    {
        summary_request(context, &self.config, pending)
    }

    /// Shortens the context where it is too long. `reply` is what the model answered to `request`.
    pub fn before_llm(
        &self,
        run_id: &str,
        context: &mut Vec<WireMessage>,
        pending: Option<&PendingTool>,
        reply: Result<String, String>,
    ) -> (r: MwResult)
        ensures
            ({
                let outcome = summarized(
                    old(context).deep_view(),
                    self.config,
                    pending.deep_view(),
                    text_view(reply),
                );
                &&& mw_view(r) == summary_action(run_id@, outcome)
                &&& final(context).deep_view() == summary_context(old(context).deep_view(), outcome)
            }),
    {
        let outcome = maybe_summarize(context, &self.config, pending, reply);
        apply_summary(run_id, context, outcome)
    }
}

/// A middleware of the default chain.
#[derive(Debug, Clone, Copy, PartialEq, Eq, Structural)]
pub enum Middleware {
    Summarize(SummarizeMiddleware),
    TimeContext(TimeContextMiddleware),
}

/// The default chain: summarise where the context is over the threshold, then refresh the time.
pub fn default_summarize_chain(cfg: ContextConfig) -> (r: Vec<Middleware>)
    ensures
        r@ == seq![
            Middleware::Summarize(SummarizeMiddleware { config: cfg }),
            Middleware::TimeContext(TimeContextMiddleware),
        ],
{
    vec![
        Middleware::Summarize(SummarizeMiddleware { config: cfg }),
        Middleware::TimeContext(TimeContextMiddleware),
    ]
}

impl Middleware {
    pub open spec fn label(self) -> Seq<char> {
        match self {
            Middleware::Summarize(_) => "summarize"@,
            Middleware::TimeContext(_) => "time_context"@,
        }
    }

    pub fn name(&self) -> (r: &'static str)
        ensures
            r@ == self.label(),
    {
        match self {
            Middleware::Summarize(middleware) => middleware.name(),
            Middleware::TimeContext(middleware) => middleware.name(),
        }
    }
}

/// What the summary middleware returns for an outcome.
pub open spec fn summary_action(
    run_id: Seq<char>,
    outcome: Result<SummarizeOutcomeView, SummarizeError>,
) -> MwResultView {
    match outcome {
        Ok(SummarizeOutcomeView::Unchanged) => Ok(MwActionView::Continue(no_effect())),
        Ok(
            SummarizeOutcomeView::Summarized {
                before_tokens,
                after_tokens,
                kept_prefix,
                kept_suffix,
                ..
            },
        ) => Ok(
            MwActionView::Continue(
                MwEffectView {
                    events: seq![
                        SseEventView::ContextSummarized {
                            run_id,
                            before_tokens,
                            after_tokens,
                            kept_prefix,
                            kept_suffix,
                        },
                    ],
                    checkpoint: true,
                },
            ),
        ),
        Err(_) => Err(OrchestratorErrorView::ContextOverflow),
    }
}

/// The context after the summary middleware.
pub open spec fn summary_context(
    context: Seq<WireMessageView>,
    outcome: Result<SummarizeOutcomeView, SummarizeError>,
) -> Seq<WireMessageView> {
    match outcome {
        Ok(SummarizeOutcomeView::Summarized { context: shorter, .. }) => shorter,
        _ => context,
    }
}

/// Puts the outcome of summarising into effect.
fn apply_summary(
    run_id: &str,
    context: &mut Vec<WireMessage>,
    outcome: Result<SummarizeOutcome, SummarizeError>,
) -> (r: MwResult)
    ensures
        mw_view(r) == summary_action(run_id@, outcome_view(outcome)),
        final(context).deep_view() == summary_context(
            old(context).deep_view(),
            outcome_view(outcome),
        ),
{
    match outcome {
        Ok(SummarizeOutcome::Unchanged) => Ok(MwAction::Continue(MwEffect::none())),
        Ok(
            SummarizeOutcome::Summarized {
                context: shorter,
                before_tokens,
                after_tokens,
                kept_prefix,
                kept_suffix,
            },
        ) => {
            *context = shorter;
            let mut effect = MwEffect::none();
            push_last(
                &mut effect.events,
                SseEvent::ContextSummarized {
                    run_id: run_id.to_owned(),
                    before_tokens,
                    after_tokens,
                    kept_prefix,
                    kept_suffix,
                },
            );
            effect.checkpoint = true;
            assert(effect.deep_view().events =~= seq![
                SseEventView::ContextSummarized {
                    run_id: run_id@,
                    before_tokens,
                    after_tokens,
                    kept_prefix,
                    kept_suffix,
                },
            ]);
            Ok(MwAction::Continue(effect))
        },
        Err(SummarizeError::ContextOverflow { .. }) => Err(OrchestratorError::ContextOverflow),
    }
}

} // verus!
