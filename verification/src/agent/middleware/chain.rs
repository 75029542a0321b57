//! A chain of middlewares, as a machine that says what it needs next and is told what came of it.
//!
//! The middlewares run in order, each on the context that those before it left; the chain stops at
//! the first that fails.

use vstd::prelude::*;

use crate::agent::error::OrchestratorErrorView;
use crate::agent::middleware::time_context::{time_text, timed, LocalTime, LocalTimeView};
use crate::agent::middleware::{
    chain_effect, mw_view, mw_views, no_effect, run_before_llm, summary_action, summary_context,
    Middleware, MwActionView, MwEffectView, MwResult, MwResultView,
};
use crate::agent::orchestrator::laws::says_over;
use crate::agent::orchestrator::rules::emitted;
use crate::agent::orchestrator::state::{Happening, HappeningView};
use crate::agent::summarize::{asked_for, summarized, text_view};
use crate::protocol::{WireMessage, WireMessageView};
use crate::store::{PendingTool, PendingToolView};

verus! {

/// A chain of middlewares that is under way.
#[derive(Debug, PartialEq)]
pub struct ChainRun {
    pub run_id: String,
    pub middlewares: Vec<Middleware>,
    /// The client tool that the run waits for.
    pub pending: Option<PendingTool>,
    /// The context as the middlewares that ran left it.
    pub context: Vec<WireMessage>,
    /// What the middlewares that ran returned.
    pub outcomes: Vec<MwResult>,
}

/// What a `ChainRun` is.
#[verifier::ext_equal]
pub struct ChainRunView {
    pub run_id: Seq<char>,
    pub middlewares: Seq<Middleware>,
    pub pending: Option<PendingToolView>,
    pub context: Seq<WireMessageView>,
    pub outcomes: Seq<MwResultView>,
}

impl DeepView for ChainRun {
    type V = ChainRunView;

    open spec fn deep_view(&self) -> ChainRunView {
        ChainRunView {
            run_id: self.run_id@,
            middlewares: self.middlewares@,
            pending: self.pending.deep_view(),
            context: self.context.deep_view(),
            outcomes: mw_views(self.outcomes@),
        }
    }
}

/// What the next middleware of a chain needs.
#[derive(Debug, PartialEq)]
pub enum ChainAsk {
    /// The local time.
    Time,
    /// What the model replies to a prompt, where there is one to ask.
    Summary(Option<Vec<WireMessage>>),
    /// The chain is over.
    End,
}

/// What `ChainAsk` is.
#[verifier::ext_equal]
pub enum ChainAskView {
    Time,
    Summary(Option<Seq<WireMessageView>>),
    End,
}

impl DeepView for ChainAsk {
    type V = ChainAskView;

    open spec fn deep_view(&self) -> ChainAskView {
        match self {
            ChainAsk::Time => ChainAskView::Time,
            ChainAsk::Summary(x) => ChainAskView::Summary(x.deep_view()),
            ChainAsk::End => ChainAskView::End,
        }
    }
}

/// What came of it.
#[derive(Debug, PartialEq)]
pub enum ChainEvent {
    Time(LocalTime),
    /// The text with which the model replied, or why there is none. It is not read where there was
    /// no prompt.
    Reply(Result<String, String>),
}

/// What `ChainEvent` is.
#[verifier::ext_equal]
pub enum ChainEventView {
    Time(LocalTimeView),
    Reply(Result<Seq<char>, Seq<char>>),
}

impl DeepView for ChainEvent {
    type V = ChainEventView;

    open spec fn deep_view(&self) -> ChainEventView {
        match self {
            ChainEvent::Time(x) => ChainEventView::Time(x.deep_view()),
            ChainEvent::Reply(x) => ChainEventView::Reply(text_view(*x)),
        }
    }
}

/// A chain of which no middleware has run.
pub open spec fn fresh_chain(
    run_id: Seq<char>,
    middlewares: Seq<Middleware>,
    pending: Option<PendingToolView>,
    context: Seq<WireMessageView>,
) -> ChainRunView {
    ChainRunView { run_id, middlewares, pending, context, outcomes: Seq::empty() }
}

impl ChainRunView {
    /// Whether every middleware ran, or one failed.
    pub open spec fn is_over(self) -> bool {
        self.outcomes.len() >= self.middlewares.len() || (self.outcomes.len() > 0
            && self.outcomes.last() is Err)
    }

    pub open spec fn next(self) -> Middleware {
        self.middlewares[self.outcomes.len() as int]
    }

    /// What the next middleware needs.
    pub open spec fn ask(self) -> ChainAskView {
        if self.is_over() {
            ChainAskView::End
        } else {
            match self.next() {
                Middleware::TimeContext(_) => ChainAskView::Time,
                Middleware::Summarize(middleware) => ChainAskView::Summary(
                    asked_for(self.context, middleware.config, self.pending),
                ),
            }
        }
    }

    /// Whether this is what the chain asked for.
    pub open spec fn expects(self, event: ChainEventView) -> bool {
        match self.ask() {
            ChainAskView::Time => event is Time,
            ChainAskView::Summary(_) => event is Reply,
            ChainAskView::End => false,
        }
    }

    /// The chain after one more middleware.
    pub open spec fn step(self, event: ChainEventView) -> Self {
        match (self.next(), event) {
            (Middleware::TimeContext(_), ChainEventView::Time(now)) => ChainRunView {
                context: timed(self.context, time_text(now)),
                outcomes: self.outcomes.push(Ok(MwActionView::Continue(no_effect()))),
                ..self
            },
            (Middleware::Summarize(middleware), ChainEventView::Reply(reply)) => {
                let outcome = summarized(self.context, middleware.config, self.pending, reply);
                ChainRunView {
                    context: summary_context(self.context, outcome),
                    outcomes: self.outcomes.push(summary_action(self.run_id, outcome)),
                    ..self
                }
            },
            _ => self,
        }
    }

    /// What a chain that is over tells the loop: the context as it left it, and its effect or its
    /// error.
    pub open spec fn happening(self) -> HappeningView {
        match chain_effect(self.outcomes) {
            Ok(effect) => HappeningView::MiddlewareDone(self.context, effect),
            Err(err) => HappeningView::MiddlewareFailed(self.context, err),
        }
    }
}

impl ChainRun {
    /// A chain of which no middleware has run.
    pub fn new(
        run_id: String,
        middlewares: Vec<Middleware>,
        pending: Option<PendingTool>,
        context: Vec<WireMessage>,
    ) -> (r: Self)
        ensures
            r.deep_view() == fresh_chain(
                run_id@,
                middlewares@,
                pending.deep_view(),
                context.deep_view(),
            ),
    {
        let r = ChainRun { run_id, middlewares, pending, context, outcomes: Vec::new() };
        assert(mw_views(r.outcomes@) =~= Seq::<MwResultView>::empty());
        r
    }

    fn is_over(&self) -> (r: bool)
        ensures
            r == self.deep_view().is_over(),
    {
        let ran: usize = self.outcomes.len();
        ran >= self.middlewares.len() || (ran > 0 && self.outcomes[ran - 1].is_err())
    }

    /// What the next middleware needs.
    pub fn ask(&self) -> (r: ChainAsk)
        ensures
            r.deep_view() == self.deep_view().ask(),
    {
        if self.is_over() {
            return ChainAsk::End;
        }
        match self.middlewares[self.outcomes.len()] {
            Middleware::TimeContext(_) => ChainAsk::Time,
            Middleware::Summarize(middleware) => ChainAsk::Summary(
                middleware.request(&self.context, self.pending.as_ref()),
            ),
        }
    }

    /// Whether this is what the chain asked for.
    pub fn is_expected(&self, event: &ChainEvent) -> (r: bool)
        ensures
            r == self.deep_view().expects(event.deep_view()),
    {
        if self.is_over() {
            return false;
        }
        match self.middlewares[self.outcomes.len()] {
            Middleware::TimeContext(_) => matches!(event, ChainEvent::Time(_)),
            Middleware::Summarize(_) => matches!(event, ChainEvent::Reply(_)),
        }
    }

    /// Runs the next middleware.
    pub fn step(&mut self, event: ChainEvent)
        requires
            old(self).deep_view().expects(event.deep_view()),
        ensures
            final(self).deep_view() == old(self).deep_view().step(event.deep_view()),
    {
        let ghost before = mw_views(self.outcomes@);
        let outcome = match (self.middlewares[self.outcomes.len()], event) {
            (Middleware::TimeContext(middleware), ChainEvent::Time(now)) => {
                middleware.before_llm_at(&mut self.context, &now)
            },
            (Middleware::Summarize(middleware), ChainEvent::Reply(reply)) => middleware.before_llm(
                self.run_id.as_str(),
                &mut self.context,
                self.pending.as_ref(),
                reply,
            ),
            _ => {
                return ;
            },
        };
        self.outcomes.push(outcome);
        assert(mw_views(self.outcomes@) =~= before.push(mw_view(outcome)));
    }

    /// What a chain that is over tells the loop.
    pub fn into_happening(self) -> (r: Happening)
        requires
            self.deep_view().is_over(),
        ensures
            r.deep_view() == self.deep_view().happening(),
    {
        match run_before_llm(self.outcomes) {
            Ok(effect) => Happening::MiddlewareDone(self.context, effect),
            Err(err) => Happening::MiddlewareFailed(self.context, err),
        }
    }
}

/// Whether an outcome sends nothing but that the context was summarised.
pub open spec fn sends_summaries(outcome: MwResultView) -> bool {
    outcome matches Ok(MwActionView::Continue(effect)) ==> only_summaries(effect)
}

pub open spec fn only_summaries(effect: MwEffectView) -> bool {
    forall|i: int| 0 <= i < effect.events.len() ==> #[trigger] effect.events[i] is ContextSummarized
}

/// Whether a chain can have come this far: only the middleware that ran last can have failed.
pub open spec fn chain_inv(chain: ChainRunView) -> bool {
    &&& chain.outcomes.len() <= chain.middlewares.len()
    &&& forall|i: int| 0 <= i < chain.outcomes.len() - 1 ==> #[trigger] chain.outcomes[i] is Ok
    &&& forall|i: int|
        0 <= i < chain.outcomes.len() ==> sends_summaries(#[trigger] chain.outcomes[i])
}

/// A new chain has failed nowhere.
pub proof fn law_chain_begins(
    run_id: Seq<char>,
    middlewares: Seq<Middleware>,
    pending: Option<PendingToolView>,
    context: Seq<WireMessageView>,
)
    ensures
        chain_inv(fresh_chain(run_id, middlewares, pending, context)),
{
}

/// Each step runs one middleware, the next of the chain, so that the chain ends; nothing runs after
/// one that failed.
pub proof fn law_chain_goes_on(chain: ChainRunView, event: ChainEventView)
    requires
        chain_inv(chain),
        chain.expects(event),
    ensures
        chain_inv(chain.step(event)),
        chain.step(event).middlewares == chain.middlewares,
        chain.step(event).outcomes.len() == chain.outcomes.len() + 1,
        chain.step(event).outcomes.drop_last() == chain.outcomes,
        chain.step(event).outcomes.last() is Err ==> chain.step(event).ask() is End,
        chain.step(event).outcomes.len() == chain.middlewares.len() ==> chain.step(event).ask()
            is End,
{
    let next = chain.step(event);
    assert(next.outcomes.drop_last() =~= chain.outcomes);
    assert forall|i: int| 0 <= i < next.outcomes.len() implies sends_summaries(
        #[trigger] next.outcomes[i],
    ) && (i < next.outcomes.len() - 1 ==> next.outcomes[i] is Ok) by {
        if i < chain.outcomes.len() {
            assert(next.outcomes[i] == chain.outcomes[i]);
            if i == chain.outcomes.len() - 1 {
                assert(chain.outcomes.last() == chain.outcomes[i]);
            }
        }
    }
}

proof fn lemma_chain_effect(outcomes: Seq<MwResultView>)
    requires
        forall|i: int| 0 <= i < outcomes.len() - 1 ==> #[trigger] outcomes[i] is Ok,
        forall|i: int| 0 <= i < outcomes.len() ==> sends_summaries(#[trigger] outcomes[i]),
    ensures
        chain_effect(outcomes) matches Ok(effect) ==> only_summaries(effect),
        chain_effect(outcomes) is Err <==> outcomes.len() > 0 && outcomes.last() is Err,
        chain_effect(outcomes) matches Err(err) ==> outcomes.last() == Err::<MwActionView, _>(err),
    decreases outcomes.len(),
{
    if outcomes.len() > 0 {
        let before = outcomes.drop_last();
        lemma_chain_effect(before);
        assert(before.len() > 0 ==> before.last() == outcomes[before.len() - 1]);
        assert(sends_summaries(outcomes[outcomes.len() - 1]));
        if let Ok(effect) = chain_effect(before) {
            if let Ok(MwActionView::Continue(more)) = outcomes.last() {
                let merged = effect.merged(more);
                assert forall|i: int|
                    0 <= i < merged.events.len() implies #[trigger] merged.events[i]
                    is ContextSummarized by {
                    if i < effect.events.len() {
                        assert(merged.events[i] == effect.events[i]);
                    } else {
                        assert(merged.events[i] == more.events[i - effect.events.len()]);
                    }
                }
            }
        }
    }
}

/// A chain fails exactly where a middleware failed, with the error of that one; and it sends
/// nothing that says that the run is over.
pub proof fn law_chain_ends(chain: ChainRunView)
    requires
        chain_inv(chain),
        chain.is_over(),
    ensures
        match chain.happening() {
            HappeningView::MiddlewareDone(context, effect) => {
                &&& chain.outcomes.len() == chain.middlewares.len()
                &&& forall|i: int|
                    0 <= i < chain.outcomes.len() ==> #[trigger] chain.outcomes[i] is Ok
                &&& context == chain.context
                &&& only_summaries(effect)
                &&& forall|i: int|
                    0 <= i < emitted(effect.events).len() ==> !says_over(
                        #[trigger] emitted(effect.events)[i],
                    )
            },
            HappeningView::MiddlewareFailed(context, err) => {
                &&& chain.outcomes.len() > 0
                &&& chain.outcomes.last() == Err::<MwActionView, OrchestratorErrorView>(err)
                &&& context == chain.context
            },
            _ => false,
        },
{
    lemma_chain_effect(chain.outcomes);
    if chain.outcomes.len() > 0 {
        assert(chain.outcomes.last() == chain.outcomes[chain.outcomes.len() - 1]);
    }
}

} // verus!
