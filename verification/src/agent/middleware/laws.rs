//! What holds of what runs before each call of the model, and of what the agent adds by itself.

use vstd::prelude::*;

use crate::agent::error::OrchestratorErrorView;
use crate::agent::follow_up::{
    any_succeeded, ExampleOrderFollowUp, FollowUpPolicy, NamedFollowUp, NoopFollowUp,
};
use crate::agent::middleware::chain::{ChainAskView, ChainEventView, ChainRunView};
use crate::agent::middleware::time_context::{
    tells_time, time_at, time_text, timed, two_digits, weekday_name, LocalTimeView,
    TIME_CONTEXT_PREFIX,
};
use crate::agent::middleware::{
    chain_effect, summary_action, summary_context, Middleware, MwActionView, MwResultView,
};
use crate::agent::summarize::{asked_for, summarized, SummarizeError, SummarizeOutcomeView};
use crate::protocol::{Role, SseEventView, WireMessageView};
use crate::text::{dec, dec_signed, digit, has_part, has_prefix};
use crate::text_laws::{law_between_is_a_part, law_numbers_are_told_apart};

verus! {

/// The events that an outcome sends.
pub open spec fn events_of(outcome: MwResultView) -> Seq<SseEventView> {
    match outcome {
        Ok(MwActionView::Continue(effect)) => effect.events,
        Err(_) => Seq::empty(),
    }
}

/// The events that outcomes send, one after the other.
pub open spec fn all_events(outcomes: Seq<MwResultView>) -> Seq<SseEventView>
    decreases outcomes.len(),
{
    if outcomes.len() == 0 {
        Seq::empty()
    } else {
        all_events(outcomes.drop_last()) + events_of(outcomes.last())
    }
}

/// Whether an outcome asks for a checkpoint.
pub open spec fn wants_checkpoint(outcome: MwResultView) -> bool {
    outcome matches Ok(MwActionView::Continue(effect)) && effect.checkpoint
}

/// A chain sends all the events of its middlewares, in order, and asks for a checkpoint exactly where
/// one of them does; it fails exactly where one of them fails.
pub proof fn law_chain_has_all_effects(outcomes: Seq<MwResultView>)
    ensures
        chain_effect(outcomes) is Err <==> exists|i: int|
            0 <= i < outcomes.len() && #[trigger] outcomes[i] is Err,
        chain_effect(outcomes) matches Ok(effect) ==> {
            &&& effect.events == all_events(outcomes)
            &&& effect.checkpoint <==> exists|i: int|
                0 <= i < outcomes.len() && wants_checkpoint(#[trigger] outcomes[i])
        },
    decreases outcomes.len(),
{
    if outcomes.len() > 0 {
        let before = outcomes.drop_last();
        law_chain_has_all_effects(before);
        let last = outcomes.len() - 1;
        if chain_effect(before) is Err {
            let i = choose|i: int| 0 <= i < before.len() && #[trigger] before[i] is Err;
            assert(outcomes[i] == before[i]);
        }
        assert(outcomes[last] == outcomes.last());
        assert forall|i: int| 0 <= i < before.len() implies before[i] == #[trigger] outcomes[i] by {}
        if exists|i: int| 0 <= i < outcomes.len() && #[trigger] outcomes[i] is Err {
            let i = choose|i: int| 0 <= i < outcomes.len() && #[trigger] outcomes[i] is Err;
            if i < before.len() {
                assert(before[i] is Err);
            }
        }
        if exists|i: int| 0 <= i < outcomes.len() && wants_checkpoint(#[trigger] outcomes[i]) {
            let i = choose|i: int| 0 <= i < outcomes.len() && wants_checkpoint(
                #[trigger] outcomes[i],
            );
            if i < before.len() {
                assert(wants_checkpoint(before[i]));
            }
        }
        if exists|i: int| 0 <= i < before.len() && wants_checkpoint(#[trigger] before[i]) {
            let i = choose|i: int| 0 <= i < before.len() && wants_checkpoint(#[trigger] before[i]);
            assert(wants_checkpoint(outcomes[i]));
        }
    }
}

/// A context that was summarised takes the place of the other; the client is told once, with the sizes
/// before and after and how much was kept, and the run is saved. Where nothing was summarised nothing
/// changes and nothing is told; a context that is too long ends the run, and stays.
pub proof fn law_summary_takes_effect(
    id: Seq<char>,
    context: Seq<WireMessageView>,
    outcome: Result<SummarizeOutcomeView, SummarizeError>,
)
    ensures
        match outcome {
            Ok(SummarizeOutcomeView::Summarized {
                context: shorter,
                before_tokens: before,
                after_tokens: after,
                kept_prefix: prefix,
                kept_suffix: suffix,
            }) => {
                &&& summary_context(context, outcome) == shorter
                &&& wants_checkpoint(summary_action(id, outcome))
                &&& events_of(summary_action(id, outcome)).len() == 1
                &&& events_of(summary_action(id, outcome))[0] matches SseEventView::ContextSummarized {
                    run_id,
                    before_tokens,
                    after_tokens,
                    kept_prefix,
                    kept_suffix,
                } && run_id == id && before_tokens == before && after_tokens == after && kept_prefix
                    == prefix && kept_suffix == suffix
            },
            Ok(SummarizeOutcomeView::Unchanged) => {
                &&& summary_context(context, outcome) == context
                &&& summary_action(id, outcome) is Ok
                &&& !wants_checkpoint(summary_action(id, outcome))
                &&& events_of(summary_action(id, outcome)).len() == 0
            },
            Err(_) => {
                &&& summary_context(context, outcome) == context
                &&& summary_action(id, outcome) == Err::<MwActionView, _>(
                    OrchestratorErrorView::ContextOverflow,
                )
            },
        },
{
}

/// The middlewares of a chain run in order, each on the context that those before it left: the next is
/// asked what it needs, and its part is done with just what came of that.
pub proof fn law_middlewares_run_in_order(chain: ChainRunView, event: ChainEventView)
    requires
        chain.outcomes.len() < chain.middlewares.len(),
        chain.outcomes.len() == 0 || chain.outcomes.last() is Ok,
        chain.expects(event),
    ensures
        ({
            let next = chain.step(event);
            match (chain.middlewares[chain.outcomes.len() as int], event) {
                (Middleware::TimeContext(_), ChainEventView::Time(now)) => {
                    &&& chain.ask() is Time
                    &&& tells(chain.context, next.context, now)
                    &&& next.outcomes.last() is Ok
                    &&& events_of(next.outcomes.last()).len() == 0
                    &&& !wants_checkpoint(next.outcomes.last())
                },
                (Middleware::Summarize(middleware), ChainEventView::Reply(reply)) => {
                    let outcome = summarized(
                        chain.context,
                        middleware.config,
                        chain.pending,
                        reply,
                    );
                    &&& chain.ask() == ChainAskView::Summary(
                        asked_for(chain.context, middleware.config, chain.pending),
                    )
                    &&& next.context == summary_context(chain.context, outcome)
                    &&& next.outcomes.last() == summary_action(chain.run_id, outcome)
                },
                _ => false,
            }
        }),
        chain.step(event).pending == chain.pending,
        chain.step(event).run_id == chain.run_id,
        chain.step(event).middlewares == chain.middlewares,
        chain.step(event).outcomes.len() == chain.outcomes.len() + 1,
{
    if let ChainEventView::Time(now) = event {
        law_time_is_told(chain.context, now);
    }
}

/// Whether a context tells that it is `now`, and is otherwise the other: in place of what that told of
/// the time, or in front.
pub open spec fn tells(
    before: Seq<WireMessageView>,
    after: Seq<WireMessageView>,
    now: LocalTimeView,
) -> bool {
    exists|at: int| #[trigger] tells_at(before, after, now, at)
}

/// Whether the message at `at` is the one that tells the time.
pub open spec fn tells_at(
    before: Seq<WireMessageView>,
    after: Seq<WireMessageView>,
    now: LocalTimeView,
    at: int,
) -> bool {
    &&& 0 <= at < after.len()
    &&& after[at].role == Role::System
    &&& after[at].content == time_text(now)
    &&& if after.len() == before.len() {
        &&& tells_time(before[at])
        &&& forall|k: int| 0 <= k < at ==> !tells_time(#[trigger] before[k])
        &&& forall|k: int| 0 <= k < before.len() && k != at ==> #[trigger] after[k] == before[k]
    } else {
        &&& at == 0
        &&& after.skip(1) == before
        &&& forall|k: int| 0 <= k < before.len() ==> !tells_time(#[trigger] before[k])
    }
}

proof fn lemma_time_place(context: Seq<WireMessageView>, i: int) -> (at: int)
    requires
        0 <= i <= context.len(),
    ensures
        at == time_at(context, i),
        i <= at <= context.len(),
        at < context.len() ==> tells_time(context[at]),
        forall|k: int| i <= k < at ==> !tells_time(#[trigger] context[k]),
    decreases context.len() - i,
{
    if i < context.len() && !tells_time(context[i]) {
        lemma_time_place(context, i + 1)
    } else {
        i
    }
}

/// The model is told the time in one place: in the first message that told it, or else in a new one in
/// front; every other message stays as it is.
pub proof fn law_time_is_told(context: Seq<WireMessageView>, now: LocalTimeView)
    ensures
        tells(context, timed(context, time_text(now)), now),
{
    let at = lemma_time_place(context, 0);
    let after = timed(context, time_text(now));
    if at < context.len() {
        assert(tells_at(context, after, now, at));
    } else {
        assert(after.skip(1) =~= context);
        assert(tells_at(context, after, now, 0));
    }
}

/// What the model is told of the time has the date, the day of the week, the time of day in two digits
/// each, and the offset.
pub proof fn law_time_text_has_the_time(now: LocalTimeView)
    ensures
        has_part(
            time_text(now),
            dec_signed(now.year as int) + "年"@ + dec(now.month as nat) + "月"@ + dec(now.day as nat)
                + "日 "@ + weekday_name(now.weekday),
        ),
        has_part(time_text(now), two_digits(now.hour as nat) + ":"@ + two_digits(now.minute as nat)),
        has_part(time_text(now), now.offset),
{
    let head = TIME_CONTEXT_PREFIX@ + " 当前本地时间："@;
    let date = dec_signed(now.year as int) + "年"@ + dec(now.month as nat) + "月"@ + dec(
        now.day as nat,
    ) + "日 "@ + weekday_name(now.weekday);
    let clock = two_digits(now.hour as nat) + ":"@ + two_digits(now.minute as nat);
    let tail =
        "）。回答「今天 / 现在 / 星期几」等问题时必须以本条时间为准，不要使用训练数据或对话中过期的日期。"@;
    let offset = "（偏移 "@ + now.offset + tail;
    law_between_is_a_part(head, date, " "@ + clock + offset);
    assert(head + date + (" "@ + clock + offset) =~= time_text(now));
    law_between_is_a_part(head + date + " "@, clock, offset);
    assert(head + date + " "@ + clock + offset =~= time_text(now));
    law_between_is_a_part(head + date + " "@ + clock + "（偏移 "@, now.offset, tail);
    assert(head + date + " "@ + clock + "（偏移 "@ + now.offset + tail =~= time_text(now));
}

/// Each day of the week has a name of its own.
pub proof fn law_days_are_told_apart(a: u32, b: u32)
    requires
        a < 7,
        b < 7,
        weekday_name(a) == weekday_name(b),
    ensures
        a == b,
{
    reveal_strlit("星期一");
    reveal_strlit("星期二");
    reveal_strlit("星期三");
    reveal_strlit("星期四");
    reveal_strlit("星期五");
    reveal_strlit("星期六");
    reveal_strlit("星期日");
    assert("星期一"@[2] == '一' && "星期二"@[2] == '二' && "星期三"@[2] == '三');
    assert("星期四"@[2] == '四' && "星期五"@[2] == '五' && "星期六"@[2] == '六');
    assert("星期日"@[2] == '日');
}

/// A number under a hundred has two digits, and its own.
pub proof fn law_two_digits_tell_apart(a: nat, b: nat)
    ensures
        a < 100 ==> two_digits(a).len() == 2,
        two_digits(a) == two_digits(b) && a < 100 && b < 100 ==> a == b,
{
    reveal_strlit("0");
    reveal_with_fuel(dec, 3);
    if a < 10 && b < 10 {
        assert(two_digits(a)[1] == dec(a)[0]);
        assert(two_digits(b)[1] == dec(b)[0]);
        assert(dec(a) =~= seq![dec(a)[0]]);
        assert(dec(b) =~= seq![dec(b)[0]]);
        if two_digits(a) == two_digits(b) {
            law_numbers_are_told_apart(a, b);
        }
    } else if 10 <= a < 100 && 10 <= b < 100 {
        law_numbers_are_told_apart(a, b);
    } else if a < 10 && 10 <= b < 100 {
        assert(two_digits(a)[0] == '0');
        assert(two_digits(b)[0] == digit(b / 10));
    } else if b < 10 && 10 <= a < 100 {
        assert(two_digits(b)[0] == '0');
        assert(two_digits(a)[0] == digit(a / 10));
    }
}

/// Whether a message says that a tool was run and did not fail.
pub open spec fn worked(m: WireMessageView, tool: Seq<char>) -> bool {
    m.role == Role::Tool && m.name == Some(tool) && !has_prefix(m.content, "tool_error:"@)
}

/// The order rule asks for the message exactly where an order was placed and no message was sent; it
/// asks the model, once, for the tool that sends it. The rule that adds nothing never does.
pub proof fn law_when_the_order_rule_asks(context: Seq<WireMessageView>)
    ensures
        ({
            let asks = ExampleOrderFollowUp.follow_ups(context);
            let placed = exists|i: int|
                0 <= i < context.len() && worked(#[trigger] context[i], "place_order"@);
            let sent = exists|i: int|
                0 <= i < context.len() && worked(#[trigger] context[i], "send_sms"@);
            &&& asks.len() == (if placed && !sent {
                1int
            } else {
                0
            })
            &&& asks.len() == 1 ==> asks[0].role == Role::System && has_part(
                asks[0].content,
                "send_sms"@,
            ) && asks[0].tool_calls is None
        }),
        NoopFollowUp.follow_ups(context).len() == 0,
        NamedFollowUp::Noop(NoopFollowUp).follow_ups(context).len() == 0,
        NamedFollowUp::ExampleOrder(ExampleOrderFollowUp).follow_ups(context)
            == ExampleOrderFollowUp.follow_ups(context),
{
    let placed = exists|i: int|
        0 <= i < context.len() && worked(#[trigger] context[i], "place_order"@);
    let sent = exists|i: int| 0 <= i < context.len() && worked(#[trigger] context[i], "send_sms"@);
    assert(placed == any_succeeded(context, "place_order"@));
    assert(sent == any_succeeded(context, "send_sms"@));
    reveal_strlit("请调用 send_sms 发送取餐码");
    reveal_strlit("send_sms");
    let text = "请调用 send_sms 发送取餐码"@;
    assert(text.subrange(4, 12) =~= "send_sms"@);
    assert(text.subrange(4, 4int + "send_sms"@.len()) == "send_sms"@);
}

} // verus!
