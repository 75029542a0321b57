//! The current time as a system message.

use vstd::prelude::*;

use crate::agent::error::OrchestratorErrorView;
use crate::agent::middleware::{mw_view, no_effect, MwAction, MwActionView, MwEffect, MwResult};
use crate::dup::Dup;
use crate::protocol::{plain, plain_message, Role, WireMessage, WireMessageView};
use crate::text::{concat, dec, dec_signed, decimal, decimal_signed, has_prefix, starts_with};

verus! {

pub const TIME_CONTEXT_PREFIX: &'static str = "[current time]";

/// A reading of the local clock.
#[derive(Debug, PartialEq)]
pub struct LocalTime {
    pub year: i32,
    pub month: u32,
    pub day: u32,
    /// Days since Monday.
    pub weekday: u32,
    pub hour: u32,
    pub minute: u32,
    /// The offset from UTC, as `+08:00`.
    pub offset: String,
}

/// What a `LocalTime` is.
#[verifier::ext_equal]
pub struct LocalTimeView {
    pub year: i32,
    pub month: u32,
    pub day: u32,
    pub weekday: u32,
    pub hour: u32,
    pub minute: u32,
    pub offset: Seq<char>,
}

impl DeepView for LocalTime {
    type V = LocalTimeView;

    open spec fn deep_view(&self) -> LocalTimeView {
        LocalTimeView {
            year: self.year,
            month: self.month,
            day: self.day,
            weekday: self.weekday,
            hour: self.hour,
            minute: self.minute,
            offset: self.offset@,
        }
    }
}

pub open spec fn weekday_name(weekday: u32) -> Seq<char> {
    if weekday == 0 {
        "星期一"@
    } else if weekday == 1 {
        "星期二"@
    } else if weekday == 2 {
        "星期三"@
    } else if weekday == 3 {
        "星期四"@
    } else if weekday == 4 {
        "星期五"@
    } else if weekday == 5 {
        "星期六"@
    } else {
        "星期日"@
    }
}

/// The name of the day that lies `weekday` days after Monday.
pub fn weekday_zh(weekday: u32) -> (r: &'static str)
    ensures
        r@ == weekday_name(weekday),
{
    match weekday {
        0 => "星期一",
        1 => "星期二",
        2 => "星期三",
        3 => "星期四",
        4 => "星期五",
        5 => "星期六",
        _ => "星期日",
    }
}

/// A number with at least two digits.
pub open spec fn two_digits(n: nat) -> Seq<char> {
    if n < 10 {
        "0"@ + dec(n)
    } else {
        dec(n)
    }
}

fn write_two_digits(n: u32) -> (r: String)
    ensures
        r@ == two_digits(n as nat),
{
    if n < 10 {
        concat("0", decimal(n as u64).as_str())
    } else {
        decimal(n as u64)
    }
}

/// What the model is told of the time.
pub open spec fn time_text(now: LocalTimeView) -> Seq<char> {
    TIME_CONTEXT_PREFIX@ + " 当前本地时间："@ + dec_signed(now.year as int) + "年"@ + dec(
        now.month as nat,
    ) + "月"@ + dec(now.day as nat) + "日 "@ + weekday_name(now.weekday) + " "@ + two_digits(
        now.hour as nat,
    ) + ":"@ + two_digits(now.minute as nat) + "（偏移 "@ + now.offset
        + "）。回答「今天 / 现在 / 星期几」等问题时必须以本条时间为准，不要使用训练数据或对话中过期的日期。"@
}

/// What the model is told of the time.
pub fn time_context_text(now: &LocalTime) -> (r: String)
    ensures
        r@ == time_text(now.deep_view()),
{
    let mut out = concat(TIME_CONTEXT_PREFIX, " 当前本地时间：");
    out.append(decimal_signed(now.year as i64).as_str());
    out.append("年");
    out.append(decimal(now.month as u64).as_str());
    out.append("月");
    out.append(decimal(now.day as u64).as_str());
    out.append("日 ");
    out.append(weekday_zh(now.weekday));
    out.append(" ");
    out.append(write_two_digits(now.hour).as_str());
    out.append(":");
    out.append(write_two_digits(now.minute).as_str());
    out.append("（偏移 ");
    out.append(now.offset.as_str());
    out.append(
        "）。回答「今天 / 现在 / 星期几」等问题时必须以本条时间为准，不要使用训练数据或对话中过期的日期。",
    );
    out
}

impl LocalTimeView {
    /// Whether the parts are in the ranges that a calendar and a clock have.
    pub open spec fn in_range(self) -> bool {
        &&& 1 <= self.month <= 12
        &&& 1 <= self.day <= 31
        &&& self.weekday < 7
        &&& self.hour < 24
        &&& self.minute < 60
    }
}

/// Reads the clock with `chrono::Local::now`. Of the reading only the ranges of its parts are
/// claimed.
#[verifier::external_body]
fn local_now() -> (r: LocalTime)
    ensures
        r.deep_view().in_range(),
{
    let now = chrono::Local::now();
    LocalTime {
        year: chrono::Datelike::year(&now),
        month: chrono::Datelike::month(&now),
        day: chrono::Datelike::day(&now),
        weekday: chrono::Datelike::weekday(&now).num_days_from_monday(),
        hour: chrono::Timelike::hour(&now),
        minute: chrono::Timelike::minute(&now),
        offset: now.format("%:z").to_string(),
    }
}

/// Whether a message tells the time.
pub open spec fn tells_time(m: WireMessageView) -> bool {
    m.role == Role::System && has_prefix(m.content, TIME_CONTEXT_PREFIX@)
}

/// The place of the first message from `i` on that tells the time, or the end.
pub open spec fn time_at(context: Seq<WireMessageView>, i: int) -> int
    decreases context.len() - i,
{
    if 0 <= i < context.len() && !tells_time(context[i]) {
        time_at(context, i + 1)
    } else {
        i
    }
}

/// The context with `text` as what it tells of the time: in the first message that tells it, or in
/// a new one at the front.
pub open spec fn timed(context: Seq<WireMessageView>, text: Seq<char>) -> Seq<WireMessageView> {
    let at = time_at(context, 0);
    if at < context.len() {
        context.update(at, WireMessageView { content: text, ..context[at] })
    } else {
        seq![plain(Role::System, text)] + context
    }
}

proof fn lemma_time_at(context: Seq<WireMessageView>, i: int)
    requires
        0 <= i <= context.len(),
    ensures
        i <= time_at(context, i) <= context.len(),
        time_at(context, i) < context.len() ==> tells_time(context[time_at(context, i)]),
        forall|k: int| i <= k < time_at(context, i) ==> !tells_time(#[trigger] context[k]),
    decreases context.len() - i,
{
    if i < context.len() && !tells_time(context[i]) {
        lemma_time_at(context, i + 1);
    }
}

proof fn lemma_time_at_is(context: Seq<WireMessageView>, i: int, at: int)
    requires
        0 <= i <= at < context.len(),
        tells_time(context[at]),
        forall|k: int| i <= k < at ==> !tells_time(#[trigger] context[k]),
    ensures
        time_at(context, i) == at,
    decreases at - i,
{
    if i < at {
        lemma_time_at_is(context, i + 1, at);
    }
}

/// Tells the model that it is `now`.
pub fn refresh_time_context(context: &mut Vec<WireMessage>, now: &LocalTime)
    ensures
        final(context).deep_view() == timed(old(context).deep_view(), time_text(now.deep_view())),
{
    let text = time_context_text(now);
    let ghost all = context.deep_view();
    let mut i: usize = 0;
    while i < context.len()
        invariant
            i <= context@.len(),
            *context == *old(context),
            all == context.deep_view(),
            time_at(all, 0) == time_at(all, i as int),
            text@ == time_text(now.deep_view()),
        decreases context@.len() - i,
    {
        assert(all[i as int] == context@[i as int].deep_view());
        if context[i].role == Role::System && starts_with(
            context[i].content.as_str(),
            TIME_CONTEXT_PREFIX,
        ) {
            let mut told = context[i].dup();
            told.content = text;
            context.set(i, told);
            assert(context.deep_view() =~= timed(all, text@));
            return ;
        }
        i = i + 1;
    }
    context.insert(0, plain_message(Role::System, text));
    assert(context.deep_view() =~= timed(all, text@));
}

/// The time of the local clock.
pub fn local_time() -> (r: LocalTime)
    ensures
        r.deep_view().in_range(),
{
    local_now()
}

/// Inserts or refreshes the message that tells the time of the clock.
pub fn ensure_time_context(context: &mut Vec<WireMessage>)
    ensures
        exists|now: LocalTimeView|
            now.in_range() && final(context).deep_view() == timed(
                old(context).deep_view(),
                #[trigger] time_text(now),
            ),
{
    let now = local_time();
    refresh_time_context(context, &now);
    assert(context.deep_view() == timed(old(context).deep_view(), time_text(now.deep_view())));
}

/// Tells the model the time before each of its calls.
#[derive(Debug, Clone, Copy, PartialEq, Eq, Structural)]
pub struct TimeContextMiddleware;

impl TimeContextMiddleware {
    pub fn name(&self) -> (r: &'static str)
        ensures
            r@ == "time_context"@,
    {
        "time_context"
    }

    /// Inserts or refreshes the message that tells the time, which is `now`.
    pub fn before_llm_at(&self, context: &mut Vec<WireMessage>, now: &LocalTime) -> (r: MwResult)
        ensures
            mw_view(r) == Ok::<_, OrchestratorErrorView>(MwActionView::Continue(no_effect())),
            final(context).deep_view() == timed(
                old(context).deep_view(),
                time_text(now.deep_view()),
            ),
    {
        refresh_time_context(context, now);
        Ok(MwAction::Continue(MwEffect::none()))
    }

    /// Inserts or refreshes the message that tells the time of the clock.
    pub fn before_llm(&self, context: &mut Vec<WireMessage>) -> (r: MwResult)
        ensures
            mw_view(r) == Ok::<_, OrchestratorErrorView>(MwActionView::Continue(no_effect())),
            exists|now: LocalTimeView|
                now.in_range() && final(context).deep_view() == timed(
                    old(context).deep_view(),
                    #[trigger] time_text(now),
                ),
    {
        ensure_time_context(context);
        Ok(MwAction::Continue(MwEffect::none()))
    }
}

proof fn lemma_time_text_prefix(now: LocalTimeView)
    ensures
        has_prefix(time_text(now), TIME_CONTEXT_PREFIX@),
{
    assert(time_text(now).take(TIME_CONTEXT_PREFIX@.len() as int) =~= TIME_CONTEXT_PREFIX@);
}

/// A second reading of the clock takes the place of the first; at the same time nothing changes.
pub proof fn law_time_is_refreshed(
    context: Seq<WireMessageView>,
    first: LocalTimeView,
    second: LocalTimeView,
)
    ensures
        ({
            let once = timed(context, time_text(first));
            let twice = timed(once, time_text(second));
            &&& once.len() <= context.len() + 1
            &&& twice.len() == once.len()
            &&& twice == timed(context, time_text(second))
        }),
{
    lemma_time_at(context, 0);
    lemma_time_text_prefix(first);
    let once = timed(context, time_text(first));
    let at = time_at(context, 0);
    if at < context.len() {
        assert forall|k: int| 0 <= k < at implies !tells_time(#[trigger] once[k]) by {
            assert(once[k] == context[k]);
        }
        lemma_time_at_is(once, 0, at);
    } else {
        lemma_time_at_is(once, 0, 0);
    }
    assert(timed(once, time_text(second)) =~= timed(context, time_text(second)));
}

} // verus!
