//! What holds of the answers of the calendar tool.

use vstd::prelude::*;

use crate::agent::tools::calendar::{
    calendar_answer, date_of, date_text, days_in_month, eve_answer, festival_answer, festival_head,
    festival_key, int_of, lunar_answer, lunar_date_text, lunar_festival, lunar_of_solar,
    solar_answer, solar_before, solar_festival, solar_of_lunar, without_char, without_pair,
    without_space, wrap32, wrap8, LunarDate, SolarDate,
};
use crate::json::{Json, JsonNum};
use crate::text::{dec, dec_signed, has_part, is_digit, is_white_space, trimmed};
use crate::text_laws::{law_between_is_a_part, law_number_reads_back, law_numbers_are_told_apart};

verus! {

/// The next date of the Gregorian calendar.
pub open spec fn day_after(year: int, month: int, day: int) -> (int, int, int) {
    if day < days_in_month(year, month) {
        (year, month, day + 1)
    } else if month < 12 {
        (year, month + 1, 1)
    } else {
        (year + 1, 1, 1)
    }
}

/// The day before a date is one that the date follows.
pub proof fn law_date_follows_the_day_before(d: SolarDate)
    ensures
        solar_before(d) matches Ok(eve) ==> day_after(
            eve.year as int,
            eve.month as int,
            eve.day as int,
        ) == (d.year as int, d.month as int, d.day as int),
        solar_before(d) is Ok <==> 1 <= d.month <= 12 && 1 <= d.day <= days_in_month(
            d.year as int,
            d.month as int,
        ) && -262143 <= d.year <= 262142 && !(d.year == -262143 && d.month == 1 && d.day == 1),
{
    assert(12 <= 255 && 31 <= 255);
}

/// A text without its white space has every other character, in order, and no white space. So has a
/// text without a character.
pub proof fn law_what_is_taken_out(s: Seq<char>, c: char)
    ensures
        without_space(s) == s.filter(|x: char| !is_white_space(x)),
        without_char(s, c) == s.filter(|x: char| x != c),
    decreases s.len(),
{
    reveal(Seq::filter);
    if s.len() > 0 {
        law_what_is_taken_out(s.drop_last(), c);
    }
}

/// The first pair is taken out, and what stands before it is kept; a text without the first character
/// of the pair is kept as it is.
pub proof fn law_pairs_are_taken_out(p: Seq<char>, q: Seq<char>, a: char, b: char)
    requires
        forall|i: int| 0 <= i < p.len() ==> #[trigger] p[i] != a,
    ensures
        without_pair(p, a, b) == p,
        without_pair(p + (seq![a, b] + q), a, b) == p + without_pair(q, a, b),
    decreases p.len(),
{
    let s = p + (seq![a, b] + q);
    if p.len() == 0 {
        assert(s.skip(2) =~= q);
        assert(p + without_pair(q, a, b) =~= without_pair(q, a, b));
        assert(p =~= Seq::<char>::empty());
    } else {
        let rest = p.skip(1);
        assert forall|i: int| 0 <= i < rest.len() implies #[trigger] rest[i] != a by {
            assert(rest[i] == p[i + 1]);
        }
        law_pairs_are_taken_out(rest, q, a, b);
        assert(p[0] != a);
        assert(s[0] == p[0]);
        assert(s.skip(1) =~= rest + (seq![a, b] + q));
        assert(seq![p[0]] + rest =~= p);
        assert(seq![p[0]] + (rest + without_pair(q, a, b)) =~= p + without_pair(q, a, b));
    }
}

proof fn lemma_filter_twice(s: Seq<char>)
    ensures
        without_space(without_space(s)) == without_space(s),
    decreases s.len(),
{
    if s.len() > 0 {
        lemma_filter_twice(s.drop_last());
        let kept = without_space(s.drop_last());
        if !is_white_space(s.last()) {
            assert(without_space(s).drop_last() =~= kept);
        }
    }
}

/// White space in the name of a festival does not matter.
pub proof fn law_space_in_a_name_is_nothing(name: Seq<char>, year: i32)
    ensures
        festival_key(without_space(name)) == festival_key(name),
        solar_festival(without_space(name)) == solar_festival(name),
        lunar_festival(without_space(name)) == lunar_festival(name),
{
    lemma_filter_twice(name);
}

/// The words for a lunar month.
pub open spec fn month_words(month: u8) -> Seq<char> {
    if month == 1 {
        "正月"@
    } else if month == 5 {
        "五月"@
    } else if month == 7 {
        "七月"@
    } else if month == 8 {
        "八月"@
    } else if month == 9 {
        "九月"@
    } else {
        "腊月"@
    }
}

/// The words for a day of a lunar month.
pub open spec fn day_words(day: u8) -> Seq<char> {
    if day == 1 {
        "初一"@
    } else if day == 5 {
        "初五"@
    } else if day == 7 {
        "初七"@
    } else if day == 8 {
        "初八"@
    } else if day == 9 {
        "初九"@
    } else {
        "十五"@
    }
}

/// The date of a festival of the lunar calendar is the one that its words say.
pub proof fn law_lunar_festival_is_on_its_day(name: Seq<char>)
    ensures
        lunar_festival(name) matches Some((month, day, words)) ==> {
            &&& words == month_words(month) + day_words(day)
            &&& [1u8, 5u8, 7u8, 8u8, 9u8, 12u8]@.contains(month)
            &&& [1u8, 5u8, 7u8, 8u8, 9u8, 15u8]@.contains(day)
        },
{
    lemma_festival_words();
    let months = [1u8, 5u8, 7u8, 8u8, 9u8, 12u8]@;
    let days = [1u8, 5u8, 7u8, 8u8, 9u8, 15u8]@;
    assert(months[0] == 1 && months[1] == 5 && months[2] == 7 && months[3] == 8 && months[4] == 9
        && months[5] == 12);
    assert(days[0] == 1 && days[1] == 5 && days[2] == 7 && days[3] == 8 && days[4] == 9 && days[5]
        == 15);
}

proof fn lemma_festival_words()
    ensures
        "正月初一"@ == "正月"@ + "初一"@,
        "正月十五"@ == "正月"@ + "十五"@,
        "五月初五"@ == "五月"@ + "初五"@,
        "七月初七"@ == "七月"@ + "初七"@,
        "八月十五"@ == "八月"@ + "十五"@,
        "九月初九"@ == "九月"@ + "初九"@,
        "腊月初八"@ == "腊月"@ + "初八"@,
{
    reveal_strlit("正月初一");
    reveal_strlit("正月十五");
    reveal_strlit("五月初五");
    reveal_strlit("七月初七");
    reveal_strlit("八月十五");
    reveal_strlit("九月初九");
    reveal_strlit("腊月初八");
    reveal_strlit("正月");
    reveal_strlit("五月");
    reveal_strlit("七月");
    reveal_strlit("八月");
    reveal_strlit("九月");
    reveal_strlit("腊月");
    reveal_strlit("初一");
    reveal_strlit("十五");
    reveal_strlit("初五");
    reveal_strlit("初七");
    reveal_strlit("初九");
    reveal_strlit("初八");
    assert("正月初一"@ =~= "正月"@ + "初一"@);
    assert("正月十五"@ =~= "正月"@ + "十五"@);
    assert("五月初五"@ =~= "五月"@ + "初五"@);
    assert("七月初七"@ =~= "七月"@ + "初七"@);
    assert("八月十五"@ =~= "八月"@ + "十五"@);
    assert("九月初九"@ =~= "九月"@ + "初九"@);
    assert("腊月初八"@ =~= "腊月"@ + "初八"@);
}

/// The day of the year on which a festival of the solar calendar is, by its name without the word for
/// festival.
pub open spec fn is_solar_day(key: Seq<char>, month: u8, day: u8) -> bool {
    ||| key == "元旦"@ && month == 1 && day == 1
    ||| key == "五一"@ && month == 5 && day == 1
    ||| key == "国庆"@ && month == 10 && day == 1
}

/// The day of the lunar year on which a festival is, by its name without the word for festival.
pub open spec fn is_lunar_day(key: Seq<char>, month: u8, day: u8) -> bool {
    ||| (key == "过年"@ || key == "农历新年"@) && month == 1 && day == 1
    ||| key == "元宵"@ && month == 1 && day == 15
    ||| (key == "端午"@ || key == "端阳"@) && month == 5 && day == 5
    ||| key == "七夕"@ && month == 7 && day == 7
    ||| key == "中秋"@ && month == 8 && day == 15
    ||| key == "重阳"@ && month == 9 && day == 9
    ||| key == "腊八"@ && month == 12 && day == 8
}

/// A festival is on its day, whatever white space its name has and with or without the word for
/// festival. The name of one festival is only that with the word, and so is the name of the new year;
/// nothing else is a festival.
pub proof fn law_festivals_are_on_their_days(name: Seq<char>)
    ensures
        solar_festival(name) matches Some((month, day)) ==> is_solar_day(
            festival_key(name),
            month,
            day,
        ) || (without_space(name) == "劳动节"@ && month == 5 && day == 1),
        lunar_festival(name) matches Some((month, day, _)) ==> is_lunar_day(
            festival_key(name),
            month,
            day,
        ) || (without_space(name) == "春节"@ && month == 1 && day == 1),
        solar_festival(name) is None ==> forall|month: u8, day: u8|
            !is_solar_day(festival_key(name), month, day) && without_space(name) != "劳动节"@,
        lunar_festival(name) is None ==> forall|month: u8, day: u8|
            !is_lunar_day(festival_key(name), month, day) && without_space(name) != "春节"@,
{
}

/// What a festival of the solar calendar is answered, in any year: the name as it was given, and its
/// date in that year.
pub proof fn law_solar_festival_is_answered(name: Seq<char>, year: i32)
    requires
        solar_festival(name) is Some,
    ensures
        ({
            let (month, day) = solar_festival(name)->0;
            &&& (month, day) == (1u8, 1u8) || (month, day) == (5u8, 1u8) || (month, day) == (10u8, 1u8)
            &&& festival_answer(name, year) matches Ok(answer) && has_part(answer, name) && has_part(
                answer,
                date_text(year, month, day),
            )
        }),
{
    let (month, day) = solar_festival(name)->0;
    lemma_head_names(year, name);
    let date = date_text(year, month, day);
    law_between_is_a_part(festival_head(year, name), date, "（固定公历节日）"@);
    lemma_name_in_answer(year, name, date + "（固定公历节日）"@);
    assert(festival_head(year, name) + (date + "（固定公历节日）"@) =~= festival_head(year, name)
        + date + "（固定公历节日）"@);
}

proof fn lemma_head_names(year: i32, name: Seq<char>)
    ensures
        has_part(festival_head(year, name), name),
{
    law_between_is_a_part(dec_signed(year as int) + "年「"@, name, "」为公历"@);
}

proof fn lemma_name_in_answer(year: i32, name: Seq<char>, rest: Seq<char>)
    ensures
        has_part(festival_head(year, name) + rest, name),
{
    let before = dec_signed(year as int) + "年「"@;
    law_between_is_a_part(before, name, "」为公历"@ + rest);
    assert(before + name + ("」为公历"@ + rest) =~= festival_head(year, name) + rest);
}

/// What a festival of the lunar calendar is answered, in any year: the name as it was given, the solar
/// date of its lunar date in that year, and its lunar date in words; it fails exactly where there is
/// no such solar date.
pub proof fn law_lunar_festival_is_answered(name: Seq<char>, year: i32)
    requires
        solar_festival(name) is None,
        lunar_festival(name) is Some,
    ensures
        ({
            let (month, day, words) = lunar_festival(name)->0;
            let solar = solar_of_lunar(LunarDate { year, month, day, is_leap_month: false });
            &&& festival_answer(name, year) is Ok <==> solar is Ok
            &&& solar matches Ok(s) ==> (festival_answer(name, year) matches Ok(answer) && has_part(
                answer,
                name,
            ) && has_part(answer, date_text(s.year, s.month, s.day)) && has_part(answer, words))
        }),
{
    let (month, day, words) = lunar_festival(name)->0;
    let solar = solar_of_lunar(LunarDate { year, month, day, is_leap_month: false });
    if let Ok(s) = solar {
        let head = festival_head(year, name);
        let date = date_text(s.year, s.month, s.day);
        let tail = "（农历"@ + words + "）"@;
        law_between_is_a_part(head, date, tail);
        lemma_name_in_answer(year, name, date + tail);
        law_between_is_a_part(head + date + "（农历"@, words, "）"@);
        let answer = head + date + "（农历"@ + words + "）"@;
        assert(head + date + tail =~= answer);
        assert(head + (date + tail) =~= answer);
    }
}

/// The eve of the lunar year is the day before its first day: the answer has a date that the first day
/// follows.
pub proof fn law_eve_is_before_the_year(year: i32, first: SolarDate)
    ensures
        eve_answer(year, Ok(first)) matches Ok(answer) ==> (exists|eve: SolarDate| #[trigger]
            has_part(answer, date_text(eve.year, eve.month, eve.day)) && day_after(
                eve.year as int,
                eve.month as int,
                eve.day as int,
            ) == (first.year as int, first.month as int, first.day as int)),
        eve_answer(year, Ok(first)) is Ok <==> solar_before(first) is Ok,
{
    law_date_follows_the_day_before(first);
    if let Ok(eve) = solar_before(first) {
        law_between_is_a_part(
            festival_head(year, "除夕"@),
            date_text(eve.year, eve.month, eve.day),
            "（春节前一天）"@,
        );
        let answer = eve_answer(year, Ok(first))->Ok_0;
        assert(has_part(answer, date_text(eve.year, eve.month, eve.day)));
    }
}

/// A date that is turned from one calendar into the other is answered with both dates; where it cannot
/// be, the answer ends with why.
pub proof fn law_both_dates_are_answered(
    lunar: LunarDate,
    solar: SolarDate,
    err: Seq<char>,
)
    ensures
        lunar_answer(lunar, Ok(solar)) matches Ok(answer) && has_part(
            answer,
            lunar_date_text(lunar),
        ) && has_part(answer, date_text(solar.year, solar.month, solar.day)),
        solar_answer(solar, Ok(lunar)) matches Ok(answer) && has_part(
            answer,
            lunar_date_text(lunar),
        ) && has_part(answer, date_text(solar.year, solar.month, solar.day)),
        lunar_answer(lunar, Err(err)) matches Err(text) && err.is_suffix_of(text),
        solar_answer(solar, Err(err)) matches Err(text) && err.is_suffix_of(text),
{
    let l = lunar_date_text(lunar);
    let s = date_text(solar.year, solar.month, solar.day);
    law_between_is_a_part("农历"@, l, " → 公历"@ + s);
    assert("农历"@ + l + (" → 公历"@ + s) =~= "农历"@ + l + " → 公历"@ + s);
    law_between_is_a_part("农历"@ + l + " → 公历"@, s, Seq::empty());
    assert("农历"@ + l + " → 公历"@ + s + Seq::<char>::empty() =~= "农历"@ + l + " → 公历"@ + s);
    law_between_is_a_part("公历"@, s, " → 农历"@ + l);
    assert("公历"@ + s + (" → 农历"@ + l) =~= "公历"@ + s + " → 农历"@ + l);
    law_between_is_a_part("公历"@ + s + " → 农历"@, l, Seq::empty());
    assert("公历"@ + s + " → 农历"@ + l + Seq::<char>::empty() =~= "公历"@ + s + " → 农历"@ + l);
    assert(("lunar_to_solar failed: "@ + err).skip("lunar_to_solar failed: "@.len() as int) =~= err);
    assert(("solar_to_lunar failed: "@ + err).skip("solar_to_lunar failed: "@.len() as int) =~= err);
}

/// A number that fits is taken as it is.
pub proof fn law_numbers_are_taken_as_they_are(n: int)
    ensures
        i32::MIN <= n <= i32::MAX ==> wrap32(n) == n,
        0 <= n <= 255 ==> wrap8(n) == n,
{
}

/// Whether the arguments have a number under a key.
pub open spec fn has_number(args: Json, key: Seq<char>) -> bool {
    args.get(key) matches Some(value) && value is Num
}

/// The arguments give a date exactly where they have a year, a month and a day; it has those numbers,
/// where they fit.
pub proof fn law_date_is_read(args: Json, year: u64, month: u64, day: u64)
    ensures
        date_of(args) is Ok <==> has_number(args, "year"@) && has_number(args, "month"@)
            && has_number(args, "day"@),
        args.get("year"@) == Some(Json::Num(JsonNum::PosInt(year))) && args.get("month"@) == Some(
            Json::Num(JsonNum::PosInt(month)),
        ) && args.get("day"@) == Some(Json::Num(JsonNum::PosInt(day))) && year <= i32::MAX && month
            <= 255 && day <= 255 ==> date_of(args) == Ok::<_, Seq<char>>(
            SolarDate { year: year as i32, month: month as u8, day: day as u8 },
        ),
{
}

/// What the tool does is what the action asks for: a festival by its name in a year, a lunar date with
/// its leap month as a solar date, or a solar date as a lunar one. It does nothing without an action,
/// for another one, or without what the action needs.
pub proof fn law_action_decides(args: Json, action: Seq<char>)
    requires
        args.str_field("action"@) == Some(action),
    ensures
        action != "festival"@ && action != "lunar_to_solar"@ && action != "solar_to_lunar"@
            ==> calendar_answer(args) is Err,
        action == "festival"@ ==> (calendar_answer(args) is Ok ==> has_number(args, "year"@)),
        action == "festival"@ ==> forall|name: Seq<char>|
            args.str_field("festival"@) == Some(name) && trimmed(name).len() > 0 && has_number(
                args,
                "year"@,
            ) ==> calendar_answer(args) == #[trigger] festival_answer(
                trimmed(name),
                int_of(args, "year"@)->0,
            ),
        action == "lunar_to_solar"@ ==> (date_of(args) matches Ok(d) ==> {
            let date = LunarDate {
                year: d.year,
                month: d.month,
                day: d.day,
                is_leap_month: args.get("leap_month"@) == Some(Json::Bool(true)),
            };
            &&& calendar_answer(args) is Ok <==> solar_of_lunar(date) is Ok
            &&& solar_of_lunar(date) matches Ok(s) ==> calendar_answer(args) == lunar_answer(
                date,
                Ok(s),
            )
        }),
        action == "solar_to_lunar"@ ==> (date_of(args) matches Ok(d) ==> {
            &&& calendar_answer(args) is Ok <==> lunar_of_solar(d) is Ok
            &&& lunar_of_solar(d) matches Ok(l) ==> calendar_answer(args) == solar_answer(d, Ok(l))
        }),
        action != "festival"@ && date_of(args) is Err ==> calendar_answer(args) is Err,
{
    reveal_strlit("festival");
    reveal_strlit("lunar_to_solar");
    reveal_strlit("solar_to_lunar");
    assert("festival"@.len() == 8);
    assert("lunar_to_solar"@.len() == 14 && "lunar_to_solar"@[0] == 'l');
    assert("solar_to_lunar"@.len() == 14 && "solar_to_lunar"@[0] == 's');
}

/// A number in front of a character that no number has can be told from what follows.
proof fn lemma_number_ends(
    x: Seq<char>,
    y: Seq<char>,
    c: char,
    rest_x: Seq<char>,
    rest_y: Seq<char>,
)
    requires
        forall|i: int| 0 <= i < x.len() ==> #[trigger] x[i] != c,
        forall|i: int| 0 <= i < y.len() ==> #[trigger] y[i] != c,
        x + (seq![c] + rest_x) == y + (seq![c] + rest_y),
    ensures
        x == y,
        rest_x == rest_y,
{
    let s = x + (seq![c] + rest_x);
    let t = y + (seq![c] + rest_y);
    assert(s[x.len() as int] == c);
    assert(t[y.len() as int] == c);
    if x.len() < y.len() {
        assert(t[x.len() as int] == y[x.len() as int]);
    }
    if y.len() < x.len() {
        assert(s[y.len() as int] == x[y.len() as int]);
    }
    assert(s.take(x.len() as int) =~= x);
    assert(t.take(y.len() as int) =~= y);
    assert(s.skip(x.len() + 1int) =~= rest_x);
    assert(t.skip(y.len() + 1int) =~= rest_y);
}

proof fn lemma_year_has_digits(n: int)
    ensures
        forall|i: int|
            0 <= i < dec_signed(n).len() ==> is_digit(#[trigger] dec_signed(n)[i]) || dec_signed(
                n,
            )[i] == '-',
        dec_signed(n).len() > 0,
        n >= 0 ==> is_digit(dec_signed(n)[0]),
        n < 0 ==> dec_signed(n)[0] == '-',
{
    if n < 0 {
        law_number_reads_back((-n) as nat);
        let s = dec_signed(n);
        assert forall|i: int| 0 <= i < s.len() implies is_digit(#[trigger] s[i]) || s[i] == '-' by {
            if i > 0 {
                assert(s[i] == dec((-n) as nat)[i - 1]);
            }
        }
    } else {
        law_number_reads_back(n as nat);
    }
}

proof fn lemma_years_told_apart(a: int, b: int)
    requires
        dec_signed(a) == dec_signed(b),
    ensures
        a == b,
{
    lemma_year_has_digits(a);
    lemma_year_has_digits(b);
    if a < 0 {
        assert(dec_signed(a).skip(1) =~= dec((-a) as nat));
        assert(dec_signed(b).skip(1) =~= dec((-b) as nat));
        law_numbers_are_told_apart((-a) as nat, (-b) as nat);
    } else {
        law_numbers_are_told_apart(a as nat, b as nat);
    }
}

/// Two dates are written alike only if they are the same date.
pub proof fn law_dates_are_told_apart(a: SolarDate, b: SolarDate)
    requires
        date_text(a.year, a.month, a.day) == date_text(b.year, b.month, b.day),
    ensures
        a == b,
{
    reveal_strlit("年");
    reveal_strlit("月");
    reveal_strlit("日");
    assert("年"@ =~= seq!['年'] && "月"@ =~= seq!['月'] && "日"@ =~= seq!['日']);
    lemma_year_has_digits(a.year as int);
    lemma_year_has_digits(b.year as int);
    law_number_reads_back(a.month as nat);
    law_number_reads_back(b.month as nat);
    law_number_reads_back(a.day as nat);
    law_number_reads_back(b.day as nat);
    let (ya, yb) = (dec_signed(a.year as int), dec_signed(b.year as int));
    let (ma, mb) = (dec(a.month as nat), dec(b.month as nat));
    let (da, db) = (dec(a.day as nat), dec(b.day as nat));
    let day_a = da + (seq!['日'] + Seq::<char>::empty());
    let day_b = db + (seq!['日'] + Seq::<char>::empty());
    let month_a = ma + (seq!['月'] + day_a);
    let month_b = mb + (seq!['月'] + day_b);
    assert(date_text(a.year, a.month, a.day) =~= ya + (seq!['年'] + month_a));
    assert(date_text(b.year, b.month, b.day) =~= yb + (seq!['年'] + month_b));
    lemma_number_ends(ya, yb, '年', month_a, month_b);
    lemma_number_ends(ma, mb, '月', day_a, day_b);
    lemma_number_ends(da, db, '日', Seq::empty(), Seq::empty());
    lemma_years_told_apart(a.year as int, b.year as int);
    law_numbers_are_told_apart(a.month as nat, b.month as nat);
    law_numbers_are_told_apart(a.day as nat, b.day as nat);
}

/// A lunar date is written like a solar one, but for the word that its month is a leap month, which
/// stands before the month.
pub proof fn law_leap_month_is_said(d: LunarDate)
    ensures
        !d.is_leap_month ==> lunar_date_text(d) == date_text(d.year, d.month, d.day),
        d.is_leap_month ==> has_part(lunar_date_text(d), "闰"@ + dec(d.month as nat) + "月"@),
{
    reveal_strlit("");
    let year = dec_signed(d.year as int) + "年"@;
    let month = dec(d.month as nat);
    let day = dec(d.day as nat);
    if d.is_leap_month {
        law_between_is_a_part(year, "闰"@ + month + "月"@, day + "日"@);
        assert(year + ("闰"@ + month + "月"@) + (day + "日"@) =~= lunar_date_text(d));
    } else {
        assert(lunar_date_text(d) =~= date_text(d.year, d.month, d.day));
    }
}

} // verus!
