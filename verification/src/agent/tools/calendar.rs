//! The server tool `chinese_calendar`: lunar dates and festivals.

use vstd::prelude::*;

use crate::json::{entry_trees, item_trees, Json, JsonNum, JsonValue, Number};
use crate::protocol::{ToolDef, ToolDefView};
use crate::text::{
    add_char, chars_of, concat, dec, dec_signed, decimal, decimal_signed, is_white_space, same,
    trim, trimmed, white_space,
};

verus! {

pub const CHINESE_CALENDAR_NAME: &'static str = "chinese_calendar";

pub const CALENDAR_DESCRIPTION: &'static str =
    "查询公历/农历日期互转，以及常见中国节日（含农历节日如中秋、春节）对应的公历日期。用户问节假日日期、农历几月几日、某公历对应农历时必须调用本工具，不要凭记忆猜测。";

/// A property of a schema.
pub open spec fn property(kind: Seq<char>, description: Seq<char>) -> Json {
    Json::Obj(seq![("description"@, Json::Str(description)), ("type"@, Json::Str(kind))])
}

/// The schema of the arguments of `chinese_calendar`.
pub open spec fn calendar_parameters() -> Json {
    Json::Obj(
        seq![
            (
                "properties"@,
                Json::Obj(
                    seq![
                        (
                            "action"@,
                            Json::Obj(
                                seq![
                                    (
                                        "description"@,
                                        Json::Str(
                                            "festival=按节日名查公历；lunar_to_solar=农历转公历；solar_to_lunar=公历转农历"@,
                                        ),
                                    ),
                                    (
                                        "enum"@,
                                        Json::Arr(
                                            seq![
                                                Json::Str("festival"@),
                                                Json::Str("lunar_to_solar"@),
                                                Json::Str("solar_to_lunar"@),
                                            ],
                                        ),
                                    ),
                                    ("type"@, Json::Str("string"@)),
                                ],
                            ),
                        ),
                        (
                            "day"@,
                            property(
                                "integer"@,
                                "日。lunar_to_solar / solar_to_lunar 时必填"@,
                            ),
                        ),
                        (
                            "festival"@,
                            property(
                                "string"@,
                                "节日名，如 中秋、春节、端午、元宵、重阳、七夕、腊八、除夕、元旦、清明、劳动节、国庆。action=festival 时必填"@,
                            ),
                        ),
                        (
                            "leap_month"@,
                            property(
                                "boolean"@,
                                "是否闰月；仅 lunar_to_solar 可选，默认 false"@,
                            ),
                        ),
                        (
                            "month"@,
                            property(
                                "integer"@,
                                "月（1-12）。lunar_to_solar / solar_to_lunar 时必填"@,
                            ),
                        ),
                        (
                            "year"@,
                            property(
                                "integer"@,
                                "公历年份。festival / lunar_to_solar 时使用（农历年通常与该公历年同号）"@,
                            ),
                        ),
                    ],
                ),
            ),
            ("required"@, Json::Arr(seq![Json::Str("action"@)])),
            ("type"@, Json::Str("object"@)),
        ],
    )
}

/// The tool `chinese_calendar`.
pub open spec fn calendar_def() -> ToolDefView {
    ToolDefView {
        name: CHINESE_CALENDAR_NAME@,
        description: CALENDAR_DESCRIPTION@,
        parameters: calendar_parameters(),
        readonly: Some(true),
    }
}

fn property_value(kind: &str, description: &str) -> (r: JsonValue)
    ensures
        r.tree() == property(kind@, description@),
{
    JsonValue::object2(
        "description",
        JsonValue::string(description),
        "type",
        JsonValue::string(kind),
    )
}

/// The tool `chinese_calendar`.
pub fn chinese_calendar_tool_def() -> (r: ToolDef)
    ensures
        r.deep_view() == calendar_def(),
{
    let actions = vec![
        JsonValue::string("festival"),
        JsonValue::string("lunar_to_solar"),
        JsonValue::string("solar_to_lunar"),
    ];
    assert(item_trees(actions@) =~= seq![
        Json::Str("festival"@),
        Json::Str("lunar_to_solar"@),
        Json::Str("solar_to_lunar"@),
    ]);
    let action = JsonValue::object3(
        "description",
        JsonValue::string(
            "festival=按节日名查公历；lunar_to_solar=农历转公历；solar_to_lunar=公历转农历",
        ),
        "enum",
        JsonValue::array(actions),
        "type",
        JsonValue::string("string"),
    );
    let day = property_value("integer", "日。lunar_to_solar / solar_to_lunar 时必填");
    let festival = property_value(
        "string",
        "节日名，如 中秋、春节、端午、元宵、重阳、七夕、腊八、除夕、元旦、清明、劳动节、国庆。action=festival 时必填",
    );
    let leap_month = property_value(
        "boolean",
        "是否闰月；仅 lunar_to_solar 可选，默认 false",
    );
    let month = property_value(
        "integer",
        "月（1-12）。lunar_to_solar / solar_to_lunar 时必填",
    );
    let year = property_value(
        "integer",
        "公历年份。festival / lunar_to_solar 时使用（农历年通常与该公历年同号）",
    );
    let properties = vec![
        ("action".to_owned(), action),
        ("day".to_owned(), day),
        ("festival".to_owned(), festival),
        ("leap_month".to_owned(), leap_month),
        ("month".to_owned(), month),
        ("year".to_owned(), year),
    ];
    assert(entry_trees(properties@) =~= calendar_parameters()->Obj_0[0].1->Obj_0);
    let required = vec![JsonValue::string("action")];
    assert(item_trees(required@) =~= seq![Json::Str("action"@)]);
    let parameters = JsonValue::object3(
        "properties",
        JsonValue::object(properties),
        "required",
        JsonValue::array(required),
        "type",
        JsonValue::string("object"),
    );
    ToolDef {
        name: CHINESE_CALENDAR_NAME.to_owned(),
        description: CALENDAR_DESCRIPTION.to_owned(),
        parameters,
        readonly: Some(true),
    }
}

/// A date of the solar calendar.
#[derive(Debug, Clone, Copy, PartialEq, Eq, Structural)]
pub struct SolarDate {
    pub year: i32,
    pub month: u8,
    pub day: u8,
}

/// A date of the lunar calendar.
#[derive(Debug, Clone, Copy, PartialEq, Eq, Structural)]
pub struct LunarDate {
    pub year: i32,
    pub month: u8,
    pub day: u8,
    pub is_leap_month: bool,
}

/// What `lunar_lite::lunar_to_solar` returns for a lunar date; an error by its text.
pub uninterp spec fn solar_of_lunar(date: LunarDate) -> Result<SolarDate, Seq<char>>;

/// What `lunar_lite::solar_to_lunar` returns for a solar date; an error by its text.
pub uninterp spec fn lunar_of_solar(date: SolarDate) -> Result<LunarDate, Seq<char>>;

pub open spec fn solar_view(r: Result<SolarDate, String>) -> Result<SolarDate, Seq<char>> {
    match r {
        Ok(date) => Ok(date),
        Err(err) => Err(err@),
    }
}

pub open spec fn lunar_view(r: Result<LunarDate, String>) -> Result<LunarDate, Seq<char>> {
    match r {
        Ok(date) => Ok(date),
        Err(err) => Err(err@),
    }
}

/// Calls `lunar_lite::lunar_to_solar`, which computes the same for the same date.
#[verifier::external_body]
fn lunar_to_solar(date: LunarDate) -> (r: Result<SolarDate, String>)
    ensures
        solar_view(r) == solar_of_lunar(date),
{
    lunar_lite::lunar_to_solar(lunar_lite::LunarDate {
        year: date.year,
        month: date.month,
        day: date.day,
        is_leap_month: date.is_leap_month,
    })
    .map(|d| SolarDate { year: d.year, month: d.month, day: d.day })
    .map_err(|e| e.to_string())
}

/// Calls `lunar_lite::solar_to_lunar`, which computes the same for the same date.
#[verifier::external_body]
fn solar_to_lunar(date: SolarDate) -> (r: Result<LunarDate, String>)
    ensures
        lunar_view(r) == lunar_of_solar(date),
{
    lunar_lite::solar_to_lunar(lunar_lite::SolarDate {
        year: date.year,
        month: date.month,
        day: date.day,
    })
    .map(|d| LunarDate {
        year: d.year,
        month: d.month,
        day: d.day,
        is_leap_month: d.is_leap_month,
    })
    .map_err(|e| e.to_string())
}

/// The day before a date.
#[derive(Debug, Clone, Copy, PartialEq, Eq, Structural)]
pub enum DayBefore {
    /// The date is not in the calendar.
    NoSuchDate,
    /// The calendar starts with the date.
    NoEarlier,
    Date(i32, u32, u32),
}

pub open spec fn is_leap_year(year: int) -> bool {
    year % 4 == 0 && (year % 100 != 0 || year % 400 == 0)
}

/// The number of days of a month of the Gregorian calendar.
pub open spec fn days_in_month(year: int, month: int) -> int {
    if month == 2 {
        if is_leap_year(year) {
            29
        } else {
            28
        }
    } else if month == 4 || month == 6 || month == 9 || month == 11 {
        30
    } else {
        31
    }
}

/// The day before a date of the proleptic Gregorian calendar of the years -262143 to 262142.
pub open spec fn day_before_of(year: int, month: int, day: int) -> DayBefore {
    if !(-262143 <= year <= 262142 && 1 <= month <= 12 && 1 <= day <= days_in_month(year, month)) {
        DayBefore::NoSuchDate
    } else if day > 1 {
        DayBefore::Date(year as i32, month as u32, (day - 1) as u32)
    } else if month > 1 {
        DayBefore::Date(
            year as i32,
            (month - 1) as u32,
            days_in_month(year, month - 1) as u32,
        )
    } else if year > -262143 {
        DayBefore::Date((year - 1) as i32, 12, 31)
    } else {
        DayBefore::NoEarlier
    }
}

/// Calls `chrono::NaiveDate::pred_opt` on the date that `chrono::NaiveDate::from_ymd_opt` makes:
/// the previous calendar date, where there is such a date and an earlier one.
#[verifier::external_body]
fn day_before(year: i32, month: u32, day: u32) -> (r: DayBefore)
    ensures
        r == day_before_of(year as int, month as int, day as int),
{
    match chrono::NaiveDate::from_ymd_opt(year, month, day) {
        None => DayBefore::NoSuchDate,
        Some(date) => match date.pred_opt() {
            None => DayBefore::NoEarlier,
            Some(d) => DayBefore::Date(
                chrono::Datelike::year(&d),
                chrono::Datelike::month(&d),
                chrono::Datelike::day(&d),
            ),
        },
    }
}

/// The low 32 bits of a number, as a signed number.
pub open spec fn wrap32(n: int) -> i32 {
    ((n + 0x8000_0000) % 0x1_0000_0000 - 0x8000_0000) as i32
}

/// The low 8 bits of a number.
pub open spec fn wrap8(n: int) -> u8 {
    (n % 256) as u8
}

fn wrap_unsigned(n: u64) -> (r: i32)
    ensures
        r == wrap32(n as int),
{
    let low: u64 = n % 0x1_0000_0000;
    if low < 0x8000_0000 {
        low as i32
    } else {
        (low as i64 - 0x1_0000_0000) as i32
    }
}

fn wrap_signed(n: i64) -> (r: i32)
    ensures
        r == wrap32(n as int),
{
    let wide: i128 = n as i128;
    let low: i128 = if wide < 0 {
        let shifted: i128 = wide + 0x1_0000_0000 * 0x8000_0000;
        shifted % 0x1_0000_0000
    } else {
        wide % 0x1_0000_0000
    };
    if low < 0x8000_0000 {
        low as i32
    } else {
        (low - 0x1_0000_0000) as i32
    }
}

fn wrap_byte(n: i32) -> (r: u8)
    ensures
        r == wrap8(n as int),
{
    let wide: i64 = n as i64 + 0x8000_0000;
    (wide % 256) as u8
}

/// A number field as an `i32`: an integer by its low 32 bits, another number rounded towards zero.
pub open spec fn int_of(args: Json, key: Seq<char>) -> Option<i32> {
    match args.get(key) {
        Some(Json::Num(JsonNum::PosInt(n))) => Some(wrap32(n as int)),
        Some(Json::Num(JsonNum::NegInt(n))) => Some(wrap32(n as int)),
        Some(Json::Num(JsonNum::Float(_, n))) => Some(n),
        _ => None,
    }
}

pub fn int_field(args: &JsonValue, key: &str) -> (r: Option<i32>)
    ensures
        r == int_of(args.deep_view(), key@),
{
    match args.get(key) {
        Some(JsonValue::Number(Number::PosInt(n))) => Some(wrap_unsigned(*n)),
        Some(JsonValue::Number(Number::NegInt(n))) => Some(wrap_signed(*n)),
        Some(JsonValue::Number(Number::Float(_, n))) => Some(*n),
        _ => None,
    }
}

/// A text without its white space.
pub open spec fn without_space(s: Seq<char>) -> Seq<char>
    decreases s.len(),
{
    if s.len() == 0 {
        Seq::empty()
    } else if is_white_space(s.last()) {
        without_space(s.drop_last())
    } else {
        without_space(s.drop_last()).push(s.last())
    }
}

/// A text without the character `c`.
pub open spec fn without_char(s: Seq<char>, c: char) -> Seq<char>
    decreases s.len(),
{
    if s.len() == 0 {
        Seq::empty()
    } else if s.last() == c {
        without_char(s.drop_last(), c)
    } else {
        without_char(s.drop_last(), c).push(s.last())
    }
}

/// A text without the pairs `a`, `b`, taken from the left.
pub open spec fn without_pair(s: Seq<char>, a: char, b: char) -> Seq<char>
    decreases s.len(),
{
    if s.len() == 0 {
        Seq::empty()
    } else if s.len() >= 2 && s[0] == a && s[1] == b {
        without_pair(s.skip(2), a, b)
    } else {
        seq![s[0]] + without_pair(s.skip(1), a, b)
    }
}

/// The name of a festival without white space and without the word for festival.
pub open spec fn festival_key(name: Seq<char>) -> Seq<char> {
    without_pair(without_char(without_space(name), '节'), '節', '日')
}

fn strip_space(s: &str) -> (r: String)
    ensures
        r@ == without_space(s@),
{
    let chars = chars_of(s);
    let mut out = String::new();
    let mut i: usize = 0;
    assert(s@.take(0) =~= Seq::<char>::empty());
    while i < chars.len()
        invariant
            i <= chars@.len(),
            chars@ == s@,
            out@ == without_space(s@.take(i as int)),
        decreases chars@.len() - i,
    {
        proof {
            assert(s@.take(i + 1).drop_last() =~= s@.take(i as int));
            assert(s@.take(i + 1).last() == chars@[i as int]);
        }
        if !white_space(chars[i]) {
            add_char(&mut out, chars[i]);
        }
        i = i + 1;
    }
    assert(s@.take(s@.len() as int) =~= s@);
    out
}

fn strip_char(s: &str, c: char) -> (r: String)
    ensures
        r@ == without_char(s@, c),
{
    let chars = chars_of(s);
    let mut out = String::new();
    let mut i: usize = 0;
    assert(s@.take(0) =~= Seq::<char>::empty());
    while i < chars.len()
        invariant
            i <= chars@.len(),
            chars@ == s@,
            out@ == without_char(s@.take(i as int), c),
        decreases chars@.len() - i,
    {
        proof {
            assert(s@.take(i + 1).drop_last() =~= s@.take(i as int));
            assert(s@.take(i + 1).last() == chars@[i as int]);
        }
        if chars[i] != c {
            add_char(&mut out, chars[i]);
        }
        i = i + 1;
    }
    assert(s@.take(s@.len() as int) =~= s@);
    out
}

fn strip_pair(s: &str, a: char, b: char) -> (r: String)
    ensures
        r@ == without_pair(s@, a, b),
{
    let chars = chars_of(s);
    let len: usize = chars.len();
    let mut out = String::new();
    let mut i: usize = 0;
    assert(s@.skip(0) =~= s@);
    assert(out@ + without_pair(s@, a, b) =~= without_pair(s@, a, b));
    while i < len
        invariant
            i <= len == chars@.len(),
            chars@ == s@,
            out@ + without_pair(s@.skip(i as int), a, b) == without_pair(s@, a, b),
        decreases len - i,
    {
        let ghost rest = s@.skip(i as int);
        assert(rest[0] == chars@[i as int]);
        if len - i >= 2 && chars[i] == a && chars[i + 1] == b {
            assert(rest[1] == chars@[i + 1]);
            assert(rest.skip(2) =~= s@.skip(i + 2));
            i = i + 2;
        } else {
            assert(rest.len() >= 2 ==> rest[1] == chars@[i + 1]);
            assert(rest.skip(1) =~= s@.skip(i + 1));
            let ghost before = out@;
            add_char(&mut out, chars[i]);
            assert(out@ + without_pair(s@.skip(i + 1), a, b) =~= before + without_pair(rest, a, b));
            i = i + 1;
        }
    }
    assert(out@ + without_pair(s@.skip(i as int), a, b) =~= out@);
    out
}

/// The name of a festival without white space and without the word for festival.
pub fn normalize_festival(name: &str) -> (r: String)
    ensures
        r@ == festival_key(name@),
{
    let bare = strip_space(name);
    let short = strip_char(bare.as_str(), '节');
    strip_pair(short.as_str(), '節', '日')
}

/// The month and day of a festival that has a fixed solar date.
pub open spec fn solar_festival(name: Seq<char>) -> Option<(u8, u8)> {
    let key = festival_key(name);
    if key == "元旦"@ {
        Some((1, 1))
    } else if key == "五一"@ || without_space(name) == "劳动节"@ {
        Some((5, 1))
    } else if key == "国庆"@ {
        Some((10, 1))
    } else {
        None
    }
}

/// The lunar month and day of a festival that has a fixed lunar date, and their name.
pub open spec fn lunar_festival(name: Seq<char>) -> Option<(u8, u8, Seq<char>)> {
    let key = festival_key(name);
    if key == "过年"@ || key == "农历新年"@ || without_space(name) == "春节"@ {
        Some((1, 1, "正月初一"@))
    } else if key == "元宵"@ {
        Some((1, 15, "正月十五"@))
    } else if key == "端午"@ || key == "端阳"@ {
        Some((5, 5, "五月初五"@))
    } else if key == "七夕"@ {
        Some((7, 7, "七月初七"@))
    } else if key == "中秋"@ {
        Some((8, 15, "八月十五"@))
    } else if key == "重阳"@ {
        Some((9, 9, "九月初九"@))
    } else if key == "腊八"@ {
        Some((12, 8, "腊月初八"@))
    } else {
        None
    }
}

fn find_solar_festival(name: &str) -> (r: Option<(u8, u8)>)
    ensures
        r == solar_festival(name@),
{
    let key = normalize_festival(name);
    let bare = strip_space(name);
    if same(key.as_str(), "元旦") {
        Some((1, 1))
    } else if same(key.as_str(), "五一") || same(bare.as_str(), "劳动节") {
        Some((5, 1))
    } else if same(key.as_str(), "国庆") {
        Some((10, 1))
    } else {
        None
    }
}

fn find_lunar_festival(name: &str) -> (r: Option<(u8, u8, &'static str)>)
    ensures
        match r {
            Some((month, day, label)) => lunar_festival(name@) == Some((month, day, label@)),
            None => lunar_festival(name@) is None,
        },
{
    let key = normalize_festival(name);
    let bare = strip_space(name);
    let k = key.as_str();
    if same(k, "过年") || same(k, "农历新年") || same(bare.as_str(), "春节") {
        Some((1, 1, "正月初一"))
    } else if same(k, "元宵") {
        Some((1, 15, "正月十五"))
    } else if same(k, "端午") || same(k, "端阳") {
        Some((5, 5, "五月初五"))
    } else if same(k, "七夕") {
        Some((7, 7, "七月初七"))
    } else if same(k, "中秋") {
        Some((8, 15, "八月十五"))
    } else if same(k, "重阳") {
        Some((9, 9, "九月初九"))
    } else if same(k, "腊八") {
        Some((12, 8, "腊月初八"))
    } else {
        None
    }
}

/// A date in words.
pub open spec fn date_text(year: i32, month: u8, day: u8) -> Seq<char> {
    dec_signed(year as int) + "年"@ + dec(month as nat) + "月"@ + dec(day as nat) + "日"@
}

fn write_date(year: i32, month: u8, day: u8) -> (r: String)
    ensures
        r@ == date_text(year, month, day),
{
    let mut out = decimal_signed(year as i64);
    out.append("年");
    out.append(decimal(month as u64).as_str());
    out.append("月");
    out.append(decimal(day as u64).as_str());
    out.append("日");
    out
}

/// A lunar date in words.
pub open spec fn lunar_date_text(date: LunarDate) -> Seq<char> {
    dec_signed(date.year as int) + "年"@ + (if date.is_leap_month {
        "闰"@
    } else {
        ""@
    }) + dec(date.month as nat) + "月"@ + dec(date.day as nat) + "日"@
}

fn write_lunar_date(date: LunarDate) -> (r: String)
    ensures
        r@ == lunar_date_text(date),
{
    let mut out = decimal_signed(date.year as i64);
    out.append("年");
    out.append(if date.is_leap_month { "闰" } else { "" });
    out.append(decimal(date.month as u64).as_str());
    out.append("月");
    out.append(decimal(date.day as u64).as_str());
    out.append("日");
    out
}

/// The answer on a lunar date, given its solar date.
pub open spec fn lunar_answer(date: LunarDate, solar: Result<SolarDate, Seq<char>>) -> Result<
    Seq<char>,
    Seq<char>,
> {
    match solar {
        Err(err) => Err("lunar_to_solar failed: "@ + err),
        Ok(s) => Ok(
            "农历"@ + lunar_date_text(date) + " → 公历"@ + date_text(s.year, s.month, s.day),
        ),
    }
}

/// The answer on a solar date, given its lunar date.
pub open spec fn solar_answer(date: SolarDate, lunar: Result<LunarDate, Seq<char>>) -> Result<
    Seq<char>,
    Seq<char>,
> {
    match lunar {
        Err(err) => Err("solar_to_lunar failed: "@ + err),
        Ok(l) => Ok(
            "公历"@ + date_text(date.year, date.month, date.day) + " → 农历"@ + lunar_date_text(l),
        ),
    }
}

pub open spec fn answer_view(r: Result<String, String>) -> Result<Seq<char>, Seq<char>> {
    match r {
        Ok(s) => Ok(s@),
        Err(s) => Err(s@),
    }
}

/// The answer on a lunar date, given its solar date.
pub fn answer_lunar(date: LunarDate, solar: Result<SolarDate, String>) -> (r: Result<
    String,
    String,
>)
    ensures
        answer_view(r) == lunar_answer(date, solar_view(solar)),
{
    match solar {
        Err(err) => Err(concat("lunar_to_solar failed: ", err.as_str())),
        Ok(s) => {
            let mut out = concat("农历", write_lunar_date(date).as_str());
            out.append(" → 公历");
            out.append(write_date(s.year, s.month, s.day).as_str());
            Ok(out)
        },
    }
}

/// The answer on a solar date, given its lunar date.
pub fn answer_solar(date: SolarDate, lunar: Result<LunarDate, String>) -> (r: Result<
    String,
    String,
>)
    ensures
        answer_view(r) == solar_answer(date, lunar_view(lunar)),
{
    match lunar {
        Err(err) => Err(concat("solar_to_lunar failed: ", err.as_str())),
        Ok(l) => {
            let mut out = concat("公历", write_date(date.year, date.month, date.day).as_str());
            out.append(" → 农历");
            out.append(write_lunar_date(l).as_str());
            Ok(out)
        },
    }
}

/// The head of an answer on a festival.
pub open spec fn festival_head(year: i32, name: Seq<char>) -> Seq<char> {
    dec_signed(year as int) + "年「"@ + name + "」为公历"@
}

fn write_festival_head(year: i32, name: &str) -> (r: String)
    ensures
        r@ == festival_head(year, name@),
{
    let mut out = decimal_signed(year as i64);
    out.append("年「");
    out.append(name);
    out.append("」为公历");
    out
}

/// The answer on a festival with a lunar date, given its solar date.
pub open spec fn lunar_festival_answer(
    name: Seq<char>,
    year: i32,
    label: Seq<char>,
    solar: Result<SolarDate, Seq<char>>,
) -> Result<Seq<char>, Seq<char>> {
    match solar {
        Err(err) => Err("festival lunar convert failed: "@ + err),
        Ok(s) => Ok(
            festival_head(year, name) + date_text(s.year, s.month, s.day) + "（农历"@ + label
                + "）"@,
        ),
    }
}

/// The answer on a festival with a lunar date, given its solar date.
pub fn answer_lunar_festival(
    name: &str,
    year: i32,
    label: &str,
    solar: Result<SolarDate, String>,
) -> (r: Result<String, String>)
    ensures
        answer_view(r) == lunar_festival_answer(name@, year, label@, solar_view(solar)),
{
    match solar {
        Err(err) => Err(concat("festival lunar convert failed: ", err.as_str())),
        Ok(s) => {
            let mut out = write_festival_head(year, name);
            out.append(write_date(s.year, s.month, s.day).as_str());
            out.append("（农历");
            out.append(label);
            out.append("）");
            Ok(out)
        },
    }
}

/// The day before a solar date, or why there is none.
pub open spec fn solar_before(d: SolarDate) -> Result<SolarDate, Seq<char>> {
    match day_before_of(d.year as int, d.month as int, d.day as int) {
        DayBefore::NoSuchDate => Err(
            "invalid solar date "@ + dec_signed(d.year as int) + "-"@ + dec(d.month as nat) + "-"@
                + dec(d.day as nat),
        ),
        DayBefore::NoEarlier => Err("cannot compute previous day"@),
        DayBefore::Date(year, month, day) => Ok(
            SolarDate { year, month: month as u8, day: day as u8 },
        ),
    }
}

/// The day before a solar date, or why there is none.
pub fn pred_solar(d: SolarDate) -> (r: Result<SolarDate, String>)
    ensures
        solar_view(r) == solar_before(d),
{
    match day_before(d.year, d.month as u32, d.day as u32) {
        DayBefore::NoSuchDate => {
            let mut err = concat("invalid solar date ", decimal_signed(d.year as i64).as_str());
            err.append("-");
            err.append(decimal(d.month as u64).as_str());
            err.append("-");
            err.append(decimal(d.day as u64).as_str());
            Err(err)
        },
        DayBefore::NoEarlier => Err("cannot compute previous day".to_owned()),
        DayBefore::Date(year, month, day) => Ok(
            SolarDate { year, month: month as u8, day: day as u8 },
        ),
    }
}

/// The answer on the eve of the lunar year, given the solar date of its first day.
pub open spec fn eve_answer(year: i32, spring: Result<SolarDate, Seq<char>>) -> Result<
    Seq<char>,
    Seq<char>,
> {
    match spring {
        Err(err) => Err("festival lunar convert failed: "@ + err),
        Ok(first) => match solar_before(first) {
            Err(err) => Err(err),
            Ok(eve) => Ok(
                festival_head(year, "除夕"@) + date_text(eve.year, eve.month, eve.day)
                    + "（春节前一天）"@,
            ),
        },
    }
}

/// The answer on the eve of the lunar year, given the solar date of its first day.
pub fn answer_eve(year: i32, spring: Result<SolarDate, String>) -> (r: Result<String, String>)
    ensures
        answer_view(r) == eve_answer(year, solar_view(spring)),
{
    match spring {
        Err(err) => Err(concat("festival lunar convert failed: ", err.as_str())),
        Ok(first) => match pred_solar(first) {
            Err(err) => Err(err),
            Ok(eve) => {
                let mut out = write_festival_head(year, "除夕");
                out.append(write_date(eve.year, eve.month, eve.day).as_str());
                out.append("（春节前一天）");
                Ok(out)
            },
        },
    }
}

pub open spec fn new_year(year: i32) -> LunarDate {
    LunarDate { year, month: 1, day: 1, is_leap_month: false }
}

/// The answer on a festival.
pub open spec fn festival_answer(name: Seq<char>, year: i32) -> Result<Seq<char>, Seq<char>> {
    match solar_festival(name) {
        Some((month, day)) => Ok(
            festival_head(year, name) + date_text(year, month, day) + "（固定公历节日）"@,
        ),
        None => match lunar_festival(name) {
            Some((month, day, label)) => lunar_festival_answer(
                name,
                year,
                label,
                solar_of_lunar(LunarDate { year, month, day, is_leap_month: false }),
            ),
            None => if festival_key(name) == "除夕"@ {
                eve_answer(year, solar_of_lunar(new_year(year)))
            } else if festival_key(name) == "清明"@ {
                Err(
                    "清明为二十四节气，请改用公历约 4月4–6日查询，或换用其他已支持节日"@,
                )
            } else {
                Err(
                    "unsupported festival: "@ + name
                        + ". 支持：春节/元宵/端午/七夕/中秋/重阳/腊八/除夕/元旦/劳动节/国庆"@,
                )
            },
        },
    }
}

/// The answer on a festival: a fixed solar date, a fixed lunar date, or the eve of the lunar year.
pub fn lookup_festival(name: &str, year: i32) -> (r: Result<String, String>)
    ensures
        answer_view(r) == festival_answer(name@, year),
{
    match find_solar_festival(name) {
        Some((month, day)) => {
            let mut out = write_festival_head(year, name);
            out.append(write_date(year, month, day).as_str());
            out.append("（固定公历节日）");
            return Ok(out);
        },
        None => {},
    }
    match find_lunar_festival(name) {
        Some((month, day, label)) => {
            let solar = lunar_to_solar(LunarDate { year, month, day, is_leap_month: false });
            return answer_lunar_festival(name, year, label, solar);
        },
        None => {},
    }
    let key = normalize_festival(name);
    if same(key.as_str(), "除夕") {
        let spring = lunar_to_solar(
            LunarDate { year, month: 1, day: 1, is_leap_month: false },
        );
        return answer_eve(year, spring);
    }
    if same(key.as_str(), "清明") {
        return Err(
            "清明为二十四节气，请改用公历约 4月4–6日查询，或换用其他已支持节日".to_owned(),
        );
    }
    let mut err = concat("unsupported festival: ", name);
    err.append(". 支持：春节/元宵/端午/七夕/中秋/重阳/腊八/除夕/元旦/劳动节/国庆");
    Err(err)
}

/// The date that the arguments give: year, then month, then day must be there.
pub open spec fn date_of(args: Json) -> Result<SolarDate, Seq<char>> {
    match int_of(args, "year"@) {
        None => Err("missing year"@),
        Some(year) => match int_of(args, "month"@) {
            None => Err("missing month"@),
            Some(month) => match int_of(args, "day"@) {
                None => Err("missing day"@),
                Some(day) => Ok(
                    SolarDate { year, month: wrap8(month as int), day: wrap8(day as int) },
                ),
            },
        },
    }
}

fn read_date(args: &JsonValue) -> (r: Result<SolarDate, String>)
    ensures
        solar_view(r) == date_of(args.deep_view()),
{
    let year: i32 = match int_field(args, "year") {
        None => {
            return Err("missing year".to_owned());
        },
        Some(n) => n,
    };
    let month: u8 = match int_field(args, "month") {
        None => {
            return Err("missing month".to_owned());
        },
        Some(n) => wrap_byte(n),
    };
    match int_field(args, "day") {
        None => Err("missing day".to_owned()),
        Some(n) => Ok(SolarDate { year, month, day: wrap_byte(n) }),
    }
}

/// Whether the arguments ask for a leap month; they do not where they say nothing.
pub open spec fn leap_of(args: Json) -> bool {
    match args.get("leap_month"@) {
        Some(v) => v.as_bool() == Some(true),
        None => false,
    }
}

fn read_leap(args: &JsonValue) -> (r: bool)
    ensures
        r == leap_of(args.deep_view()),
{
    match args.get("leap_month") {
        Some(v) => match v.as_bool() {
            Some(b) => b,
            None => false,
        },
        None => false,
    }
}

/// The answer of `chinese_calendar`.
pub open spec fn calendar_answer(args: Json) -> Result<Seq<char>, Seq<char>> {
    match args.str_field("action"@) {
        None => Err("missing action"@),
        Some(action) => if action == "festival"@ {
            match args.str_field("festival"@) {
                Some(name) if trimmed(name).len() > 0 => match int_of(args, "year"@) {
                    None => Err("festival requires year (Gregorian)"@),
                    Some(year) => festival_answer(trimmed(name), year),
                },
                _ => Err("festival requires festival name"@),
            }
        } else if action == "lunar_to_solar"@ {
            match date_of(args) {
                Err(err) => Err(err),
                Ok(d) => {
                    let date = LunarDate {
                        year: d.year,
                        month: d.month,
                        day: d.day,
                        is_leap_month: leap_of(args),
                    };
                    lunar_answer(date, solar_of_lunar(date))
                },
            }
        } else if action == "solar_to_lunar"@ {
            match date_of(args) {
                Err(err) => Err(err),
                Ok(d) => solar_answer(d, lunar_of_solar(d)),
            }
        } else {
            Err("unknown action: "@ + action)
        },
    }
}

/// Runs the tool `chinese_calendar`.
pub fn apply_chinese_calendar(args: &JsonValue) -> (r: Result<String, String>)
    ensures
        answer_view(r) == calendar_answer(args.deep_view()),
{
    let action = match args.str_field("action") {
        None => {
            return Err("missing action".to_owned());
        },
        Some(action) => action,
    };
    if same(action, "festival") {
        let name = match args.str_field("festival") {
            None => {
                return Err("festival requires festival name".to_owned());
            },
            Some(name) => trim(name),
        };
        if name.as_str().is_empty() {
            return Err("festival requires festival name".to_owned());
        }
        match int_field(args, "year") {
            None => Err("festival requires year (Gregorian)".to_owned()),
            Some(year) => lookup_festival(name.as_str(), year),
        }
    } else if same(action, "lunar_to_solar") {
        match read_date(args) {
            Err(err) => Err(err),
            Ok(d) => {
                let date = LunarDate {
                    year: d.year,
                    month: d.month,
                    day: d.day,
                    is_leap_month: read_leap(args),
                };
                answer_lunar(date, lunar_to_solar(date))
            },
        }
    } else if same(action, "solar_to_lunar") {
        match read_date(args) {
            Err(err) => Err(err),
            Ok(d) => answer_solar(d, solar_to_lunar(d)),
        }
    } else {
        Err(concat("unknown action: ", action))
    }
}

} // verus!
