//! Text primitives: comparison, trimming, word splitting and decimal numbers.

use vstd::prelude::*;

verus! {

/// `str::eq` compares the characters of the two strings.
pub assume_specification[ <str as PartialEq<str>>::eq ](a: &str, b: &str) -> (r: bool)
    ensures
        r == (a@ == b@),
;

/// Whether two texts have the same characters.
pub fn same(a: &str, b: &str) -> (r: bool)
    ensures
        r == (a@ == b@),
{
    a.eq(b)
}

/// Calls `String::push`, which appends one character.
#[verifier::external_body]
pub(crate) fn add_char(s: &mut String, c: char)
    ensures
        final(s)@ == old(s)@.push(c),
{
    s.push(c)
}

/// What `str::to_lowercase` returns for a text that is not ASCII.
pub uninterp spec fn unicode_lowercase(s: Seq<char>) -> Seq<char>;

/// The lower case of an ASCII character.
pub open spec fn ascii_lower(c: char) -> char {
    if 'A' <= c <= 'Z' {
        (c as u32 + 32) as char
    } else {
        c
    }
}

pub open spec fn ascii_lowercase(s: Seq<char>) -> Seq<char> {
    Seq::new(s.len(), |i: int| ascii_lower(s[i]))
}

/// The Unicode lowercase of a text.
pub open spec fn lowercase(s: Seq<char>) -> Seq<char> {
    if vstd::utf8::is_ascii_chars(s) {
        ascii_lowercase(s)
    } else {
        unicode_lowercase(s)
    }
}

/// Calls `str::to_lowercase`. The result is a function of the text alone. In an ASCII text the
/// letters `A` to `Z` become `a` to `z` and everything else stays. Nothing is said of what becomes
/// of other texts, such as whether their lower case has a lower case of its own.
#[verifier::external_body]
pub(crate) fn to_lowercase(s: &str) -> (r: String)
    ensures
        vstd::utf8::is_ascii_chars(s@) ==> r@ == ascii_lowercase(s@),
        !vstd::utf8::is_ascii_chars(s@) ==> r@ == unicode_lowercase(s@),
{
    s.to_lowercase()
}

/// The Unicode `White_Space` property.
pub open spec fn is_white_space(c: char) -> bool {
    ||| '\u{9}' <= c <= '\u{d}'
    ||| c == ' '
    ||| c == '\u{85}'
    ||| c == '\u{a0}'
    ||| c == '\u{1680}'
    ||| '\u{2000}' <= c <= '\u{200a}'
    ||| c == '\u{2028}'
    ||| c == '\u{2029}'
    ||| c == '\u{202f}'
    ||| c == '\u{205f}'
    ||| c == '\u{3000}'
}

pub fn white_space(c: char) -> (r: bool)
    ensures
        r == is_white_space(c),
{
    ('\u{9}' <= c && c <= '\u{d}') || c == ' ' || c == '\u{85}' || c == '\u{a0}' || c
        == '\u{1680}' || ('\u{2000}' <= c && c <= '\u{200a}') || c == '\u{2028}' || c
        == '\u{2029}' || c == '\u{202f}' || c == '\u{205f}' || c == '\u{3000}'
}

/// The characters of a string.
pub fn chars_of(s: &str) -> (r: Vec<char>)
    ensures
        r@ == s@,
{
    let mut out: Vec<char> = Vec::new();
    for c in it: s.chars()
        invariant
            it.seq() == s@,
            out@ == s@.take(it.index() as int),
    {
        assert(s@.take(it.index() as int + 1) =~= s@.take(it.index() as int).push(c));
        out.push(c);
    }
    assert(s@.take(s@.len() as int) =~= s@);
    out
}

/// The string of the characters `chars[from..to]`.
pub fn string_of(chars: &Vec<char>, from: usize, to: usize) -> (r: String)
    requires
        from <= to <= chars@.len(),
    ensures
        r@ == chars@.subrange(from as int, to as int),
{
    let mut out = String::new();
    let mut i: usize = from;
    while i < to
        invariant
            from <= i <= to <= chars@.len(),
            out@ == chars@.subrange(from as int, i as int),
        decreases to - i,
    {
        add_char(&mut out, chars[i]);
        i = i + 1;
        assert(chars@.subrange(from as int, i as int) =~= chars@.subrange(
            from as int,
            i - 1,
        ).push(chars@[i - 1]));
    }
    out
}

/// The decimal digit `d`.
pub open spec fn digit(d: nat) -> char {
    (48 + d) as char
}

/// The decimal text of `n`.
pub open spec fn dec(n: nat) -> Seq<char>
    decreases n,
{
    if n < 10 {
        seq![digit(n)]
    } else {
        dec(n / 10).push(digit(n % 10))
    }
}

/// The decimal text of `n`, with a minus sign where it is negative.
pub open spec fn dec_signed(n: int) -> Seq<char> {
    if n < 0 {
        seq!['-'] + dec((-n) as nat)
    } else {
        dec(n as nat)
    }
}

fn digit_char(d: u64) -> (r: char)
    requires
        d < 10,
    ensures
        r == digit(d as nat),
{
    match d {
        0 => '0',
        1 => '1',
        2 => '2',
        3 => '3',
        4 => '4',
        5 => '5',
        6 => '6',
        7 => '7',
        8 => '8',
        _ => '9',
    }
}

/// The decimal text of an unsigned number.
pub fn decimal(n: u64) -> (r: String)
    ensures
        r@ == dec(n as nat),
    decreases n,
{
    if n < 10 {
        let mut s = String::new();
        add_char(&mut s, digit_char(n));
        assert(s@ =~= seq![digit(n as nat)]);
        s
    } else {
        let mut s = decimal(n / 10);
        add_char(&mut s, digit_char(n % 10));
        s
    }
}

/// The decimal text of a signed number.
pub fn decimal_signed(n: i64) -> (r: String)
    ensures
        r@ == dec_signed(n as int),
{
    if n < 0 {
        let magnitude: u64 = if n == i64::MIN {
            0x8000_0000_0000_0000u64
        } else {
            (-n) as u64
        };
        let mut s = String::new();
        add_char(&mut s, '-');
        s.append(decimal(magnitude).as_str());
        assert(s@ =~= seq!['-'] + dec(magnitude as nat));
        s
    } else {
        decimal(n as u64)
    }
}

pub open spec fn is_digit(c: char) -> bool {
    '0' <= c <= '9'
}

/// The number that a sequence of decimal digits writes.
pub open spec fn digits_value(s: Seq<char>) -> nat
    decreases s.len(),
{
    if s.len() == 0 {
        0
    } else {
        (digits_value(s.drop_last()) * 10 + (s.last() as u32 - 48)) as nat
    }
}

/// `s` without a leading plus sign.
pub open spec fn unsigned_part(s: Seq<char>) -> Seq<char> {
    if s.len() > 0 && s[0] == '+' {
        s.skip(1)
    } else {
        s
    }
}

pub open spec fn all_digits(s: Seq<char>) -> bool {
    forall|i: int| 0 <= i < s.len() ==> is_digit(#[trigger] s[i])
}

/// The unsigned number that a text writes: decimal digits after an optional plus sign.
pub open spec fn parsed_u64(s: Seq<char>) -> Option<u64> {
    let digits = unsigned_part(s);
    if digits.len() > 0 && all_digits(digits) && digits_value(digits) <= u64::MAX {
        Some(digits_value(digits) as u64)
    } else {
        None
    }
}

proof fn lemma_digits_value_grows(s: Seq<char>, k: int)
    requires
        0 <= k <= s.len(),
        all_digits(s),
    ensures
        digits_value(s.take(k)) <= digits_value(s),
    decreases s.len() - k,
{
    if k == s.len() {
        assert(s.take(k) =~= s);
    } else {
        lemma_digits_value_grows(s, k + 1);
        assert(s.take(k + 1).drop_last() =~= s.take(k));
        assert(s.take(k + 1).last() == s[k]);
        assert(is_digit(s[k]));
    }
}

/// Reads an unsigned decimal number.
pub fn parse_u64(s: &str) -> (r: Option<u64>)
    ensures
        r == parsed_u64(s@),
{
    let chars = chars_of(s);
    let start: usize = if chars.len() > 0 && chars[0] == '+' {
        1
    } else {
        0
    };
    let ghost digits = unsigned_part(s@);
    assert(s@.skip(0) =~= s@);
    assert(digits == s@.skip(start as int));
    if chars.len() == start {
        return None;
    }
    let mut value: u64 = 0;
    let mut i: usize = start;
    while i < chars.len()
        invariant
            start <= i <= chars@.len(),
            start <= 1,
            chars@ == s@,
            digits == unsigned_part(s@),
            digits == s@.skip(start as int),
            digits.len() > 0,
            value == digits_value(digits.take(i - start)),
            forall|j: int| 0 <= j < i - start ==> is_digit(digits[j]),
        decreases chars@.len() - i,
    {
        let c = chars[i];
        assert(digits[i - start] == c);
        if !('0' <= c && c <= '9') {
            assert(!is_digit(digits[i - start]));
            return None;
        }
        let d: u64 = (c as u32 - 48) as u64;
        proof {
            assert(digits.take(i - start + 1).drop_last() =~= digits.take(i - start));
            assert(digits.take(i - start + 1).last() == c);
        }
        if value > (u64::MAX - d) / 10 {
            proof {
                if all_digits(digits) {
                    lemma_digits_value_grows(digits, i - start + 1);
                }
            }
            return None;
        }
        value = value * 10 + d;
        i = i + 1;
    }
    assert(digits.take(digits.len() as int) =~= digits);
    Some(value)
}

/// `s` without its leading white space.
pub open spec fn trimmed_start(s: Seq<char>) -> Seq<char>
    decreases s.len(),
{
    if s.len() > 0 && is_white_space(s[0]) {
        trimmed_start(s.skip(1))
    } else {
        s
    }
}

/// `s` without its trailing white space.
pub open spec fn trimmed_end(s: Seq<char>) -> Seq<char>
    decreases s.len(),
{
    if s.len() > 0 && is_white_space(s.last()) {
        trimmed_end(s.drop_last())
    } else {
        s
    }
}

/// `s` without the white space at its two ends.
pub open spec fn trimmed(s: Seq<char>) -> Seq<char> {
    trimmed_end(trimmed_start(s))
}

/// Removes the white space at the two ends of a text.
pub fn trim(s: &str) -> (r: String)
    ensures
        r@ == trimmed(s@),
{
    let chars = chars_of(s);
    let mut from: usize = 0;
    assert(s@.skip(0) =~= s@);
    while from < chars.len() && white_space(chars[from])
        invariant
            from <= chars@.len(),
            chars@ == s@,
            trimmed_start(s@) == trimmed_start(s@.skip(from as int)),
        decreases chars@.len() - from,
    {
        assert(s@.skip(from as int).skip(1) =~= s@.skip(from + 1));
        from = from + 1;
    }
    let mut to: usize = chars.len();
    assert(s@.subrange(from as int, to as int) =~= s@.skip(from as int));
    while to > from && white_space(chars[to - 1])
        invariant
            from <= to <= chars@.len(),
            chars@ == s@,
            trimmed(s@) == trimmed_end(s@.subrange(from as int, to as int)),
        decreases to,
    {
        assert(s@.subrange(from as int, to as int).drop_last() =~= s@.subrange(
            from as int,
            to - 1,
        ));
        to = to - 1;
    }
    string_of(&chars, from, to)
}

/// Whether `s` begins with `prefix`.
pub open spec fn has_prefix(s: Seq<char>, prefix: Seq<char>) -> bool {
    prefix.len() <= s.len() && s.take(prefix.len() as int) == prefix
}

/// Whether a text begins with another.
pub fn starts_with(s: &str, prefix: &str) -> (r: bool)
    ensures
        r == has_prefix(s@, prefix@),
{
    let chars = chars_of(s);
    let want = chars_of(prefix);
    if want.len() > chars.len() {
        return false;
    }
    let mut i: usize = 0;
    while i < want.len()
        invariant
            i <= want@.len() <= chars@.len(),
            chars@ == s@,
            want@ == prefix@,
            s@.take(i as int) == prefix@.take(i as int),
        decreases want@.len() - i,
    {
        if chars[i] != want[i] {
            assert(s@.take(want@.len() as int)[i as int] != prefix@[i as int]);
            return false;
        }
        assert(s@.take(i + 1) =~= s@.take(i as int).push(s@[i as int]));
        assert(prefix@.take(i + 1) =~= prefix@.take(i as int).push(prefix@[i as int]));
        i = i + 1;
    }
    assert(prefix@.take(prefix@.len() as int) =~= prefix@);
    true
}

/// Whether `part` occurs in `s`.
pub open spec fn has_part(s: Seq<char>, part: Seq<char>) -> bool {
    exists|i: int|
        0 <= i <= s.len() - part.len() && #[trigger] s.subrange(i, i + part.len()) == part
}

fn occurs_at(chars: &Vec<char>, part: &Vec<char>, at: usize) -> (r: bool)
    requires
        at + part@.len() <= chars@.len(),
    ensures
        r == (chars@.subrange(at as int, at + part@.len()) == part@),
{
    let total: usize = chars.len();
    let mut i: usize = 0;
    while i < part.len()
        invariant
            i <= part@.len(),
            at + part@.len() <= chars@.len(),
            total == chars@.len(),
            chars@.subrange(at as int, at + i) == part@.take(i as int),
        decreases part@.len() - i,
    {
        if chars[at + i] != part[i] {
            assert(chars@.subrange(at as int, at + part@.len())[i as int] != part@[i as int]);
            return false;
        }
        assert(chars@.subrange(at as int, at + i + 1) =~= chars@.subrange(at as int, at + i).push(
            chars@[at + i],
        ));
        assert(part@.take(i + 1) =~= part@.take(i as int).push(part@[i as int]));
        i = i + 1;
    }
    assert(part@.take(part@.len() as int) =~= part@);
    true
}

/// Whether a text occurs in another.
pub fn contains(s: &str, part: &str) -> (r: bool)
    ensures
        r == has_part(s@, part@),
{
    let chars = chars_of(s);
    let want = chars_of(part);
    if want.len() > chars.len() {
        return false;
    }
    let last: usize = chars.len() - want.len();
    let mut at: usize = 0;
    while at <= last
        invariant
            at <= last + 1,
            chars@ == s@,
            want@ == part@,
            last + want@.len() == chars@.len(),
            forall|i: int|
                0 <= i < at ==> #[trigger] s@.subrange(i, i + part@.len()) != part@,
        decreases last + 1 - at,
    {
        if occurs_at(&chars, &want, at) {
            return true;
        }
        if at == last {
            return false;
        }
        at = at + 1;
    }
    false
}

/// The number of leading characters that are not white space.
pub open spec fn word_len(s: Seq<char>) -> nat
    decreases s.len(),
{
    if s.len() == 0 || is_white_space(s[0]) {
        0
    } else {
        1 + word_len(s.skip(1))
    }
}

pub proof fn lemma_word_len(s: Seq<char>)
    ensures
        word_len(s) <= s.len(),
    decreases s.len(),
{
    if s.len() > 0 && !is_white_space(s[0]) {
        lemma_word_len(s.skip(1));
    }
}

/// The maximal runs of characters that are not white space, in order.
pub open spec fn words(s: Seq<char>) -> Seq<Seq<char>>
    decreases s.len(),
{
    if s.len() == 0 {
        Seq::empty()
    } else if is_white_space(s[0]) {
        words(s.skip(1))
    } else {
        let n = word_len(s);
        if 0 < n <= s.len() {
            seq![s.take(n as int)] + words(s.skip(n as int))
        } else {
            Seq::empty()
        }
    }
}

/// The parts, with `sep` between each two.
pub open spec fn joined(parts: Seq<Seq<char>>, sep: Seq<char>) -> Seq<char>
    decreases parts.len(),
{
    if parts.len() == 0 {
        Seq::empty()
    } else if parts.len() == 1 {
        parts[0]
    } else {
        joined(parts.drop_last(), sep) + sep + parts.last()
    }
}

/// The words of a text.
pub fn split_words(s: &str) -> (r: Vec<String>)
    ensures
        r.deep_view() == words(s@),
{
    let chars = chars_of(s);
    let mut out: Vec<String> = Vec::new();
    let mut i: usize = 0;
    assert(s@.skip(0) =~= s@);
    assert(out.deep_view() + words(s@) =~= words(s@));
    while i < chars.len()
        invariant
            i <= chars@.len(),
            chars@ == s@,
            out.deep_view() + words(s@.skip(i as int)) == words(s@),
        decreases chars@.len() - i,
    {
        let ghost rest = s@.skip(i as int);
        if white_space(chars[i]) {
            assert(rest.skip(1) =~= s@.skip(i + 1));
            i = i + 1;
        } else {
            let mut end: usize = i;
            while end < chars.len() && !white_space(chars[end])
                invariant
                    i <= end <= chars@.len(),
                    chars@ == s@,
                    rest == s@.skip(i as int),
                    word_len(rest) == end - i + word_len(s@.skip(end as int)),
                decreases chars@.len() - end,
            {
                assert(s@.skip(end as int).skip(1) =~= s@.skip(end + 1));
                end = end + 1;
            }
            let word = string_of(&chars, i, end);
            proof {
                let n = word_len(rest);
                assert(n == end - i);
                assert(rest.take(n as int) =~= word@);
                assert(rest.skip(n as int) =~= s@.skip(end as int));
            }
            let ghost before = out.deep_view();
            out.push(word);
            assert(out.deep_view() =~= before.push(word@));
            assert(out.deep_view() + words(s@.skip(end as int)) =~= before + words(rest));
            i = end;
        }
    }
    assert(words(s@.skip(i as int)) =~= Seq::<Seq<char>>::empty());
    assert(out.deep_view() + Seq::<Seq<char>>::empty() =~= out.deep_view());
    out
}

/// Joins texts with a separator.
pub fn join(parts: &Vec<String>, sep: &str) -> (r: String)
    ensures
        r@ == joined(parts.deep_view(), sep@),
{
    let mut out = String::new();
    let mut i: usize = 0;
    let ghost all = parts.deep_view();
    assert(all.take(0) =~= Seq::<Seq<char>>::empty());
    while i < parts.len()
        invariant
            i <= parts@.len(),
            all == parts.deep_view(),
            out@ == joined(all.take(i as int), sep@),
        decreases parts@.len() - i,
    {
        proof {
            assert(all.take(i + 1).drop_last() =~= all.take(i as int));
            assert(all.take(i + 1).last() == parts@[i as int]@);
        }
        if i > 0 {
            out.append(sep);
        }
        out.append(parts[i].as_str());
        proof {
            if i == 0 {
                assert(out@ =~= parts@[0]@);
            }
        }
        i = i + 1;
    }
    assert(all.take(all.len() as int) =~= all);
    out
}

/// The number of bytes of a text in UTF-8.
pub open spec fn byte_len(s: Seq<char>) -> nat {
    vstd::utf8::encode_utf8(s).len()
}

/// The number of bytes of a text.
pub fn count_bytes(s: &str) -> (r: usize)
    ensures
        r == byte_len(s@),
{
    s.as_bytes().len()
}

/// The bytes of two texts in a row are those of the one and those of the other.
pub proof fn law_bytes_add_up(a: Seq<char>, b: Seq<char>)
    ensures
        byte_len(a + b) == byte_len(a) + byte_len(b),
    decreases a.len(),
{
    if a.len() == 0 {
        assert(a + b =~= b);
    } else {
        assert((a + b).drop_first() =~= a.drop_first() + b);
        law_bytes_add_up(a.drop_first(), b);
    }
}

/// No character is without a byte.
pub proof fn law_bytes_cover_characters(s: Seq<char>)
    ensures
        s.len() <= byte_len(s),
    decreases s.len(),
{
    if s.len() > 0 {
        law_bytes_cover_characters(s.drop_first());
    }
}

/// A part of a text that has all its bytes is the text.
pub proof fn law_part_with_all_bytes(s: Seq<char>, part: Seq<char>)
    requires
        has_part(s, part),
        byte_len(s) <= byte_len(part),
    ensures
        part == s,
{
    let i = choose|i: int|
        0 <= i <= s.len() - part.len() && #[trigger] s.subrange(i, i + part.len()) == part;
    let before = s.take(i);
    let after = s.skip(i + part.len());
    assert(s =~= before + part + after);
    law_bytes_add_up(before + part, after);
    law_bytes_add_up(before, part);
    law_bytes_cover_characters(before);
    law_bytes_cover_characters(after);
    assert(part =~= s);
}

/// A run of characters that are not white space.
pub open spec fn is_word(s: Seq<char>) -> bool {
    s.len() > 0 && forall|i: int| 0 <= i < s.len() ==> !is_white_space(#[trigger] s[i])
}

pub open spec fn all_words(parts: Seq<Seq<char>>) -> bool {
    forall|k: int| 0 <= k < parts.len() ==> is_word(#[trigger] parts[k])
}

/// Whether a text has no white space but single spaces between its words.
pub open spec fn is_single_spaced(s: Seq<char>) -> bool {
    &&& s.len() > 0 ==> !is_white_space(s[0]) && !is_white_space(s.last())
    &&& forall|i: int| 0 <= i < s.len() && is_white_space(#[trigger] s[i]) ==> s[i] == ' '
    &&& forall|i: int, j: int|
        0 <= i < j < s.len() && j == i + 1 && is_white_space(#[trigger] s[i]) ==> !is_white_space(
            #[trigger] s[j],
        )
}

/// The words of a text, with one space between each two.
pub open spec fn spaced(s: Seq<char>) -> Seq<char> {
    joined(words(s), " "@)
}

proof fn lemma_word_then(w: Seq<char>, rest: Seq<char>)
    requires
        forall|i: int| 0 <= i < w.len() ==> !is_white_space(#[trigger] w[i]),
        rest.len() > 0 ==> is_white_space(rest[0]),
    ensures
        word_len(w + rest) == w.len(),
    decreases w.len(),
{
    if w.len() == 0 {
        assert(w + rest =~= rest);
    } else {
        assert((w + rest)[0] == w[0]);
        assert((w + rest).skip(1) =~= w.skip(1) + rest);
        lemma_word_then(w.skip(1), rest);
    }
}

proof fn lemma_leading_word(s: Seq<char>)
    ensures
        word_len(s) <= s.len(),
        forall|i: int| 0 <= i < word_len(s) ==> !is_white_space(#[trigger] s[i]),
        word_len(s) < s.len() ==> is_white_space(s[word_len(s) as int]),
    decreases s.len(),
{
    if s.len() > 0 && !is_white_space(s[0]) {
        let rest = s.skip(1);
        lemma_leading_word(rest);
        assert forall|i: int| 0 <= i < word_len(s) implies !is_white_space(#[trigger] s[i]) by {
            if i > 0 {
                assert(s[i] == rest[i - 1]);
            }
        }
    }
}

proof fn lemma_words_are_words(s: Seq<char>)
    ensures
        all_words(words(s)),
    decreases s.len(),
{
    if s.len() > 0 {
        if is_white_space(s[0]) {
            lemma_words_are_words(s.skip(1));
        } else {
            let n = word_len(s) as int;
            lemma_leading_word(s);
            lemma_words_are_words(s.skip(n));
        }
    }
}

proof fn lemma_joined_front(parts: Seq<Seq<char>>, sep: Seq<char>)
    requires
        parts.len() > 1,
    ensures
        joined(parts, sep) == parts[0] + sep + joined(parts.skip(1), sep),
    decreases parts.len(),
{
    let rest = parts.skip(1);
    if parts.len() == 2 {
        assert(parts.drop_last().len() == 1);
        assert(joined(parts.drop_last(), sep) == parts[0]);
        assert(joined(rest, sep) == parts[1]);
    } else {
        lemma_joined_front(parts.drop_last(), sep);
        assert(parts.drop_last().skip(1) =~= rest.drop_last());
        assert(parts[0] + sep + joined(rest.drop_last(), sep) + sep + parts.last() =~= parts[0]
            + sep + (joined(rest.drop_last(), sep) + sep + rest.last()));
    }
}

proof fn lemma_words_front(w: Seq<char>, tail: Seq<char>)
    requires
        is_word(w),
    ensures
        words(w) == seq![w],
        words(w + " "@ + tail) == seq![w] + words(tail),
{
    reveal_strlit(" ");
    let none = Seq::<char>::empty();
    assert(w + none =~= w);
    lemma_word_then(w, none);
    assert(w.take(w.len() as int) =~= w);
    assert(w.skip(w.len() as int) =~= none);
    assert(words(none) =~= Seq::<Seq<char>>::empty());
    assert(words(w) =~= seq![w]);
    let rest = " "@ + tail;
    let line = w + rest;
    assert(w + " "@ + tail =~= line);
    lemma_word_then(w, rest);
    assert(line[0] == w[0]);
    assert(line.take(w.len() as int) =~= w);
    assert(line.skip(w.len() as int) =~= rest);
    assert(rest[0] == ' ');
    assert(rest.skip(1) =~= tail);
    assert(words(rest) == words(tail));
    assert(words(line) == seq![w] + words(rest));
}

proof fn lemma_single_spaced_front(w: Seq<char>, tail: Seq<char>)
    requires
        is_word(w),
    ensures
        is_single_spaced(w),
        tail.len() > 0 ==> is_single_spaced(w + " "@ + tail) == is_single_spaced(tail),
{
    reveal_strlit(" ");
    let line = w + " "@ + tail;
    let n = w.len() as int;
    if tail.len() > 0 && is_single_spaced(tail) {
        assert(line[0] == w[0]);
        assert(line.last() == tail.last());
        assert forall|i: int|
            0 <= i < line.len() && is_white_space(#[trigger] line[i]) implies line[i] == ' ' by {
            if i < n {
                assert(line[i] == w[i]);
            } else if i > n {
                assert(line[i] == tail[i - n - 1]);
            }
        }
        assert forall|i: int, j: int|
            0 <= i < j < line.len() && j == i + 1 && is_white_space(
                #[trigger] line[i],
            ) implies !is_white_space(#[trigger] line[j]) by {
            if i < n {
                assert(line[i] == w[i]);
            } else if i == n {
                assert(line[j] == tail[0]);
            } else {
                assert(line[i] == tail[i - n - 1]);
                assert(line[j] == tail[j - n - 1]);
            }
        }
    }
    if tail.len() > 0 && is_single_spaced(line) {
        assert(line[n] == ' ');
        assert(tail[0] == line[n + 1]);
        assert(tail.last() == line.last());
        assert forall|i: int|
            0 <= i < tail.len() && is_white_space(#[trigger] tail[i]) implies tail[i] == ' ' by {
            assert(tail[i] == line[n + 1 + i]);
        }
        assert forall|i: int, j: int|
            0 <= i < j < tail.len() && j == i + 1 && is_white_space(
                #[trigger] tail[i],
            ) implies !is_white_space(#[trigger] tail[j]) by {
            assert(tail[i] == line[n + 1 + i]);
            assert(tail[j] == line[n + 1 + j]);
        }
    }
}

proof fn lemma_joined_words(parts: Seq<Seq<char>>)
    requires
        all_words(parts),
    ensures
        words(joined(parts, " "@)) == parts,
        is_single_spaced(joined(parts, " "@)),
        parts.len() > 0 ==> joined(parts, " "@).len() > 0,
    decreases parts.len(),
{
    if parts.len() == 0 {
        assert(words(joined(parts, " "@)) =~= parts);
    } else {
        let w = parts[0];
        assert(is_word(w));
        if parts.len() == 1 {
            lemma_words_front(w, w);
            lemma_single_spaced_front(w, w);
            assert(seq![w] =~= parts);
        } else {
            let more = parts.skip(1);
            assert forall|k: int| 0 <= k < more.len() implies is_word(#[trigger] more[k]) by {
                assert(more[k] == parts[k + 1]);
            }
            lemma_joined_words(more);
            lemma_joined_front(parts, " "@);
            lemma_words_front(w, joined(more, " "@));
            lemma_single_spaced_front(w, joined(more, " "@));
            assert(seq![w] + more =~= parts);
        }
    }
}

/// To put one space between the words of a text keeps the words, and leaves no other white space.
pub proof fn law_spaced_keeps_words(s: Seq<char>)
    ensures
        words(spaced(s)) == words(s),
        is_single_spaced(spaced(s)),
{
    lemma_words_are_words(s);
    lemma_joined_words(words(s));
}

/// The texts that stay as they are when one space is put between their words are those that have
/// no white space but single spaces between words.
pub proof fn law_single_spaced_stays(s: Seq<char>)
    ensures
        spaced(s) == s <==> is_single_spaced(s),
    decreases s.len(),
{
    law_spaced_keeps_words(s);
    if is_single_spaced(s) {
        reveal_strlit(" ");
        if s.len() == 0 {
            assert(spaced(s) =~= s);
        } else {
            let n = word_len(s) as int;
            lemma_leading_word(s);
            let w = s.take(n);
            assert(is_word(w)) by {
                assert(n > 0);
            }
            if n == s.len() {
                assert(w =~= s);
                lemma_words_front(s, s);
            } else {
                assert(s[n] == ' ');
                assert(n + 1 < s.len()) by {
                    assert(s.last() == s[s.len() - 1]);
                }
                let tail = s.skip(n + 1);
                assert(w + " "@ + tail =~= s);
                lemma_words_front(w, tail);
                lemma_single_spaced_front(w, tail);
                law_single_spaced_stays(tail);
                lemma_blank_has_no_words(tail);
                assert(!is_blank(tail)) by {
                    assert(tail[0] == s[n + 1]);
                }
                lemma_joined_front(words(s), " "@);
                assert(words(s).skip(1) =~= words(tail));
            }
        }
    }
}

/// To put one space between the words of a text twice is to do it once.
pub proof fn law_spaced_twice(s: Seq<char>)
    ensures
        spaced(spaced(s)) == spaced(s),
{
    law_spaced_keeps_words(s);
}

pub open spec fn is_blank(s: Seq<char>) -> bool {
    forall|i: int| 0 <= i < s.len() ==> is_white_space(#[trigger] s[i])
}

proof fn lemma_blank_has_no_words(s: Seq<char>)
    ensures
        words(s).len() == 0 <==> is_blank(s),
    decreases s.len(),
{
    if s.len() > 0 {
        if is_white_space(s[0]) {
            lemma_blank_has_no_words(s.skip(1));
            if is_blank(s.skip(1)) {
                assert forall|i: int| 0 <= i < s.len() implies is_white_space(#[trigger] s[i]) by {
                    if i > 0 {
                        assert(s[i] == s.skip(1)[i - 1]);
                    }
                }
            }
            if is_blank(s) {
                assert forall|i: int| 0 <= i < s.skip(1).len() implies is_white_space(
                    #[trigger] s.skip(1)[i],
                ) by {
                    assert(s.skip(1)[i] == s[i + 1]);
                }
            }
        } else {
            lemma_leading_word(s);
            assert(word_len(s) > 0);
        }
    }
}

proof fn lemma_trimmed_start(s: Seq<char>)
    ensures
        trimmed_start(s).len() == 0 <==> is_blank(s),
        trimmed_start(s).len() > 0 ==> !is_white_space(trimmed_start(s)[0]),
    decreases s.len(),
{
    if s.len() > 0 && is_white_space(s[0]) {
        lemma_trimmed_start(s.skip(1));
        if is_blank(s.skip(1)) {
            assert forall|i: int| 0 <= i < s.len() implies is_white_space(#[trigger] s[i]) by {
                if i > 0 {
                    assert(s[i] == s.skip(1)[i - 1]);
                }
            }
        }
        if is_blank(s) {
            assert forall|i: int| 0 <= i < s.skip(1).len() implies is_white_space(
                #[trigger] s.skip(1)[i],
            ) by {
                assert(s.skip(1)[i] == s[i + 1]);
            }
        }
    }
}

proof fn lemma_trimmed_end(s: Seq<char>)
    requires
        s.len() > 0,
        !is_white_space(s[0]),
    ensures
        trimmed_end(s).len() > 0,
    decreases s.len(),
{
    if is_white_space(s.last()) {
        assert(s.drop_last().len() > 0);
        lemma_trimmed_end(s.drop_last());
    }
}

/// A text of white space alone has no words, is empty when it is trimmed, and is empty when one
/// space is put between its words; no other text is any of these.
pub proof fn law_blank_texts(s: Seq<char>)
    ensures
        words(s).len() == 0 <==> is_blank(s),
        trimmed(s).len() == 0 <==> is_blank(s),
        spaced(s).len() == 0 <==> is_blank(s),
{
    lemma_blank_has_no_words(s);
    lemma_trimmed_start(s);
    if !is_blank(s) {
        lemma_trimmed_end(trimmed_start(s));
    }
    lemma_words_are_words(s);
    lemma_joined_words(words(s));
}

proof fn lemma_ascii_words(s: Seq<char>)
    requires
        vstd::utf8::is_ascii_chars(s),
    ensures
        forall|k: int|
            0 <= k < words(s).len() ==> vstd::utf8::is_ascii_chars(#[trigger] words(s)[k]),
    decreases s.len(),
{
    if s.len() > 0 {
        if is_white_space(s[0]) {
            lemma_ascii_words(s.skip(1));
            assert(words(s) == words(s.skip(1)));
        } else {
            let n = word_len(s) as int;
            lemma_leading_word(s);
            let rest = words(s.skip(n));
            lemma_ascii_words(s.skip(n));
            assert(vstd::utf8::is_ascii_chars(s.take(n)));
            assert forall|k: int| 0 <= k < words(s).len() implies vstd::utf8::is_ascii_chars(
                #[trigger] words(s)[k],
            ) by {
                if k > 0 {
                    assert(words(s)[k] == rest[k - 1]);
                }
            }
        }
    }
}

proof fn lemma_ascii_joined(parts: Seq<Seq<char>>)
    requires
        forall|k: int| 0 <= k < parts.len() ==> vstd::utf8::is_ascii_chars(#[trigger] parts[k]),
    ensures
        vstd::utf8::is_ascii_chars(joined(parts, " "@)),
    decreases parts.len(),
{
    if parts.len() > 1 {
        reveal_strlit(" ");
        lemma_ascii_joined(parts.drop_last());
        assert(vstd::utf8::is_ascii_chars(parts[parts.len() - 1]));
    }
}

/// An ASCII text stays one when one space is put between its words.
pub proof fn law_ascii_spaced(s: Seq<char>)
    requires
        vstd::utf8::is_ascii_chars(s),
    ensures
        vstd::utf8::is_ascii_chars(spaced(s)),
{
    lemma_ascii_words(s);
    lemma_ascii_joined(words(s));
}

/// The lower case of an ASCII text is one, of the same length and with its white space in the same
/// places, and is its own lower case.
pub proof fn law_ascii_lowercase(s: Seq<char>)
    requires
        vstd::utf8::is_ascii_chars(s),
    ensures
        vstd::utf8::is_ascii_chars(lowercase(s)),
        lowercase(s).len() == s.len(),
        lowercase(lowercase(s)) == lowercase(s),
        is_single_spaced(s) ==> is_single_spaced(lowercase(s)),
{
    let low = lowercase(s);
    assert forall|i: int| 0 <= i < low.len() implies #[trigger] low[i] == ascii_lower(s[i])
        && '\0' <= low[i] <= '\u{7f}' && ascii_lower(low[i]) == low[i] && (is_white_space(low[i])
        <==> is_white_space(s[i])) && (is_white_space(s[i]) ==> low[i] == s[i]) by {
        assert('\0' <= s[i] <= '\u{7f}');
    }
    assert(ascii_lowercase(low) =~= low);
}

/// The concatenation of two texts.
pub fn concat(a: &str, b: &str) -> (r: String)
    ensures
        r@ == a@ + b@,
{
    let mut out = a.to_owned();
    out.append(b);
    out
}

/// The concatenation of three texts.
pub fn concat3(a: &str, b: &str, c: &str) -> (r: String)
    ensures
        r@ == a@ + b@ + c@,
{
    let mut out = concat(a, b);
    out.append(c);
    out
}

/// The concatenation of four texts.
pub fn concat4(a: &str, b: &str, c: &str, d: &str) -> (r: String)
    ensures
        r@ == a@ + b@ + c@ + d@,
{
    let mut out = concat3(a, b, c);
    out.append(d);
    out
}

/// The concatenation of five texts.
pub fn concat5(a: &str, b: &str, c: &str, d: &str, e: &str) -> (r: String)
    ensures
        r@ == a@ + b@ + c@ + d@ + e@,
{
    let mut out = concat4(a, b, c, d);
    out.append(e);
    out
}

} // verus!
