//! What holds of numbers as texts, and of texts without the white space around them.

use vstd::prelude::*;

use crate::text::{
    all_digits, dec, digit, digits_value, has_part, is_digit, is_white_space, parsed_u64, trimmed,
    trimmed_end, trimmed_start, unsigned_part,
};

verus! {

proof fn lemma_dec_digits(n: nat)
    ensures
        dec(n).len() > 0,
        all_digits(dec(n)),
        digits_value(dec(n)) == n,
    decreases n,
{
    if n < 10 {
        let s = dec(n);
        assert(s =~= seq![digit(n)]);
        assert(s.drop_last() =~= Seq::<char>::empty());
        reveal_with_fuel(digits_value, 2);
    } else {
        lemma_dec_digits(n / 10);
        let s = dec(n);
        let before = dec(n / 10);
        assert(s.drop_last() =~= before);
        assert(s.last() == digit(n % 10));
        assert forall|i: int| 0 <= i < s.len() implies is_digit(#[trigger] s[i]) by {
            if i < before.len() {
                assert(s[i] == before[i]);
            }
        }
    }
}

/// The decimal text of a number is read back as that number.
pub proof fn law_number_reads_back(n: nat)
    ensures
        n <= u64::MAX ==> parsed_u64(dec(n)) == Some(n as u64),
        dec(n).len() > 0,
        all_digits(dec(n)),
{
    lemma_dec_digits(n);
    let s = dec(n);
    assert(is_digit(s[0]));
    assert(unsigned_part(s) == s);
}

/// Different numbers have different texts.
pub proof fn law_numbers_are_told_apart(a: nat, b: nat)
    ensures
        dec(a) == dec(b) ==> a == b,
{
    lemma_dec_digits(a);
    lemma_dec_digits(b);
}

proof fn lemma_trimmed_start(s: Seq<char>) -> (from: int)
    ensures
        0 <= from <= s.len(),
        trimmed_start(s) == s.skip(from),
        forall|i: int| 0 <= i < from ==> is_white_space(#[trigger] s[i]),
        from < s.len() ==> !is_white_space(s[from]),
    decreases s.len(),
{
    if s.len() > 0 && is_white_space(s[0]) {
        let rest = s.skip(1);
        let k = lemma_trimmed_start(rest);
        assert(rest.skip(k) =~= s.skip(k + 1));
        assert forall|i: int| 0 <= i < k + 1 implies is_white_space(#[trigger] s[i]) by {
            if i > 0 {
                assert(s[i] == rest[i - 1]);
            }
        }
        k + 1
    } else {
        assert(s.skip(0) =~= s);
        0
    }
}

proof fn lemma_trimmed_end(s: Seq<char>) -> (to: int)
    ensures
        0 <= to <= s.len(),
        trimmed_end(s) == s.take(to),
        forall|i: int| to <= i < s.len() ==> is_white_space(#[trigger] s[i]),
        to > 0 ==> !is_white_space(s[to - 1]),
    decreases s.len(),
{
    if s.len() > 0 && is_white_space(s.last()) {
        let rest = s.drop_last();
        let k = lemma_trimmed_end(rest);
        assert(rest.take(k) =~= s.take(k));
        assert forall|i: int| k <= i < s.len() implies is_white_space(#[trigger] s[i]) by {
            if i < rest.len() {
                assert(s[i] == rest[i]);
            }
        }
        k
    } else {
        assert(s.take(s.len() as int) =~= s);
        s.len() as int
    }
}

/// Whether `s[from..to]` is `s` without the white space at its two ends.
pub open spec fn is_core(s: Seq<char>, from: int, to: int) -> bool {
    &&& 0 <= from <= to <= s.len()
    &&& forall|i: int| 0 <= i < from ==> is_white_space(#[trigger] s[i])
    &&& forall|i: int| to <= i < s.len() ==> is_white_space(#[trigger] s[i])
    &&& from < to ==> !is_white_space(s[from]) && !is_white_space(s[to - 1])
}

/// What is left of a text that is trimmed is a part of it with no white space at either end, and
/// what is gone is white space.
pub proof fn law_trimmed_is_the_core(s: Seq<char>)
    ensures
        exists|from: int, to: int| #[trigger] is_core(s, from, to) && trimmed(s) == s.subrange(from, to),
{
    let from = lemma_trimmed_start(s);
    let rest = s.skip(from);
    let k = lemma_trimmed_end(rest);
    let to = from + k;
    assert(rest.take(k) =~= s.subrange(from, to));
    assert(is_core(s, from, to)) by {
        assert forall|i: int| to <= i < s.len() implies is_white_space(#[trigger] s[i]) by {
            assert(s[i] == rest[i - from]);
        }
        if from < to {
            assert(s[to - 1] == rest[k - 1]);
        }
    }
}

/// What stands between two other texts is a part of the whole.
pub proof fn law_between_is_a_part(before: Seq<char>, part: Seq<char>, after: Seq<char>)
    ensures
        has_part(before + part + after, part),
{
    let s = before + part + after;
    let i = before.len() as int;
    assert(s.subrange(i, i + part.len()) =~= part);
}

} // verus!
