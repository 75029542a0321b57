//! Limits that stop a long run.

use std::collections::HashSet;

use vstd::prelude::*;

use crate::config::GuardsConfig;
use crate::store::{GuardsSnapshot, GuardsSnapshotView};
use crate::text::{
    ascii_lowercase, byte_len, chars_of, contains, count_bytes, has_part, is_single_spaced, join,
    law_ascii_lowercase, law_ascii_spaced, law_blank_texts, law_part_with_all_bytes,
    law_single_spaced_stays, law_spaced_keeps_words, law_spaced_twice, lowercase, parse_u64,
    parsed_u64, same, spaced, split_words, to_lowercase, trimmed, words,
};

pub use crate::store::unix_now;

verus! {

pub const REASON_LLM_ROUNDS: &'static str = "guard_llm_rounds";

pub const REASON_TIMEOUT: &'static str = "guard_timeout";

pub const REASON_NOOP: &'static str = "guard_noop";

/// Whether a run has used up its wall-clock time. Guards whose start is not a number never have.
pub open spec fn over_wall(guards: GuardsSnapshotView, cfg: GuardsConfig, now: u64) -> bool {
    cfg.max_run_wall_secs > 0 && match parsed_u64(guards.started_at) {
        Some(started) => now - started >= cfg.max_run_wall_secs,
        None => false,
    }
}

pub fn wall_exceeded(guards: &GuardsSnapshot, cfg: &GuardsConfig, now: u64) -> (r: bool)
    ensures
        r == over_wall(guards.deep_view(), *cfg, now),
{
    if cfg.max_run_wall_secs == 0 {
        return false;
    }
    match parse_u64(guards.started_at.as_str()) {
        Some(started) => now.saturating_sub(started) >= cfg.max_run_wall_secs,
        None => false,
    }
}

/// The limit that stops a run before the next call of the model; the wall clock comes first.
pub open spec fn pre_llm_reason(
    guards: GuardsSnapshotView,
    cfg: GuardsConfig,
    now: u64,
) -> Option<Seq<char>> {
    if over_wall(guards, cfg, now) {
        Some(REASON_TIMEOUT@)
    } else if cfg.max_llm_rounds > 0 && guards.llm_rounds >= cfg.max_llm_rounds {
        Some(REASON_LLM_ROUNDS@)
    } else {
        None
    }
}

/// Limits that should stop the run before the next call of the model.
pub fn pre_llm_guard(guards: &GuardsSnapshot, cfg: &GuardsConfig, now: u64) -> (r: Option<
    &'static str,
>)
    ensures
        r.deep_view() == pre_llm_reason(guards.deep_view(), *cfg, now),
{
    if wall_exceeded(guards, cfg, now) {
        return Some(REASON_TIMEOUT);
    }
    if cfg.max_llm_rounds > 0 && guards.llm_rounds >= cfg.max_llm_rounds {
        return Some(REASON_LLM_ROUNDS);
    }
    None
}

/// The words of a text in lower case, with one space between each two.
pub open spec fn normalized(text: Seq<char>) -> Seq<char> {
    lowercase(spaced(text))
}

pub fn normalize_text(text: &str) -> (r: String)
    ensures
        r@ == normalized(text@),
{
    let parts = split_words(text);
    let line = join(&parts, " ");
    to_lowercase(line.as_str())
}

/// The pairs of neighbouring characters.
pub open spec fn bigrams(s: Seq<char>) -> Set<(char, char)> {
    Set::new(|p: (char, char)| is_bigram(s, p))
}

pub open spec fn is_bigram(s: Seq<char>, p: (char, char)) -> bool {
    exists|i: int| 0 <= i < s.len() - 1 && #[trigger] s[i] == p.0 && s[i + 1] == p.1
}

/// Whether at least 85 of 100 of the pairs of either text are pairs of both.
pub open spec fn bigrams_overlap(a: Seq<char>, b: Seq<char>) -> bool {
    let common = bigrams(a).intersect(bigrams(b)).len();
    let all = bigrams(a).union(bigrams(b)).len();
    bigrams(a).len() > 0 && bigrams(b).len() > 0 && 20 * common >= 17 * all
}

pub open spec fn capped(n: nat) -> nat {
    if n <= usize::MAX {
        n
    } else {
        usize::MAX as nat
    }
}

/// Whether `short` is a part of `long` that has at least four fifths of its bytes.
pub open spec fn mostly_inside(short: Seq<char>, long: Seq<char>) -> bool {
    has_part(long, short) && capped(byte_len(short) * 5) >= capped(byte_len(long) * 4)
}

/// Whether two normalized texts are nearly the same.
pub open spec fn near(a: Seq<char>, b: Seq<char>) -> bool {
    a.len() > 0 && b.len() > 0 && (a == b || (if byte_len(a) <= byte_len(b) {
        mostly_inside(a, b)
    } else {
        mostly_inside(b, a)
    }) || bigrams_overlap(a, b))
}

/// Whether two texts are nearly the same, up to white space and case.
pub open spec fn similar(a: Seq<char>, b: Seq<char>) -> bool {
    near(normalized(a), normalized(b))
}

/// A number for a pair of characters.
spec fn pair_code(a: char, b: char) -> u64 {
    (a as u64 * 0x20_0000 + b as u64) as u64
}

fn code_of(a: char, b: char) -> (r: u64)
    ensures
        r == pair_code(a, b),
{
    a as u64 * 0x20_0000 + b as u64
}

spec fn codes(s: Set<(char, char)>) -> Set<u64> {
    s.map(|p: (char, char)| pair_code(p.0, p.1))
}

proof fn lemma_pair_code_injective(a: char, b: char, c: char, d: char)
    requires
        pair_code(a, b) == pair_code(c, d),
    ensures
        a == c,
        b == d,
{
    assert(a as u64 * 0x20_0000 + b as u64 == c as u64 * 0x20_0000 + d as u64);
}

/// A set of pairs has as many codes as pairs.
proof fn lemma_codes_len(s: Set<(char, char)>)
    requires
        s.finite(),
    ensures
        codes(s).finite(),
        codes(s).len() == s.len(),
{
    let f = |p: (char, char)| pair_code(p.0, p.1);
    assert forall|p: (char, char), q: (char, char)|
        s.contains(p) && s.contains(q) && #[trigger] f(p) == #[trigger] f(q) implies p == q by {
        lemma_pair_code_injective(p.0, p.1, q.0, q.1);
    }
    assert forall|p: (char, char)| s.contains(p) implies #[trigger] codes(s).contains(f(p)) by {}
    assert forall|c: u64| #[trigger] codes(s).contains(c) implies exists|p: (char, char)|
        s.contains(p) && c == f(p) by {}
    vstd::set_lib::lemma_map_size(s, codes(s), f);
}

/// The codes of the common pairs are the common codes.
proof fn lemma_codes_intersect(s: Set<(char, char)>, t: Set<(char, char)>)
    ensures
        codes(s.intersect(t)) == codes(s).intersect(codes(t)),
{
    let f = |p: (char, char)| pair_code(p.0, p.1);
    assert forall|c: u64| codes(s).intersect(codes(t)).contains(c) implies codes(
        s.intersect(t),
    ).contains(c) by {
        let p = choose|p: (char, char)| s.contains(p) && c == f(p);
        let q = choose|q: (char, char)| t.contains(q) && c == f(q);
        lemma_pair_code_injective(p.0, p.1, q.0, q.1);
        assert(s.intersect(t).contains(p));
    }
    assert(codes(s.intersect(t)) =~= codes(s).intersect(codes(t)));
}

/// The codes of the pairs of neighbouring characters: each once, and as a set.
fn bigram_codes(text: &str) -> (r: (Vec<u64>, HashSet<u64>))
    ensures
        r.0@.to_set() == codes(bigrams(text@)),
        r.0@.no_duplicates(),
        r.1@ == codes(bigrams(text@)),
        bigrams(text@).finite(),
{
    broadcast use vstd::std_specs::hash::group_hash_axioms;

    let chars = chars_of(text);
    let mut list: Vec<u64> = Vec::new();
    let mut set: HashSet<u64> = HashSet::new();
    let ghost mut pairs: Set<(char, char)> = Set::empty();
    let mut i: usize = 0;
    assert(list@.to_set() =~= codes(pairs));
    assert(set@ =~= codes(pairs));
    let last: usize = if chars.len() > 0 {
        chars.len() - 1
    } else {
        0
    };
    while i < last
        invariant
            chars@ == text@,
            i <= last,
            chars@.len() == 0 ==> last == 0,
            chars@.len() > 0 ==> last == chars@.len() - 1,
            pairs.finite(),
            forall|p: (char, char)| #[trigger]
                pairs.contains(p) <==> exists|j: int|
                    0 <= j < i && #[trigger] text@[j] == p.0 && text@[j + 1] == p.1,
            list@.to_set() == codes(pairs),
            list@.no_duplicates(),
            set@ == codes(pairs),
            vstd::std_specs::hash::obeys_key_model::<u64>(),
        decreases last - i,
    {
        let a = chars[i];
        let b = chars[i + 1];
        let code: u64 = code_of(a, b);
        let ghost before = pairs;
        let ghost f = |p: (char, char)| pair_code(p.0, p.1);
        proof {
            pairs = pairs.insert((a, b));
            assert(code == f((a, b)));
            assert(codes(pairs) =~= codes(before).insert(code)) by {
                assert forall|c: u64| codes(before).insert(code).contains(c) implies codes(
                    pairs,
                ).contains(c) by {
                    if c == code {
                        assert(pairs.contains((a, b)));
                    } else {
                        let p = choose|p: (char, char)| before.contains(p) && c == f(p);
                        assert(pairs.contains(p));
                    }
                }
            }
        }
        if !set.contains(&code) {
            let ghost old_list = list@;
            proof {
                assert(!old_list.to_set().contains(code));
                assert(!old_list.contains(code));
            }
            list.push(code);
            proof {
                assert(list@.to_set() =~= old_list.to_set().insert(code)) by {
                    assert forall|c: u64| old_list.to_set().insert(code).contains(
                        c,
                    ) implies list@.to_set().contains(c) by {
                        if c == code {
                            assert(list@[old_list.len() as int] == code);
                        } else {
                            let k = choose|k: int| 0 <= k < old_list.len() && old_list[k] == c;
                            assert(list@[k] == c);
                        }
                    }
                }
            }
        } else {
            assert(list@.to_set() =~= codes(before).insert(code));
        }
        set.insert(code);
        assert(set@ =~= codes(before).insert(code));
        assert forall|p: (char, char)| #[trigger] pairs.contains(p) <==> exists|j: int|
            0 <= j < i + 1 && #[trigger] text@[j] == p.0 && text@[j + 1] == p.1 by {
            if pairs.contains(p) {
                if p == (a, b) {
                    assert(text@[i as int] == p.0 && text@[i + 1] == p.1);
                } else {
                    assert(before.contains(p));
                    let j = choose|j: int|
                        0 <= j < i && #[trigger] text@[j] == p.0 && text@[j + 1] == p.1;
                    assert(text@[j] == p.0);
                }
            }
        }
        i = i + 1;
    }
    assert(pairs =~= bigrams(text@)) by {
        assert forall|p: (char, char)| #[trigger] pairs.contains(p) <==> bigrams(
            text@,
        ).contains(p) by {
            assert(bigrams(text@).contains(p) <==> is_bigram(text@, p));
        }
    }
    (list, set)
}

/// Whether the pairs of two texts overlap by 85 of 100 or more. In whole numbers the test is
/// exact: a text has fewer distinct pairs than a ratio of 64-bit floats could confuse.
fn bigrams_close(a: &str, b: &str) -> (r: bool)
    ensures
        r == bigrams_overlap(a@, b@),
{
    let (list_a, set_a) = bigram_codes(a);
    let (list_b, set_b) = bigram_codes(b);
    let ghost pa = bigrams(a@);
    let ghost pb = bigrams(b@);
    let mut common: usize = 0;
    let mut i: usize = 0;
    let ghost mut seen: Set<u64> = Set::empty();
    while i < list_a.len()
        invariant
            i <= list_a@.len(),
            common <= i,
            list_a@.no_duplicates(),
            set_b@ == codes(pb),
            seen.finite(),
            seen.len() == common,
            seen == list_a@.take(i as int).to_set().intersect(codes(pb)),
            vstd::std_specs::hash::obeys_key_model::<u64>(),
        decreases list_a@.len() - i,
    {
        let ghost before = list_a@.take(i as int).to_set();
        let ghost code = list_a@[i as int];
        proof {
            assert(list_a@.take(i + 1) =~= list_a@.take(i as int).push(code));
            assert(list_a@.take(i + 1).to_set() =~= before.insert(code)) by {
                assert forall|c: u64| before.insert(code).contains(c) implies list_a@.take(
                    i + 1,
                ).to_set().contains(c) by {
                    if c == code {
                        assert(list_a@.take(i + 1)[i as int] == code);
                    } else {
                        let k = choose|k: int| 0 <= k < i && list_a@.take(i as int)[k] == c;
                        assert(list_a@.take(i + 1)[k] == c);
                    }
                }
            }
            assert(!before.contains(code)) by {
                if before.contains(code) {
                    let k = choose|k: int| 0 <= k < i && list_a@.take(i as int)[k] == code;
                    assert(list_a@[k] == list_a@[i as int]);
                }
            }
        }
        if set_b.contains(&list_a[i]) {
            common = common + 1;
            proof {
                assert(!seen.contains(code));
                assert(before.insert(code).intersect(codes(pb)) =~= seen.insert(code));
                seen = seen.insert(code);
            }
        } else {
            assert(before.insert(code).intersect(codes(pb)) =~= seen);
        }
        i = i + 1;
    }
    proof {
        assert(list_a@.take(list_a@.len() as int) =~= list_a@);
        lemma_codes_len(pa);
        lemma_codes_len(pb);
        list_a@.unique_seq_to_set();
        list_b@.unique_seq_to_set();
        lemma_codes_intersect(pa, pb);
        vstd::set_lib::lemma_len_intersect::<(char, char)>(pa, pb);
        lemma_codes_len(pa.intersect(pb));
        vstd::set_lib::lemma_set_intersect_union_lens(pa, pb);
        assert(list_a@.len() == pa.len());
        assert(list_b@.len() == pb.len());
        assert(common == pa.intersect(pb).len());
    }
    let all: u128 = list_a.len() as u128 + list_b.len() as u128 - common as u128;
    list_a.len() > 0 && list_b.len() > 0 && 20 * common as u128 >= 17 * all
}

/// Whether `short` is a part of `long` that has at least four fifths of its bytes.
fn nearly_all_of(short: &str, long: &str) -> (r: bool)
    ensures
        r == mostly_inside(short@, long@),
{
    let cap: u128 = usize::MAX as u128;
    let five: u128 = count_bytes(short) as u128 * 5;
    let four: u128 = count_bytes(long) as u128 * 4;
    let five_capped: u128 = if five <= cap {
        five
    } else {
        cap
    };
    let four_capped: u128 = if four <= cap {
        four
    } else {
        cap
    };
    contains(long, short) && five_capped >= four_capped
}

/// Whether two normalized texts are nearly the same.
pub fn nearly_same(a: &str, b: &str) -> (r: bool)
    ensures
        r == near(a@, b@),
{
    if a.is_empty() || b.is_empty() {
        return false;
    }
    if same(a, b) {
        return true;
    }
    let inside = if count_bytes(a) <= count_bytes(b) {
        nearly_all_of(a, b)
    } else {
        nearly_all_of(b, a)
    };
    if inside {
        return true;
    }
    bigrams_close(a, b)
}

/// Whether two texts are nearly the same, up to white space and case.
pub fn highly_similar(a: &str, b: &str) -> (r: bool)
    ensures
        r == similar(a@, b@),
{
    let na = normalize_text(a);
    let nb = normalize_text(b);
    nearly_same(na.as_str(), nb.as_str())
}

/// The guards after an assistant turn without tools, whose text is `norm` when it is normalized
/// and comes after a turn with `last`.
pub open spec fn after_normal_turn(
    guards: GuardsSnapshotView,
    norm: Seq<char>,
    last: Seq<char>,
    cfg: GuardsConfig,
) -> GuardsSnapshotView {
    GuardsSnapshotView {
        noop_streak: if cfg.max_noop_llm_rounds > 0 && near(norm, last) {
            if guards.noop_streak < u32::MAX {
                (guards.noop_streak + 1) as u32
            } else {
                u32::MAX
            }
        } else {
            0
        },
        last_assistant_norm: norm,
        ..guards
    }
}

/// The guards after an assistant turn without tools.
pub open spec fn after_noop_turn(
    guards: GuardsSnapshotView,
    text: Seq<char>,
    cfg: GuardsConfig,
) -> GuardsSnapshotView {
    after_normal_turn(guards, normalized(text), normalized(guards.last_assistant_norm), cfg)
}

/// The limit that a streak of turns without progress reaches.
pub open spec fn noop_reason(guards: GuardsSnapshotView, cfg: GuardsConfig) -> Option<Seq<char>> {
    if cfg.max_noop_llm_rounds > 0 && guards.noop_streak >= cfg.max_noop_llm_rounds {
        Some(REASON_NOOP@)
    } else {
        None
    }
}

/// Records an assistant turn without tools, of which `norm` is the normalized text, after a turn
/// with `last`. Returns `guard_noop` when the streak reaches the cap.
pub fn observe_normal_turn(
    guards: &mut GuardsSnapshot,
    norm: String,
    last: &str,
    cfg: &GuardsConfig,
) -> (r: Option<&'static str>)
    ensures
        final(guards).deep_view() == after_normal_turn(
            old(guards).deep_view(),
            norm@,
            last@,
            *cfg,
        ),
        r.deep_view() == noop_reason(final(guards).deep_view(), *cfg),
{
    if cfg.max_noop_llm_rounds > 0 && nearly_same(norm.as_str(), last) {
        guards.noop_streak = guards.noop_streak.saturating_add(1);
    } else {
        guards.noop_streak = 0;
    }
    guards.last_assistant_norm = norm;
    if cfg.max_noop_llm_rounds > 0 && guards.noop_streak >= cfg.max_noop_llm_rounds {
        Some(REASON_NOOP)
    } else {
        None
    }
}

/// Records an assistant turn without tools. Returns `guard_noop` when the streak reaches the cap.
///
/// The first turn only stores a baseline and leaves the streak at zero. Each later turn that is
/// nearly the same as the one before it adds to the streak.
pub fn observe_noop_turn(
    guards: &mut GuardsSnapshot,
    assistant_text: &str,
    cfg: &GuardsConfig,
) -> (r: Option<&'static str>)
    ensures
        final(guards).deep_view() == after_noop_turn(
            old(guards).deep_view(),
            assistant_text@,
            *cfg,
        ),
        r.deep_view() == noop_reason(final(guards).deep_view(), *cfg),
{
    let norm = normalize_text(assistant_text);
    let last = normalize_text(guards.last_assistant_norm.as_str());
    observe_normal_turn(guards, norm, last.as_str(), cfg)
}

/// The guards of a run that made progress.
pub open spec fn progressed(guards: GuardsSnapshotView) -> GuardsSnapshotView {
    GuardsSnapshotView { noop_streak: 0, last_assistant_norm: Seq::empty(), ..guards }
}

/// Forgets the streak of turns without progress.
pub fn clear_noop_progress(guards: &mut GuardsSnapshot)
    ensures
        final(guards).deep_view() == progressed(old(guards).deep_view()),
{
    guards.noop_streak = 0;
    guards.last_assistant_norm = String::new();
}

/// What a text is normalized to is the lower case of its words, in their order, with one space
/// between each two and no other white space. It depends on the words alone, and a text of white
/// space has none.
pub proof fn law_normalized_shape(text: Seq<char>)
    ensures
        normalized(text) == lowercase(spaced(text)),
        words(spaced(text)) == words(text),
        is_single_spaced(spaced(text)),
        spaced(text).len() == 0 <==> trimmed(text).len() == 0,
        trimmed(text).len() == 0 ==> normalized(text) == Seq::<char>::empty(),
{
    law_spaced_keeps_words(text);
    law_blank_texts(text);
}

/// Texts with the same words are normalized to the same text.
pub proof fn law_normalized_by_words(a: Seq<char>, b: Seq<char>)
    requires
        words(a) == words(b),
    ensures
        normalized(a) == normalized(b),
{
}

/// To put the white space of a text in order before the text is normalized changes nothing.
pub proof fn law_spaced_before_normalized(text: Seq<char>)
    ensures
        normalized(spaced(text)) == normalized(text),
{
    law_spaced_twice(text);
}

/// To normalize a text twice is to do it once, where its lower case has no other lower case than
/// itself and no white space but single spaces between words.
pub proof fn law_normalized_twice(text: Seq<char>)
    ensures
        lowercase(normalized(text)) == normalized(text) && is_single_spaced(normalized(text))
            ==> normalized(normalized(text)) == normalized(text),
{
    law_single_spaced_stays(normalized(text));
}

/// What an ASCII text is normalized to is an ASCII text with no white space but single spaces
/// between words, is empty exactly where the text is white space, and is normalized to itself.
pub proof fn law_ascii_normalized(text: Seq<char>)
    requires
        vstd::utf8::is_ascii_chars(text),
    ensures
        normalized(text) == ascii_lowercase(spaced(text)),
        vstd::utf8::is_ascii_chars(normalized(text)),
        is_single_spaced(normalized(text)),
        normalized(text).len() == 0 <==> trimmed(text).len() == 0,
        normalized(normalized(text)) == normalized(text),
{
    law_normalized_shape(text);
    law_ascii_spaced(text);
    law_ascii_lowercase(spaced(text));
    law_normalized_twice(text);
}

/// ASCII texts are as similar as what they are normalized to, and such a text is nearly the same
/// as itself unless it is white space.
pub proof fn law_ascii_similarity(a: Seq<char>, b: Seq<char>)
    requires
        vstd::utf8::is_ascii_chars(a),
        vstd::utf8::is_ascii_chars(b),
    ensures
        similar(normalized(a), normalized(b)) == similar(a, b),
        similar(a, a) <==> trimmed(a).len() > 0,
{
    law_ascii_normalized(a);
    law_ascii_normalized(b);
    law_similar_to_itself(a);
}

proof fn lemma_bigrams_overlap_is_symmetric(a: Seq<char>, b: Seq<char>)
    ensures
        bigrams_overlap(a, b) == bigrams_overlap(b, a),
{
    assert(bigrams(a).intersect(bigrams(b)) =~= bigrams(b).intersect(bigrams(a)));
    assert(bigrams(a).union(bigrams(b)) =~= bigrams(b).union(bigrams(a)));
}

/// Which of two texts comes first makes no difference to whether they are nearly the same.
pub proof fn law_similarity_is_symmetric(a: Seq<char>, b: Seq<char>)
    ensures
        similar(a, b) == similar(b, a),
{
    let na = normalized(a);
    let nb = normalized(b);
    lemma_bigrams_overlap_is_symmetric(na, nb);
    if byte_len(na) == byte_len(nb) {
        if has_part(nb, na) {
            law_part_with_all_bytes(nb, na);
        }
        if has_part(na, nb) {
            law_part_with_all_bytes(na, nb);
        }
    }
}

/// A text is nearly the same as itself unless nothing is left of it when it is normalized, and
/// nothing is left of white space.
pub proof fn law_similar_to_itself(text: Seq<char>)
    ensures
        similar(text, text) <==> normalized(text).len() > 0,
        trimmed(text).len() == 0 ==> !similar(text, text),
{
    law_normalized_shape(text);
}

/// Whether two texts are nearly the same depends on what they are normalized to: white space can
/// be put in order first, and a text that normalizing leaves alone can be normalized first.
pub proof fn law_similarity_of_normalized(a: Seq<char>, b: Seq<char>)
    ensures
        similar(spaced(a), spaced(b)) == similar(a, b),
        normalized(normalized(a)) == normalized(a) ==> similar(normalized(a), b) == similar(a, b)
            && similar(b, normalized(a)) == similar(b, a),
{
    law_spaced_before_normalized(a);
    law_spaced_before_normalized(b);
}

/// Texts that read the same up to white space and case are nearly the same, unless one is empty.
pub proof fn law_same_words_are_similar(a: Seq<char>, b: Seq<char>)
    requires
        normalized(a) == normalized(b),
        normalized(a).len() > 0,
    ensures
        similar(a, b),
{
}

/// An empty text is like no other.
pub proof fn law_empty_is_not_similar(a: Seq<char>, b: Seq<char>)
    requires
        normalized(a).len() == 0,
    ensures
        !similar(a, b),
        !similar(b, a),
{
}

/// The first turn after progress never ends the run: it only becomes the baseline.
pub proof fn law_first_turn_is_baseline(
    guards: GuardsSnapshotView,
    text: Seq<char>,
    cfg: GuardsConfig,
)
    ensures
        after_noop_turn(progressed(guards), text, cfg).noop_streak == 0,
        noop_reason(after_noop_turn(progressed(guards), text, cfg), cfg) is None,
{
    assert(words(Seq::<char>::empty()) =~= Seq::<Seq<char>>::empty());
    law_empty_is_not_similar(Seq::empty(), text);
}

/// The wall clock is tested before the number of rounds.
pub proof fn law_wall_before_rounds(guards: GuardsSnapshotView, cfg: GuardsConfig, now: u64)
    requires
        over_wall(guards, cfg, now),
    ensures
        pre_llm_reason(guards, cfg, now) == Some(REASON_TIMEOUT@),
{
}

/// With every limit off, no limit is ever reached.
pub proof fn law_zero_limits_never_stop(
    guards: GuardsSnapshotView,
    cfg: GuardsConfig,
    text: Seq<char>,
    now: u64,
)
    requires
        cfg.max_llm_rounds == 0,
        cfg.max_run_wall_secs == 0,
        cfg.max_noop_llm_rounds == 0,
    ensures
        pre_llm_reason(guards, cfg, now) is None,
        noop_reason(after_noop_turn(guards, text, cfg), cfg) is None,
{
}

} // verus!
