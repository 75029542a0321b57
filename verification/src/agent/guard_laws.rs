//! What holds of the limits of a run.

use vstd::prelude::*;

use crate::agent::guards::{
    after_noop_turn, bigrams, near, noop_reason, normalized, over_wall, pre_llm_reason, progressed,
    similar, REASON_LLM_ROUNDS, REASON_NOOP, REASON_TIMEOUT,
};
use crate::config::GuardsConfig;
use crate::store::GuardsSnapshotView;
use crate::text::{byte_len, dec, has_part, law_part_with_all_bytes};
use crate::text_laws::law_number_reads_back;

verus! {

/// A run has used up its time exactly where there is a limit and that many seconds have passed since
/// it started.
pub proof fn law_time_is_up(guards: GuardsSnapshotView, cfg: GuardsConfig, started: u64, now: u64)
    requires
        guards.started_at == dec(started as nat),
    ensures
        over_wall(guards, cfg, now) <==> cfg.max_run_wall_secs > 0 && now >= started
            + cfg.max_run_wall_secs,
{
    law_number_reads_back(started as nat);
}

/// A run is stopped before the model exactly where its time is up, or where there is a limit on its
/// rounds and it has made that many.
pub proof fn law_what_stops_before_the_model(
    guards: GuardsSnapshotView,
    cfg: GuardsConfig,
    now: u64,
)
    ensures
        match pre_llm_reason(guards, cfg, now) {
            None => !over_wall(guards, cfg, now) && (cfg.max_llm_rounds == 0 || guards.llm_rounds
                < cfg.max_llm_rounds),
            Some(reason) => if over_wall(guards, cfg, now) {
                reason == REASON_TIMEOUT@
            } else {
                reason == REASON_LLM_ROUNDS@ && cfg.max_llm_rounds > 0 && guards.llm_rounds
                    >= cfg.max_llm_rounds
            },
        },
{
}

/// A turn without calls that reads like the one before it adds one to the streak, and any other ends
/// the streak; the text is kept to be held against the next. Nothing else of the counters changes.
/// The run is stopped exactly where there is a limit and the streak reaches it.
pub proof fn law_turns_without_progress(
    guards: GuardsSnapshotView,
    text: Seq<char>,
    cfg: GuardsConfig,
)
    ensures
        ({
            let after = after_noop_turn(guards, text, cfg);
            &&& after.last_assistant_norm == normalized(text)
            &&& after.llm_rounds == guards.llm_rounds
            &&& after.follow_up_rounds == guards.follow_up_rounds
            &&& after.started_at == guards.started_at
            &&& after.updated_at == guards.updated_at
            &&& cfg.max_noop_llm_rounds == 0 || !similar(text, guards.last_assistant_norm)
                ==> after.noop_streak == 0
            &&& cfg.max_noop_llm_rounds > 0 && similar(text, guards.last_assistant_norm)
                && guards.noop_streak < u32::MAX ==> after.noop_streak == guards.noop_streak + 1
            &&& noop_reason(after, cfg) is Some <==> cfg.max_noop_llm_rounds > 0 && after.noop_streak
                >= cfg.max_noop_llm_rounds
            &&& noop_reason(after, cfg) matches Some(reason) ==> reason == REASON_NOOP@
        }),
        ({
            let cleared = progressed(guards);
            &&& cleared.noop_streak == 0
            &&& cleared.last_assistant_norm.len() == 0
            &&& cleared.llm_rounds == guards.llm_rounds
            &&& cleared.follow_up_rounds == guards.follow_up_rounds
            &&& cleared.started_at == guards.started_at
        }),
{
}

/// The pairs of a text are those of characters that stand next to each other, and no others.
pub proof fn law_pairs_are_neighbours(s: Seq<char>, a: char, b: char)
    ensures
        bigrams(s).contains((a, b)) <==> exists|i: int|
            0 <= i < s.len() - 1 && #[trigger] s[i] == a && s[i + 1] == b,
{
}

/// Two texts are nearly the same exactly where neither is empty and they are equal, or the shorter is
/// a part of the longer with four fifths of its bytes, or of all their pairs at least 85 of 100 are
/// in both.
pub proof fn law_when_texts_are_near(a: Seq<char>, b: Seq<char>)
    requires
        byte_len(a) * 5 <= usize::MAX,
        byte_len(b) * 5 <= usize::MAX,
    ensures
        near(a, b) <==> a.len() > 0 && b.len() > 0 && (a == b || is_most_of(a, b) || is_most_of(b, a)
            || shares_pairs(a, b)),
{
    if byte_len(a) == byte_len(b) {
        if has_part(a, b) {
            law_part_with_all_bytes(a, b);
        }
        if has_part(b, a) {
            law_part_with_all_bytes(b, a);
        }
    }
    if has_part(a, b) {
        lemma_part_is_no_longer(a, b);
    }
    if has_part(b, a) {
        lemma_part_is_no_longer(b, a);
    }
}

proof fn lemma_part_is_no_longer(s: Seq<char>, part: Seq<char>)
    requires
        has_part(s, part),
    ensures
        byte_len(part) <= byte_len(s),
{
    if byte_len(part) > byte_len(s) {
        law_part_with_all_bytes(s, part);
    }
}

/// Whether a text is a part of another with at least four fifths of its bytes.
pub open spec fn is_most_of(part: Seq<char>, whole: Seq<char>) -> bool {
    has_part(whole, part) && 5 * byte_len(part) >= 4 * byte_len(whole)
}

/// Whether at least 85 of 100 of the pairs of two texts are in both.
pub open spec fn shares_pairs(a: Seq<char>, b: Seq<char>) -> bool {
    &&& bigrams(a).len() > 0
    &&& bigrams(b).len() > 0
    &&& 100 * bigrams(a).intersect(bigrams(b)).len() >= 85 * bigrams(a).union(bigrams(b)).len()
}

} // verus!
