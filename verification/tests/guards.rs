use andromeda::agent::guards::{
    clear_noop_progress, highly_similar, nearly_same, normalize_text, observe_noop_turn,
    observe_normal_turn, pre_llm_guard, wall_exceeded, REASON_LLM_ROUNDS, REASON_NOOP,
    REASON_TIMEOUT,
};
use andromeda::config::GuardsConfig;
use andromeda::store::GuardsSnapshot;

fn cfg(rounds: u32, wall: u64, noop: u32) -> GuardsConfig {
    GuardsConfig {
        max_llm_rounds: rounds,
        max_run_wall_secs: wall,
        max_follow_up_rounds: 8,
        max_noop_llm_rounds: noop,
    }
}

fn snap(rounds: u32, started: &str) -> GuardsSnapshot {
    GuardsSnapshot {
        llm_rounds: rounds,
        follow_up_rounds: 0,
        started_at: started.into(),
        updated_at: started.into(),
        noop_streak: 0,
        last_assistant_norm: String::new(),
    }
}

#[test]
fn pre_llm_trips_rounds_then_wall_first() {
    let g = snap(2, "100");
    assert_eq!(
        pre_llm_guard(&g, &cfg(2, 0, 0), 100),
        Some(REASON_LLM_ROUNDS)
    );
    assert_eq!(pre_llm_guard(&g, &cfg(0, 0, 0), 1000), None);
    assert_eq!(
        pre_llm_guard(&g, &cfg(99, 50, 0), 160),
        Some(REASON_TIMEOUT)
    );
    assert!(!wall_exceeded(&g, &cfg(0, 50, 0), 149));
    assert!(wall_exceeded(&g, &cfg(0, 50, 0), 150));
}

#[test]
fn similar_text_ignores_space_and_case() {
    assert!(highly_similar("Hello   World", "hello world"));
    assert!(!highly_similar("ship the crate", "draw a map"));
    assert!(!highly_similar("", "hello"));
}

#[test]
fn noop_streak_counts_repeats_after_baseline() {
    let mut g = snap(0, "1");
    let c = cfg(0, 0, 2);
    assert_eq!(observe_noop_turn(&mut g, "still working", &c), None);
    assert_eq!(g.noop_streak, 0);
    assert_eq!(observe_noop_turn(&mut g, "still working", &c), None);
    assert_eq!(g.noop_streak, 1);
    assert_eq!(
        observe_noop_turn(&mut g, "Still   working", &c),
        Some(REASON_NOOP)
    );
    clear_noop_progress(&mut g);
    assert_eq!(g.noop_streak, 0);
    assert!(g.last_assistant_norm.is_empty());
    assert_eq!(
        observe_noop_turn(&mut g, "still working", &cfg(0, 0, 0)),
        None
    );
}

#[test]
fn limits_of_zero_never_stop_a_run() {
    let g = snap(u32::MAX, "0");
    assert_eq!(pre_llm_guard(&g, &cfg(0, 0, 0), u64::MAX), None);
}

#[test]
fn wall_time_comes_before_rounds() {
    let g = snap(5, "100");
    assert_eq!(
        pre_llm_guard(&g, &cfg(2, 10, 0), 200),
        Some(REASON_TIMEOUT)
    );
}

#[test]
fn a_start_that_is_no_number_is_never_too_long_ago() {
    let g = snap(0, "not a number");
    assert!(!wall_exceeded(&g, &cfg(0, 10, 0), u64::MAX));
}

#[test]
fn normal_text_is_lower_case_with_single_spaces() {
    assert_eq!(normalize_text("  Hello \n\t WORLD  "), "hello world");
    assert_eq!(normalize_text("   "), "");
    assert_eq!(normalize_text("ÄÖÜ"), "äöü");
}

#[test]
fn another_text_starts_the_streak_again() {
    let mut g = snap(0, "1");
    let c = cfg(0, 0, 3);
    assert_eq!(observe_noop_turn(&mut g, "still working on the map", &c), None);
    assert_eq!(observe_noop_turn(&mut g, "still working on the map", &c), None);
    assert_eq!(g.noop_streak, 1);
    assert_eq!(observe_noop_turn(&mut g, "order placed", &c), None);
    assert_eq!(g.noop_streak, 0);
}

#[test]
fn near_repeats_are_similar_and_others_are_not() {
    assert!(highly_similar(
        "the quick brown fox jumps over the lazy dog",
        "the quick brown fox jumps over the lazy dogs"
    ));
    assert!(!highly_similar("abc", "abd"));
    assert!(highly_similar("A", "a"));
}

#[test]
fn similarity_does_not_depend_on_the_order() {
    let texts = [
        "",
        " \t ",
        "a",
        "abcde",
        "Abcd e",
        "abcdef",
        "äbcd",
        "the quick brown fox jumps over the lazy dog",
        "the quick brown fox jumps over the lazy dogs",
    ];
    for a in texts {
        for b in texts {
            assert_eq!(highly_similar(a, b), highly_similar(b, a), "{a:?} {b:?}");
        }
        assert_eq!(highly_similar(a, a), !normalize_text(a).is_empty(), "{a:?}");
    }
    assert!(highly_similar("abcde", "abcdef"));
    assert!(highly_similar("abcdef", "abcde"));
}

#[test]
fn normalizing_twice_changes_nothing() {
    for text in ["", " \n ", "one", " One\u{a0}two\tTHREE ", "ÄÖÜ  ß"] {
        let once = normalize_text(text);
        assert_eq!(normalize_text(&once), once);
        assert_eq!(once.is_empty(), text.trim().is_empty());
        let words: Vec<&str> = text.split_whitespace().collect();
        assert_eq!(normalize_text(&words.join(" ")), once);
        for other in ["one two three", "one", ""] {
            assert_eq!(highly_similar(&once, other), highly_similar(text, other));
        }
    }
}

#[test]
fn normal_forms_are_compared_as_they_stand() {
    assert!(nearly_same("hello world", "hello world"));
    assert!(nearly_same("abcde", "abcdef"));
    assert!(!nearly_same("hello", "HELLO"));
    assert!(!nearly_same("", ""));
}

#[test]
fn a_turn_is_judged_by_its_normal_form() {
    let mut g = snap(0, "1");
    let c = cfg(0, 0, 2);
    assert_eq!(observe_normal_turn(&mut g, "still working".into(), "", &c), None);
    assert_eq!(g.noop_streak, 0);
    assert_eq!(g.last_assistant_norm, "still working");
    assert_eq!(observe_normal_turn(&mut g, "still working".into(), "still working", &c), None);
    assert_eq!(g.noop_streak, 1);
    assert_eq!(
        observe_normal_turn(&mut g, "still working".into(), "still working", &c),
        Some(REASON_NOOP)
    );
    assert_eq!(observe_normal_turn(&mut g, "order placed".into(), "still working", &c), None);
    assert_eq!(g.noop_streak, 0);
}

#[test]
fn ascii_letters_alone_change_in_ascii_texts() {
    let all: String = (0u8..128).map(char::from).filter(|c| !c.is_whitespace()).collect();
    assert_eq!(normalize_text(&all), all.to_ascii_lowercase());
}
