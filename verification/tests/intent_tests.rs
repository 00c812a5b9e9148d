use astra_core::intent::engine::{pattern_weight, IntentTracker, PatternWeight};
use astra_core::intent::state::Intent;
use astra_core::patterns::event::PatternEvent;

const SEC: u64 = 1_000_000_000;

#[test]
fn pattern_weights_follow_the_rules() {
    let w = pattern_weight(&PatternEvent::HighBackspaceRate { backspaces: 1, total: 2 });
    assert_eq!(w, PatternWeight { intent: Intent::Debugging, tenths: 13 });
    let w = pattern_weight(&PatternEvent::TypingBurst { keys: 30 });
    assert_eq!(w, PatternWeight { intent: Intent::Coding, tenths: 10 });
    let w = pattern_weight(&PatternEvent::WindowInstability { changes: 7 });
    assert_eq!(w, PatternWeight { intent: Intent::Debugging, tenths: 8 });
}

#[test]
fn titles_mentioning_error_speak_for_debugging() {
    let w = pattern_weight(&PatternEvent::RepeatedWindowTitle { title: "build error - log".into(), count: 3 });
    assert_eq!(w, PatternWeight { intent: Intent::Debugging, tenths: 15 });
    let w = pattern_weight(&PatternEvent::RepeatedWindowTitle { title: "Error".into(), count: 3 });
    assert_eq!(w, PatternWeight { intent: Intent::Coding, tenths: 5 });
    let w = pattern_weight(&PatternEvent::RepeatedWindowTitle { title: "errors.rs — é".into(), count: 4 });
    assert_eq!(w, PatternWeight { intent: Intent::Debugging, tenths: 15 });
}

#[test]
fn tracker_starts_idle_without_patterns() {
    let t = IntentTracker::new();
    assert_eq!(t.current_intent(), Intent::Idle);
    assert!(t.pattern_weights().is_empty());
}

#[test]
fn switch_waits_for_the_dwell_time_and_a_strong_score() {
    let mut t = IntentTracker::new();
    let s = t.now();
    assert!(!t.switch_at(s + 10 * SEC, Intent::Coding, false));
    assert!(!t.switch_at(s + 10 * SEC, Intent::Idle, true));
    assert!(t.switch_at(s + 10 * SEC, Intent::Coding, true));
    assert_eq!(t.current_intent(), Intent::Coding);
    assert!(!t.switch_at(s + 13 * SEC, Intent::Reading, true));
    assert_eq!(t.current_intent(), Intent::Coding);
    assert!(t.switch_at(s + 13 * SEC + 1, Intent::Reading, true));
    assert_eq!(t.current_intent(), Intent::Reading);
}

#[test]
fn patterns_older_than_ten_seconds_are_dropped() {
    let mut t = IntentTracker::new();
    t.ingest_pattern_at(0, PatternEvent::TypingBurst { keys: 21 });
    t.ingest_pattern_at(5 * SEC, PatternEvent::WindowInstability { changes: 6 });
    assert_eq!(t.pattern_weights().len(), 2);
    t.ingest_pattern_at(10 * SEC + 1, PatternEvent::HighBackspaceRate { backspaces: 1, total: 1 });
    let ws = t.pattern_weights();
    assert_eq!(ws.len(), 2);
    assert_eq!(ws[0].tenths, 8);
    assert_eq!(ws[1].tenths, 13);
}

#[test]
fn patterns_count_as_activity() {
    let mut t = IntentTracker::new();
    t.ingest_pattern_at(SEC, PatternEvent::TypingBurst { keys: 21 });
    assert!(!t.inactive_at(4 * SEC));
    assert!(t.inactive_at(4 * SEC + 1));
    t.ingest_pattern(PatternEvent::TypingBurst { keys: 22 });
    assert_eq!(t.pattern_weights().len(), 2);
}
