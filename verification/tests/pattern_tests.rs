use astra_core::patterns::engine::PatternEngine;
use astra_core::patterns::event::PatternEvent;
use astra_core::sensors::event::SensorEvent;

const SEC: u64 = 1_000_000_000;

fn window(title: &str) -> SensorEvent {
    SensorEvent::WindowChanged { title: title.to_string(), ts: 0 }
}

fn key() -> SensorEvent {
    SensorEvent::KeyPressed { key: "a".to_string() }
}

#[test]
fn repeated_title_is_reported_from_the_third_change() {
    let mut e = PatternEngine::new();
    assert!(e.process_at(0, &window("editor")).is_empty());
    assert!(e.process_at(SEC, &window("editor")).is_empty());
    let out = e.process_at(2 * SEC, &window("editor"));
    assert_eq!(out.len(), 1);
    match &out[0] {
        PatternEvent::RepeatedWindowTitle { title, count } => {
            assert_eq!(title, "editor");
            assert_eq!(*count, 3);
        }
        other => panic!("unexpected {:?}", other),
    }
    assert_eq!(e.last_window_change, Some(2 * SEC));
}

#[test]
fn titles_older_than_ten_seconds_are_forgotten() {
    let mut e = PatternEngine::new();
    e.process_at(0, &window("editor"));
    e.process_at(SEC, &window("editor"));
    let out = e.process_at(11 * SEC + 1, &window("editor"));
    assert!(out.is_empty());
    assert_eq!(e.recent_window_titles.len(), 1);
}

#[test]
fn a_title_exactly_ten_seconds_old_is_kept() {
    let mut e = PatternEngine::new();
    e.process_at(0, &window("x"));
    e.process_at(10 * SEC, &window("y"));
    assert_eq!(e.recent_window_titles.len(), 2);
}

#[test]
fn window_instability_fires_once_then_rearms() {
    let mut e = PatternEngine::new();
    let titles = ["a", "b", "c", "d", "e"];
    for (i, t) in titles.iter().enumerate() {
        assert!(e.process_at(i as u64 * SEC, &window(t)).is_empty());
    }
    let out = e.process_at(5 * SEC, &window("f"));
    assert_eq!(out.len(), 1);
    assert!(matches!(out[0], PatternEvent::WindowInstability { changes: 6 }));
    // still unstable: not reported again
    let out = e.process_at(6 * SEC, &window("g"));
    assert!(out.is_empty());
    // long pause: the rule resets
    let out = e.process_at(100 * SEC, &window("h"));
    assert!(out.is_empty());
    for i in 1..5u64 {
        assert!(e.process_at(100 * SEC + i, &window(&format!("t{}", i))).is_empty());
    }
    let out = e.process_at(100 * SEC + 5, &window("t5"));
    assert!(matches!(out[0], PatternEvent::WindowInstability { changes: 6 }));
}

#[test]
fn high_backspace_rate_fires_on_the_rising_edge() {
    let mut e = PatternEngine::new();
    assert!(e.process_at(0, &key()).is_empty());
    assert!(e.process_at(1, &key()).is_empty());
    let out = e.process_at(2, &SensorEvent::KeyBackspace);
    assert_eq!(out.len(), 1);
    assert!(matches!(out[0], PatternEvent::HighBackspaceRate { backspaces: 1, total: 3 }));
    // still above 0.3: no repeat
    let out = e.process_at(3, &SensorEvent::KeyBackspace);
    assert!(out.is_empty());
}

#[test]
fn backspace_ratio_of_exactly_three_tenths_is_not_high() {
    let mut e = PatternEngine::new();
    for i in 0..7u64 {
        e.process_at(i, &key());
    }
    e.process_at(7, &SensorEvent::KeyBackspace);
    e.process_at(8, &SensorEvent::KeyBackspace);
    let out = e.process_at(9, &SensorEvent::KeyBackspace);
    assert!(out.is_empty());
    let out = e.process_at(10, &SensorEvent::KeyBackspace);
    assert!(matches!(out[0], PatternEvent::HighBackspaceRate { backspaces: 4, total: 11 }));
}

#[test]
fn typing_burst_needs_more_than_twenty_keys_in_two_seconds() {
    let mut e = PatternEngine::new();
    for i in 0..20u64 {
        assert!(e.process_at(i * 1000, &key()).is_empty());
    }
    let out = e.process_at(20_000, &key());
    assert_eq!(out.len(), 1);
    assert!(matches!(out[0], PatternEvent::TypingBurst { keys: 21 }));
    assert!(e.process_at(21_000, &key()).is_empty());
}

#[test]
fn key_events_older_than_five_seconds_are_forgotten() {
    let mut e = PatternEngine::new();
    e.process_at(0, &key());
    e.process_at(SEC, &key());
    e.process_at(6 * SEC + 1, &key());
    assert_eq!(e.recent_key_events.len(), 1);
}

#[test]
fn mouse_and_scroll_events_change_nothing() {
    let mut e = PatternEngine::new();
    assert!(e.process_at(0, &SensorEvent::MouseMoved { x: 1, y: 2 }).is_empty());
    assert!(e.process_at(1, &SensorEvent::Scroll { delta: 3 }).is_empty());
    assert!(e.recent_key_events.is_empty());
    assert!(e.recent_window_titles.is_empty());
    assert_eq!(e.last_window_change, None);
}

#[test]
fn process_stamps_events_with_the_clock() {
    let mut e = PatternEngine::new();
    assert!(e.process(&key()).is_empty());
    assert!(e.process(&window("w")).is_empty());
    assert_eq!(e.recent_key_events.len(), 1);
    assert_eq!(e.recent_window_titles.len(), 1);
    assert!(e.last_window_change.is_some());
}

#[test]
fn clone_key_copies_key_events() {
    let k = astra_core::patterns::engine::clone_key(&key());
    assert!(matches!(k, SensorEvent::KeyPressed { ref key } if key == "a"));
    let b = astra_core::patterns::engine::clone_key(&SensorEvent::KeyBackspace);
    assert!(matches!(b, SensorEvent::KeyBackspace));
}

#[test]
fn high_backspace_rate_fires_again_after_falling_back() {
    let mut e = PatternEngine::new();
    e.process_at(0, &key());
    let out = e.process_at(1, &SensorEvent::KeyBackspace);
    assert!(matches!(out[0], PatternEvent::HighBackspaceRate { backspaces: 1, total: 2 }));
    // the ratio falls to 1/4, then to 1/5: no report, the rule resets
    assert!(e.process_at(2, &key()).is_empty());
    assert!(e.process_at(3, &key()).is_empty());
    // a window change in between does not touch the key rules
    assert!(e.process_at(4, &window("w")).is_empty());
    assert!(e.process_at(5, &key()).is_empty());
    // 2 of 6, then 3 of 7: above 0.3 again, reported once
    let out = e.process_at(6, &SensorEvent::KeyBackspace);
    assert!(matches!(out[0], PatternEvent::HighBackspaceRate { backspaces: 2, total: 6 }));
    assert!(e.process_at(7, &SensorEvent::KeyBackspace).is_empty());
}

#[test]
fn repeated_titles_are_reported_on_every_repeat() {
    let mut e = PatternEngine::new();
    e.process_at(0, &window("log"));
    e.process_at(1, &window("log"));
    assert_eq!(e.process_at(2, &window("log")).len(), 1);
    let out = e.process_at(3, &window("log"));
    assert!(matches!(&out[0], PatternEvent::RepeatedWindowTitle { count: 4, .. }));
}
