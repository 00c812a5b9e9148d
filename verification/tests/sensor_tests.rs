use astra_core::sensors::event::SensorEvent;
use astra_core::sensors::input::input_events;
use astra_core::sensors::keyboard::{debugging_round, keyboard_round, letter_string, normal_round, reading_round};
use astra_core::sensors::mouse::MouseWalker;
use astra_core::sensors::plan::SensorAction;
use astra_core::state::SimulationMode;

fn key_of(a: &SensorAction) -> Option<String> {
    match a {
        SensorAction::Send(SensorEvent::KeyPressed { key }) => Some(key.clone()),
        _ => None,
    }
}

fn is_letter(s: &str) -> bool {
    s.len() == 1 && s.chars().all(|c| c.is_ascii_lowercase())
}

#[test]
fn letters_are_lower_case_a_to_z() {
    assert_eq!(letter_string(0), "a");
    assert_eq!(letter_string(7), "h");
    assert_eq!(letter_string(25), "z");
}

#[test]
fn normal_round_types_one_letter_then_waits() {
    let a = normal_round(2);
    assert_eq!(a.len(), 2);
    assert_eq!(key_of(&a[0]).unwrap(), "c");
    assert!(matches!(a[1], SensorAction::Sleep(180)));
}

#[test]
fn debugging_round_types_then_erases() {
    let a = debugging_round(&vec![0, 1, 2], 2);
    assert_eq!(a.len(), 11);
    assert_eq!(key_of(&a[0]).unwrap(), "a");
    assert!(matches!(a[1], SensorAction::Sleep(70)));
    assert_eq!(key_of(&a[4]).unwrap(), "c");
    assert!(matches!(a[6], SensorAction::Send(SensorEvent::KeyBackspace)));
    assert!(matches!(a[7], SensorAction::Sleep(60)));
    assert!(matches!(a[10], SensorAction::Sleep(300)));
}

#[test]
fn reading_round_types_at_most_one_letter() {
    let a = reading_round(None);
    assert_eq!(a.len(), 1);
    assert!(matches!(a[0], SensorAction::Sleep(1200)));
    let a = reading_round(Some(25));
    assert_eq!(key_of(&a[0]).unwrap(), "z");
    assert!(matches!(a[1], SensorAction::Sleep(1200)));
}

#[test]
fn random_keyboard_rounds_have_the_mode_shapes() {
    for _ in 0..50 {
        let a = keyboard_round(SimulationMode::Normal);
        assert_eq!(a.len(), 2);
        assert!(is_letter(&key_of(&a[0]).unwrap()));

        let a = keyboard_round(SimulationMode::Debugging);
        let letters = a.iter().filter(|x| key_of(x).is_some()).count();
        let backspaces = a.iter().filter(|x| matches!(x, SensorAction::Send(SensorEvent::KeyBackspace))).count();
        assert!((3..8).contains(&letters));
        assert!((2..6).contains(&backspaces));
        assert_eq!(a.len(), 2 * letters + 2 * backspaces + 1);

        let a = keyboard_round(SimulationMode::Reading);
        assert!(a.len() == 1 || a.len() == 2);
        assert!(matches!(a[a.len() - 1], SensorAction::Sleep(1200)));
    }
}

#[test]
fn mouse_starts_at_400_300_and_wanders_within_reach() {
    let mut m = MouseWalker::new();
    assert_eq!((m.x, m.y), (400, 300));
    for _ in 0..50 {
        let (x0, y0) = (m.x, m.y);
        let a = m.round(SimulationMode::Normal).unwrap();
        assert!((m.x - x0).abs() <= 15 && (m.y - y0).abs() <= 15);
        assert!(matches!(a[0], SensorAction::Send(SensorEvent::MouseMoved { x, y }) if x == m.x && y == m.y));
        assert!(matches!(a[1], SensorAction::Sleep(120)));

        let (x0, y0) = (m.x, m.y);
        let a = m.round(SimulationMode::Debugging).unwrap();
        assert!((m.x - x0).abs() <= 3 && (m.y - y0).abs() <= 3);
        assert!(matches!(a[a.len() - 1], SensorAction::Sleep(500)));

        let (x0, y0) = (m.x, m.y);
        let a = m.round(SimulationMode::Reading).unwrap();
        assert!((m.x - x0).abs() <= 5 && (m.y - y0).abs() <= 5);
        if a.len() == 3 {
            assert!(matches!(a[0], SensorAction::Send(SensorEvent::Scroll { delta }) if (1..5).contains(&delta)));
        }
        assert!(matches!(a[a.len() - 1], SensorAction::Sleep(700)));
    }
}

#[test]
fn mouse_step_moves_by_the_offset() {
    let mut m = MouseWalker::new();
    let e = m.step(-5, 7);
    assert!(matches!(e, SensorEvent::MouseMoved { x: 395, y: 307 }));
}

fn names(v: &[&str]) -> Vec<String> {
    v.iter().map(|s| s.to_string()).collect()
}

#[test]
fn poll_reports_new_keys_and_mouse_moves() {
    let ev = input_events(&names(&["A", "Backspace", "LShift"]), &names(&["LShift"]), (5, 6), (5, 5));
    assert_eq!(ev.len(), 3);
    assert!(matches!(&ev[0], SensorEvent::KeyPressed { key } if key == "A"));
    assert!(matches!(ev[1], SensorEvent::KeyBackspace));
    assert!(matches!(ev[2], SensorEvent::MouseMoved { x: 5, y: 6 }));
}

#[test]
fn unchanged_poll_reports_nothing() {
    let keys = names(&["A", "B"]);
    assert!(input_events(&keys, &keys, (1, 1), (1, 1)).is_empty());
}

#[test]
fn mouse_near_the_edge_keeps_moving_in_small_step_modes() {
    let mut m = MouseWalker { x: i32::MAX - 10, y: 0 };
    assert!(!m.has_room(SimulationMode::Normal));
    assert!(m.has_room(SimulationMode::Debugging));
    assert!(m.has_room(SimulationMode::Reading));
    for _ in 0..20 {
        m.x = i32::MAX - 10;
        let a = m.round(SimulationMode::Debugging).unwrap();
        assert!(matches!(a[a.len() - 1], SensorAction::Sleep(500)));
        assert!(m.x >= i32::MAX - 13);
        m.x = i32::MAX - 10;
        m.round(SimulationMode::Reading).unwrap();
        assert!(m.x >= i32::MAX - 15);
    }
    let m = MouseWalker { x: i32::MAX - 3, y: i32::MIN + 3 };
    assert!(m.has_room(SimulationMode::Debugging));
    assert!(!m.has_room(SimulationMode::Reading));
}

#[test]
fn a_move_off_the_edge_is_refused_and_the_mouse_stays() {
    let mut m = MouseWalker { x: i32::MAX, y: 0 };
    assert!(m.try_step(1, 0).is_none());
    assert_eq!((m.x, m.y), (i32::MAX, 0));
    assert!(matches!(m.try_step(-1, 2), Some(SensorEvent::MouseMoved { x, y: 2 }) if x == i32::MAX - 1));
    for _ in 0..50 {
        let mut m = MouseWalker { x: i32::MAX, y: i32::MIN };
        match m.round(SimulationMode::Normal) {
            Some(_) => assert!(m.x <= i32::MAX && m.y >= i32::MIN),
            None => assert_eq!((m.x, m.y), (i32::MAX, i32::MIN)),
        }
    }
}
