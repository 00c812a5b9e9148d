use astra_core::behavior::event_adapter::{BehaviorEvent, BehaviorEventKind, EventAdapter};
use astra_core::behavior::metrics::EventCounts;
use astra_core::behavior::window::SlidingWindow;
use astra_core::clock::{nanos_as_u64, Clock};
use astra_core::sensors::event::SensorEvent;

const SEC: u64 = 1_000_000_000;

fn ev(ts: u64, kind: BehaviorEventKind) -> BehaviorEvent {
    BehaviorEvent { timestamp: ts, kind }
}

#[test]
fn first_mouse_move_has_no_offset() {
    let mut a = EventAdapter::new();
    assert_eq!(a.last_mouse_pos, None);
    let e = a.convert_at(7, SensorEvent::MouseMoved { x: 10, y: 20 }).unwrap();
    assert_eq!(e.timestamp, 7);
    assert!(matches!(e.kind, BehaviorEventKind::MouseMoved { dx: 0, dy: 0 }));
    assert_eq!(a.last_mouse_pos, Some((10, 20)));
}

#[test]
fn mouse_offsets_add_up_to_the_total_movement() {
    let mut a = EventAdapter::new();
    a.convert_at(0, SensorEvent::MouseMoved { x: 100, y: 100 });
    let mut sx = 0;
    let mut sy = 0;
    for (x, y) in [(103, 98), (90, 120), (95, 110)] {
        match a.convert_at(1, SensorEvent::MouseMoved { x, y }).unwrap().kind {
            BehaviorEventKind::MouseMoved { dx, dy } => {
                sx += dx;
                sy += dy;
            }
            _ => panic!("not a move"),
        }
    }
    assert_eq!((sx, sy), (95 - 100, 110 - 100));
}

#[test]
fn every_sensor_event_is_converted() {
    let mut a = EventAdapter::new();
    assert!(matches!(a.convert_at(1, SensorEvent::KeyPressed { key: "q".into() }).unwrap().kind, BehaviorEventKind::KeyPress));
    assert!(matches!(a.convert_at(1, SensorEvent::KeyBackspace).unwrap().kind, BehaviorEventKind::Backspace));
    assert!(matches!(a.convert_at(1, SensorEvent::Scroll { delta: -4 }).unwrap().kind, BehaviorEventKind::Scroll { delta: -4 }));
    assert!(matches!(
        a.convert_at(1, SensorEvent::WindowChanged { title: "t".into(), ts: 0 }).unwrap().kind,
        BehaviorEventKind::WindowSwitch
    ));
    assert_eq!(a.last_mouse_pos, None);
}

#[test]
fn convert_reads_the_clock() {
    let mut clock = Clock::new();
    let mut a = EventAdapter::new();
    let e = a.convert(&mut clock, SensorEvent::KeyBackspace).unwrap();
    assert!(matches!(e.kind, BehaviorEventKind::Backspace));
    assert!(e.timestamp <= clock.now());
}

#[test]
fn window_drops_events_older_than_its_size() {
    let mut w = SlidingWindow::new(5 * SEC);
    w.push_at(0, ev(0, BehaviorEventKind::KeyPress));
    w.push_at(SEC, ev(SEC, BehaviorEventKind::Backspace));
    assert_eq!(w.len(), 2);
    w.push_at(5 * SEC, ev(5 * SEC, BehaviorEventKind::KeyPress));
    assert_eq!(w.len(), 3);
    w.push_at(5 * SEC + 1, ev(5 * SEC + 1, BehaviorEventKind::WindowSwitch));
    assert_eq!(w.len(), 3);
    assert_eq!(w.get(0).timestamp, SEC);
    assert_eq!(w.window_size(), 5 * SEC);
}

#[test]
fn window_push_reads_the_clock() {
    let mut clock = Clock::new();
    let mut w = SlidingWindow::new(5 * SEC);
    let now = clock.now();
    w.push(&mut clock, ev(now, BehaviorEventKind::KeyPress));
    w.push(&mut clock, ev(now, BehaviorEventKind::Backspace));
    assert_eq!(w.len(), 2);
}

#[test]
fn clock_readings_never_go_back() {
    let mut clock = Clock::new();
    let mut prev = clock.now();
    for _ in 0..1000 {
        let t = clock.now();
        assert!(t >= prev);
        prev = t;
    }
}

#[test]
fn pruning_again_at_the_same_time_drops_nothing() {
    let mut w = SlidingWindow::new(5 * SEC);
    w.push_at(0, ev(0, BehaviorEventKind::KeyPress));
    w.push_at(3 * SEC, ev(3 * SEC, BehaviorEventKind::KeyPress));
    w.push_at(6 * SEC, ev(6 * SEC, BehaviorEventKind::KeyPress));
    assert_eq!(w.len(), 2);
    assert_eq!(w.get(0).timestamp, 3 * SEC);
}

#[test]
fn counts_tally_each_kind() {
    let mut w = SlidingWindow::new(10 * SEC);
    let kinds = [
        BehaviorEventKind::KeyPress,
        BehaviorEventKind::KeyPress,
        BehaviorEventKind::Backspace,
        BehaviorEventKind::MouseMoved { dx: 3, dy: 4 },
        BehaviorEventKind::Scroll { delta: -3 },
        BehaviorEventKind::Scroll { delta: 2 },
        BehaviorEventKind::Scroll { delta: i32::MIN },
        BehaviorEventKind::WindowSwitch,
    ];
    for k in kinds {
        w.push_at(1, ev(1, k));
    }
    let c = EventCounts::from_window(&w);
    assert_eq!(c.key_count, 2);
    assert_eq!(c.backspace_count, 1);
    assert_eq!(c.mouse_move_count, 1);
    assert_eq!(c.window_switch_count, 1);
    assert_eq!(c.scroll_total, 5 + 2_147_483_648);
}

#[test]
fn empty_window_counts_nothing() {
    let w = SlidingWindow::new(SEC);
    let c = EventCounts::from_window(&w);
    assert_eq!((c.key_count, c.backspace_count, c.mouse_move_count, c.window_switch_count, c.scroll_total), (0, 0, 0, 0, 0));
}

#[test]
fn clock_advance_keeps_the_later_reading() {
    let mut clock = Clock::new();
    assert_eq!(clock.advance(50), 50);
    assert_eq!(clock.advance(20), 50);
    assert_eq!(clock.advance(70), 70);
    assert!(clock.now() >= 70);
}

#[test]
fn nanosecond_counts_saturate_at_u64_max() {
    assert_eq!(nanos_as_u64(12), 12);
    assert_eq!(nanos_as_u64(u64::MAX as u128 + 5), u64::MAX);
}
