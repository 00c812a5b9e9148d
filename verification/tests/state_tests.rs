use astra_core::state::{create_state, ServiceState, SimulationMode};

#[test]
fn new_state_is_running_with_zero_counters() {
    let s = ServiceState::new();
    assert_eq!(s.heartbeat_count, 0);
    assert_eq!(s.total_events, 0);
    assert!(s.running);
    assert_eq!(s.simulation_mode, SimulationMode::Normal);
}

#[test]
fn heartbeat_counts_while_running() {
    let mut s = ServiceState::new();
    assert!(s.heartbeat());
    assert!(s.heartbeat());
    assert_eq!(s.heartbeat_count, 2);
}

#[test]
fn heartbeat_stops_and_freezes_when_stopped() {
    let mut s = ServiceState::new();
    assert!(s.heartbeat());
    s.stop();
    assert!(!s.heartbeat());
    assert_eq!(s.heartbeat_count, 1);
    assert!(!s.running);
}

#[test]
fn rotation_goes_normal_debugging_reading_and_back() {
    let mut s = ServiceState::new();
    assert!(s.rotate_mode());
    assert_eq!(s.simulation_mode, SimulationMode::Debugging);
    assert!(s.rotate_mode());
    assert_eq!(s.simulation_mode, SimulationMode::Reading);
    assert!(s.rotate_mode());
    assert_eq!(s.simulation_mode, SimulationMode::Normal);
}

#[test]
fn every_mode_returns_after_three_steps() {
    for m in [SimulationMode::Normal, SimulationMode::Debugging, SimulationMode::Reading] {
        assert_ne!(m.next(), m);
        assert_eq!(m.next().next().next(), m);
    }
}

#[test]
fn rotation_does_nothing_when_stopped() {
    let mut s = ServiceState::new();
    s.stop();
    assert!(!s.rotate_mode());
    assert_eq!(s.simulation_mode, SimulationMode::Normal);
}

#[test]
fn record_event_counts_events() {
    let mut s = ServiceState::new();
    s.record_event();
    s.record_event();
    s.record_event();
    assert_eq!(s.total_events, 3);
    assert_eq!(s.heartbeat_count, 0);
}

#[test]
fn create_state_holds_a_fresh_state() {
    let shared = create_state();
    let s = shared.lock().unwrap();
    assert_eq!(s.heartbeat_count, 0);
    assert_eq!(s.total_events, 0);
    assert!(s.running);
    assert_eq!(s.simulation_mode, SimulationMode::Normal);
}
