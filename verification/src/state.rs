use std::sync::Arc;
use std::sync::Mutex;
use vstd::prelude::*;

verus! {

/// The simulated activity the sensors imitate.
#[derive(Debug, Clone, Copy, PartialEq, Eq, Structural)]
pub enum SimulationMode {
    Normal,
    Debugging,
    Reading,
}

/// The mode that follows `m` in the rotation Normal -> Debugging -> Reading -> Normal.
pub open spec fn mode_after(m: SimulationMode) -> SimulationMode {
    match m {
        SimulationMode::Normal => SimulationMode::Debugging,
        SimulationMode::Debugging => SimulationMode::Reading,
        SimulationMode::Reading => SimulationMode::Normal,
    }
}

impl SimulationMode {
    /// The next mode of the rotation.
    pub fn next(self) -> (r: SimulationMode)
        ensures
            r == mode_after(self),
    {
        match self {
            SimulationMode::Normal => SimulationMode::Debugging,
            SimulationMode::Debugging => SimulationMode::Reading,
            SimulationMode::Reading => SimulationMode::Normal,
        }
    }
}

/// Rotating three times returns to the starting mode.
pub proof fn lemma_rotation_period_three(m: SimulationMode)
    ensures
        mode_after(mode_after(mode_after(m))) == m,
{
}

/// Every rotation step changes the mode.
pub proof fn lemma_rotation_changes_mode(m: SimulationMode)
    ensures
        mode_after(m) != m,
{
}

/// Process-wide counters and switches of the service.
#[derive(Debug)]
pub struct ServiceState {
    pub heartbeat_count: u64,
    pub total_events: u64,
    pub running: bool,
    pub simulation_mode: SimulationMode,
}

impl ServiceState {
    /// A running service with zero counters in `Normal` mode.
    pub fn new() -> (s: ServiceState)
        ensures
            s.heartbeat_count == 0,
            s.total_events == 0,
            s.running,
            s.simulation_mode == SimulationMode::Normal,
    {
        ServiceState {
            heartbeat_count: 0,
            total_events: 0,
            running: true,
            simulation_mode: SimulationMode::Normal,
        }
    }

    /// One step of the heartbeat loop: a running service counts one
    /// heartbeat and the loop goes on (`true`); a stopped one is left as it
    /// is and the loop ends (`false`).
    pub fn heartbeat(&mut self) -> (beat: bool)
        requires
            old(self).running ==> old(self).heartbeat_count < u64::MAX,
        ensures
            beat == old(self).running,
            final(self).running == old(self).running,
            final(self).total_events == old(self).total_events,
            final(self).simulation_mode == old(self).simulation_mode,
            final(self).heartbeat_count == if beat {
                old(self).heartbeat_count + 1
            } else {
                old(self).heartbeat_count as int
            },
    {
        if !self.running {
            return false;
        }
        self.heartbeat_count = self.heartbeat_count + 1;
        true
    }

    /// One step of the mode rotation loop: a running service moves to the
    /// next mode (`true`); a stopped one is left as it is (`false`).
    pub fn rotate_mode(&mut self) -> (rotated: bool)
        ensures
            rotated == old(self).running,
            final(self).running == old(self).running,
            final(self).heartbeat_count == old(self).heartbeat_count,
            final(self).total_events == old(self).total_events,
            final(self).simulation_mode == if rotated {
                mode_after(old(self).simulation_mode)
            } else {
                old(self).simulation_mode
            },
    {
        if !self.running {
            return false;
        }
        self.simulation_mode = self.simulation_mode.next();
        true
    }

    /// Counts one sensor event.
    pub fn record_event(&mut self)
        requires
            old(self).total_events < u64::MAX,
        ensures
            final(self).total_events == old(self).total_events + 1,
            final(self).heartbeat_count == old(self).heartbeat_count,
            final(self).running == old(self).running,
            final(self).simulation_mode == old(self).simulation_mode,
    {
        self.total_events = self.total_events + 1;
    }

    /// Asks every loop to stop.
    pub fn stop(&mut self)
        ensures
            !final(self).running,
            final(self).heartbeat_count == old(self).heartbeat_count,
            final(self).total_events == old(self).total_events,
            final(self).simulation_mode == old(self).simulation_mode,
    {
        self.running = false;
    }
}

#[verifier::external_type_specification]
#[verifier::external_body]
#[verifier::reject_recursive_types(T)]
pub struct ExMutex<T: ?Sized>(Mutex<T>);

/// The service state shared between the loops.
pub type SharedState = Arc<Mutex<ServiceState>>;

/// The value a lock was created with (its contents before any thread locks
/// it).
pub uninterp spec fn lock_created_with(m: Mutex<ServiceState>) -> ServiceState;

/// `std::sync::Mutex::new`: a new, unlocked and unpoisoned lock holding `s`.
/// Only the value it was created with is stated; later contents are read and
/// written by other threads.
#[verifier::external_body]
fn lock_new(s: ServiceState) -> (m: Mutex<ServiceState>)
    ensures
        lock_created_with(m) == s,
{
    Mutex::new(s)
}

/// A fresh shared state: its lock is created holding a running service with
/// zero counters in `Normal` mode (`ServiceState::new()`).
pub fn create_state() -> (shared: SharedState)
    ensures
        lock_created_with(*shared) == (ServiceState {
            heartbeat_count: 0,
            total_events: 0,
            running: true,
            simulation_mode: SimulationMode::Normal,
        }),
{
    Arc::new(lock_new(ServiceState::new()))
}

} // verus!
