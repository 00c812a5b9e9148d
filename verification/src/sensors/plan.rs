use vstd::prelude::*;
use crate::sensors::event::SensorEvent;

verus! {

/// One thing a simulated sensor does: emit an event, or wait.
#[derive(Debug, Clone)]
pub enum SensorAction {
    Send(SensorEvent),
    /// Wait this many milliseconds.
    Sleep(u64),
}

/// Whether `a` emits a key press of the key named `key`.
pub open spec fn sends_key(a: SensorAction, key: Seq<char>) -> bool {
    a matches SensorAction::Send(SensorEvent::KeyPressed { key: k }) && k@ == key
}

} // verus!
