use vstd::prelude::*;

verus! {

/// An observation of the user's devices.
#[derive(Debug, Clone)]
pub enum SensorEvent {
    /// The foreground window changed; `ts` is the time of the change in
    /// nanoseconds on the sensor's clock.
    WindowChanged { title: String, ts: u64 },
    KeyPressed { key: String },
    KeyBackspace,
    MouseMoved { x: i32, y: i32 },
    Scroll { delta: i32 },
}

} // verus!
