//! Core of an activity-sensing service: sensor events are turned into
//! pattern events (sliding-window rules), behavior event counts and intent
//! switching decisions.
//!
//! Time is read from monotonic clocks as nanoseconds since the clock's
//! origin; every rule is also available as a function of an explicit
//! timestamp, and those functions carry the exact contracts.

pub mod clock;
pub mod stamped;
pub mod state;
pub mod sensors;
pub mod patterns;
pub mod behavior;
pub mod intent;
