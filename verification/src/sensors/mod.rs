pub mod event;
pub mod random;
pub mod plan;
pub mod keyboard;
pub mod mouse;
pub mod input;
