pub mod event;
pub mod engine;
