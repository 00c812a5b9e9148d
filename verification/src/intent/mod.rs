pub mod state;
pub mod engine;
