pub mod event_adapter;
pub mod window;
pub mod metrics;
