pub mod codec;
pub mod compose;
pub mod config;
pub mod error;
pub mod event_loop;
pub mod exit_report;
pub mod result;
pub mod sandbox;
pub mod time;
pub mod utils;
