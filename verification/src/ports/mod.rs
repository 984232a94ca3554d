//! What the service asks of the world outside.

pub mod cache;
pub mod config_store;
pub mod connector;
pub mod enricher;
pub mod git;
pub mod output;
pub mod secrets;
pub mod venv;
