//! What the service answers over HTTP.

pub mod health;
pub mod sources;
pub mod sources_laws;
