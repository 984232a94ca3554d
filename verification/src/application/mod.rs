//! The use cases of the service.

pub mod config;
pub mod config_laws;
pub mod credentials;
pub mod enrich;
pub mod enrich_laws;
pub mod output;
pub mod output_laws;
pub mod projects;
pub mod projects_laws;
pub mod refresh;
pub mod refresh_laws;
pub mod scripts;
pub mod scripts_laws;
pub mod sync;
pub mod sync_laws;
pub mod views;
pub mod views_laws;
