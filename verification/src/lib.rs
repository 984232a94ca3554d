//! An inventory service: it gathers inventories from sources, keeps them in a cache,
//! enriches them, and serves them as they are, as views over several sources, or
//! rendered for a consumer.

pub mod api;
pub mod application;
pub mod auth;
pub mod auth_laws;
pub mod builder;
pub mod clock;
pub mod config;
pub mod cron;
pub mod domain;
pub mod json;
pub mod locks;
pub mod model;
pub mod model_laws;
pub mod ports;
pub mod schedule_laws;
pub mod scheduler;
pub mod state;
pub mod strmap;
pub mod text;
pub mod text_laws;
pub mod validation;
pub mod validation_laws;
pub mod yaml;
