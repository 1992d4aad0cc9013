//! Verified planning and rendering logic of an ECS provisioner for agent services:
//! manifest validation, configuration rendering, deployment planning, service
//! listing and teardown naming.

pub mod text;
pub mod manifest;
pub mod config;
pub mod store;
pub mod deploy;
pub mod command;
pub mod listing;
pub mod teardown;
pub mod laws;
pub mod toml;
pub mod config_read;
