//! The configuration file and the user's SSH configuration.

pub mod app;
pub mod paths;
pub mod schema;
pub mod ssh_config;
