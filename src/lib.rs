//! Lifecycle logic for managed application bundles: manifests and profiles,
//! release-tag ordering, runtime provisioning plans, process supervision
//! decisions and the application registry.

pub mod text;
pub mod version;
pub mod app;
pub mod runtime;
pub mod install;
pub mod supervisor;
pub mod sync;
pub mod config;
pub mod paths;
pub mod logger;
pub mod cli;
pub mod yaml_parser;
pub mod registry;
