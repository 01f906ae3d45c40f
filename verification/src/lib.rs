//! Verified core of the Cloud Service Foundry command-line client.

pub mod commands;
pub mod details;
pub mod login;
pub mod metrics;
pub mod num;
pub mod releases;
pub mod repl;
pub mod rows;
pub mod semver;
pub mod session;
pub mod ssh;
pub mod table;
pub mod text;
pub mod update;
