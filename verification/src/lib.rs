//! Verified core of the DeepSeek Harness desktop shell.

pub mod text;
pub mod version;
pub mod json;
pub mod dsh;
pub mod config;
pub mod plugins;
pub mod status;
pub mod lifecycle;
pub mod process_supervisor;
pub mod health;
pub mod commands;
pub mod tray;
