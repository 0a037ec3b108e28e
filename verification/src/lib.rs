//! A verified core for a Tenstorrent system-management tool: decoding of raw
//! chip telemetry, device descriptions, status rules, the interactive view
//! state and the command-line query logic.
pub mod text;
pub mod telemetry;
pub mod hardware;
pub mod app_state;
pub mod display;
pub mod query;
pub mod history;
pub mod commands;
pub mod ui_model;
pub mod host;
pub mod error;
pub mod config;
