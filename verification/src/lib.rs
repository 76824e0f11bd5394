//! Prompt overlay for a terminal pane in which a command line agent runs.

pub mod agent;
pub mod bytes;
pub mod dynamic_commands;
pub mod hashing;
pub mod history_store;
pub mod json;
pub mod laws;
pub mod numerals;
pub mod overlay;
pub mod patterns;
pub mod popover;
pub mod render;
pub mod screen;
pub mod session;
pub mod slash_commands;
pub mod status_parser;
pub mod text;
