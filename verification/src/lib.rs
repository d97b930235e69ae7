//! Verified core of an on-screen keyboard: layout rules, language selection,
//! input-context protocol state and composition helpers.
pub mod cli;
pub mod config;
pub mod geometry;
pub mod ime;
pub mod input_detection;
pub mod ipc;
pub mod language;
pub mod layout;
pub mod service;
pub mod status;
pub mod table;
pub mod text;
pub mod types;
pub mod ui;
pub mod visibility;
