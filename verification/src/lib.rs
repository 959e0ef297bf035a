//! Task management core: tasks, filters, an in-memory task store with an
//! archive, the task service, settings, localized messages, CLI result
//! formatting and the terminal UI's state machine.

pub mod cli;
pub mod config;
pub mod error;
pub mod i18n;
pub mod text;
pub mod tui;
pub mod model;
pub mod service;
pub mod store;
