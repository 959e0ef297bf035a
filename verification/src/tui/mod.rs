//! The terminal UI's state machine: what each key and each tick does to the
//! task list, the task form and the delete confirmation. Drawing and the
//! terminal itself are the program's business.

pub mod app;
pub mod form;
pub mod pages;
