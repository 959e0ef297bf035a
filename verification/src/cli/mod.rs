//! The commands of the command-line interface, as computations from the
//! service and the command's parameters to the response that is shown.

pub mod add;
pub mod archive;
pub mod config;
pub mod delete;
pub mod edit;
pub mod init;
pub mod list;
pub mod output;
pub mod search;
pub mod show;
pub mod stats;
pub mod status;
