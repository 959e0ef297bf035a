//! Errors of the library and their messages.

use vstd::prelude::*;

use crate::text::{concat, decimal_text, number_text, owned};

verus! {

/// Everything that can go wrong in the library.
#[derive(Debug)]
pub enum AppError {
    TaskNotFound(String),
    AmbiguousId { prefix: String, count: usize },
    IdPrefixTooShort(String),
    InvalidInput(String),
    InvalidLabel(String),
    NoEditFields,
    NestingTooDeep,
    SubtaskRecurrence,
    DataFile(String),
    Serialization(String),
    Config(String),
    Io(String),
    FileLock(String),
    SchemaVersionTooNew(u32, u32),
    AlreadyInitialized,
}

/// The message of an error (what its `Display` shows).
pub open spec fn error_text(e: AppError) -> Seq<char> {
    match e {
        AppError::TaskNotFound(p) => "Task not found: '"@ + p@ + "'"@,
        AppError::AmbiguousId { prefix, count } => "Ambiguous ID '"@ + prefix@ + "': "@
            + decimal_text(count as nat) + " tasks match"@,
        AppError::IdPrefixTooShort(p) => "ID prefix too short: '"@ + p@
            + "' (minimum 4 characters)"@,
        AppError::InvalidInput(m) => "Invalid input: "@ + m@,
        AppError::InvalidLabel(l) => "Invalid label: '"@ + l@ + "'"@,
        AppError::NoEditFields => "No edit fields specified"@,
        AppError::NestingTooDeep => "Nesting too deep: subtasks cannot have children"@,
        AppError::SubtaskRecurrence => "Subtasks cannot have a recurrence"@,
        AppError::DataFile(m) => "Data file error: "@ + m@,
        AppError::Serialization(m) => "Serialization error: "@ + m@,
        AppError::Config(m) => "Config error: "@ + m@,
        AppError::Io(m) => "IO error: "@ + m@,
        AppError::FileLock(m) => "File lock error: "@ + m@,
        AppError::SchemaVersionTooNew(found, supported) => "Schema version "@ + decimal_text(
            found as nat,
        ) + " is newer than supported version "@ + decimal_text(supported as nat),
        AppError::AlreadyInitialized => "Already initialized: use --force to overwrite"@,
    }
}

fn quoted(before: &str, x: &str, after: &str) -> (r: String)
    ensures
        r@ == before@ + x@ + after@,
{
    let a = concat(before, x);
    concat(a.as_str(), after)
}

impl AppError {
    /// The message of the error.
    pub fn message(&self) -> (r: String)
        ensures
            r@ == error_text(*self),
    {
        match self {
            AppError::TaskNotFound(p) => quoted("Task not found: '", p.as_str(), "'"),
            AppError::AmbiguousId { prefix, count } => {
                let a = quoted("Ambiguous ID '", prefix.as_str(), "': ");
                let n = number_text(*count as u64);
                quoted(a.as_str(), n.as_str(), " tasks match")
            },
            AppError::IdPrefixTooShort(p) => quoted(
                "ID prefix too short: '",
                p.as_str(),
                "' (minimum 4 characters)",
            ),
            AppError::InvalidInput(m) => concat("Invalid input: ", m.as_str()),
            AppError::InvalidLabel(l) => quoted("Invalid label: '", l.as_str(), "'"),
            AppError::NoEditFields => owned("No edit fields specified"),
            AppError::NestingTooDeep => owned("Nesting too deep: subtasks cannot have children"),
            AppError::SubtaskRecurrence => owned("Subtasks cannot have a recurrence"),
            AppError::DataFile(m) => concat("Data file error: ", m.as_str()),
            AppError::Serialization(m) => concat("Serialization error: ", m.as_str()),
            AppError::Config(m) => concat("Config error: ", m.as_str()),
            AppError::Io(m) => concat("IO error: ", m.as_str()),
            AppError::FileLock(m) => concat("File lock error: ", m.as_str()),
            AppError::SchemaVersionTooNew(found, supported) => {
                let a = number_text(*found as u64);
                let b = number_text(*supported as u64);
                let c = quoted("Schema version ", a.as_str(), " is newer than supported version ");
                concat(c.as_str(), b.as_str())
            },
            AppError::AlreadyInitialized => owned("Already initialized: use --force to overwrite"),
        }
    }
}

} // verus!
