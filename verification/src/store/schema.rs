//! The stored form of a task list.

use vstd::prelude::*;

use crate::error::AppError;
use crate::model::task::{tasks_view, Task};

verus! {

/// Newest version of the stored task list that this library reads.
pub const CURRENT_VERSION: u32 = 1;

/// A stored task list.
#[derive(Debug)]
pub struct TaskData {
    pub version: u32,
    pub tasks: Vec<Task>,
}

impl TaskData {
    /// An empty task list of the current version.
    pub fn empty() -> (d: TaskData)
        ensures
            d.version == CURRENT_VERSION,
            d.tasks@.len() == 0,
    {
        TaskData { version: CURRENT_VERSION, tasks: Vec::new() }
    }

    /// Accepts a task list read from storage unless its version is newer
    /// than `CURRENT_VERSION`.
    pub fn checked(data: TaskData) -> (r: Result<TaskData, AppError>)
        ensures
            data.version <= CURRENT_VERSION ==> r is Ok && r->Ok_0.version == data.version
                && tasks_view(r->Ok_0.tasks@) == tasks_view(data.tasks@),
            data.version > CURRENT_VERSION ==> (r matches Err(
                AppError::SchemaVersionTooNew(found, supported),
            ) && found == data.version && supported == CURRENT_VERSION),
    {
        if data.version > CURRENT_VERSION {
            Err(AppError::SchemaVersionTooNew(data.version, CURRENT_VERSION))
        } else {
            Ok(data)
        }
    }
}

} // verus!
