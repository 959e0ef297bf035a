//! Counts of tasks by attribute.

use vstd::prelude::*;

verus! {

/// Task counts. Each `by_*` list holds one entry per distinct key, with the
/// number of counted tasks that have that key; the lists carry no order.
#[derive(Debug)]
pub struct Stats {
    pub total: usize,
    pub todo: usize,
    pub in_progress: usize,
    pub done: usize,
    pub cancelled: usize,
    pub by_status: Vec<(String, usize)>,
    pub by_priority: Vec<(String, usize)>,
    pub by_label: Vec<(String, usize)>,
    pub by_project: Vec<(String, usize)>,
    pub by_creator: Vec<(String, usize)>,
}

} // verus!
