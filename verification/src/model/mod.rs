pub mod filter;
pub mod order;
pub mod recurrence;
pub mod stats;
pub mod task;
pub mod tree;
