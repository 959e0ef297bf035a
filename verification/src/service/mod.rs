pub mod sanitize;
pub mod task_service;
pub mod laws;
