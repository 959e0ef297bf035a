pub mod json_store;
pub mod schema;
pub mod seqs;
