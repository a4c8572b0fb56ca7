pub mod cs43131;
pub mod engine;
