//! A verified core for benchmarking searches over an on-disk vector index.

pub mod args;
pub mod ground_truth;
pub mod inputs;
pub mod pass;
pub mod plan;
pub mod recall;
pub mod report;
pub mod storage;
pub mod sweep;
pub mod text;
