//! Full-text serving: candidate scopes, hit merging, warmup requirements and
//! manifest checks.

pub mod hits;
pub mod manifest;
pub mod prefilter_benchmark;
pub mod restricted;
pub mod rows;
pub mod warmup;
