//! Database configuration.

pub mod cache;
pub mod db;
pub mod limits;
pub mod warm_mode;
