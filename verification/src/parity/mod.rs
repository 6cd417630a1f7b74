//! Evidence that a storage migration has kept logical graph facts: rehearsed
//! writes, graph snapshots, index lifecycle state and physical digests.

pub mod crud;
pub mod definition;
pub mod findings;
pub mod secondary;
pub mod snapshot;
pub mod statistics;
pub mod text_search;
pub mod v2_state;
pub mod value_order;
pub mod vector;
