//! Verified core of a graph database's configuration, secondary indexes,
//! full-text serving and migration-parity evidence.
//!
//! Every module states what its functions compute over plain values; storage,
//! networking and clocks live outside the library and hand it values.

pub mod assoc;
pub mod bitmap;
pub mod codec;
pub mod config;
pub mod digest;
pub mod error;
pub mod graph_contract;
pub mod index_keys;
pub mod index_names;
pub mod index_rows;
pub mod order;
pub mod parity;
pub mod property;
pub mod range_rows;
pub mod range_scan;
pub mod render;
pub mod split_cache;
pub mod text;
pub mod text_map;
pub mod vector_read;
