//! Bounded cache of immutable text splits: identities, memory tier, demand
//! admission, local disk tier and observable state.

pub mod demand;
pub mod disk;
pub mod hydration;
pub mod key;
pub mod memory;
pub mod opening;
pub mod state;
