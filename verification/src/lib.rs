//! Chain-event classification over a bounded window of recent blocks.
//!
//! Block announcements of two independent chains are turned into a causally
//! consistent stream of chain updates. Each chain keeps the last few confirmed
//! blocks; every announcement is classified against that window as an
//! extension, a gap, a reorganization, or a reorganization too deep to resolve.

pub mod types;
pub mod window;
pub mod classifier;
pub mod stacks;
pub mod context;
pub mod indexer;
