//! Snapshot persistence core for a microVM monitor.
//!
//! The crate captures the complete state of a paused microVM into a pair of
//! byte images (a versioned state file and a guest-memory backing file) and
//! reconstructs a paused microVM from such a pair.

pub mod codec;
pub mod memory_snapshot;
pub mod persist;
pub mod snapshot;
pub mod state;
pub mod version_map;
