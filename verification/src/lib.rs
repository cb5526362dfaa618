//! Interactive node-link graph engine.
//!
//! The library keeps an edge set consistent with node identity and position
//! while nodes are created, moved (by drag, physics, or boundary correction),
//! selected, and destroyed. All synchronization happens through typed
//! per-tick event queues rather than direct cross-references.

pub mod edges;
pub mod events;
pub mod geometry;
pub mod laws;
pub mod nodes;
pub mod resources;
