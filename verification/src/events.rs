//! The per-tick synchronization events.
//!
//! Every mutation source (user input, physics, boundary clamp) communicates
//! with the edge registry and the coloring pass through these queues; they
//! are drained fully each tick and never carried over.

use crate::edges::NeighborNodes;
use crate::geometry::{Point, Segment};
use crate::resources::NodeColor;
use vstd::prelude::*;

verus! {

/// A node changed position (by drag, physics, or boundary correction):
/// every edge incident on it must refresh its cached endpoint and geometry.
#[derive(Clone, Copy, PartialEq, Eq, Structural, Debug)]
pub struct UpdateEdgeEvent {
    pub changed_node: u64,
    pub position: Point,
}

/// A node was removed: every edge incident on it must be cascade-deleted.
#[derive(Clone, Copy, PartialEq, Eq, Structural, Debug)]
pub struct RemoveEdgeEvent {
    pub removed_node: u64,
}

/// Two selected nodes were consumed: the edge keyed by their unordered pair
/// must be created if absent and destroyed if present. Carries a snapshot of
/// both endpoint positions and the geometry built from them.
#[derive(Clone, Copy, PartialEq, Eq, Structural, Debug)]
pub struct CreateOrUnspawnEdgeEvent {
    pub neighbor_nodes: NeighborNodes,
    pub path: Segment,
}

/// A node's display color must change to track its interaction state.
#[derive(Clone, Copy, PartialEq, Eq, Structural, Debug)]
pub struct ChangeNodeColorEvent {
    pub node: u64,
    pub color: NodeColor,
}

} // verus!
