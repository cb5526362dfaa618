//! Shared simulation-wide state and configuration.

use vstd::prelude::*;

verus! {

/// The global interaction flag: whether some node is currently being dragged.
/// It gates every gesture other than drag and drag-release, which is what
/// keeps the "at most one moving node" invariant.
#[derive(Clone, Copy, PartialEq, Eq, Structural, Debug)]
pub struct VisualizerState {
    pub is_moving_node: bool,
}

impl Default for VisualizerState {
    /// A fresh document starts with no node being moved.
    fn default() -> (s: Self)
        ensures
            !s.is_moving_node,
    {
        VisualizerState { is_moving_node: false }
    }
}

/// The display color a node is drawn with, derived from its interaction
/// state. The concrete color values live with the renderer; the engine only
/// decides which of the three applies.
#[derive(Clone, Copy, PartialEq, Eq, Structural, Debug)]
pub enum NodeColor {
    Base,
    Selected,
    Moving,
}

/// Node configuration. The radius is shared by every node and drives both
/// hit-testing and the boundary clamp.
#[derive(Clone, Copy, PartialEq, Eq, Structural, Debug)]
pub struct NodeSettings {
    pub radius: i32,
}

impl NodeSettings {
    /// A usable configuration has a positive radius.
    pub open spec fn valid(self) -> bool {
        0 < self.radius
    }
}

impl Default for NodeSettings {
    fn default() -> (s: Self)
        ensures
            s.radius == 12,
            s.valid(),
    {
        NodeSettings { radius: 12 }
    }
}

} // verus!
