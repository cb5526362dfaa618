//! The node registry and the interaction state machine.
//!
//! The registry owns node identity, position, and interaction state. Each
//! gesture handler is gated by the global "is a node being moved" flag, which
//! is what enforces the single-mover invariant; handlers communicate with the
//! edge registry only through the event queues.

use crate::edges::NeighborNodes;
use crate::events::{ChangeNodeColorEvent, CreateOrUnspawnEdgeEvent, RemoveEdgeEvent, UpdateEdgeEvent};
use crate::geometry::{clamped_point, point_on_node, Point, Segment};
use crate::resources::{NodeColor, NodeSettings, VisualizerState};
use vstd::prelude::*;

verus! {

/// A graph vertex: stable identity, position, and interaction state. A node
/// may be selected while it is being moved (dragging a selected node), so
/// the two marks are independent.
#[derive(Clone, Copy, PartialEq, Eq, Structural, Debug)]
pub struct Node {
    pub id: u64,
    pub position: Point,
    pub moving: bool,
    pub selected: bool,
    pub color: NodeColor,
}

/// A physics report for one node in one tick: its identity and the linear
/// velocity the collision solver assigned to it.
#[derive(Clone, Copy, PartialEq, Eq, Structural, Debug)]
pub struct NodeVelocity {
    pub node: u64,
    pub vx: i32,
    pub vy: i32,
}

/// Owns every live node. Ids are handed out once and never reused: deletion
/// invalidates an id permanently.
pub struct NodeRegistry {
    pub nodes: Vec<Node>,
    pub next_id: u64,
}

/// `n` with its moving mark replaced.
pub open spec fn set_moving(n: Node, m: bool) -> Node {
    Node { id: n.id, position: n.position, moving: m, selected: n.selected, color: n.color }
}

/// `n` with its selected mark replaced.
pub open spec fn set_selected(n: Node, sel: bool) -> Node {
    Node { id: n.id, position: n.position, moving: n.moving, selected: sel, color: n.color }
}

/// `n` moved to `p`.
pub open spec fn set_position(n: Node, p: Point) -> Node {
    Node { id: n.id, position: p, moving: n.moving, selected: n.selected, color: n.color }
}

/// `n` recolored to `c`.
pub open spec fn set_color(n: Node, c: NodeColor) -> Node {
    Node { id: n.id, position: n.position, moving: n.moving, selected: n.selected, color: c }
}

/// A freshly spawned node: idle, unselected, base color.
pub open spec fn new_node(id: u64, p: Point) -> Node {
    Node { id, position: p, moving: false, selected: false, color: NodeColor::Base }
}

/// Whether any node in `s` is being moved.
pub open spec fn some_moving(s: Seq<Node>) -> bool {
    exists|i: int| 0 <= i < s.len() && (#[trigger] s[i]).moving
}

/// Whether at most one node in `s` is being moved.
pub open spec fn at_most_one_moving(s: Seq<Node>) -> bool {
    forall|i: int, j: int|
        0 <= i < s.len() && 0 <= j < s.len() && (#[trigger] s[i]).moving && (#[trigger] s[j]).moving
            ==> i == j
}

/// The global invariant of the interaction state machine: the flag says
/// whether some node is moving, and never more than one is.
pub open spec fn moving_flag_consistent(state: VisualizerState, s: Seq<Node>) -> bool {
    &&& state.is_moving_node == some_moving(s)
    &&& at_most_one_moving(s)
}

/// The index of the node being moved. Meaningful only while some node is
/// moving; unique under `at_most_one_moving`.
pub open spec fn the_moving_index(s: Seq<Node>) -> int {
    choose|i: int| 0 <= i < s.len() && (#[trigger] s[i]).moving
}

/// The index of the first node (in registry iteration order) that the
/// pointer lies on, or `s.len()` when the pointer hits none.
pub open spec fn first_hit_index(s: Seq<Node>, p: Point, radius: int) -> int
    decreases s.len(),
{
    if s.len() == 0 {
        0
    } else if point_on_node(p, s[0].position, radius) {
        0
    } else {
        1 + first_hit_index(s.drop_first(), p, radius)
    }
}

/// The spatial hit-test: the id of the first node whose circle contains the
/// pointer, if any.
pub open spec fn hit_test_spec(s: Seq<Node>, p: Point, radius: int) -> Option<u64> {
    let i = first_hit_index(s, p, radius);
    if i < s.len() {
        Some(s[i].id)
    } else {
        None
    }
}

/// The index of the first selected node at or after `from`, or `s.len()`
/// when none follows.
pub open spec fn next_selected(s: Seq<Node>, from: int) -> int
    decreases s.len() - from when 0 <= from <= s.len()
{
    if from >= s.len() {
        s.len() as int
    } else if s[from].selected {
        from
    } else {
        next_selected(s, from + 1)
    }
}

/// The index of the first node with id `id`, or `s.len()` when the id is not
/// live.
pub open spec fn node_index(s: Seq<Node>, id: u64) -> int
    decreases s.len(),
{
    if s.len() == 0 {
        0
    } else if s[0].id == id {
        0
    } else {
        1 + node_index(s.drop_first(), id)
    }
}

impl NodeRegistry {
    /// Ids are pairwise distinct and all below the next id to hand out.
    pub open spec fn wf(self) -> bool {
        &&& forall|i: int, j: int|
            0 <= i < j < self.nodes@.len() ==> (#[trigger] self.nodes@[i]).id != (
            #[trigger] self.nodes@[j]).id
        &&& forall|i: int|
            0 <= i < self.nodes@.len() ==> (#[trigger] self.nodes@[i]).id < self.next_id
    }

    /// A fresh document has no nodes and will number them from zero.
    pub fn new() -> (r: Self)
        ensures
            r.nodes@ =~= Seq::<Node>::empty(),
            r.next_id == 0,
            r.wf(),
    {
        NodeRegistry { nodes: Vec::new(), next_id: 0 }
    }
}

/// Two registries hold the same nodes and the same id counter.
pub open spec fn same_registry(a: NodeRegistry, b: NodeRegistry) -> bool {
    a.nodes@ == b.nodes@ && a.next_id == b.next_id
}

/// `first_hit_index` points at the first hit: everything before it misses,
/// and the index itself hits (when it is in range).
pub proof fn lemma_first_hit_index(s: Seq<Node>, p: Point, radius: int)
    ensures
        0 <= first_hit_index(s, p, radius) <= s.len(),
        forall|j: int|
            0 <= j < first_hit_index(s, p, radius) ==> !point_on_node(
                p,
                (#[trigger] s[j]).position,
                radius,
            ),
        first_hit_index(s, p, radius) < s.len() ==> point_on_node(
            p,
            s[first_hit_index(s, p, radius)].position,
            radius,
        ),
    decreases s.len(),
{
    if s.len() != 0 && !point_on_node(p, s[0].position, radius) {
        lemma_first_hit_index(s.drop_first(), p, radius);
        assert forall|j: int|
            0 <= j < first_hit_index(s, p, radius) implies !point_on_node(
            p,
            (#[trigger] s[j]).position,
            radius,
        ) by {
            if j >= 1 {
                assert(s.drop_first()[j - 1] == s[j]);
            }
        }
        if first_hit_index(s, p, radius) < s.len() {
            assert(s.drop_first()[first_hit_index(s, p, radius) - 1] == s[first_hit_index(
                s,
                p,
                radius,
            )]);
        }
    }
}

/// A position preceded only by misses and holding a hit (or the end) is
/// exactly where `first_hit_index` points.
pub proof fn lemma_first_hit_index_at(s: Seq<Node>, p: Point, radius: int, k: int)
    requires
        0 <= k <= s.len(),
        forall|j: int| 0 <= j < k ==> !point_on_node(p, (#[trigger] s[j]).position, radius),
        k < s.len() ==> point_on_node(p, s[k].position, radius),
    ensures
        first_hit_index(s, p, radius) == k,
    decreases s.len(),
{
    if s.len() != 0 && k != 0 {
        assert forall|j: int|
            0 <= j < k - 1 implies !point_on_node(
            p,
            (#[trigger] s.drop_first()[j]).position,
            radius,
        ) by {
            assert(s.drop_first()[j] == s[j + 1]);
        }
        assert(k - 1 < s.drop_first().len() ==> point_on_node(
            p,
            s.drop_first()[k - 1].position,
            radius,
        ));
        lemma_first_hit_index_at(s.drop_first(), p, radius, k - 1);
    }
}

/// A position at or after `from`, preceded (from `from` on) only by
/// unselected nodes and holding a selected one (or the end), is exactly
/// where `next_selected` points.
pub proof fn lemma_next_selected_at(s: Seq<Node>, from: int, k: int)
    requires
        0 <= from <= s.len(),
        from <= k <= s.len(),
        forall|j: int| from <= j < k ==> !(#[trigger] s[j]).selected,
        k < s.len() ==> s[k].selected,
    ensures
        next_selected(s, from) == k,
    decreases s.len() - from,
{
    if from < s.len() && k != from {
        lemma_next_selected_at(s, from + 1, k);
    }
}

/// A position preceded only by other ids and holding `id` (or the end) is
/// exactly where `node_index` points.
pub proof fn lemma_node_index_at(s: Seq<Node>, id: u64, k: int)
    requires
        0 <= k <= s.len(),
        forall|j: int| 0 <= j < k ==> (#[trigger] s[j]).id != id,
        k < s.len() ==> s[k].id == id,
    ensures
        node_index(s, id) == k,
    decreases s.len(),
{
    if s.len() != 0 && k != 0 {
        assert forall|j: int| 0 <= j < k - 1 implies (#[trigger] s.drop_first()[j]).id != id by {
            assert(s.drop_first()[j] == s[j + 1]);
        }
        assert(k - 1 < s.drop_first().len() ==> s.drop_first()[k - 1].id == id);
        lemma_node_index_at(s.drop_first(), id, k - 1);
    }
}

/// Finds the index of the first node carrying `id`.
fn find_node_index(nodes: &Vec<Node>, id: u64) -> (r: Option<usize>)
    ensures
        match r {
            Some(k) => k < nodes@.len() && k as int == node_index(nodes@, id),
            None => node_index(nodes@, id) == nodes@.len(),
        },
{
    let n = nodes.len();
    let mut k: usize = 0;
    while k < n
        invariant
            n == nodes@.len(),
            0 <= k <= n,
            forall|j: int| 0 <= j < k ==> (#[trigger] nodes@[j]).id != id,
        decreases n - k,
    {
        if nodes[k].id == id {
            proof {
                lemma_node_index_at(nodes@, id, k as int);
            }
            return Some(k);
        }
        k += 1;
    }
    proof {
        lemma_node_index_at(nodes@, id, n as int);
    }
    None
}

/// Finds the index of the first node under the pointer.
fn hit_test_index(nodes: &Vec<Node>, pointer: Point, radius: i32) -> (r: Option<usize>)
    requires
        0 <= radius,
    ensures
        match r {
            Some(k) => k < nodes@.len() && k as int == first_hit_index(
                nodes@,
                pointer,
                radius as int,
            ),
            None => first_hit_index(nodes@, pointer, radius as int) == nodes@.len(),
        },
{
    let n = nodes.len();
    let mut k: usize = 0;
    while k < n
        invariant
            n == nodes@.len(),
            0 <= radius,
            0 <= k <= n,
            forall|j: int|
                0 <= j < k ==> !point_on_node(pointer, (#[trigger] nodes@[j]).position, radius as int),
        decreases n - k,
    {
        let node = nodes[k];
        if crate::geometry::is_mouse_on_node(
            pointer.x,
            pointer.y,
            node.position.x,
            node.position.y,
            radius,
        ) {
            proof {
                lemma_first_hit_index_at(nodes@, pointer, radius as int, k as int);
            }
            return Some(k);
        }
        k += 1;
    }
    proof {
        lemma_first_hit_index_at(nodes@, pointer, radius as int, n as int);
    }
    None
}

/// The spatial hit-test: the id of the first node (in registry iteration
/// order) whose distance from the pointer is at most the shared radius.
/// `Some` comes with a node the pointer lies on; `None` means the pointer
/// lies on no node at all.
pub fn hit_test(nodes: &NodeRegistry, pointer: Point, radius: i32) -> (r: Option<u64>)
    requires
        0 <= radius,
    ensures
        r == hit_test_spec(nodes.nodes@, pointer, radius as int),
        r matches Some(id) ==> exists|i: int|
            0 <= i < nodes.nodes@.len() && (#[trigger] nodes.nodes@[i]).id == id && point_on_node(
                pointer,
                nodes.nodes@[i].position,
                radius as int,
            ),
        r is None ==> forall|i: int|
            0 <= i < nodes.nodes@.len() ==> !point_on_node(
                pointer,
                (#[trigger] nodes.nodes@[i]).position,
                radius as int,
            ),
{
    proof {
        lemma_first_hit_index(nodes.nodes@, pointer, radius as int);
    }
    match hit_test_index(&nodes.nodes, pointer, radius) {
        Some(k) => Some(nodes.nodes[k].id),
        None => None,
    }
}

/// The spawn gesture: a pointer-primary release over the viewport while no
/// node is moving creates a fresh idle node under the pointer. A release
/// outside the viewport (`pointer` is `None`) or during a move does nothing.
pub fn spawn_node(
    nodes: &mut NodeRegistry,
    visualizer_state: &VisualizerState,
    pointer: Option<Point>,
)
    requires
        old(nodes).next_id < u64::MAX,
    ensures
        ({
            if visualizer_state.is_moving_node || pointer is None {
                same_registry(*final(nodes), *old(nodes))
            } else {
                &&& final(nodes).nodes@ == old(nodes).nodes@.push(
                    new_node(old(nodes).next_id, pointer.unwrap()),
                )
                &&& final(nodes).next_id == old(nodes).next_id + 1
            }
        }),
        old(nodes).wf() ==> final(nodes).wf(),
        moving_flag_consistent(*visualizer_state, old(nodes).nodes@) ==> moving_flag_consistent(
            *visualizer_state,
            final(nodes).nodes@,
        ),
{
    if visualizer_state.is_moving_node {
        return ;
    }
    let p = match pointer {
        Some(p) => p,
        None => { return ; },
    };
    let id = nodes.next_id;
    nodes.nodes.push(
        Node { id, position: p, moving: false, selected: false, color: NodeColor::Base },
    );
    nodes.next_id = id + 1;
    proof {
        let s = old(nodes).nodes@;
        let t = nodes.nodes@;
        assert(t == s.push(new_node(id, p)));
        assert forall|i: int| 0 <= i < s.len() implies t[i] == s[i] by {}
        if moving_flag_consistent(*visualizer_state, s) {
            assert(!visualizer_state.is_moving_node);
            assert forall|i: int| 0 <= i < t.len() implies !(#[trigger] t[i]).moving by {
                if i < s.len() {
                    assert(!s[i].moving);
                }
            }
        }
    }
}

/// The delete gesture: a pointer-secondary release while no node is moving
/// removes the first node under the pointer and queues the cascade delete of
/// its incident edges. No hit, a pointer off the viewport, or an in-progress
/// move leaves everything unchanged.
pub fn remove_node(
    nodes: &mut NodeRegistry,
    remove_edge_events: &mut Vec<RemoveEdgeEvent>,
    visualizer_state: &VisualizerState,
    node_settings: &NodeSettings,
    pointer: Option<Point>,
)
    requires
        node_settings.valid(),
    ensures
        ({
            let s = old(nodes).nodes@;
            let r = node_settings.radius as int;
            if visualizer_state.is_moving_node || pointer is None || first_hit_index(
                s,
                pointer.unwrap(),
                r,
            ) == s.len() {
                &&& same_registry(*final(nodes), *old(nodes))
                &&& final(remove_edge_events)@ == old(remove_edge_events)@
            } else {
                let k = first_hit_index(s, pointer.unwrap(), r);
                &&& final(nodes).nodes@ == s.remove(k)
                &&& final(nodes).next_id == old(nodes).next_id
                &&& final(remove_edge_events)@ == old(remove_edge_events)@.push(
                    RemoveEdgeEvent { removed_node: s[k].id },
                )
            }
        }),
        old(nodes).wf() ==> final(nodes).wf(),
        moving_flag_consistent(*visualizer_state, old(nodes).nodes@) ==> moving_flag_consistent(
            *visualizer_state,
            final(nodes).nodes@,
        ),
{
    if visualizer_state.is_moving_node {
        return ;
    }
    let p = match pointer {
        Some(p) => p,
        None => { return ; },
    };
    match hit_test_index(&nodes.nodes, p, node_settings.radius) {
        None => {},
        Some(k) => {
            let id = nodes.nodes[k].id;
            nodes.nodes.remove(k);
            remove_edge_events.push(RemoveEdgeEvent { removed_node: id });
            proof {
                let s = old(nodes).nodes@;
                let t = nodes.nodes@;
                assert forall|i: int|
                    0 <= i < t.len() implies t[i] == (if i < k as int {
                    s[i]
                } else {
                    s[i + 1]
                }) by {}
                if old(nodes).wf() {
                    assert forall|i: int, j: int|
                        0 <= i < j < t.len() implies (#[trigger] t[i]).id != (
                    #[trigger] t[j]).id by {}
                }
                if moving_flag_consistent(*visualizer_state, s) {
                    assert(!some_moving(s));
                    assert forall|i: int| 0 <= i < t.len() implies !(#[trigger] t[i]).moving by {
                        if i < k as int {
                            assert(!s[i].moving);
                        } else {
                            assert(!s[i + 1].moving);
                        }
                    }
                }
            }
        },
    }
}

/// The begin-move gesture: a pointer-primary press while no node is moving
/// marks the first node under the pointer as moving, raises the global flag,
/// and queues the recolor to the moving color.
pub fn mark_node_to_move(
    nodes: &mut NodeRegistry,
    visualizer_state: &mut VisualizerState,
    color_events: &mut Vec<ChangeNodeColorEvent>,
    node_settings: &NodeSettings,
    pointer: Option<Point>,
)
    requires
        node_settings.valid(),
    ensures
        ({
            let s = old(nodes).nodes@;
            let r = node_settings.radius as int;
            if old(visualizer_state).is_moving_node || pointer is None || first_hit_index(
                s,
                pointer.unwrap(),
                r,
            ) == s.len() {
                &&& same_registry(*final(nodes), *old(nodes))
                &&& *final(visualizer_state) == *old(visualizer_state)
                &&& final(color_events)@ == old(color_events)@
            } else {
                let k = first_hit_index(s, pointer.unwrap(), r);
                &&& final(nodes).nodes@ == s.update(k, set_moving(s[k], true))
                &&& final(nodes).next_id == old(nodes).next_id
                &&& final(visualizer_state).is_moving_node
                &&& final(color_events)@ == old(color_events)@.push(
                    ChangeNodeColorEvent { node: s[k].id, color: NodeColor::Moving },
                )
            }
        }),
        old(nodes).wf() ==> final(nodes).wf(),
        moving_flag_consistent(*old(visualizer_state), old(nodes).nodes@)
            ==> moving_flag_consistent(*final(visualizer_state), final(nodes).nodes@),
{
    if visualizer_state.is_moving_node {
        return ;
    }
    let p = match pointer {
        Some(p) => p,
        None => { return ; },
    };
    match hit_test_index(&nodes.nodes, p, node_settings.radius) {
        None => {},
        Some(k) => {
            let node = nodes.nodes[k];
            nodes.nodes.set(
                k,
                Node {
                    id: node.id,
                    position: node.position,
                    moving: true,
                    selected: node.selected,
                    color: node.color,
                },
            );
            *visualizer_state = VisualizerState { is_moving_node: true };
            color_events.push(ChangeNodeColorEvent { node: node.id, color: NodeColor::Moving });
            proof {
                let s = old(nodes).nodes@;
                let t = nodes.nodes@;
                if moving_flag_consistent(*old(visualizer_state), s) {
                    assert(!some_moving(s));
                    assert(t[k as int].moving);
                    assert(some_moving(t));
                    assert forall|i: int, j: int|
                        0 <= i < t.len() && 0 <= j < t.len() && (#[trigger] t[i]).moving && (
                    #[trigger] t[j]).moving implies i == j by {
                        if i != k as int {
                            assert(t[i] == s[i]);
                            assert(!s[i].moving);
                        }
                        if j != k as int {
                            assert(t[j] == s[j]);
                            assert(!s[j].moving);
                        }
                    }
                }
            }
        },
    }
}

/// The drag: while the flag is set and the pointer is over the viewport, the
/// one moving node follows the pointer and a `NodeMoved`-class event with its
/// new position is queued. The flag being set guarantees (by the global
/// invariant) that exactly one node is moving.
pub fn move_node(
    nodes: &mut NodeRegistry,
    update_edge_events: &mut Vec<UpdateEdgeEvent>,
    visualizer_state: &VisualizerState,
    pointer: Option<Point>,
)
    requires
        moving_flag_consistent(*visualizer_state, old(nodes).nodes@),
    ensures
        moving_flag_consistent(*visualizer_state, final(nodes).nodes@),
        old(nodes).wf() ==> final(nodes).wf(),
        ({
            let s = old(nodes).nodes@;
            if !visualizer_state.is_moving_node || pointer is None {
                &&& same_registry(*final(nodes), *old(nodes))
                &&& final(update_edge_events)@ == old(update_edge_events)@
            } else {
                let k = the_moving_index(s);
                &&& final(nodes).nodes@ == s.update(k, set_position(s[k], pointer.unwrap()))
                &&& final(nodes).next_id == old(nodes).next_id
                &&& final(update_edge_events)@ == old(update_edge_events)@.push(
                    UpdateEdgeEvent { changed_node: s[k].id, position: pointer.unwrap() },
                )
            }
        }),
{
    if !visualizer_state.is_moving_node {
        return ;
    }
    let p = match pointer {
        Some(p) => p,
        None => { return ; },
    };
    let n = nodes.nodes.len();
    let mut j: usize = 0;
    while j < n
        invariant
            n == nodes.nodes@.len(),
            nodes.nodes@ == old(nodes).nodes@,
            nodes.next_id == old(nodes).next_id,
            update_edge_events@ == old(update_edge_events)@,
            moving_flag_consistent(*visualizer_state, nodes.nodes@),
            visualizer_state.is_moving_node,
            pointer == Some(p),
            0 <= j <= n,
            forall|i: int| 0 <= i < j ==> !(#[trigger] nodes.nodes@[i]).moving,
        decreases n - j,
    {
        let node = nodes.nodes[j];
        if node.moving {
            proof {
                let s = nodes.nodes@;
                let c = the_moving_index(s);
                assert(0 <= c < s.len() && s[c].moving) by {
                    assert(0 <= (j as int) < s.len() && s[j as int].moving);
                }
                assert(c == j as int);
            }
            nodes.nodes.set(
                j,
                Node {
                    id: node.id,
                    position: p,
                    moving: node.moving,
                    selected: node.selected,
                    color: node.color,
                },
            );
            update_edge_events.push(UpdateEdgeEvent { changed_node: node.id, position: p });
            proof {
                let s = old(nodes).nodes@;
                let t = nodes.nodes@;
                assert forall|i: int|
                    0 <= i < t.len() implies (#[trigger] t[i]).moving == s[i].moving by {}
                assert(t[j as int].moving);
                assert(some_moving(t));
            }
            return ;
        }
        j += 1;
    }
    proof {
        let s = nodes.nodes@;
        assert(some_moving(s));
        let c = choose|i: int| 0 <= i < s.len() && (#[trigger] s[i]).moving;
        assert(!s[c].moving);
        assert(false);
    }
}

/// The end-move gesture: a pointer-primary release while the flag is set
/// clears the flag and the node's moving mark, and queues the recolor back
/// to the selected or base color, depending on whether the node kept its
/// selection through the move.
pub fn unmark_node_that_was_moving(
    nodes: &mut NodeRegistry,
    visualizer_state: &mut VisualizerState,
    color_events: &mut Vec<ChangeNodeColorEvent>,
)
    requires
        moving_flag_consistent(*old(visualizer_state), old(nodes).nodes@),
    ensures
        moving_flag_consistent(*final(visualizer_state), final(nodes).nodes@),
        old(nodes).wf() ==> final(nodes).wf(),
        ({
            let s = old(nodes).nodes@;
            if !old(visualizer_state).is_moving_node {
                &&& same_registry(*final(nodes), *old(nodes))
                &&& *final(visualizer_state) == *old(visualizer_state)
                &&& final(color_events)@ == old(color_events)@
            } else {
                let k = the_moving_index(s);
                &&& final(nodes).nodes@ == s.update(k, set_moving(s[k], false))
                &&& final(nodes).next_id == old(nodes).next_id
                &&& !final(visualizer_state).is_moving_node
                &&& final(color_events)@ == old(color_events)@.push(
                    ChangeNodeColorEvent {
                        node: s[k].id,
                        color: if s[k].selected {
                            NodeColor::Selected
                        } else {
                            NodeColor::Base
                        },
                    },
                )
            }
        }),
{
    if !visualizer_state.is_moving_node {
        return ;
    }
    let n = nodes.nodes.len();
    let mut j: usize = 0;
    while j < n
        invariant
            n == nodes.nodes@.len(),
            nodes.nodes@ == old(nodes).nodes@,
            nodes.next_id == old(nodes).next_id,
            color_events@ == old(color_events)@,
            *visualizer_state == *old(visualizer_state),
            moving_flag_consistent(*visualizer_state, nodes.nodes@),
            visualizer_state.is_moving_node,
            0 <= j <= n,
            forall|i: int| 0 <= i < j ==> !(#[trigger] nodes.nodes@[i]).moving,
        decreases n - j,
    {
        let node = nodes.nodes[j];
        if node.moving {
            proof {
                let s = nodes.nodes@;
                let c = the_moving_index(s);
                assert(0 <= c < s.len() && s[c].moving) by {
                    assert(0 <= (j as int) < s.len() && s[j as int].moving);
                }
                assert(c == j as int);
            }
            nodes.nodes.set(
                j,
                Node {
                    id: node.id,
                    position: node.position,
                    moving: false,
                    selected: node.selected,
                    color: node.color,
                },
            );
            *visualizer_state = VisualizerState { is_moving_node: false };
            color_events.push(
                ChangeNodeColorEvent {
                    node: node.id,
                    color: if node.selected {
                        NodeColor::Selected
                    } else {
                        NodeColor::Base
                    },
                },
            );
            proof {
                let s = old(nodes).nodes@;
                let t = nodes.nodes@;
                assert forall|i: int| 0 <= i < t.len() implies !(#[trigger] t[i]).moving by {
                    if i != j as int {
                        assert(t[i] == s[i]);
                        assert(s[j as int].moving);
                        assert(!s[i].moving);
                    }
                }
            }
            return ;
        }
        j += 1;
    }
    proof {
        let s = nodes.nodes@;
        assert(some_moving(s));
        let c = choose|i: int| 0 <= i < s.len() && (#[trigger] s[i]).moving;
        assert(!s[c].moving);
        assert(false);
    }
}

/// The toggle-select gesture: a pointer-tertiary release while no node is
/// moving flips the selected mark of the first node under the pointer and
/// queues the matching recolor.
pub fn mark_node_to_create_edge(
    nodes: &mut NodeRegistry,
    color_events: &mut Vec<ChangeNodeColorEvent>,
    visualizer_state: &VisualizerState,
    node_settings: &NodeSettings,
    pointer: Option<Point>,
)
    requires
        node_settings.valid(),
    ensures
        ({
            let s = old(nodes).nodes@;
            let r = node_settings.radius as int;
            if visualizer_state.is_moving_node || pointer is None || first_hit_index(
                s,
                pointer.unwrap(),
                r,
            ) == s.len() {
                &&& same_registry(*final(nodes), *old(nodes))
                &&& final(color_events)@ == old(color_events)@
            } else {
                let k = first_hit_index(s, pointer.unwrap(), r);
                &&& final(nodes).nodes@ == s.update(k, set_selected(s[k], !s[k].selected))
                &&& final(nodes).next_id == old(nodes).next_id
                &&& final(color_events)@ == old(color_events)@.push(
                    ChangeNodeColorEvent {
                        node: s[k].id,
                        color: if s[k].selected {
                            NodeColor::Base
                        } else {
                            NodeColor::Selected
                        },
                    },
                )
            }
        }),
        old(nodes).wf() ==> final(nodes).wf(),
        moving_flag_consistent(*visualizer_state, old(nodes).nodes@) ==> moving_flag_consistent(
            *visualizer_state,
            final(nodes).nodes@,
        ),
{
    if visualizer_state.is_moving_node {
        return ;
    }
    let p = match pointer {
        Some(p) => p,
        None => { return ; },
    };
    match hit_test_index(&nodes.nodes, p, node_settings.radius) {
        None => {},
        Some(k) => {
            let node = nodes.nodes[k];
            nodes.nodes.set(
                k,
                Node {
                    id: node.id,
                    position: node.position,
                    moving: node.moving,
                    selected: !node.selected,
                    color: node.color,
                },
            );
            color_events.push(
                ChangeNodeColorEvent {
                    node: node.id,
                    color: if node.selected {
                        NodeColor::Base
                    } else {
                        NodeColor::Selected
                    },
                },
            );
            proof {
                let s = old(nodes).nodes@;
                let t = nodes.nodes@;
                assert forall|i: int|
                    0 <= i < t.len() implies (#[trigger] t[i]).moving == s[i].moving by {}
                if moving_flag_consistent(*visualizer_state, s) {
                    assert(!some_moving(s));
                    assert forall|i: int| 0 <= i < t.len() implies !(#[trigger] t[i]).moving by {
                        assert(!s[i].moving);
                    }
                }
            }
        },
    }
}

/// Consumes a pair of selected nodes. Whenever at least two nodes are
/// selected, the first two (in registry iteration order) lose their
/// selection, are queued for a recolor to the base color, and one edge
/// toggle event is queued, carrying both ids and a snapshot of both
/// positions in encounter order.
pub fn emit_create_or_unspawn_edge_event(
    nodes: &mut NodeRegistry,
    color_events: &mut Vec<ChangeNodeColorEvent>,
    edge_events: &mut Vec<CreateOrUnspawnEdgeEvent>,
)
    ensures
        ({
            let s = old(nodes).nodes@;
            let f = next_selected(s, 0);
            if f == s.len() || next_selected(s, f + 1) == s.len() {
                &&& same_registry(*final(nodes), *old(nodes))
                &&& final(color_events)@ == old(color_events)@
                &&& final(edge_events)@ == old(edge_events)@
            } else {
                let g = next_selected(s, f + 1);
                &&& final(nodes).nodes@ == s.update(f, set_selected(s[f], false)).update(
                    g,
                    set_selected(s[g], false),
                )
                &&& final(nodes).next_id == old(nodes).next_id
                &&& final(color_events)@ == old(color_events)@.push(
                    ChangeNodeColorEvent { node: s[f].id, color: NodeColor::Base },
                ).push(ChangeNodeColorEvent { node: s[g].id, color: NodeColor::Base })
                &&& final(edge_events)@ == old(edge_events)@.push(
                    CreateOrUnspawnEdgeEvent {
                        neighbor_nodes: NeighborNodes {
                            v: s[f].id,
                            u: s[g].id,
                            pos_v: s[f].position,
                            pos_u: s[g].position,
                        },
                        path: Segment { start: s[f].position, end: s[g].position },
                    },
                )
                &&& (old(nodes).wf() ==> s[f].id != s[g].id)
            }
        }),
        old(nodes).wf() ==> final(nodes).wf(),
        forall|i: int|
            0 <= i < old(nodes).nodes@.len() ==> (#[trigger] final(nodes).nodes@[i]).moving == old(
                nodes,
            ).nodes@[i].moving,
{
    let n = nodes.nodes.len();
    let mut f: usize = 0;
    while f < n && !nodes.nodes[f].selected
        invariant
            n == nodes.nodes@.len(),
            0 <= f <= n,
            forall|i: int| 0 <= i < f ==> !(#[trigger] nodes.nodes@[i]).selected,
        decreases n - f,
    {
        f += 1;
    }
    proof {
        lemma_next_selected_at(nodes.nodes@, 0, f as int);
    }
    if f == n {
        return ;
    }
    let mut g: usize = f + 1;
    while g < n && !nodes.nodes[g].selected
        invariant
            n == nodes.nodes@.len(),
            f < g <= n,
            forall|i: int| f < i < g ==> !(#[trigger] nodes.nodes@[i]).selected,
        decreases n - g,
    {
        g += 1;
    }
    proof {
        lemma_next_selected_at(nodes.nodes@, f as int + 1, g as int);
    }
    if g == n {
        return ;
    }
    let node_f = nodes.nodes[f];
    let node_g = nodes.nodes[g];
    nodes.nodes.set(
        f,
        Node {
            id: node_f.id,
            position: node_f.position,
            moving: node_f.moving,
            selected: false,
            color: node_f.color,
        },
    );
    nodes.nodes.set(
        g,
        Node {
            id: node_g.id,
            position: node_g.position,
            moving: node_g.moving,
            selected: false,
            color: node_g.color,
        },
    );
    color_events.push(ChangeNodeColorEvent { node: node_f.id, color: NodeColor::Base });
    color_events.push(ChangeNodeColorEvent { node: node_g.id, color: NodeColor::Base });
    edge_events.push(
        CreateOrUnspawnEdgeEvent {
            neighbor_nodes: NeighborNodes {
                v: node_f.id,
                u: node_g.id,
                pos_v: node_f.position,
                pos_u: node_g.position,
            },
            path: Segment { start: node_f.position, end: node_g.position },
        },
    );
    proof {
        let s = old(nodes).nodes@;
        let t = nodes.nodes@;
        assert forall|i: int| 0 <= i < t.len() implies (#[trigger] t[i]).moving == s[i].moving by {}
        assert forall|i: int| 0 <= i < t.len() implies (#[trigger] t[i]).id == s[i].id by {}
        if old(nodes).wf() {
            assert(s[f as int].id != s[g as int].id);
        }
    }
}

/// The queue of `NodeMoved`-class events that one boundary-clamp pass over
/// `s` emits: one event per node whose position the clamp corrected, in
/// registry iteration order.
pub open spec fn clamp_updates(s: Seq<Node>, w: int, h: int, r: int) -> Seq<UpdateEdgeEvent>
    decreases s.len(),
{
    if s.len() == 0 {
        Seq::empty()
    } else {
        let rest = clamp_updates(s.drop_last(), w, h, r);
        let nd = s.last();
        let c = clamped_point(w, h, nd.position, r);
        if c == nd.position {
            rest
        } else {
            rest.push(UpdateEdgeEvent { changed_node: nd.id, position: c })
        }
    }
}

/// The boundary clamp pass: runs over every live node after the physics
/// step; any node whose extent reaches past the viewport is pulled back to
/// the nearest in-bounds position, and each correction queues a
/// `NodeMoved`-class event so incident edges stay correct.
pub fn fix_off_screen_node_positions(
    nodes: &mut NodeRegistry,
    update_edge_events: &mut Vec<UpdateEdgeEvent>,
    node_settings: &NodeSettings,
    height: i32,
    width: i32,
)
    requires
        node_settings.valid(),
        0 <= height,
        0 <= width,
    ensures
        ({
            let s = old(nodes).nodes@;
            let w = width as int;
            let h = height as int;
            let r = node_settings.radius as int;
            &&& final(nodes).nodes@.len() == s.len()
            &&& forall|i: int|
                0 <= i < s.len() ==> final(nodes).nodes@[i] == set_position(
                    #[trigger] s[i],
                    clamped_point(w, h, s[i].position, r),
                )
            &&& final(nodes).next_id == old(nodes).next_id
            &&& final(update_edge_events)@ == old(update_edge_events)@ + clamp_updates(s, w, h, r)
        }),
        old(nodes).wf() ==> final(nodes).wf(),
{
    let n = nodes.nodes.len();
    let ghost s = nodes.nodes@;
    let ghost w = width as int;
    let ghost h = height as int;
    let ghost r = node_settings.radius as int;
    let mut k: usize = 0;
    while k < n
        invariant
            n == s.len(),
            s == old(nodes).nodes@,
            w == width as int,
            h == height as int,
            r == node_settings.radius as int,
            0 <= height,
            0 <= width,
            0 <= node_settings.radius,
            nodes.nodes@.len() == n,
            nodes.next_id == old(nodes).next_id,
            0 <= k <= n,
            forall|i: int|
                0 <= i < k ==> nodes.nodes@[i] == set_position(
                    #[trigger] s[i],
                    clamped_point(w, h, s[i].position, r),
                ),
            forall|i: int| k <= i < n ==> nodes.nodes@[i] == s[i],
            update_edge_events@ == old(update_edge_events)@ + clamp_updates(
                s.subrange(0, k as int),
                w,
                h,
                r,
            ),
        decreases n - k,
    {
        let node = nodes.nodes[k];
        proof {
            let pre = s.subrange(0, k as int);
            let post = s.subrange(0, k as int + 1);
            assert(post.drop_last() =~= pre);
            assert(post.last() == s[k as int]);
        }
        match crate::geometry::fix_node_position_if_needed(
            height,
            width,
            node.position.x,
            node.position.y,
            node_settings.radius,
        ) {
            None => {
                assert(clamped_point(w, h, node.position, r) == node.position);
                assert(nodes.nodes@[k as int] == set_position(
                    s[k as int],
                    clamped_point(w, h, s[k as int].position, r),
                ));
            },
            Some(corrected) => {
                let c = Point { x: corrected.0, y: corrected.1 };
                assert(c == clamped_point(w, h, node.position, r));
                nodes.nodes.set(
                    k,
                    Node {
                        id: node.id,
                        position: c,
                        moving: node.moving,
                        selected: node.selected,
                        color: node.color,
                    },
                );
                update_edge_events.push(UpdateEdgeEvent { changed_node: node.id, position: c });
            },
        }
        k += 1;
    }
    proof {
        assert(s.subrange(0, n as int) =~= s);
        let t = nodes.nodes@;
        if old(nodes).wf() {
            assert forall|i: int| 0 <= i < t.len() implies (#[trigger] t[i]).id == s[i].id by {}
        }
    }
}

/// The color a node shows after a queue of recolor events has been drained:
/// the color of the last event addressed to it, or its previous color when
/// none is.
pub open spec fn color_after(evs: Seq<ChangeNodeColorEvent>, id: u64, c0: NodeColor) -> NodeColor
    decreases evs.len(),
{
    if evs.len() == 0 {
        c0
    } else if evs.last().node == id {
        evs.last().color
    } else {
        color_after(evs.drop_last(), id, c0)
    }
}

/// The recoloring pass: drains the queued recolor events in order, setting
/// the display color of each addressed node. An event addressed to an id
/// that is no longer live changes nothing.
pub fn change_node_color(nodes: &mut NodeRegistry, color_events: &Vec<ChangeNodeColorEvent>)
    ensures
        ({
            let s = old(nodes).nodes@;
            &&& final(nodes).nodes@.len() == s.len()
            &&& forall|i: int|
                0 <= i < s.len() ==> final(nodes).nodes@[i] == set_color(
                    #[trigger] s[i],
                    color_after(color_events@, s[i].id, s[i].color),
                )
            &&& final(nodes).next_id == old(nodes).next_id
        }),
{
    let n = nodes.nodes.len();
    let m = color_events.len();
    let ghost s = nodes.nodes@;
    let mut k: usize = 0;
    while k < m
        invariant
            n == s.len(),
            m == color_events@.len(),
            s == old(nodes).nodes@,
            nodes.nodes@.len() == n,
            nodes.next_id == old(nodes).next_id,
            0 <= k <= m,
            forall|i: int|
                0 <= i < n ==> nodes.nodes@[i] == set_color(
                    #[trigger] s[i],
                    color_after(color_events@.subrange(0, k as int), s[i].id, s[i].color),
                ),
        decreases m - k,
    {
        let ev = color_events[k];
        let mut j: usize = 0;
        while j < n
            invariant
                n == s.len(),
                m == color_events@.len(),
                s == old(nodes).nodes@,
                k < m,
                ev == color_events@[k as int],
                nodes.nodes@.len() == n,
                nodes.next_id == old(nodes).next_id,
                0 <= j <= n,
                forall|i: int|
                    0 <= i < j ==> nodes.nodes@[i] == set_color(
                        #[trigger] s[i],
                        color_after(color_events@.subrange(0, k as int + 1), s[i].id, s[i].color),
                    ),
                forall|i: int|
                    j <= i < n ==> nodes.nodes@[i] == set_color(
                        #[trigger] s[i],
                        color_after(color_events@.subrange(0, k as int), s[i].id, s[i].color),
                    ),
            decreases n - j,
        {
            proof {
                let pre = color_events@.subrange(0, k as int);
                let post = color_events@.subrange(0, k as int + 1);
                assert(post.drop_last() =~= pre);
                assert(post.last() == color_events@[k as int]);
            }
            let node = nodes.nodes[j];
            if node.id == ev.node {
                nodes.nodes.set(
                    j,
                    Node {
                        id: node.id,
                        position: node.position,
                        moving: node.moving,
                        selected: node.selected,
                        color: ev.color,
                    },
                );
            }
            j += 1;
        }
        k += 1;
    }
    proof {
        assert(color_events@.subrange(0, m as int) =~= color_events@);
    }
}

/// The queue of `NodeMoved`-class events that one physics pass emits: one
/// event per report whose velocity is nonzero and whose node is live,
/// carrying the node's current (post-step) position.
pub open spec fn collision_updates(s: Seq<Node>, reports: Seq<NodeVelocity>) -> Seq<
    UpdateEdgeEvent,
>
    decreases reports.len(),
{
    if reports.len() == 0 {
        Seq::empty()
    } else {
        let rest = collision_updates(s, reports.drop_last());
        let rep = reports.last();
        if (rep.vx != 0 || rep.vy != 0) && node_index(s, rep.node) < s.len() {
            rest.push(
                UpdateEdgeEvent {
                    changed_node: rep.node,
                    position: s[node_index(s, rep.node)].position,
                },
            )
        } else {
            rest
        }
    }
}

/// The collision pass: every node the physics solver reports with nonzero
/// velocity is treated as moved, so a `NodeMoved`-class event with its
/// current position is queued. Physical jostling and user dragging thereby
/// share one edge-update path.
pub fn emit_update_edge_event_after_node_collision(
    nodes: &NodeRegistry,
    velocities: &Vec<NodeVelocity>,
    update_edge_events: &mut Vec<UpdateEdgeEvent>,
)
    ensures
        final(update_edge_events)@ == old(update_edge_events)@ + collision_updates(
            nodes.nodes@,
            velocities@,
        ),
{
    let n = nodes.nodes.len();
    let m = velocities.len();
    let mut k: usize = 0;
    while k < m
        invariant
            n == nodes.nodes@.len(),
            m == velocities@.len(),
            0 <= k <= m,
            update_edge_events@ == old(update_edge_events)@ + collision_updates(
                nodes.nodes@,
                velocities@.subrange(0, k as int),
            ),
        decreases m - k,
    {
        proof {
            let pre = velocities@.subrange(0, k as int);
            let post = velocities@.subrange(0, k as int + 1);
            assert(post.drop_last() =~= pre);
            assert(post.last() == velocities@[k as int]);
        }
        let rep = velocities[k];
        if rep.vx != 0 || rep.vy != 0 {
            match find_node_index(&nodes.nodes, rep.node) {
                Some(j) => {
                    let node = nodes.nodes[j];
                    update_edge_events.push(
                        UpdateEdgeEvent { changed_node: rep.node, position: node.position },
                    );
                },
                None => {},
            }
        }
        k += 1;
    }
    proof {
        assert(velocities@.subrange(0, m as int) =~= velocities@);
    }
}

} // verus!
