//! The edge registry: the synchronization engine.
//!
//! Edge existence and geometry are driven purely by consumed events. An edge
//! is keyed by the unordered pair of its endpoint node ids and caches a
//! snapshot of both endpoint positions; it never holds a live reference into
//! the node registry.

use crate::events::{CreateOrUnspawnEdgeEvent, RemoveEdgeEvent, UpdateEdgeEvent};
use crate::geometry::{Point, Segment};
use vstd::prelude::*;

verus! {

/// The two incident node ids of an edge, with cached copies of their
/// last-known positions.
#[derive(Clone, Copy, PartialEq, Eq, Structural, Debug)]
pub struct NeighborNodes {
    pub v: u64,
    pub u: u64,
    pub pos_v: Point,
    pub pos_u: Point,
}

/// A live edge: its endpoint pair plus the polyline derived from the two
/// cached endpoint positions.
#[derive(Clone, Copy, PartialEq, Eq, Structural, Debug)]
pub struct Edge {
    pub neighbor_nodes: NeighborNodes,
    pub path: Segment,
}

/// Owns every live edge. Iteration order is the order of creation.
pub struct EdgeRegistry {
    pub edges: Vec<Edge>,
}

/// Whether the edge's unordered endpoint pair equals `{v, u}`.
pub open spec fn pair_matches(n: NeighborNodes, v: u64, u: u64) -> bool {
    (n.v == v && n.u == u) || (n.v == u && n.u == v)
}

/// Whether the edge touches the node `id` at either endpoint.
pub open spec fn incident(e: Edge, id: u64) -> bool {
    e.neighbor_nodes.v == id || e.neighbor_nodes.u == id
}

/// No two edges share one unordered endpoint pair, and no edge loops back to
/// a single node. Edge creation only happens through the toggle, which keeps
/// this invariant.
pub open spec fn edges_wf(s: Seq<Edge>) -> bool {
    &&& forall|i: int, j: int|
        0 <= i < j < s.len() ==> !pair_matches(
            #[trigger] s[i].neighbor_nodes,
            (#[trigger] s[j].neighbor_nodes).v,
            s[j].neighbor_nodes.u,
        )
    &&& forall|i: int| 0 <= i < s.len() ==> (#[trigger] s[i].neighbor_nodes).v
        != s[i].neighbor_nodes.u
}

/// The index of the first edge whose unordered pair equals `{v, u}`, or
/// `s.len()` when no edge matches.
pub open spec fn edge_index(s: Seq<Edge>, v: u64, u: u64) -> int
    decreases s.len(),
{
    if s.len() == 0 {
        0
    } else if pair_matches(s[0].neighbor_nodes, v, u) {
        0
    } else {
        1 + edge_index(s.drop_first(), v, u)
    }
}

/// Whether some edge in `s` is keyed by the unordered pair `{v, u}`.
pub open spec fn has_edge(s: Seq<Edge>, v: u64, u: u64) -> bool {
    exists|i: int| 0 <= i < s.len() && pair_matches(#[trigger] s[i].neighbor_nodes, v, u)
}

/// The edge a toggle event creates when no edge with its pair exists yet:
/// endpoints and geometry come from the event's snapshot.
pub open spec fn edge_of_event(ev: CreateOrUnspawnEdgeEvent) -> Edge {
    Edge { neighbor_nodes: ev.neighbor_nodes, path: ev.path }
}

/// One toggle step: destroy the first edge keyed by the event's pair if one
/// exists, otherwise create the event's edge at the end of the registry.
pub open spec fn toggle_edge_spec(s: Seq<Edge>, ev: CreateOrUnspawnEdgeEvent) -> Seq<Edge> {
    let i = edge_index(s, ev.neighbor_nodes.v, ev.neighbor_nodes.u);
    if i < s.len() {
        s.remove(i)
    } else {
        s.push(edge_of_event(ev))
    }
}

/// The edge sequence after all queued toggle events, processed in order.
pub open spec fn apply_toggles(s: Seq<Edge>, evs: Seq<CreateOrUnspawnEdgeEvent>) -> Seq<Edge>
    decreases evs.len(),
{
    if evs.len() == 0 {
        s
    } else {
        toggle_edge_spec(apply_toggles(s, evs.drop_last()), evs.last())
    }
}

/// One edge after a `NodeMoved`-class event for node `id` at position `p`:
/// an incident edge refreshes the cached position of the matching endpoint
/// and rebuilds its geometry, starting at the moved node; any other edge is
/// untouched.
pub open spec fn update_one_edge(e: Edge, id: u64, p: Point) -> Edge {
    if e.neighbor_nodes.v == id {
        Edge {
            neighbor_nodes: NeighborNodes {
                v: e.neighbor_nodes.v,
                u: e.neighbor_nodes.u,
                pos_v: p,
                pos_u: e.neighbor_nodes.pos_u,
            },
            path: Segment { start: p, end: e.neighbor_nodes.pos_u },
        }
    } else if e.neighbor_nodes.u == id {
        Edge {
            neighbor_nodes: NeighborNodes {
                v: e.neighbor_nodes.v,
                u: e.neighbor_nodes.u,
                pos_v: e.neighbor_nodes.pos_v,
                pos_u: p,
            },
            path: Segment { start: p, end: e.neighbor_nodes.pos_v },
        }
    } else {
        e
    }
}

/// The whole registry after one `NodeMoved`-class event.
pub open spec fn apply_move(s: Seq<Edge>, id: u64, p: Point) -> Seq<Edge> {
    Seq::new(s.len(), |i: int| update_one_edge(s[i], id, p))
}

/// The registry after all queued `NodeMoved`-class events, processed in
/// order.
pub open spec fn apply_moves(s: Seq<Edge>, evs: Seq<UpdateEdgeEvent>) -> Seq<Edge>
    decreases evs.len(),
{
    if evs.len() == 0 {
        s
    } else {
        apply_move(apply_moves(s, evs.drop_last()), evs.last().changed_node, evs.last().position)
    }
}

/// The predicate an edge must satisfy to survive the removal of node `id`.
pub open spec fn survives(id: u64) -> spec_fn(Edge) -> bool {
    |e: Edge| !incident(e, id)
}

/// The registry after the cascade delete for one removed node: every edge
/// incident on `id` is gone, every other edge remains, unmodified and in
/// order.
pub open spec fn remove_incident(s: Seq<Edge>, id: u64) -> Seq<Edge> {
    s.filter(survives(id))
}

/// The registry after all queued `NodeRemoved` events, processed in order.
pub open spec fn apply_removals(s: Seq<Edge>, evs: Seq<RemoveEdgeEvent>) -> Seq<Edge>
    decreases evs.len(),
{
    if evs.len() == 0 {
        s
    } else {
        remove_incident(apply_removals(s, evs.drop_last()), evs.last().removed_node)
    }
}

/// `edge_index` points at the first match: everything before it does not
/// match, and the index itself does (when it is in range).
pub proof fn lemma_edge_index(s: Seq<Edge>, v: u64, u: u64)
    ensures
        0 <= edge_index(s, v, u) <= s.len(),
        forall|j: int|
            0 <= j < edge_index(s, v, u) ==> !pair_matches(#[trigger] s[j].neighbor_nodes, v, u),
        edge_index(s, v, u) < s.len() ==> pair_matches(
            s[edge_index(s, v, u)].neighbor_nodes,
            v,
            u,
        ),
    decreases s.len(),
{
    if s.len() != 0 && !pair_matches(s[0].neighbor_nodes, v, u) {
        lemma_edge_index(s.drop_first(), v, u);
        assert forall|j: int|
            0 <= j < edge_index(s, v, u) implies !pair_matches(
            #[trigger] s[j].neighbor_nodes,
            v,
            u,
        ) by {
            if j >= 1 {
                assert(s.drop_first()[j - 1] == s[j]);
            }
        }
        if edge_index(s, v, u) < s.len() {
            assert(s.drop_first()[edge_index(s, v, u) - 1] == s[edge_index(s, v, u)]);
        }
    }
}

/// A position that is preceded only by non-matches and holds a match (or is
/// the end) is exactly where `edge_index` points.
pub proof fn lemma_edge_index_at(s: Seq<Edge>, v: u64, u: u64, k: int)
    requires
        0 <= k <= s.len(),
        forall|j: int| 0 <= j < k ==> !pair_matches(#[trigger] s[j].neighbor_nodes, v, u),
        k < s.len() ==> pair_matches(s[k].neighbor_nodes, v, u),
    ensures
        edge_index(s, v, u) == k,
    decreases s.len(),
{
    if s.len() != 0 {
        if k == 0 {
            if s.len() > 0 && !pair_matches(s[0].neighbor_nodes, v, u) {
                lemma_edge_index(s, v, u);
            }
        } else {
            assert(!pair_matches(s[0].neighbor_nodes, v, u));
            assert forall|j: int|
                0 <= j < k - 1 implies !pair_matches(
                #[trigger] s.drop_first()[j].neighbor_nodes,
                v,
                u,
            ) by {
                assert(s.drop_first()[j] == s[j + 1]);
            }
            assert(k - 1 < s.drop_first().len() ==> pair_matches(
                s.drop_first()[k - 1].neighbor_nodes,
                v,
                u,
            ));
            lemma_edge_index_at(s.drop_first(), v, u, k - 1);
        }
    }
}

impl EdgeRegistry {
    /// A fresh document has no edges.
    pub fn new() -> (r: Self)
        ensures
            r.edges@ =~= Seq::<Edge>::empty(),
    {
        EdgeRegistry { edges: Vec::new() }
    }
}

/// Processes one toggle event: destroys the first edge keyed by the event's
/// unordered pair, or creates the event's edge when none matches.
pub fn toggle_edge(edges: &mut EdgeRegistry, ev: &CreateOrUnspawnEdgeEvent)
    ensures
        final(edges).edges@ == toggle_edge_spec(old(edges).edges@, *ev),
{
    let v = ev.neighbor_nodes.v;
    let u = ev.neighbor_nodes.u;
    let n = edges.edges.len();
    let mut k: usize = 0;
    while k < n
        invariant
            n == edges.edges.len(),
            edges.edges@ == old(edges).edges@,
            v == ev.neighbor_nodes.v,
            u == ev.neighbor_nodes.u,
            0 <= k <= n,
            forall|j: int|
                0 <= j < k ==> !pair_matches(#[trigger] edges.edges@[j].neighbor_nodes, v, u),
        decreases n - k,
    {
        let cand = edges.edges[k].neighbor_nodes;
        if (cand.v == v && cand.u == u) || (cand.v == u && cand.u == v) {
            proof {
                lemma_edge_index_at(edges.edges@, v, u, k as int);
            }
            edges.edges.remove(k);
            return ;
        }
        k += 1;
    }
    proof {
        lemma_edge_index_at(edges.edges@, v, u, n as int);
    }
    edges.edges.push(Edge { neighbor_nodes: ev.neighbor_nodes, path: ev.path });
}

/// Drains the queued toggle events in order, creating or destroying one edge
/// per event (undo semantics for a repeated pair).
pub fn create_or_unspawn_edge(edges: &mut EdgeRegistry, events: &Vec<CreateOrUnspawnEdgeEvent>)
    ensures
        final(edges).edges@ == apply_toggles(old(edges).edges@, events@),
{
    let n = events.len();
    let mut k: usize = 0;
    while k < n
        invariant
            n == events.len(),
            0 <= k <= n,
            edges.edges@ == apply_toggles(old(edges).edges@, events@.subrange(0, k as int)),
        decreases n - k,
    {
        let ev = events[k];
        toggle_edge(edges, &ev);
        proof {
            let pre = events@.subrange(0, k as int);
            let post = events@.subrange(0, k as int + 1);
            assert(post.drop_last() =~= pre);
            assert(post.last() == events@[k as int]);
        }
        k += 1;
    }
    proof {
        assert(events@.subrange(0, n as int) =~= events@);
    }
}

/// Applies one `NodeMoved`-class event to every edge in place.
fn apply_update_event(edges: &mut EdgeRegistry, id: u64, p: Point)
    ensures
        final(edges).edges@ == apply_move(old(edges).edges@, id, p),
{
    let n = edges.edges.len();
    let mut j: usize = 0;
    while j < n
        invariant
            n == old(edges).edges@.len(),
            edges.edges@.len() == n,
            0 <= j <= n,
            forall|i: int| 0 <= i < j ==> edges.edges@[i] == update_one_edge(old(edges).edges@[i], id, p),
            forall|i: int| j <= i < n ==> edges.edges@[i] == old(edges).edges@[i],
        decreases n - j,
    {
        let e = edges.edges[j];
        if e.neighbor_nodes.v == id {
            let updated = Edge {
                neighbor_nodes: NeighborNodes {
                    v: e.neighbor_nodes.v,
                    u: e.neighbor_nodes.u,
                    pos_v: p,
                    pos_u: e.neighbor_nodes.pos_u,
                },
                path: Segment { start: p, end: e.neighbor_nodes.pos_u },
            };
            edges.edges.set(j, updated);
        } else if e.neighbor_nodes.u == id {
            let updated = Edge {
                neighbor_nodes: NeighborNodes {
                    v: e.neighbor_nodes.v,
                    u: e.neighbor_nodes.u,
                    pos_v: e.neighbor_nodes.pos_v,
                    pos_u: p,
                },
                path: Segment { start: p, end: e.neighbor_nodes.pos_v },
            };
            edges.edges.set(j, updated);
        }
        j += 1;
    }
    assert(edges.edges@ =~= apply_move(old(edges).edges@, id, p));
}

/// Drains the queued `NodeMoved`-class events in order: every edge incident
/// on a moved node refreshes the cached endpoint and rebuilds its geometry;
/// edges not incident on it are untouched.
pub fn update_edge_after_moving_node(edges: &mut EdgeRegistry, events: &Vec<UpdateEdgeEvent>)
    ensures
        final(edges).edges@ == apply_moves(old(edges).edges@, events@),
{
    let n = events.len();
    let mut k: usize = 0;
    while k < n
        invariant
            n == events.len(),
            0 <= k <= n,
            edges.edges@ == apply_moves(old(edges).edges@, events@.subrange(0, k as int)),
        decreases n - k,
    {
        let ev = events[k];
        apply_update_event(edges, ev.changed_node, ev.position);
        proof {
            let pre = events@.subrange(0, k as int);
            let post = events@.subrange(0, k as int + 1);
            assert(post.drop_last() =~= pre);
            assert(post.last() == events@[k as int]);
        }
        k += 1;
    }
    proof {
        assert(events@.subrange(0, n as int) =~= events@);
    }
}

/// Rebuilds the registry without any edge incident on `id`.
fn apply_remove_event(edges: &mut EdgeRegistry, id: u64)
    ensures
        final(edges).edges@ == remove_incident(old(edges).edges@, id),
{
    let n = edges.edges.len();
    let mut kept: Vec<Edge> = Vec::new();
    let mut j: usize = 0;
    while j < n
        invariant
            n == edges.edges.len(),
            *edges == *old(edges),
            0 <= j <= n,
            kept@ == edges.edges@.subrange(0, j as int).filter(survives(id)),
        decreases n - j,
    {
        let e = edges.edges[j];
        proof {
            let pre = edges.edges@.subrange(0, j as int);
            let post = edges.edges@.subrange(0, j as int + 1);
            assert(post.drop_last() =~= pre);
            assert(post.last() == edges.edges@[j as int]);
            reveal(Seq::filter);
        }
        if !(e.neighbor_nodes.v == id || e.neighbor_nodes.u == id) {
            kept.push(e);
        }
        j += 1;
    }
    proof {
        assert(edges.edges@.subrange(0, n as int) =~= edges.edges@);
    }
    edges.edges = kept;
}

/// Drains the queued `NodeRemoved` events in order, cascade-deleting every
/// edge incident on a removed node while every other edge remains unmodified.
pub fn remove_edge_after_remove_node(edges: &mut EdgeRegistry, events: &Vec<RemoveEdgeEvent>)
    ensures
        final(edges).edges@ == apply_removals(old(edges).edges@, events@),
{
    let n = events.len();
    let mut k: usize = 0;
    while k < n
        invariant
            n == events.len(),
            0 <= k <= n,
            edges.edges@ == apply_removals(old(edges).edges@, events@.subrange(0, k as int)),
        decreases n - k,
    {
        let ev = events[k];
        apply_remove_event(edges, ev.removed_node);
        proof {
            let pre = events@.subrange(0, k as int);
            let post = events@.subrange(0, k as int + 1);
            assert(post.drop_last() =~= pre);
            assert(post.last() == events@[k as int]);
        }
        k += 1;
    }
    proof {
        assert(events@.subrange(0, n as int) =~= events@);
    }
}

} // verus!
