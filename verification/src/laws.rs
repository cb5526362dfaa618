//! The engine's laws, proved over the same spec functions its contracts use.
//!
//! Each proof function here states one guarantee of the synchronization
//! engine for every input its premises allow, not for chosen values.

use crate::edges::{
    edge_index, edge_of_event, edges_wf, has_edge, incident, lemma_edge_index,
    lemma_edge_index_at, pair_matches, remove_incident, survives, toggle_edge_spec,
    update_one_edge, apply_move, Edge,
};
use crate::events::CreateOrUnspawnEdgeEvent;
use crate::geometry::{clamp_coord, clamped_point, point_on_node, sq_dist, Point};
use vstd::prelude::*;

verus! {

/// Toggle involution: processing the same edge-toggle event twice in
/// succession leaves the edge set unchanged (create-then-destroy). When no
/// edge with the event's pair existed, the registry returns to exactly its
/// prior value; in every case the same unordered pairs are connected
/// afterwards as before.
pub proof fn lemma_edge_toggle_involution(s: Seq<Edge>, ev: CreateOrUnspawnEdgeEvent)
    requires
        ev.neighbor_nodes.v != ev.neighbor_nodes.u,
        edges_wf(s),
    ensures
        !has_edge(s, ev.neighbor_nodes.v, ev.neighbor_nodes.u) ==> toggle_edge_spec(
            toggle_edge_spec(s, ev),
            ev,
        ) == s,
        forall|x: u64, y: u64|
            has_edge(toggle_edge_spec(toggle_edge_spec(s, ev), ev), x, y) == has_edge(s, x, y),
{
    let v = ev.neighbor_nodes.v;
    let u = ev.neighbor_nodes.u;
    let e_new = edge_of_event(ev);
    lemma_edge_index(s, v, u);
    let i0 = edge_index(s, v, u);
    if i0 == s.len() {
        let s1 = toggle_edge_spec(s, ev);
        assert(s1 == s.push(e_new));
        assert(pair_matches(e_new.neighbor_nodes, v, u));
        assert forall|j: int|
            0 <= j < s.len() implies !pair_matches(#[trigger] s1[j].neighbor_nodes, v, u) by {
            assert(s1[j] == s[j]);
        }
        lemma_edge_index_at(s1, v, u, s.len() as int);
        let s2 = toggle_edge_spec(s1, ev);
        assert(s2 =~= s);
    } else {
        assert(has_edge(s, v, u));
        let s1 = s.remove(i0);
        assert(toggle_edge_spec(s, ev) == s1);
        assert forall|j: int|
            0 <= j < s1.len() implies !pair_matches(#[trigger] s1[j].neighbor_nodes, v, u) by {
            if j < i0 {
                assert(s1[j] == s[j]);
            } else {
                assert(s1[j] == s[j + 1]);
                if pair_matches(s[j + 1].neighbor_nodes, v, u) {
                    assert(!pair_matches(
                        s[i0].neighbor_nodes,
                        s[j + 1].neighbor_nodes.v,
                        s[j + 1].neighbor_nodes.u,
                    ));
                    assert(false);
                }
            }
        }
        lemma_edge_index_at(s1, v, u, s1.len() as int);
        let s2 = s1.push(e_new);
        assert(toggle_edge_spec(s1, ev) == s2);
        assert forall|x: u64, y: u64|
            has_edge(toggle_edge_spec(toggle_edge_spec(s, ev), ev), x, y) == has_edge(
            s,
            x,
            y,
        ) by {
            if has_edge(s2, x, y) {
                let j = choose|j: int|
                    0 <= j < s2.len() && pair_matches(#[trigger] s2[j].neighbor_nodes, x, y);
                if j == s1.len() {
                    assert(s2[j] == e_new);
                    assert(pair_matches(s[i0].neighbor_nodes, x, y));
                } else if j < i0 {
                    assert(s2[j] == s[j]);
                    assert(pair_matches(s[j].neighbor_nodes, x, y));
                } else {
                    assert(s2[j] == s[j + 1]);
                    assert(pair_matches(s[j + 1].neighbor_nodes, x, y));
                }
                assert(has_edge(s, x, y));
            }
            if has_edge(s, x, y) {
                let j = choose|j: int|
                    0 <= j < s.len() && pair_matches(#[trigger] s[j].neighbor_nodes, x, y);
                if j == i0 {
                    assert(pair_matches(e_new.neighbor_nodes, x, y));
                    assert(s2[s1.len() as int] == e_new);
                    assert(pair_matches(s2[s1.len() as int].neighbor_nodes, x, y));
                } else if j < i0 {
                    assert(s2[j] == s[j]);
                    assert(pair_matches(s2[j].neighbor_nodes, x, y));
                } else {
                    assert(s2[j - 1] == s[j]);
                    assert(pair_matches(s2[j - 1].neighbor_nodes, x, y));
                }
                assert(has_edge(s2, x, y));
            }
        }
    }
}

/// The toggle preserves the edge registry's well-formedness: pairs stay
/// pairwise distinct and no edge connects a node to itself, provided the
/// event names two distinct nodes.
pub proof fn lemma_toggle_preserves_wf(s: Seq<Edge>, ev: CreateOrUnspawnEdgeEvent)
    requires
        ev.neighbor_nodes.v != ev.neighbor_nodes.u,
        edges_wf(s),
    ensures
        edges_wf(toggle_edge_spec(s, ev)),
{
    let v = ev.neighbor_nodes.v;
    let u = ev.neighbor_nodes.u;
    lemma_edge_index(s, v, u);
    let i0 = edge_index(s, v, u);
    let t = toggle_edge_spec(s, ev);
    if i0 < s.len() {
        assert forall|i: int, j: int|
            0 <= i < j < t.len() implies !pair_matches(
            #[trigger] t[i].neighbor_nodes,
            (#[trigger] t[j].neighbor_nodes).v,
            t[j].neighbor_nodes.u,
        ) by {
            let si = if i < i0 {
                i
            } else {
                i + 1
            };
            let sj = if j < i0 {
                j
            } else {
                j + 1
            };
            assert(t[i] == s[si]);
            assert(t[j] == s[sj]);
        }
        assert forall|i: int|
            0 <= i < t.len() implies (#[trigger] t[i].neighbor_nodes).v
            != t[i].neighbor_nodes.u by {
            if i < i0 {
                assert(t[i] == s[i]);
            } else {
                assert(t[i] == s[i + 1]);
            }
        }
    } else {
        assert forall|i: int, j: int|
            0 <= i < j < t.len() implies !pair_matches(
            #[trigger] t[i].neighbor_nodes,
            (#[trigger] t[j].neighbor_nodes).v,
            t[j].neighbor_nodes.u,
        ) by {
            if j < s.len() {
                assert(t[i] == s[i]);
                assert(t[j] == s[j]);
            } else {
                assert(t[j] == edge_of_event(ev));
                assert(t[i] == s[i]);
                if pair_matches(t[i].neighbor_nodes, v, u) {
                    assert(false);
                }
            }
        }
    }
}

/// Incidence locality: after a `NodeMoved`-class event for node `id` at
/// position `p`, every edge incident on `id` carries `p` as the cached
/// position of the endpoint matching `id`, its other cached endpoint is
/// untouched, and every edge not incident on `id` is unchanged, byte for
/// byte. No edge changes which nodes it connects.
pub proof fn lemma_incidence_locality(s: Seq<Edge>, id: u64, p: Point)
    ensures
        apply_move(s, id, p).len() == s.len(),
        forall|i: int|
            0 <= i < s.len() && (#[trigger] s[i]).neighbor_nodes.v == id ==> apply_move(
                s,
                id,
                p,
            )[i].neighbor_nodes.pos_v == p,
        forall|i: int|
            0 <= i < s.len() && (#[trigger] s[i]).neighbor_nodes.v == id ==> apply_move(
                s,
                id,
                p,
            )[i].neighbor_nodes.pos_u == s[i].neighbor_nodes.pos_u,
        forall|i: int|
            0 <= i < s.len() && (#[trigger] s[i]).neighbor_nodes.u == id
                && s[i].neighbor_nodes.v != id ==> apply_move(s, id, p)[i].neighbor_nodes.pos_u
                == p,
        forall|i: int|
            0 <= i < s.len() && (#[trigger] s[i]).neighbor_nodes.u == id
                && s[i].neighbor_nodes.v != id ==> apply_move(s, id, p)[i].neighbor_nodes.pos_v
                == s[i].neighbor_nodes.pos_v,
        forall|i: int|
            0 <= i < s.len() && !incident(#[trigger] s[i], id) ==> apply_move(s, id, p)[i] == s[i],
        forall|i: int|
            0 <= i < s.len() ==> (#[trigger] apply_move(s, id, p)[i]).neighbor_nodes.v
                == s[i].neighbor_nodes.v && apply_move(s, id, p)[i].neighbor_nodes.u
                == s[i].neighbor_nodes.u,
{
    assert forall|i: int| 0 <= i < s.len() implies apply_move(s, id, p)[i] == update_one_edge(
        s[i],
        id,
        p,
    ) by {}
}

/// Cascade delete correctness: after the cascade delete for node `id`, no
/// edge in the registry references `id`; every edge that did not reference
/// it survives; and nothing that was not in the registry appears.
pub proof fn lemma_cascade_delete(s: Seq<Edge>, id: u64)
    ensures
        remove_incident(s, id).len() <= s.len(),
        forall|i: int|
            0 <= i < remove_incident(s, id).len() ==> !incident(
                #[trigger] remove_incident(s, id)[i],
                id,
            ),
        forall|i: int|
            0 <= i < s.len() && !incident(#[trigger] s[i], id) ==> remove_incident(
                s,
                id,
            ).contains(s[i]),
        forall|i: int|
            0 <= i < remove_incident(s, id).len() ==> s.contains(
                #[trigger] remove_incident(s, id)[i],
            ),
{
    let pred = survives(id);
    s.lemma_filter_len(pred);
    assert forall|i: int|
        0 <= i < remove_incident(s, id).len() implies !incident(
        #[trigger] remove_incident(s, id)[i],
        id,
    ) by {
        s.lemma_filter_pred(pred, i);
    }
    assert forall|i: int|
        0 <= i < s.len() && !incident(#[trigger] s[i], id) implies remove_incident(
        s,
        id,
    ).contains(s[i]) by {
        s.lemma_filter_contains(pred, i);
    }
    assert forall|i: int|
        0 <= i < remove_incident(s, id).len() implies s.contains(
        #[trigger] remove_incident(s, id)[i],
    ) by {
        let e = remove_incident(s, id)[i];
        assert(s.filter(pred).contains(e)) by {
            assert(s.filter(pred)[i] == e);
        }
        s.lemma_filter_contains_rev(pred, e);
    }
}

/// Clamp idempotence on one axis: a coordinate the boundary clamp has
/// corrected is not corrected again, as long as the node fits the viewport
/// on that axis (its diameter is at most the extent). A node wider than the
/// viewport can bounce between the two sides, which is why the premise is
/// needed.
pub proof fn lemma_clamp_coord_idempotent(extent: int, coord: int, radius: int)
    requires
        0 <= radius,
        radius <= extent / 2,
    ensures
        clamp_coord(extent, clamp_coord(extent, coord, radius), radius) == clamp_coord(
            extent,
            coord,
            radius,
        ),
{
}

/// Clamp idempotence for a whole node position: applying the boundary clamp
/// twice gives the same position as applying it once, for every viewport
/// that the node fits into.
pub proof fn lemma_clamp_idempotent(width: int, height: int, p: Point, radius: int)
    requires
        0 <= radius,
        radius <= width / 2,
        radius <= height / 2,
        width <= i32::MAX,
        height <= i32::MAX,
    ensures
        clamped_point(width, height, clamped_point(width, height, p, radius), radius)
            == clamped_point(width, height, p, radius),
{
    let cx = clamp_coord(width, p.x as int, radius);
    let cy = clamp_coord(height, p.y as int, radius);
    assert(i32::MIN <= cx <= i32::MAX);
    assert(i32::MIN <= cy <= i32::MAX);
    lemma_clamp_coord_idempotent(width, p.x as int, radius);
    lemma_clamp_coord_idempotent(height, p.y as int, radius);
}

/// Hit-test boundary: a point at distance exactly `radius` from a node's
/// center counts as a hit, and any point strictly farther away does not.
/// Distances are compared through their squares, which is exact over the
/// integers.
pub proof fn lemma_hit_test_boundary(p: Point, center: Point, radius: int)
    requires
        0 <= radius,
    ensures
        sq_dist(p, center) == radius * radius ==> point_on_node(p, center, radius),
        sq_dist(p, center) > radius * radius ==> !point_on_node(p, center, radius),
{
}

} // verus!
