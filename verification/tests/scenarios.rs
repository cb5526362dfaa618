use graph_visualizer::edges::{
    create_or_unspawn_edge, remove_edge_after_remove_node, update_edge_after_moving_node,
    EdgeRegistry,
};
use graph_visualizer::events::{
    ChangeNodeColorEvent, CreateOrUnspawnEdgeEvent, RemoveEdgeEvent, UpdateEdgeEvent,
};
use graph_visualizer::geometry::Point;
use graph_visualizer::nodes::{
    emit_create_or_unspawn_edge_event, fix_off_screen_node_positions, mark_node_to_create_edge,
    mark_node_to_move, move_node, remove_node, spawn_node, unmark_node_that_was_moving,
    NodeRegistry,
};
use graph_visualizer::resources::{NodeColor, NodeSettings, VisualizerState};

fn pt(x: i32, y: i32) -> Point {
    Point { x, y }
}

/// One document under edit: both registries, the global flag, the settings,
/// and the per-tick queues.
struct Doc {
    nodes: NodeRegistry,
    edges: EdgeRegistry,
    state: VisualizerState,
    settings: NodeSettings,
    color_events: Vec<ChangeNodeColorEvent>,
    update_events: Vec<UpdateEdgeEvent>,
    remove_events: Vec<RemoveEdgeEvent>,
    toggle_events: Vec<CreateOrUnspawnEdgeEvent>,
}

impl Doc {
    fn new() -> Doc {
        Doc {
            nodes: NodeRegistry::new(),
            edges: EdgeRegistry::new(),
            state: VisualizerState::default(),
            settings: NodeSettings::default(),
            color_events: Vec::new(),
            update_events: Vec::new(),
            remove_events: Vec::new(),
            toggle_events: Vec::new(),
        }
    }

    /// Drains every queue into the edge registry, in the tick's stage order,
    /// and clears the queues.
    fn sync(&mut self) {
        emit_create_or_unspawn_edge_event(
            &mut self.nodes,
            &mut self.color_events,
            &mut self.toggle_events,
        );
        create_or_unspawn_edge(&mut self.edges, &self.toggle_events);
        update_edge_after_moving_node(&mut self.edges, &self.update_events);
        remove_edge_after_remove_node(&mut self.edges, &self.remove_events);
        graph_visualizer::nodes::change_node_color(&mut self.nodes, &self.color_events);
        self.color_events.clear();
        self.update_events.clear();
        self.remove_events.clear();
        self.toggle_events.clear();
    }

    fn select(&mut self, p: Point) {
        mark_node_to_create_edge(
            &mut self.nodes,
            &mut self.color_events,
            &self.state,
            &self.settings,
            Some(p),
        );
    }
}

#[test]
fn spawn_move_connect_delete() {
    let mut doc = Doc::new();

    // Spawn node A at (100, 100) and node B at (200, 100).
    spawn_node(&mut doc.nodes, &doc.state, Some(pt(100, 100)));
    spawn_node(&mut doc.nodes, &doc.state, Some(pt(200, 100)));
    assert_eq!(doc.nodes.nodes.len(), 2);
    let a = doc.nodes.nodes[0].id;
    let b = doc.nodes.nodes[1].id;

    // Select A, then B: the pair is consumed and edge (A, B) appears with
    // the snapshot endpoints (100,100)-(200,100).
    doc.select(pt(100, 100));
    assert!(doc.nodes.nodes[0].selected);
    doc.select(pt(200, 100));
    doc.sync();
    assert_eq!(doc.edges.edges.len(), 1);
    assert_eq!(doc.edges.edges[0].neighbor_nodes.v, a);
    assert_eq!(doc.edges.edges[0].neighbor_nodes.u, b);
    assert_eq!(doc.edges.edges[0].neighbor_nodes.pos_v, pt(100, 100));
    assert_eq!(doc.edges.edges[0].neighbor_nodes.pos_u, pt(200, 100));
    assert!(!doc.nodes.nodes[0].selected);
    assert!(!doc.nodes.nodes[1].selected);

    // Drag A to (100, 150): the edge endpoint for A follows, B's endpoint
    // stays put.
    mark_node_to_move(
        &mut doc.nodes,
        &mut doc.state,
        &mut doc.color_events,
        &doc.settings,
        Some(pt(100, 100)),
    );
    assert!(doc.state.is_moving_node);
    move_node(&mut doc.nodes, &mut doc.update_events, &doc.state, Some(pt(100, 150)));
    assert_eq!(doc.nodes.nodes[0].position, pt(100, 150));
    unmark_node_that_was_moving(&mut doc.nodes, &mut doc.state, &mut doc.color_events);
    assert!(!doc.state.is_moving_node);
    doc.sync();
    assert_eq!(doc.edges.edges[0].neighbor_nodes.pos_v, pt(100, 150));
    assert_eq!(doc.edges.edges[0].neighbor_nodes.pos_u, pt(200, 100));
    assert_eq!(doc.edges.edges[0].path.start, pt(100, 150));
    assert_eq!(doc.edges.edges[0].path.end, pt(200, 100));

    // Delete B: the edge is cascade-deleted; A remains, idle.
    remove_node(
        &mut doc.nodes,
        &mut doc.remove_events,
        &doc.state,
        &doc.settings,
        Some(pt(200, 100)),
    );
    doc.sync();
    assert_eq!(doc.edges.edges.len(), 0);
    assert_eq!(doc.nodes.nodes.len(), 1);
    assert_eq!(doc.nodes.nodes[0].id, a);
    assert!(!doc.nodes.nodes[0].moving);
    assert!(!doc.nodes.nodes[0].selected);
    assert_eq!(doc.nodes.nodes[0].color, NodeColor::Base);
}

#[test]
fn toggle_twice_leaves_no_edge() {
    let mut doc = Doc::new();
    spawn_node(&mut doc.nodes, &doc.state, Some(pt(100, 100)));
    spawn_node(&mut doc.nodes, &doc.state, Some(pt(200, 100)));

    // Select A then B: edge created.
    doc.select(pt(100, 100));
    doc.select(pt(200, 100));
    doc.sync();
    assert_eq!(doc.edges.edges.len(), 1);

    // Select A then B again: the same pair toggles the edge away.
    doc.select(pt(100, 100));
    doc.select(pt(200, 100));
    doc.sync();
    assert_eq!(doc.edges.edges.len(), 0);
}

#[test]
fn gestures_are_no_ops_while_a_node_is_moving() {
    let mut doc = Doc::new();
    spawn_node(&mut doc.nodes, &doc.state, Some(pt(0, 0)));
    spawn_node(&mut doc.nodes, &doc.state, Some(pt(100, 0)));

    // Begin moving A.
    mark_node_to_move(
        &mut doc.nodes,
        &mut doc.state,
        &mut doc.color_events,
        &doc.settings,
        Some(pt(0, 0)),
    );
    assert!(doc.state.is_moving_node);
    assert!(doc.nodes.nodes[0].moving);

    // A spawn gesture is suppressed.
    spawn_node(&mut doc.nodes, &doc.state, Some(pt(50, 50)));
    assert_eq!(doc.nodes.nodes.len(), 2);

    // A delete gesture is suppressed.
    remove_node(
        &mut doc.nodes,
        &mut doc.remove_events,
        &doc.state,
        &doc.settings,
        Some(pt(100, 0)),
    );
    assert_eq!(doc.nodes.nodes.len(), 2);
    assert_eq!(doc.remove_events.len(), 0);

    // A second begin-move gesture is suppressed.
    mark_node_to_move(
        &mut doc.nodes,
        &mut doc.state,
        &mut doc.color_events,
        &doc.settings,
        Some(pt(100, 0)),
    );
    assert!(!doc.nodes.nodes[1].moving);

    // A selection gesture is suppressed too.
    doc.select(pt(100, 0));
    assert!(!doc.nodes.nodes[1].selected);

    // After the move ends, gestures work again.
    unmark_node_that_was_moving(&mut doc.nodes, &mut doc.state, &mut doc.color_events);
    assert!(!doc.state.is_moving_node);
    spawn_node(&mut doc.nodes, &doc.state, Some(pt(50, 50)));
    assert_eq!(doc.nodes.nodes.len(), 3);
}

#[test]
fn spawn_outside_viewport_is_a_no_op() {
    let mut doc = Doc::new();
    spawn_node(&mut doc.nodes, &doc.state, None);
    assert_eq!(doc.nodes.nodes.len(), 0);
}

#[test]
fn delete_missing_everything_is_a_no_op() {
    let mut doc = Doc::new();
    spawn_node(&mut doc.nodes, &doc.state, Some(pt(0, 0)));
    remove_node(
        &mut doc.nodes,
        &mut doc.remove_events,
        &doc.state,
        &doc.settings,
        Some(pt(500, 500)),
    );
    assert_eq!(doc.nodes.nodes.len(), 1);
    assert_eq!(doc.remove_events.len(), 0);
}

#[test]
fn third_selection_grows_the_candidate_set() {
    // A third selection does not clear the first two; the first two (in
    // registry order) are consumed by the toggle.
    let mut doc = Doc::new();
    spawn_node(&mut doc.nodes, &doc.state, Some(pt(0, 0)));
    spawn_node(&mut doc.nodes, &doc.state, Some(pt(100, 0)));
    spawn_node(&mut doc.nodes, &doc.state, Some(pt(200, 0)));
    doc.select(pt(200, 0));
    doc.select(pt(0, 0));
    doc.select(pt(100, 0));
    doc.sync();
    // The toggle consumes the first two selected nodes in registry
    // iteration order: nodes 0 and 1.
    assert_eq!(doc.edges.edges.len(), 1);
    assert_eq!(doc.edges.edges[0].neighbor_nodes.v, 0);
    assert_eq!(doc.edges.edges[0].neighbor_nodes.u, 1);
    // The remaining selection (node 2) is still pending.
    assert!(doc.nodes.nodes[2].selected);
    assert!(!doc.nodes.nodes[0].selected);
    assert!(!doc.nodes.nodes[1].selected);
}

#[test]
fn boundary_clamp_corrects_and_notifies_edges() {
    let mut doc = Doc::new();
    spawn_node(&mut doc.nodes, &doc.state, Some(pt(0, 0)));
    spawn_node(&mut doc.nodes, &doc.state, Some(pt(395, 0)));
    doc.select(pt(0, 0));
    doc.select(pt(395, 0));
    doc.sync();
    assert_eq!(doc.edges.edges[0].neighbor_nodes.pos_u, pt(395, 0));

    // The clamp pass pulls node B back inside an 800x600 viewport and emits
    // the correction, so the edge geometry follows.
    fix_off_screen_node_positions(
        &mut doc.nodes,
        &mut doc.update_events,
        &doc.settings,
        600,
        800,
    );
    assert_eq!(doc.nodes.nodes[1].position, pt(388, 0));
    assert_eq!(doc.update_events.len(), 1);
    assert_eq!(doc.update_events[0].changed_node, 1);
    assert_eq!(doc.update_events[0].position, pt(388, 0));
    doc.sync();
    assert_eq!(doc.edges.edges[0].neighbor_nodes.pos_u, pt(388, 0));
    assert_eq!(doc.edges.edges[0].path.start, pt(388, 0));
    assert_eq!(doc.edges.edges[0].path.end, pt(0, 0));

    // A second pass changes nothing and emits nothing.
    fix_off_screen_node_positions(
        &mut doc.nodes,
        &mut doc.update_events,
        &doc.settings,
        600,
        800,
    );
    assert_eq!(doc.nodes.nodes[1].position, pt(388, 0));
    assert_eq!(doc.update_events.len(), 0);
}

#[test]
fn recoloring_follows_the_gestures() {
    let mut doc = Doc::new();
    spawn_node(&mut doc.nodes, &doc.state, Some(pt(0, 0)));
    doc.select(pt(0, 0));
    graph_visualizer::nodes::change_node_color(&mut doc.nodes, &doc.color_events);
    doc.color_events.clear();
    assert_eq!(doc.nodes.nodes[0].color, NodeColor::Selected);

    // Moving a selected node recolors it to the moving color, and ending the
    // move restores the selected color because the selection survived.
    mark_node_to_move(
        &mut doc.nodes,
        &mut doc.state,
        &mut doc.color_events,
        &doc.settings,
        Some(pt(0, 0)),
    );
    graph_visualizer::nodes::change_node_color(&mut doc.nodes, &doc.color_events);
    doc.color_events.clear();
    assert_eq!(doc.nodes.nodes[0].color, NodeColor::Moving);
    assert!(doc.nodes.nodes[0].selected);

    unmark_node_that_was_moving(&mut doc.nodes, &mut doc.state, &mut doc.color_events);
    graph_visualizer::nodes::change_node_color(&mut doc.nodes, &doc.color_events);
    doc.color_events.clear();
    assert_eq!(doc.nodes.nodes[0].color, NodeColor::Selected);

    // Deselecting recolors back to base.
    doc.select(pt(0, 0));
    graph_visualizer::nodes::change_node_color(&mut doc.nodes, &doc.color_events);
    doc.color_events.clear();
    assert!(!doc.nodes.nodes[0].selected);
    assert_eq!(doc.nodes.nodes[0].color, NodeColor::Base);
}

#[test]
fn drag_follows_pointer_and_queues_updates() {
    let mut doc = Doc::new();
    spawn_node(&mut doc.nodes, &doc.state, Some(pt(0, 0)));
    mark_node_to_move(
        &mut doc.nodes,
        &mut doc.state,
        &mut doc.color_events,
        &doc.settings,
        Some(pt(0, 0)),
    );
    move_node(&mut doc.nodes, &mut doc.update_events, &doc.state, Some(pt(5, 5)));
    move_node(&mut doc.nodes, &mut doc.update_events, &doc.state, Some(pt(9, -3)));
    // A pointer that left the viewport changes nothing.
    move_node(&mut doc.nodes, &mut doc.update_events, &doc.state, None);
    assert_eq!(doc.nodes.nodes[0].position, pt(9, -3));
    assert_eq!(doc.update_events.len(), 2);
    assert_eq!(doc.update_events[0].position, pt(5, 5));
    assert_eq!(doc.update_events[1].position, pt(9, -3));
    // Without the flag, a drag is a no-op.
    unmark_node_that_was_moving(&mut doc.nodes, &mut doc.state, &mut doc.color_events);
    move_node(&mut doc.nodes, &mut doc.update_events, &doc.state, Some(pt(100, 100)));
    assert_eq!(doc.nodes.nodes[0].position, pt(9, -3));
}

#[test]
fn deleted_id_is_never_reused() {
    let mut doc = Doc::new();
    spawn_node(&mut doc.nodes, &doc.state, Some(pt(0, 0)));
    remove_node(
        &mut doc.nodes,
        &mut doc.remove_events,
        &doc.state,
        &doc.settings,
        Some(pt(0, 0)),
    );
    assert_eq!(doc.nodes.nodes.len(), 0);
    spawn_node(&mut doc.nodes, &doc.state, Some(pt(0, 0)));
    // The fresh node gets a fresh id, not the deleted 0.
    assert_eq!(doc.nodes.nodes[0].id, 1);
}
