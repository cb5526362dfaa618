use graph_visualizer::geometry::{fix_node_position_if_needed, is_mouse_on_node};

#[test]
fn hit_at_exact_radius_counts() {
    // A point exactly `radius` away from the center is a hit.
    assert!(is_mouse_on_node(12, 0, 0, 0, 12));
    assert!(is_mouse_on_node(0, -12, 0, 0, 12));
}

#[test]
fn hit_just_past_radius_misses() {
    // One unit farther than the radius is no longer a hit.
    assert!(!is_mouse_on_node(13, 0, 0, 0, 12));
    assert!(!is_mouse_on_node(0, 13, 0, 0, 12));
    // Squared distance 9*9 + 9*9 = 162 > 144.
    assert!(!is_mouse_on_node(9, 9, 0, 0, 12));
}

#[test]
fn hit_inside_circle() {
    // A 3-4-5 triangle: distance 5 from the center, well inside radius 12.
    assert!(is_mouse_on_node(103, 104, 100, 100, 12));
    assert!(is_mouse_on_node(0, 0, 0, 0, 12));
}

#[test]
fn hit_far_coordinates_no_overflow() {
    assert!(!is_mouse_on_node(i32::MAX, i32::MAX, i32::MIN, i32::MIN, i32::MAX));
    assert!(is_mouse_on_node(i32::MAX, 0, i32::MAX, 0, 0));
}

#[test]
fn clamp_pulls_node_back_inside() {
    // Viewport 800x600, radius 12: the right edge is at x = 400, so a node
    // centered at x = 395 sticks out and is pulled back to 400 - 12 = 388.
    assert_eq!(fix_node_position_if_needed(600, 800, 395, 0, 12), Some((388, 0)));
    // Bottom side on the y axis: 300 - 12 = 288, negated for the low side.
    assert_eq!(fix_node_position_if_needed(600, 800, 0, -295, 12), Some((0, -288)));
    // Both axes at once.
    assert_eq!(fix_node_position_if_needed(600, 800, 500, 500, 12), Some((388, 288)));
}

#[test]
fn clamp_leaves_interior_node_alone() {
    assert_eq!(fix_node_position_if_needed(600, 800, 0, 0, 12), None);
    assert_eq!(fix_node_position_if_needed(600, 800, 100, -100, 12), None);
}

#[test]
fn clamp_touching_boundary_is_no_correction() {
    // A node whose extent exactly reaches the half-extent is already at the
    // clamped position, so no correction is reported.
    assert_eq!(fix_node_position_if_needed(600, 800, 388, 0, 12), None);
    assert_eq!(fix_node_position_if_needed(600, 800, 0, 288, 12), None);
}

#[test]
fn clamp_twice_equals_clamp_once() {
    // Clamp idempotence on concrete values: a corrected position is not
    // corrected again.
    let first = fix_node_position_if_needed(600, 800, 1000, -1000, 12).unwrap();
    assert_eq!(first, (388, -288));
    assert_eq!(fix_node_position_if_needed(600, 800, first.0, first.1, 12), None);
}
