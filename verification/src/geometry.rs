//! Points, segments, spatial hit-testing, and the boundary clamp.
//!
//! Coordinates are viewport-relative integers, centered on the middle of the
//! viewport: the visible area spans `-width / 2 ..= width / 2` on the x axis
//! and likewise for y.

use vstd::prelude::*;

verus! {

/// A point in viewport coordinates.
#[derive(Clone, Copy, PartialEq, Eq, Structural, Debug)]
pub struct Point {
    pub x: i32,
    pub y: i32,
}

/// A straight line segment: the derived geometry of an edge.
#[derive(Clone, Copy, PartialEq, Eq, Structural, Debug)]
pub struct Segment {
    pub start: Point,
    pub end: Point,
}

/// The squared Euclidean distance between two points.
pub open spec fn sq_dist(a: Point, b: Point) -> int {
    (a.x - b.x) * (a.x - b.x) + (a.y - b.y) * (a.y - b.y)
}

/// Whether `point` lies on or inside the circle of the given radius around
/// `center`. The boundary counts as a hit: the test is `distance <= radius`,
/// stated over squares to stay within integers.
pub open spec fn point_on_node(point: Point, center: Point, radius: int) -> bool {
    sq_dist(point, center) <= radius * radius
}

/// Decides whether the pointer lies on a node of the given center and radius.
pub fn is_mouse_on_node(mouse_x: i32, mouse_y: i32, node_x: i32, node_y: i32, radius: i32) -> (r:
    bool)
    requires
        0 <= radius,
    ensures
        r == point_on_node(
            Point { x: mouse_x, y: mouse_y },
            Point { x: node_x, y: node_y },
            radius as int,
        ),
{
    let dx: i128 = mouse_x as i128 - node_x as i128;
    let dy: i128 = mouse_y as i128 - node_y as i128;
    proof {
        assert(-0x1_0000_0000 <= dx <= 0x1_0000_0000);
        assert(-0x1_0000_0000 <= dy <= 0x1_0000_0000);
        assert(dx * dx <= 0x1_0000_0000_0000_0000) by (nonlinear_arith)
            requires
                -0x1_0000_0000 <= dx <= 0x1_0000_0000,
        ;
        assert(dy * dy <= 0x1_0000_0000_0000_0000) by (nonlinear_arith)
            requires
                -0x1_0000_0000 <= dy <= 0x1_0000_0000,
        ;
        assert(0 <= dx * dx) by (nonlinear_arith);
        assert(0 <= dy * dy) by (nonlinear_arith);
        assert(radius as i128 * radius as i128 <= 0x4000_0000_0000_0000) by (nonlinear_arith)
            requires
                0 <= radius as i128 <= 0x8000_0000,
        ;
    }
    dx * dx + dy * dy <= radius as i128 * radius as i128
}

/// One coordinate after the boundary clamp: if the node's extent
/// (`coord ± radius`) reaches past the half-extent of the viewport on this
/// axis, the coordinate is pulled to the nearest in-bounds value.
pub open spec fn clamp_coord(extent: int, coord: int, radius: int) -> int {
    let half = extent / 2;
    if coord + radius >= half {
        half - radius
    } else if coord - radius <= -half {
        -(half - radius)
    } else {
        coord
    }
}

/// A whole point after the boundary clamp, both axes corrected
/// independently. The clamped coordinates fit `i32` whenever the extents and
/// the radius are nonnegative `i32` values, so the casts never truncate
/// where the executable code uses this function.
pub open spec fn clamped_point(width: int, height: int, p: Point, radius: int) -> Point {
    Point {
        x: clamp_coord(width, p.x as int, radius) as i32,
        y: clamp_coord(height, p.y as int, radius) as i32,
    }
}

/// Corrects a node position that reaches past the viewport. Returns the
/// corrected coordinates when a correction was needed, `None` when the node
/// already lies fully inside.
pub fn fix_node_position_if_needed(
    height: i32,
    width: i32,
    node_x: i32,
    node_y: i32,
    radius: i32,
) -> (r: Option<(i32, i32)>)
    requires
        0 <= height,
        0 <= width,
        0 <= radius,
    ensures
        ({
            let cx = clamp_coord(width as int, node_x as int, radius as int);
            let cy = clamp_coord(height as int, node_y as int, radius as int);
            if cx == node_x && cy == node_y {
                r is None
            } else {
                r matches Some(q) && q.0 == cx && q.1 == cy
            }
        }),
{
    let half_w: i64 = width as i64 / 2;
    let half_h: i64 = height as i64 / 2;
    let rad: i64 = radius as i64;

    let mut x: i64 = node_x as i64;
    let mut y: i64 = node_y as i64;

    if node_x as i64 + rad >= half_w {
        x = half_w - rad;
    } else if node_x as i64 - rad <= -half_w {
        x = -(half_w - rad);
    }

    if node_y as i64 + rad >= half_h {
        y = half_h - rad;
    } else if node_y as i64 - rad <= -half_h {
        y = -(half_h - rad);
    }

    assert(x == clamp_coord(width as int, node_x as int, radius as int));
    assert(y == clamp_coord(height as int, node_y as int, radius as int));
    assert(i32::MIN <= x <= i32::MAX);
    assert(i32::MIN <= y <= i32::MAX);

    if x != node_x as i64 || y != node_y as i64 {
        Some((x as i32, y as i32))
    } else {
        None
    }
}

} // verus!
