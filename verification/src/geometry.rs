//! Point-in-polygon test for the fixed four-vertex zone polygons.
//!
//! Containment is the classic even-odd rule: a point is inside when a
//! horizontal ray cast towards +x crosses an odd number of polygon edges.
//! Points lying exactly on an edge count as outside, so a track centered on
//! the zone border does not trigger the zone.

use vstd::prelude::*;

verus! {

/// A vertex of a zone polygon, in frame-pixel coordinates.
#[derive(Clone, Copy, Debug, PartialEq, Eq, Structural)]
pub struct Vertex {
    pub x: i32,
    pub y: i32,
}

/// A closed quadrilateral: the edges are v0-v1, v1-v2, v2-v3 and v3-v0.
#[derive(Clone, Copy, Debug, PartialEq, Eq, Structural)]
pub struct Quad {
    pub v0: Vertex,
    pub v1: Vertex,
    pub v2: Vertex,
    pub v3: Vertex,
}

/// Cross product of (b - a) with (p - a): positive when `p` lies to the left
/// of the directed segment from `a` to `b`, zero when the three points are
/// collinear.
pub open spec fn spec_cross(a: Vertex, b: Vertex, p: Vertex) -> int {
    (b.x - a.x) * (p.y - a.y) - (b.y - a.y) * (p.x - a.x)
}

/// `p` lies on the closed segment from `a` to `b`.
pub open spec fn spec_on_segment(a: Vertex, b: Vertex, p: Vertex) -> bool {
    &&& spec_cross(a, b, p) == 0
    &&& (p.x - a.x) * (p.x - b.x) <= 0
    &&& (p.y - a.y) * (p.y - b.y) <= 0
}

/// The horizontal ray from `p` towards +x crosses the open edge from `a` to
/// `b`. The half-open test on the y coordinates makes an edge count exactly
/// once when the ray passes through one of its endpoints.
pub open spec fn spec_edge_crossing(a: Vertex, b: Vertex, p: Vertex) -> bool {
    &&& (a.y > p.y) != (b.y > p.y)
    &&& if b.y > a.y {
            spec_cross(a, b, p) > 0
        } else {
            spec_cross(a, b, p) < 0
        }
}

pub open spec fn crossing_count(q: Quad, p: Vertex) -> int {
    (if spec_edge_crossing(q.v0, q.v1, p) { 1int } else { 0int })
        + (if spec_edge_crossing(q.v1, q.v2, p) { 1int } else { 0int })
        + (if spec_edge_crossing(q.v2, q.v3, p) { 1int } else { 0int })
        + (if spec_edge_crossing(q.v3, q.v0, p) { 1int } else { 0int })
}

/// `p` lies on the boundary of `q`.
pub open spec fn spec_on_boundary(q: Quad, p: Vertex) -> bool {
    ||| spec_on_segment(q.v0, q.v1, p)
    ||| spec_on_segment(q.v1, q.v2, p)
    ||| spec_on_segment(q.v2, q.v3, p)
    ||| spec_on_segment(q.v3, q.v0, p)
}

/// `p` lies strictly inside `q` by the even-odd rule: off the boundary and
/// with an odd number of edge crossings.
pub open spec fn spec_contains(q: Quad, p: Vertex) -> bool {
    &&& !spec_on_boundary(q, p)
    &&& crossing_count(q, p) % 2 == 1
}

/// Product of two differences of 32-bit coordinates, bounded well inside the
/// 128-bit range.
fn mul_diff(x: i128, y: i128) -> (r: i128)
    requires
        -0x1_0000_0000 <= x <= 0x1_0000_0000,
        -0x1_0000_0000 <= y <= 0x1_0000_0000,
    ensures
        r == x * y,
        -0x1_0000_0000_0000_0000 <= r <= 0x1_0000_0000_0000_0000,
{
    proof {
        assert(-0x1_0000_0000_0000_0000 <= x * y <= 0x1_0000_0000_0000_0000) by (nonlinear_arith)
            requires
                -0x1_0000_0000 <= x <= 0x1_0000_0000,
                -0x1_0000_0000 <= y <= 0x1_0000_0000,
        ;
    }
    x * y
}

/// Exact integer cross product, evaluated in 128 bits so that no pair of
/// 32-bit coordinates can overflow.
fn cross(a: Vertex, b: Vertex, p: Vertex) -> (r: i128)
    ensures
        r as int == spec_cross(a, b, p),
{
    mul_diff(b.x as i128 - a.x as i128, p.y as i128 - a.y as i128)
        - mul_diff(b.y as i128 - a.y as i128, p.x as i128 - a.x as i128)
}

fn on_segment(a: Vertex, b: Vertex, p: Vertex) -> (r: bool)
    ensures
        r == spec_on_segment(a, b, p),
{
    cross(a, b, p) == 0
        && mul_diff(p.x as i128 - a.x as i128, p.x as i128 - b.x as i128) <= 0
        && mul_diff(p.y as i128 - a.y as i128, p.y as i128 - b.y as i128) <= 0
}

fn edge_crossing(a: Vertex, b: Vertex, p: Vertex) -> (r: bool)
    ensures
        r == spec_edge_crossing(a, b, p),
{
    if (a.y > p.y) != (b.y > p.y) {
        let c = cross(a, b, p);
        if b.y > a.y {
            c > 0
        } else {
            c < 0
        }
    } else {
        false
    }
}

/// Even-odd containment test with boundary points excluded.
pub fn quad_contains(q: &Quad, p: Vertex) -> (r: bool)
    ensures
        r == spec_contains(*q, p),
{
    if on_segment(q.v0, q.v1, p) || on_segment(q.v1, q.v2, p) || on_segment(q.v2, q.v3, p)
        || on_segment(q.v3, q.v0, p) {
        return false;
    }
    let mut crossings: u8 = 0;
    if edge_crossing(q.v0, q.v1, p) {
        crossings = crossings + 1;
    }
    if edge_crossing(q.v1, q.v2, p) {
        crossings = crossings + 1;
    }
    if edge_crossing(q.v2, q.v3, p) {
        crossings = crossings + 1;
    }
    if edge_crossing(q.v3, q.v0, p) {
        crossings = crossings + 1;
    }
    crossings % 2 == 1
}

} // verus!
