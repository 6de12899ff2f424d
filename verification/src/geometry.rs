//! Canvas points, the point-in-triangle test and bounding boxes.

use vstd::prelude::*;
use vstd::math::{max, min};

verus! {

/// An integer canvas coordinate.
#[derive(Debug, Clone, Copy, PartialEq, Eq, Structural)]
pub struct Point {
    pub x: u32,
    pub y: u32,
}

impl Point {
    pub fn new(x: u32, y: u32) -> (p: Point)
        ensures
            p == (Point { x, y }),
    {
        Point { x, y }
    }
}

/// The orientation of `(px, py)` relative to the directed edge `a -> b`:
/// positive on one side, negative on the other, zero on the line.
pub open spec fn edge_side(a: Point, b: Point, px: int, py: int) -> int {
    (b.y - a.y) * (px - a.x) + (a.x - b.x) * (py - a.y)
}

/// The all-or-nothing sidedness test: the point counts as inside exactly
/// when the three strict orientation tests agree. Points on an edge are
/// classified by strict inequality and may fall to neither neighbor.
pub open spec fn point_in_triangle(px: int, py: int, v0: Point, v1: Point, v2: Point) -> bool {
    let a = edge_side(v0, v1, px, py) > 0;
    let b = edge_side(v1, v2, px, py) > 0;
    let c = edge_side(v2, v0, px, py) > 0;
    a == b && b == c
}

fn edge_side_exec(a: Point, b: Point, px: u32, py: u32) -> (r: i128)
    ensures
        r == edge_side(a, b, px as int, py as int),
{
    let dy1 = b.y as i128 - a.y as i128;
    let dx1 = px as i128 - a.x as i128;
    let dx2 = a.x as i128 - b.x as i128;
    let dy2 = py as i128 - a.y as i128;
    assert(-0x1_0000_0000_0000_0000 <= dy1 * dx1 <= 0x1_0000_0000_0000_0000)
        by (nonlinear_arith)
        requires
            -0x1_0000_0000 <= dy1 <= 0x1_0000_0000,
            -0x1_0000_0000 <= dx1 <= 0x1_0000_0000,
    ;
    assert(-0x1_0000_0000_0000_0000 <= dx2 * dy2 <= 0x1_0000_0000_0000_0000)
        by (nonlinear_arith)
        requires
            -0x1_0000_0000 <= dx2 <= 0x1_0000_0000,
            -0x1_0000_0000 <= dy2 <= 0x1_0000_0000,
    ;
    dy1 * dx1 + dx2 * dy2
}

/// Decides whether the pixel coordinate lies inside the triangle.
pub fn is_point_inside_triangle(px: u32, py: u32, v0: Point, v1: Point, v2: Point) -> (r: bool)
    ensures
        r == point_in_triangle(px as int, py as int, v0, v1, v2),
{
    let a = edge_side_exec(v0, v1, px, py) > 0;
    let b = edge_side_exec(v1, v2, px, py) > 0;
    let c = edge_side_exec(v2, v0, px, py) > 0;
    a == b && b == c
}

/// Smallest x coordinate among the points (nonempty sequences).
pub open spec fn min_x_of(s: Seq<Point>) -> int
    decreases s.len(),
{
    if s.len() <= 1 {
        s[0].x as int
    } else {
        min(min_x_of(s.take(s.len() - 1)), s[s.len() - 1].x as int)
    }
}

pub open spec fn min_y_of(s: Seq<Point>) -> int
    decreases s.len(),
{
    if s.len() <= 1 {
        s[0].y as int
    } else {
        min(min_y_of(s.take(s.len() - 1)), s[s.len() - 1].y as int)
    }
}

pub open spec fn max_x_of(s: Seq<Point>) -> int
    decreases s.len(),
{
    if s.len() <= 1 {
        s[0].x as int
    } else {
        max(max_x_of(s.take(s.len() - 1)), s[s.len() - 1].x as int)
    }
}

pub open spec fn max_y_of(s: Seq<Point>) -> int
    decreases s.len(),
{
    if s.len() <= 1 {
        s[0].y as int
    } else {
        max(max_y_of(s.take(s.len() - 1)), s[s.len() - 1].y as int)
    }
}

/// Points below the canvas edges keep the bounding box below them too.
pub proof fn lemma_bbox_in_canvas(pts: Seq<Point>, w: int, h: int)
    requires
        pts.len() >= 1,
        forall|i: int| 0 <= i < pts.len() ==> (#[trigger] pts[i]).x <= w && pts[i].y <= h,
    ensures
        max_x_of(pts) <= w,
        max_y_of(pts) <= h,
    decreases pts.len(),
{
    if pts.len() > 1 {
        let prefix = pts.take(pts.len() - 1);
        assert(forall|i: int| 0 <= i < prefix.len() ==> (#[trigger] prefix[i]).x <= w
            && prefix[i].y <= h);
        lemma_bbox_in_canvas(prefix, w, h);
    }
}

/// The axis-aligned bounding box `(min_x, min_y, max_x, max_y)` of the
/// points; iteration over a cell is restricted to this box.
pub fn bounding_box(points: &Vec<Point>) -> (r: (u32, u32, u32, u32))
    requires
        points@.len() >= 1,
    ensures
        r.0 == min_x_of(points@),
        r.1 == min_y_of(points@),
        r.2 == max_x_of(points@),
        r.3 == max_y_of(points@),
{
    let mut min_x = points[0].x;
    let mut min_y = points[0].y;
    let mut max_x = points[0].x;
    let mut max_y = points[0].y;
    let ghost s = points@;
    proof {
        assert(s.take(1)[0] == s[0]);
    }
    let mut i: usize = 1;
    while i < points.len()
        invariant
            1 <= i <= s.len(),
            s == points@,
            min_x == min_x_of(s.take(i as int)),
            min_y == min_y_of(s.take(i as int)),
            max_x == max_x_of(s.take(i as int)),
            max_y == max_y_of(s.take(i as int)),
        decreases s.len() - i,
    {
        let p = points[i];
        proof {
            assert(s.take(i + 1).take(i as int) =~= s.take(i as int));
            assert(s.take(i + 1)[i as int] == s[i as int]);
        }
        if p.x < min_x {
            min_x = p.x;
        }
        if p.y < min_y {
            min_y = p.y;
        }
        if p.x > max_x {
            max_x = p.x;
        }
        if p.y > max_y {
            max_y = p.y;
        }
        i = i + 1;
    }
    proof {
        assert(s.take(s.len() as int) =~= s);
    }
    (min_x, min_y, max_x, max_y)
}

} // verus!
