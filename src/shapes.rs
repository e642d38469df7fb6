//! Convex collision shapes: axis-aligned boxes and circles.
//!
//! A box is given by its lower corner and its extents. Touching shapes do
//! not overlap: every test is strict.
use vstd::prelude::*;
use crate::geometry::{Vec2, COORD_LIMIT, coord_ok};

verus! {

/// An axis-aligned box covering `[x, x + width] × [y, y + height]`.
#[derive(Clone, Copy, PartialEq, Eq, Debug, Structural)]
pub struct Aabb {
    pub position: Vec2,
    pub width: i64,
    pub height: i64,
}

/// A circle around `position`.
#[derive(Clone, Copy, PartialEq, Eq, Debug, Structural)]
pub struct Circle {
    pub position: Vec2,
    pub radius: i64,
}

pub open spec fn extent_ok(v: int) -> bool {
    0 <= v <= COORD_LIMIT
}

/// The open intervals `(a, a + la)` and `(b, b + lb)` intersect.
pub open spec fn spans_overlap(a: int, la: int, b: int, lb: int) -> bool {
    a < b + lb && b < a + la
}

/// How far two overlapping intervals interpenetrate.
pub open spec fn span_depth(a: int, la: int, b: int, lb: int) -> int {
    if a + la - b <= b + lb - a {
        a + la - b
    } else {
        b + lb - a
    }
}

pub open spec fn clamp_to(v: int, lo: int, hi: int) -> int {
    if v < lo {
        lo
    } else if v > hi {
        hi
    } else {
        v
    }
}

impl Aabb {
    pub open spec fn wf(self) -> bool {
        self.position.in_bounds() && extent_ok(self.width as int) && extent_ok(self.height as int)
    }

    pub fn new(position: Vec2, width: i64, height: i64) -> (r: Aabb)
        ensures
            r == (Aabb { position, width, height }),
    {
        Aabb { position, width, height }
    }

    /// Whether the box lies within the representable world.
    pub fn is_valid(&self) -> (r: bool)
        ensures
            r == self.wf(),
    {
        -COORD_LIMIT <= self.position.x && self.position.x <= COORD_LIMIT
            && -COORD_LIMIT <= self.position.y && self.position.y <= COORD_LIMIT
            && 0 <= self.width && self.width <= COORD_LIMIT
            && 0 <= self.height && self.height <= COORD_LIMIT
    }
}

impl Circle {
    pub open spec fn wf(self) -> bool {
        self.position.in_bounds() && extent_ok(self.radius as int)
    }

    pub fn new(position: Vec2, radius: i64) -> (r: Circle)
        ensures
            r == (Circle { position, radius }),
    {
        Circle { position, radius }
    }

    /// Whether the circle lies within the representable world.
    pub fn is_valid(&self) -> (r: bool)
        ensures
            r == self.wf(),
    {
        -COORD_LIMIT <= self.position.x && self.position.x <= COORD_LIMIT
            && -COORD_LIMIT <= self.position.y && self.position.y <= COORD_LIMIT
            && 0 <= self.radius && self.radius <= COORD_LIMIT
    }
}

/// Two boxes share interior points.
pub open spec fn boxes_overlap(a: Aabb, b: Aabb) -> bool {
    &&& spans_overlap(a.position.x as int, a.width as int, b.position.x as int, b.width as int)
    &&& spans_overlap(a.position.y as int, a.height as int, b.position.y as int, b.height as int)
}

/// Squared distance from the circle's centre to the nearest point of the box.
pub open spec fn circle_box_dist_sq(c: Circle, b: Aabb) -> int {
    let dx = c.position.x - clamp_to(c.position.x as int, b.position.x as int, b.position.x + b.width);
    let dy = c.position.y - clamp_to(c.position.y as int, b.position.y as int, b.position.y + b.height);
    dx * dx + dy * dy
}

/// A circle and a box share interior points.
pub open spec fn circle_box_overlap(c: Circle, b: Aabb) -> bool {
    circle_box_dist_sq(c, b) < c.radius * c.radius
}

/// The signed move along one axis that takes the interval `(b, b + lb)`
/// out of `(a, a + la)` through the nearer edge: forward past `a + la`
/// when that is no further than back past `a`, else backward.
pub open spec fn span_push(a: int, la: int, b: int, lb: int) -> int {
    if a + la - b <= b + lb - a {
        a + la - b
    } else {
        -(b + lb - a)
    }
}

/// The minimal correction that separates `body` from `wall`: along the
/// axis of least penetration (the x axis on a tie), through the wall edge
/// nearer to the body (the far edge on a tie); zero when the boxes do not
/// overlap.
pub open spec fn correction_spec(wall: Aabb, body: Aabb) -> Vec2 {
    if !boxes_overlap(wall, body) {
        Vec2 { x: 0, y: 0 }
    } else {
        let dx = span_depth(wall.position.x as int, wall.width as int, body.position.x as int, body.width as int);
        let dy = span_depth(wall.position.y as int, wall.height as int, body.position.y as int, body.height as int);
        if dx <= dy {
            Vec2 {
                x: span_push(wall.position.x as int, wall.width as int, body.position.x as int, body.width as int) as i64,
                y: 0,
            }
        } else {
            Vec2 {
                x: 0,
                y: span_push(wall.position.y as int, wall.height as int, body.position.y as int, body.height as int) as i64,
            }
        }
    }
}

/// Whether two boxes overlap (touching edges do not count).
pub fn aabb_overlap(a: &Aabb, b: &Aabb) -> (r: bool)
    requires
        a.wf(),
        b.wf(),
    ensures
        r == boxes_overlap(*a, *b),
{
    a.position.x < b.position.x + b.width && b.position.x < a.position.x + a.width
        && a.position.y < b.position.y + b.height && b.position.y < a.position.y + a.height
}

fn span_push_exec(a: i64, la: i64, b: i64, lb: i64) -> (r: i64)
    requires
        coord_ok(a as int),
        coord_ok(b as int),
        extent_ok(la as int),
        extent_ok(lb as int),
    ensures
        r == span_push(a as int, la as int, b as int, lb as int),
{
    let d1 = a + la - b;
    let d2 = b + lb - a;
    if d1 <= d2 {
        d1
    } else {
        -d2
    }
}

fn span_depth_exec(a: i64, la: i64, b: i64, lb: i64) -> (r: i64)
    requires
        coord_ok(a as int),
        coord_ok(b as int),
        extent_ok(la as int),
        extent_ok(lb as int),
    ensures
        r == span_depth(a as int, la as int, b as int, lb as int),
{
    let d1 = a + la - b;
    let d2 = b + lb - a;
    if d1 <= d2 {
        d1
    } else {
        d2
    }
}

/// The minimal correction that separates `body` from `wall`.
pub fn wall_correction(wall: &Aabb, body: &Aabb) -> (r: Vec2)
    requires
        wall.wf(),
        body.wf(),
    ensures
        r == correction_spec(*wall, *body),
        (r.x == 0 && r.y == 0) <== !boxes_overlap(*wall, *body),
        boxes_overlap(*wall, *body) ==> !boxes_overlap(
            *wall,
            Aabb {
                position: Vec2 { x: (body.position.x + r.x) as i64, y: (body.position.y + r.y) as i64 },
                ..*body
            },
        ),
        r.in_bounds(),
{
    if !aabb_overlap(wall, body) {
        return Vec2 { x: 0, y: 0 };
    }
    let dx = span_depth_exec(wall.position.x, wall.width, body.position.x, body.width);
    let dy = span_depth_exec(wall.position.y, wall.height, body.position.y, body.height);
    if dx <= dy {
        Vec2 { x: span_push_exec(wall.position.x, wall.width, body.position.x, body.width), y: 0 }
    } else {
        Vec2 { x: 0, y: span_push_exec(wall.position.y, wall.height, body.position.y, body.height) }
    }
}

fn clamp_to_exec(v: i64, lo: i64, hi: i64) -> (r: i64)
    requires
        lo <= hi,
    ensures
        r == clamp_to(v as int, lo as int, hi as int),
{
    if v < lo {
        lo
    } else if v > hi {
        hi
    } else {
        v
    }
}

/// Whether a circle and a box overlap (touching does not count).
pub fn circle_aabb_overlap(c: &Circle, b: &Aabb) -> (r: bool)
    requires
        c.wf(),
        b.wf(),
    ensures
        r == circle_box_overlap(*c, *b),
{
    let nx = clamp_to_exec(c.position.x, b.position.x, b.position.x + b.width);
    let ny = clamp_to_exec(c.position.y, b.position.y, b.position.y + b.height);
    let dx = (c.position.x - nx) as i128;
    let dy = (c.position.y - ny) as i128;
    let r = c.radius as i128;
    proof {
        assert(dx * dx <= 0x1_0000_0000_0000_0000_0000_0000_0000) by (nonlinear_arith)
            requires -0x100_0000_0000_0000 <= dx <= 0x100_0000_0000_0000;
        assert(dy * dy <= 0x1_0000_0000_0000_0000_0000_0000_0000) by (nonlinear_arith)
            requires -0x100_0000_0000_0000 <= dy <= 0x100_0000_0000_0000;
        assert(r * r <= 0x1_0000_0000_0000_0000_0000_0000_0000) by (nonlinear_arith)
            requires 0 <= r <= 0x100_0000_0000_0000;
        assert(dx * dx >= 0) by (nonlinear_arith);
        assert(dy * dy >= 0) by (nonlinear_arith);
    }
    dx * dx + dy * dy < r * r
}

} // verus!
