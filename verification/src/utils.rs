//! Plain geometry: 2D integer vectors, the shared component types
//! (`Position`, `Velocity`, `Shape`), and circle-vs-rectangle collision
//! detection with side classification.

use vstd::prelude::*;

verus! {

/// Coordinates handed to the collision test stay within this bound so that
/// every intermediate product of the distance computation fits in `i64`.
pub const COORD_LIMIT: i64 = 0x2000_0000;

/// Which face of a rectangle a circle struck.
#[derive(Clone, Copy, Debug, PartialEq, Eq, Structural)]
pub enum Collision {
    Left,
    Right,
    Top,
    Bottom,
}

/// A 2D vector in world units.
#[derive(Clone, Copy, Debug, PartialEq, Eq, Structural)]
pub struct Vec2 {
    pub x: i64,
    pub y: i64,
}

/// The mathematical value of a [`Vec2`]: the same point over unbounded integers.
pub ghost struct Vec2i {
    pub x: int,
    pub y: int,
}

impl View for Vec2 {
    type V = Vec2i;

    open spec fn view(&self) -> Vec2i {
        Vec2i { x: self.x as int, y: self.y as int }
    }
}

impl Vec2 {
    pub fn new(x: i64, y: i64) -> (v: Vec2)
        ensures
            v@ == (Vec2i { x: x as int, y: y as int }),
    {
        Vec2 { x, y }
    }
}

/// World-space coordinates of an entity's center.
#[derive(Clone, Copy, Debug, PartialEq, Eq, Structural)]
pub struct Position(pub Vec2);

impl View for Position {
    type V = Vec2i;

    open spec fn view(&self) -> Vec2i {
        self.0@
    }
}

/// Per-tick displacement of an entity.
#[derive(Clone, Copy, Debug, PartialEq, Eq, Structural)]
pub struct Velocity(pub Vec2);

impl View for Velocity {
    type V = Vec2i;

    open spec fn view(&self) -> Vec2i {
        self.0@
    }
}

/// An entity's footprint, fixed at spawn.
#[derive(Clone, Copy, Debug, PartialEq, Eq, Structural)]
pub enum Shape {
    Circle { radius: i64 },
    Rectangle { width: i64, height: i64 },
}

pub open spec fn clamp_spec(v: int, lo: int, hi: int) -> int {
    if v < lo {
        lo
    } else if v > hi {
        hi
    } else {
        v
    }
}

pub open spec fn abs_spec(v: int) -> int {
    if v < 0 {
        -v
    } else {
        v
    }
}

/// The point of the axis-aligned box (center `b`, half-extents `h`) closest
/// to `c`: each coordinate of `c` clamped to the box's extent on that axis.
pub open spec fn closest_point_spec(c: Vec2i, b: Vec2i, h: Vec2i) -> Vec2i {
    Vec2i {
        x: clamp_spec(c.x, b.x - h.x, b.x + h.x),
        y: clamp_spec(c.y, b.y - h.y, b.y + h.y),
    }
}

pub open spec fn dist_sq_spec(a: Vec2i, b: Vec2i) -> int {
    (a.x - b.x) * (a.x - b.x) + (a.y - b.y) * (a.y - b.y)
}

/// Side classification of a contact, from the offset of the circle center
/// relative to the closest point of the box: the horizontal axis wins only
/// when it strictly dominates, and a non-positive vertical offset falls to
/// `Bottom`.
pub open spec fn classify_side_spec(offset: Vec2i) -> Collision {
    if abs_spec(offset.x) > abs_spec(offset.y) {
        if offset.x < 0 {
            Collision::Left
        } else {
            Collision::Right
        }
    } else if offset.y > 0 {
        Collision::Top
    } else {
        Collision::Bottom
    }
}

/// Circle-vs-box collision: the circle (center `c`, radius `r`) touches the
/// box (center `b`, half-extents `h`) exactly when the closest point of the
/// box lies within `r` of `c`; the reported side classifies the offset from
/// that closest point.
pub open spec fn detect_spec(c: Vec2i, r: int, b: Vec2i, h: Vec2i) -> Option<Collision> {
    let p = closest_point_spec(c, b, h);
    if dist_sq_spec(c, p) > r * r {
        None
    } else {
        Some(classify_side_spec(Vec2i { x: c.x - p.x, y: c.y - p.y }))
    }
}

fn clamp_i64(v: i64, lo: i64, hi: i64) -> (r: i64)
    requires
        lo <= hi,
    ensures
        r as int == clamp_spec(v as int, lo as int, hi as int),
{
    if v < lo {
        lo
    } else if v > hi {
        hi
    } else {
        v
    }
}

fn abs_i64(v: i64) -> (r: i64)
    requires
        v != i64::MIN,
    ensures
        r as int == abs_spec(v as int),
{
    if v < 0 {
        -v
    } else {
        v
    }
}

/// Circle-vs-axis-aligned-box intersection test with side classification.
///
/// Returns `None` when the circle and the box do not touch; otherwise the
/// side of the box that the circle struck, classified from the offset of
/// the circle center to the closest point of the box.
pub fn ball_collision(
    circle_center: Vec2,
    circle_radius: i64,
    box_center: Vec2,
    box_half_extents: Vec2,
) -> (result: Option<Collision>)
    requires
        -COORD_LIMIT <= circle_center.x <= COORD_LIMIT,
        -COORD_LIMIT <= circle_center.y <= COORD_LIMIT,
        0 <= circle_radius <= COORD_LIMIT,
        0 <= box_half_extents.x,
        0 <= box_half_extents.y,
        -COORD_LIMIT <= box_center.x - box_half_extents.x,
        box_center.x + box_half_extents.x <= COORD_LIMIT,
        -COORD_LIMIT <= box_center.y - box_half_extents.y,
        box_center.y + box_half_extents.y <= COORD_LIMIT,
    ensures
        result == detect_spec(circle_center@, circle_radius as int, box_center@, box_half_extents@),
{
    let lo_x = box_center.x - box_half_extents.x;
    let hi_x = box_center.x + box_half_extents.x;
    let lo_y = box_center.y - box_half_extents.y;
    let hi_y = box_center.y + box_half_extents.y;

    let px = clamp_i64(circle_center.x, lo_x, hi_x);
    let py = clamp_i64(circle_center.y, lo_y, hi_y);

    let ox = circle_center.x - px;
    let oy = circle_center.y - py;

    proof {
        assert((ox as int) * (ox as int) <= 0x1000_0000_0000_0000 && (ox as int) * (ox as int)
            >= 0) by (nonlinear_arith)
            requires
                -0x4000_0000 <= ox as int <= 0x4000_0000,
        ;
        assert((oy as int) * (oy as int) <= 0x1000_0000_0000_0000 && (oy as int) * (oy as int)
            >= 0) by (nonlinear_arith)
            requires
                -0x4000_0000 <= oy as int <= 0x4000_0000,
        ;
        assert((circle_radius as int) * (circle_radius as int) <= 0x1000_0000_0000_0000 && (
        circle_radius as int) * (circle_radius as int) >= 0) by (nonlinear_arith)
            requires
                0 <= circle_radius as int <= 0x2000_0000,
        ;
    }

    let dist_sq = ox * ox + oy * oy;
    if dist_sq > circle_radius * circle_radius {
        return None;
    }

    let side = if abs_i64(ox) > abs_i64(oy) {
        if ox < 0 {
            Collision::Left
        } else {
            Collision::Right
        }
    } else if oy > 0 {
        Collision::Top
    } else {
        Collision::Bottom
    };

    Some(side)
}

/// A circle whose center lies inside the box always collides: the test
/// reports a side, never "no contact", even with the circle entirely inside.
pub proof fn lemma_center_inside_detects(c: Vec2i, r: int, b: Vec2i, h: Vec2i)
    requires
        0 <= h.x,
        0 <= h.y,
        0 <= r,
        b.x - h.x <= c.x <= b.x + h.x,
        b.y - h.y <= c.y <= b.y + h.y,
    ensures
        detect_spec(c, r, b, h) is Some,
{
    assert(closest_point_spec(c, b, h) == c);
    assert(r * r >= 0) by (nonlinear_arith)
        requires
            r >= 0,
    ;
}

/// A circle separated from the box by more than its radius along some axis
/// does not collide.
pub proof fn lemma_separated_no_collision(c: Vec2i, r: int, b: Vec2i, h: Vec2i)
    requires
        0 <= r,
        0 <= h.x,
        0 <= h.y,
        c.x - r > b.x + h.x || c.x + r < b.x - h.x || c.y - r > b.y + h.y || c.y + r < b.y - h.y,
    ensures
        detect_spec(c, r, b, h) is None,
{
    let p = closest_point_spec(c, b, h);
    let dx = c.x - p.x;
    let dy = c.y - p.y;
    assert(abs_spec(dx) > r || abs_spec(dy) > r);
    assert(dx * dx >= 0 && dy * dy >= 0) by (nonlinear_arith);
    if abs_spec(dx) > r {
        assert(dx * dx > r * r) by (nonlinear_arith)
            requires
                abs_spec(dx) > r >= 0,
        ;
    } else {
        assert(dy * dy > r * r) by (nonlinear_arith)
            requires
                abs_spec(dy) > r >= 0,
        ;
    }
}

} // verus!
