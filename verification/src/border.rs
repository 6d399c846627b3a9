//! The four boundary walls: their identities, positions derived from the
//! window size, and their fixed rectangle shapes.

use vstd::prelude::*;

use crate::utils::{Position, Shape, Vec2, Vec2i};

verus! {

/// Length given to a border wall along the window edge it guards, far larger
/// than any window so the wall spans the whole edge.
pub const INFINITE: i64 = 100000;

/// Thickness of a border wall across its edge.
pub const BORDER_THICKNESS: i64 = 20;

/// Identity of one of the four boundary walls.
#[derive(Clone, Copy, Debug, PartialEq, Eq, Structural)]
pub enum Border {
    Left,
    Right,
    Top,
    Bottom,
}

/// Center of a border wall for a window of half-width `width` and
/// half-height `height`: each wall sits on its own edge, centered on the
/// other axis.
pub open spec fn border_position_spec(border: Border, width: int, height: int) -> Vec2i {
    match border {
        Border::Left => Vec2i { x: -width, y: 0 },
        Border::Right => Vec2i { x: width, y: 0 },
        Border::Top => Vec2i { x: 0, y: height },
        Border::Bottom => Vec2i { x: 0, y: -height },
    }
}

/// Shape of a border wall: thin and tall on the left and right edges, wide
/// and flat on the top and bottom edges.
pub open spec fn border_shape_spec(border: Border) -> Shape {
    match border {
        Border::Left | Border::Right => Shape::Rectangle {
            width: BORDER_THICKNESS,
            height: INFINITE,
        },
        Border::Top | Border::Bottom => Shape::Rectangle {
            width: INFINITE,
            height: BORDER_THICKNESS,
        },
    }
}

impl Border {
    /// Where this wall sits for a window of half-width `width` and
    /// half-height `height`.
    pub fn get_position(&self, width: i64, height: i64) -> (p: Position)
        requires
            width != i64::MIN,
            height != i64::MIN,
        ensures
            p@ == border_position_spec(*self, width as int, height as int),
    {
        match self {
            Border::Left => Position(Vec2 { x: -width, y: 0 }),
            Border::Right => Position(Vec2 { x: width, y: 0 }),
            Border::Top => Position(Vec2 { x: 0, y: height }),
            Border::Bottom => Position(Vec2 { x: 0, y: -height }),
        }
    }

    /// The fixed rectangle this wall occupies.
    pub fn shape(&self) -> (s: Shape)
        ensures
            s == border_shape_spec(*self),
    {
        match self {
            Border::Left | Border::Right => Shape::Rectangle {
                width: BORDER_THICKNESS,
                height: INFINITE,
            },
            Border::Top | Border::Bottom => Shape::Rectangle {
                width: INFINITE,
                height: BORDER_THICKNESS,
            },
        }
    }
}

} // verus!
