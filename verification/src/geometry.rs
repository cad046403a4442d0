//! Points, the viewport, and the rectangle an entity's centre may occupy.

use vstd::prelude::*;
use crate::units::POSITION_LIMIT;

verus! {

/// A point of the plane with unbounded integer coordinates: what a
/// `Position` stands for in contracts.
pub struct Point {
    pub x: int,
    pub y: int,
}

impl Point {
    /// Both coordinates can be stored in a `Position`.
    pub open spec fn fits(self) -> bool {
        &&& i64::MIN <= self.x <= i64::MAX
        &&& i64::MIN <= self.y <= i64::MAX
    }

    /// Both coordinates are within `POSITION_LIMIT` of the origin.
    pub open spec fn in_range(self) -> bool {
        &&& -POSITION_LIMIT <= self.x <= POSITION_LIMIT
        &&& -POSITION_LIMIT <= self.y <= POSITION_LIMIT
    }

    /// Square of the Euclidean distance between two points.
    pub open spec fn dist_sq(self, other: Point) -> int {
        (self.x - other.x) * (self.x - other.x) + (self.y - other.y) * (self.y - other.y)
    }
}

/// Centre of an entity, in length sub-units. The y axis points up.
#[derive(Clone, Copy, Debug, PartialEq, Eq, Structural)]
pub struct Position {
    pub x: i64,
    pub y: i64,
}

impl View for Position {
    type V = Point;

    open spec fn view(&self) -> Point {
        Point { x: self.x as int, y: self.y as int }
    }
}

impl Position {
    /// The position with the given coordinates, in length sub-units.
    pub fn new(x: i64, y: i64) -> (p: Position)
        ensures
            p@ == (Point { x: x as int, y: y as int }),
    {
        Position { x, y }
    }

    /// Tells whether both coordinates are within `POSITION_LIMIT` of the
    /// origin.
    pub fn is_in_range(&self) -> (b: bool)
        ensures
            b == self@.in_range(),
    {
        -POSITION_LIMIT <= self.x && self.x <= POSITION_LIMIT && -POSITION_LIMIT <= self.y
            && self.y <= POSITION_LIMIT
    }
}

/// A rectangle of the plane with unbounded integer edges: the closed
/// interval `[x_min, x_max]` by `[y_min, y_max]`. It is what a `Bounds`
/// stands for in contracts.
pub struct Region {
    pub x_min: int,
    pub x_max: int,
    pub y_min: int,
    pub y_max: int,
}

impl Region {
    /// On both axes the lower edge does not exceed the upper one, so the
    /// rectangle holds at least one point.
    pub open spec fn is_ordered(self) -> bool {
        self.x_min <= self.x_max && self.y_min <= self.y_max
    }

    /// The point lies in the rectangle, edges included.
    pub open spec fn contains(self, p: Point) -> bool {
        &&& self.x_min <= p.x <= self.x_max
        &&& self.y_min <= p.y <= self.y_max
    }

    /// All four edges are within `POSITION_LIMIT` of the origin.
    pub open spec fn in_range(self) -> bool {
        &&& -POSITION_LIMIT <= self.x_min <= POSITION_LIMIT
        &&& -POSITION_LIMIT <= self.x_max <= POSITION_LIMIT
        &&& -POSITION_LIMIT <= self.y_min <= POSITION_LIMIT
        &&& -POSITION_LIMIT <= self.y_max <= POSITION_LIMIT
    }
}

/// The rectangle inside which an entity's centre must remain, in length
/// sub-units.
#[derive(Clone, Copy, Debug, PartialEq, Eq, Structural)]
pub struct Bounds {
    pub x_min: i64,
    pub x_max: i64,
    pub y_min: i64,
    pub y_max: i64,
}

impl View for Bounds {
    type V = Region;

    open spec fn view(&self) -> Region {
        Region {
            x_min: self.x_min as int,
            x_max: self.x_max as int,
            y_min: self.y_min as int,
            y_max: self.y_max as int,
        }
    }
}

impl Bounds {
    /// Tells whether a position lies in the rectangle, edges included.
    pub fn holds(&self, p: Position) -> (b: bool)
        ensures
            b == self@.contains(p@),
    {
        self.x_min <= p.x && p.x <= self.x_max && self.y_min <= p.y && p.y <= self.y_max
    }
}

/// Current size of the viewport, in length sub-units.
#[derive(Clone, Copy, Debug, PartialEq, Eq, Structural)]
pub struct Viewport {
    pub width: u32,
    pub height: u32,
}

impl Viewport {
    /// The rectangle left to the centre of an entity of the given
    /// half-extent: `[half_extent, dimension - half_extent]` on each axis.
    pub open spec fn bounds_of(self, half_extent: int) -> Region {
        Region {
            x_min: half_extent,
            x_max: self.width - half_extent,
            y_min: half_extent,
            y_max: self.height - half_extent,
        }
    }

    /// The point in the middle of the viewport, each coordinate rounded down.
    pub open spec fn center_point(self) -> Point {
        Point { x: self.width as int / 2, y: self.height as int / 2 }
    }

    /// Derives the arena bounds of an entity from the viewport and the
    /// entity's half-extent. They are ordered exactly when the entity fits
    /// into the viewport on both axes.
    pub fn bounds(&self, half_extent: u32) -> (b: Bounds)
        ensures
            b@ == self.bounds_of(half_extent as int),
            b@.in_range(),
            b@.is_ordered() <==> 2 * half_extent <= self.width && 2 * half_extent <= self.height,
    {
        Bounds {
            x_min: half_extent as i64,
            x_max: self.width as i64 - half_extent as i64,
            y_min: half_extent as i64,
            y_max: self.height as i64 - half_extent as i64,
        }
    }

    /// The middle of the viewport.
    pub fn center(&self) -> (p: Position)
        ensures
            p@ == self.center_point(),
            p@.in_range(),
    {
        Position { x: (self.width / 2) as i64, y: (self.height / 2) as i64 }
    }
}

} // verus!
