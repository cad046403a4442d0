//! Confinement: clamping a position into the arena bounds, and reflecting a
//! heading off the walls that the position had crossed.

use vstd::prelude::*;
use crate::geometry::{Bounds, Point, Position, Region};
use crate::heading::{Direction, Heading};

verus! {

/// `v` brought into `[min, max]`: a value below `min` becomes `min`, a value
/// above `max` becomes `max`, any other stays.
pub open spec fn clamp(v: int, min: int, max: int) -> int {
    if v < min {
        min
    } else if v > max {
        max
    } else {
        v
    }
}

/// `v` lies strictly outside `[min, max]`.
pub open spec fn is_outside(v: int, min: int, max: int) -> bool {
    v < min || v > max
}

impl Point {
    /// The point with each axis clamped into the region by itself.
    pub open spec fn confine(self, r: Region) -> Point {
        Point { x: clamp(self.x, r.x_min, r.x_max), y: clamp(self.y, r.y_min, r.y_max) }
    }

    /// The point is strictly outside the region on at least one axis.
    pub open spec fn escapes(self, r: Region) -> bool {
        is_outside(self.x, r.x_min, r.x_max) || is_outside(self.y, r.y_min, r.y_max)
    }
}

impl Direction {
    /// The direction of an entity found at `p` before clamping: each
    /// component is negated where `p` is strictly outside the region on that
    /// axis, and kept where it is not.
    pub open spec fn reflect(self, p: Point, r: Region) -> Direction {
        Direction {
            x: if is_outside(p.x, r.x_min, r.x_max) {
                -self.x
            } else {
                self.x
            },
            y: if is_outside(p.y, r.y_min, r.y_max) {
                -self.y
            } else {
                self.y
            },
        }
    }
}

/// Confining twice gives what confining once gives, whenever the region is
/// ordered.
pub proof fn lemma_confine_idempotent(p: Point, r: Region)
    requires
        r.is_ordered(),
    ensures
        p.confine(r).confine(r) == p.confine(r),
{
}

/// A confined point lies in the region, whenever the region is ordered.
pub proof fn lemma_confine_contained(p: Point, r: Region)
    requires
        r.is_ordered(),
    ensures
        r.contains(p.confine(r)),
        !p.confine(r).escapes(r),
{
}

/// Confinement leaves a point of the region where it is, and its direction
/// as it is.
pub proof fn lemma_confine_inside(p: Point, d: Direction, r: Region)
    requires
        r.contains(p),
    ensures
        p.confine(r) == p,
        !p.escapes(r),
        d.reflect(p, r) == d,
{
}

/// An entity that was clamped and reflected is inside the region with its
/// new direction for good: confining it again changes neither, so it cannot
/// stay flush against a wall turning back and forth.
pub proof fn lemma_reflect_settles(p: Point, d: Direction, r: Region)
    requires
        r.is_ordered(),
    ensures
        d.reflect(p, r).reflect(p.confine(r), r) == d.reflect(p, r),
{
}

/// Beyond an edge of the region an entity is put on that edge with the
/// component across it negated; between the edges of an axis both its
/// coordinate and its component on that axis are kept.
pub proof fn lemma_reflect_edges(p: Point, d: Direction, r: Region)
    ensures
        p.x < r.x_min ==> p.confine(r).x == r.x_min && d.reflect(p, r).x == -d.x,
        r.x_min <= r.x_max < p.x ==> p.confine(r).x == r.x_max && d.reflect(p, r).x == -d.x,
        p.y < r.y_min ==> p.confine(r).y == r.y_min && d.reflect(p, r).y == -d.y,
        r.y_min <= r.y_max < p.y ==> p.confine(r).y == r.y_max && d.reflect(p, r).y == -d.y,
        r.x_min <= p.x <= r.x_max ==> p.confine(r).x == p.x && d.reflect(p, r).x == d.x,
        r.y_min <= p.y <= r.y_max ==> p.confine(r).y == p.y && d.reflect(p, r).y == d.y,
{
}

/// Reflection negates components or keeps them, so it keeps the length and
/// the validity of a direction.
pub proof fn lemma_reflect_keeps_valid(p: Point, d: Direction, r: Region)
    ensures
        d.reflect(p, r).norm_sq() == d.norm_sq(),
        d.reflect(p, r).is_valid() == d.is_valid(),
{
    assert((-d.x) * (-d.x) == d.x * d.x) by (nonlinear_arith);
    assert((-d.y) * (-d.y) == d.y * d.y) by (nonlinear_arith);
}

impl Position {
    /// Clamps each axis of the position into the bounds.
    pub fn confine(self, bounds: &Bounds) -> (p: Position)
        ensures
            p@ == self@.confine(bounds@),
            bounds@.is_ordered() ==> bounds@.contains(p@),
            bounds@.contains(self@) ==> p == self,
    {
        let x: i64 = if self.x < bounds.x_min {
            bounds.x_min
        } else if self.x > bounds.x_max {
            bounds.x_max
        } else {
            self.x
        };
        let y: i64 = if self.y < bounds.y_min {
            bounds.y_min
        } else if self.y > bounds.y_max {
            bounds.y_max
        } else {
            self.y
        };
        Position { x, y }
    }

    /// Tells whether the position is strictly outside the bounds on at least
    /// one axis.
    pub fn escapes(self, bounds: &Bounds) -> (b: bool)
        ensures
            b == self@.escapes(bounds@),
    {
        self.x < bounds.x_min || self.x > bounds.x_max || self.y < bounds.y_min || self.y
            > bounds.y_max
    }
}

impl Heading {
    /// Negates each component of the heading on whose axis `position` is
    /// strictly outside the bounds. No component may be `i32::MIN`, which has
    /// no negative.
    pub fn reflect(self, position: Position, bounds: &Bounds) -> (h: Heading)
        requires
            self.x > i32::MIN,
            self.y > i32::MIN,
        ensures
            h@ == self@.reflect(position@, bounds@),
    {
        let x: i32 = if position.x < bounds.x_min || position.x > bounds.x_max {
            -self.x
        } else {
            self.x
        };
        let y: i32 = if position.y < bounds.y_min || position.y > bounds.y_max {
            -self.y
        } else {
            self.y
        };
        Heading { x, y }
    }
}

} // verus!
