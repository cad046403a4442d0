//! Kinematics: the heading that the held keys ask for, and the position an
//! entity reaches by following a heading for one frame.

use vstd::prelude::*;
use crate::geometry::{Point, Position};
use crate::heading::{
    is_unit_share, lemma_normalized_is_valid, lemma_unit_share, lemma_unit_share_unique,
    unit_share, unit_sq, Direction, Heading,
};
use crate::units::{
    compute_displacement, displacement, displacement_scale, lemma_displacement_bound,
    lemma_displacement_zero, HEADING_ONE, MICROS_PER_SECOND,
};

verus! {

/// Each component of a unit heading along a diagonal: `HEADING_ONE` divided
/// by the square root of two, rounded down.
pub const HEADING_DIAGONAL: i32 = 707_106;

/// The four directional inputs as they are held during one frame.
#[derive(Clone, Copy, Debug, PartialEq, Eq, Structural)]
pub struct DirectionKeys {
    pub left: bool,
    pub right: bool,
    pub up: bool,
    pub down: bool,
}

impl DirectionKeys {
    /// Net input along the x axis: `right` counts 1 and `left` counts -1.
    pub open spec fn axis_x(self) -> int {
        (if self.right { 1int } else { 0int }) - (if self.left { 1int } else { 0int })
    }

    /// Net input along the y axis: `up` counts 1 and `down` counts -1.
    pub open spec fn axis_y(self) -> int {
        (if self.up { 1int } else { 0int }) - (if self.down { 1int } else { 0int })
    }

    /// The heading that the keys ask for: the sum of the four unit
    /// contributions, brought back to unit length unless it is zero.
    pub open spec fn direction(self) -> Direction {
        Direction::normalized(self.axis_x(), self.axis_y())
    }

    /// Reads the four inputs from the eight keys that are bound to them:
    /// each input is held when either of its two keys is.
    pub fn from_keys(
        arrow_left: bool,
        key_a: bool,
        arrow_right: bool,
        key_d: bool,
        arrow_up: bool,
        key_w: bool,
        arrow_down: bool,
        key_s: bool,
    ) -> (keys: DirectionKeys)
        ensures
            keys.left == (arrow_left || key_a),
            keys.right == (arrow_right || key_d),
            keys.up == (arrow_up || key_w),
            keys.down == (arrow_down || key_s),
    {
        DirectionKeys {
            left: arrow_left || key_a,
            right: arrow_right || key_d,
            up: arrow_up || key_w,
            down: arrow_down || key_s,
        }
    }

    /// The state in which no key is held.
    pub fn none() -> (keys: DirectionKeys)
        ensures
            !keys.left && !keys.right && !keys.up && !keys.down,
            keys.direction() == Direction::zero(),
    {
        DirectionKeys { left: false, right: false, up: false, down: false }
    }

    /// Computes the heading that the keys ask for.
    pub fn heading(&self) -> (h: Heading)
        ensures
            h@ == self.direction(),
            h@ == axis_direction(self.axis_x(), self.axis_y()),
            h@.is_valid(),
            h@.is_zero() <==> self.axis_x() == 0 && self.axis_y() == 0,
    {
        proof {
            lemma_axis_direction(self.axis_x(), self.axis_y());
        }
        let mut sx: i32 = 0;
        let mut sy: i32 = 0;
        if self.left {
            sx = sx - 1;
        }
        if self.right {
            sx = sx + 1;
        }
        if self.up {
            sy = sy + 1;
        }
        if self.down {
            sy = sy - 1;
        }
        if sx != 0 && sy != 0 {
            Heading { x: sx * HEADING_DIAGONAL, y: sy * HEADING_DIAGONAL }
        } else {
            Heading { x: sx * HEADING_ONE, y: sy * HEADING_ONE }
        }
    }
}

/// The unit heading along the axes or a diagonal, written out: where both
/// inputs are held each component is `HEADING_DIAGONAL` in size, otherwise
/// the one that is held is `HEADING_ONE`.
pub open spec fn axis_direction(sx: int, sy: int) -> Direction {
    if sx != 0 && sy != 0 {
        Direction { x: sx * HEADING_DIAGONAL, y: sy * HEADING_DIAGONAL }
    } else {
        Direction { x: sx * HEADING_ONE, y: sy * HEADING_ONE }
    }
}

/// Bringing the sum of the key contributions to unit length gives the
/// headings that `axis_direction` writes out.
pub proof fn lemma_axis_direction(sx: int, sy: int)
    requires
        -1 <= sx <= 1,
        -1 <= sy <= 1,
    ensures
        Direction::normalized(sx, sy) == axis_direction(sx, sy),
        sx == 0 && sy == 0 ==> axis_direction(sx, sy).is_zero(),
        sx != 0 || sy != 0 ==> axis_direction(sx, sy).is_unit(),
{
    lemma_normalized_is_valid(sx, sy);
    assert(is_unit_share(0, 0, 1));
    assert(is_unit_share(HEADING_ONE as int, 1, 1));
    assert(is_unit_share(HEADING_DIAGONAL as int, 1, 2));
    lemma_unit_share(0, 1);
    lemma_unit_share(1, 1);
    lemma_unit_share(1, 2);
    lemma_unit_share_unique(0, unit_share(0, 1), 0, 1);
    lemma_unit_share_unique(HEADING_ONE as int, unit_share(1, 1), 1, 1);
    lemma_unit_share_unique(HEADING_DIAGONAL as int, unit_share(1, 2), 1, 2);
    let held: int = if sx != 0 && sy != 0 {
        2
    } else if sx != 0 || sy != 0 {
        1
    } else {
        0
    };
    assert(sx * sx + sy * sy == held) by (nonlinear_arith)
        requires
            -1 <= sx <= 1,
            -1 <= sy <= 1,
            held == (if sx != 0 { 1int } else { 0int }) + (if sy != 0 { 1int } else { 0int }),
    ;
}

/// Whatever keys are held, the player's heading has unit length, unless the
/// held keys cancel out or none is held: then it is the zero vector exactly.
pub proof fn lemma_key_heading_is_unit_or_zero(keys: DirectionKeys)
    ensures
        keys.axis_x() == 0 && keys.axis_y() == 0 ==> keys.direction() == Direction::zero(),
        keys.axis_x() != 0 || keys.axis_y() != 0 ==> keys.direction().is_unit(),
        !keys.left && !keys.right && !keys.up && !keys.down ==> keys.direction()
            == Direction::zero(),
        keys.direction().is_valid(),
{
    lemma_axis_direction(keys.axis_x(), keys.axis_y());
}

impl Point {
    /// The point reached from `self` by following `d` at `speed` sub-units
    /// per second for `dt` microseconds: `self + d * speed * dt`, each axis
    /// by itself.
    pub open spec fn advance(self, d: Direction, speed: int, dt: int) -> Point {
        Point {
            x: self.x + displacement(d.x, speed, dt),
            y: self.y + displacement(d.y, speed, dt),
        }
    }
}

/// Without a heading, without speed or without elapsed time nothing moves.
pub proof fn lemma_advance_nowhere(p: Point, d: Direction, speed: int, dt: int)
    requires
        d.is_zero() || speed == 0 || dt == 0,
    ensures
        p.advance(d, speed, dt) == p,
{
    lemma_displacement_zero(d.x, speed, dt);
    lemma_displacement_zero(d.y, speed, dt);
}

/// Along one axis an entity covers no more than its heading component
/// allows: the displacement, scaled up again, stays within `h * speed * dt`
/// in magnitude.
proof fn lemma_displacement_within(h: int, speed: int, dt: int)
    requires
        0 <= speed,
        0 <= dt,
    ensures
        displacement(h, speed, dt) * displacement(h, speed, dt) * (displacement_scale()
            * displacement_scale()) <= (h * h) * ((speed * dt) * (speed * dt)),
{
    let m = speed * dt;
    let a = if h >= 0 {
        h
    } else {
        -h
    };
    let scale = displacement_scale();
    let q = (a * speed * dt) / scale;
    assert(0 <= m) by (nonlinear_arith)
        requires
            m == speed * dt,
            0 <= speed,
            0 <= dt,
    ;
    assert(a * speed * dt == a * m && 0 <= a * m) by (nonlinear_arith)
        requires
            m == speed * dt,
            0 <= a,
            0 <= m,
    ;
    assert(0 <= q && q * scale <= a * m);
    assert((q * scale) * (q * scale) <= (a * m) * (a * m)) by (nonlinear_arith)
        requires
            0 <= q * scale <= a * m,
    ;
    assert((q * scale) * (q * scale) == q * q * (scale * scale) && (a * m) * (a * m) == (h * h)
        * (m * m)) by (nonlinear_arith)
        requires
            a == h || a == -h,
    ;
    let d = displacement(h, speed, dt);
    assert(d * d == q * q) by (nonlinear_arith)
        requires
            d == q || d == -q,
    ;
}

/// No entity is faster than its speed: with a valid heading, the distance
/// covered in a frame does not exceed `speed * dt / MICROS_PER_SECOND`,
/// whichever way the heading points. In particular a diagonal heading is no
/// faster than one along an axis.
pub proof fn lemma_speed_limit(p: Point, d: Direction, speed: int, dt: int)
    requires
        d.is_valid(),
        0 <= speed,
        0 <= dt,
    ensures
        p.advance(d, speed, dt).dist_sq(p) * (MICROS_PER_SECOND * MICROS_PER_SECOND) <= (speed
            * dt) * (speed * dt),
{
    let dx = displacement(d.x, speed, dt);
    let dy = displacement(d.y, speed, dt);
    let mm = (speed * dt) * (speed * dt);
    let travelled = p.advance(d, speed, dt).dist_sq(p);
    lemma_displacement_within(d.x, speed, dt);
    lemma_displacement_within(d.y, speed, dt);
    assert(travelled == dx * dx + dy * dy) by (nonlinear_arith)
        requires
            travelled == (p.x + dx - p.x) * (p.x + dx - p.x) + (p.y + dy - p.y) * (p.y + dy
                - p.y),
    ;
    assert(0 <= mm) by (nonlinear_arith)
        requires
            mm == (speed * dt) * (speed * dt),
    ;
    // The scale squared is the unit square times the square of a second.
    let unit = unit_sq();
    let second = 1_000_000_000_000int;
    assert(travelled * (unit * second) <= unit * mm) by (nonlinear_arith)
        requires
            travelled == dx * dx + dy * dy,
            dx * dx * (unit * second) <= (d.x * d.x) * mm,
            dy * dy * (unit * second) <= (d.y * d.y) * mm,
            d.x * d.x + d.y * d.y <= unit,
            0 <= mm,
    ;
    assert(travelled * second <= mm) by (nonlinear_arith)
        requires
            travelled * (unit * second) <= unit * mm,
            unit == 1_000_000_000_000,
    ;
}

/// A point within `POSITION_LIMIT` of the origin can follow any heading at
/// any speed for any frame time and still be stored.
pub proof fn lemma_advance_fits(p: Point, h: Heading, speed: u32, delta_micros: u32)
    requires
        p.in_range(),
    ensures
        p.advance(h@, speed as int, delta_micros as int).fits(),
{
    lemma_displacement_bound(h.x as int, speed as int, delta_micros as int);
    lemma_displacement_bound(h.y as int, speed as int, delta_micros as int);
}

impl Position {
    /// Moves the position along `heading` at `speed` sub-units per second
    /// for `delta_micros` microseconds.
    pub fn advance(self, heading: Heading, speed: u32, delta_micros: u32) -> (p: Position)
        requires
            self@.advance(heading@, speed as int, delta_micros as int).fits(),
        ensures
            p@ == self@.advance(heading@, speed as int, delta_micros as int),
    {
        let dx = compute_displacement(heading.x, speed, delta_micros);
        let dy = compute_displacement(heading.y, speed, delta_micros);
        Position { x: self.x + dx, y: self.y + dy }
    }
}

} // verus!
