//! Units of measure, the game's constants, and the one scaled product that
//! kinematics needs.

use vstd::prelude::*;

verus! {

/// Length sub-units per arena unit: lengths count thousandths.
pub const UNIT: u32 = 1000;

/// The heading component that stands for 1: components count millionths.
pub const HEADING_ONE: i32 = 1_000_000;

/// Time ticks per second: time counts microseconds.
pub const MICROS_PER_SECOND: u32 = 1_000_000;

/// Largest magnitude of a coordinate at rest. A coordinate within this limit
/// can take any single frame's displacement without leaving `i64`.
pub const POSITION_LIMIT: i64 = 0x4000_0000_0000_0000;

/// Length sub-units per sprite pixel: sprites are drawn at four tenths of
/// their pixel size.
pub const SIZE_MODIFIER: u32 = 400;

/// Diameter of the ant.
pub const ANT_SIZE: u32 = 64 * SIZE_MODIFIER;

/// Speed of the ant, in length sub-units per second.
pub const ANT_SPEED: u32 = 600_000;

/// Number of enemies placed at spawn.
pub const ENEMY_COUNT: usize = 8;

/// Speed of every enemy, in length sub-units per second.
pub const ENEMY_SPEED: u32 = 200_000;

/// Diameter of an enemy.
pub const ENEMY_SIZE: u32 = 64 * SIZE_MODIFIER;

/// Number of food items placed at spawn.
pub const FOOD_COUNT: usize = 10;

/// Diameter of a food item.
pub const FOOD_SIZE: u32 = 30 * SIZE_MODIFIER;

/// What the product of a heading component, a speed and a frame time is
/// divided by to give length sub-units: `HEADING_ONE * MICROS_PER_SECOND`.
pub open spec fn displacement_scale() -> int {
    1_000_000_000_000
}

/// The scale is the product of the two constants that it is named after.
pub proof fn lemma_displacement_scale()
    ensures
        displacement_scale() == HEADING_ONE * MICROS_PER_SECOND,
{
}

/// Distance covered along one axis: `h * speed * dt`, scaled back to length
/// sub-units and rounded toward zero, so that opposite headings cover
/// opposite distances.
pub open spec fn displacement(h: int, speed: int, dt: int) -> int {
    if h >= 0 {
        (h * speed * dt) / displacement_scale()
    } else {
        -(((-h) * speed * dt) / displacement_scale())
    }
}

/// Opposite heading components cover opposite distances.
pub proof fn lemma_displacement_odd(h: int, speed: int, dt: int)
    ensures
        displacement(-h, speed, dt) == -displacement(h, speed, dt),
{
    if h == 0 {
        assert((0 * speed) * dt == 0) by (nonlinear_arith);
    }
}

/// No heading component, no speed or no time gives no movement.
pub proof fn lemma_displacement_zero(h: int, speed: int, dt: int)
    requires
        h == 0 || speed == 0 || dt == 0,
    ensures
        displacement(h, speed, dt) == 0,
{
    assert((h * speed) * dt == 0 && ((-h) * speed) * dt == 0) by (nonlinear_arith)
        requires
            h == 0 || speed == 0 || dt == 0,
    ;
}

/// A frame's displacement along one axis stays below `2^56` in magnitude.
pub proof fn lemma_displacement_bound(h: int, speed: int, dt: int)
    requires
        -0x8000_0000 <= h <= 0x8000_0000,
        0 <= speed <= 0xffff_ffff,
        0 <= dt <= 0xffff_ffff,
    ensures
        -0x100_0000_0000_0000 < displacement(h, speed, dt) < 0x100_0000_0000_0000,
{
    let a = if h >= 0 { h } else { -h };
    assert(0 <= (a * speed) * dt <= 0x8000_0000 * 0xffff_ffff * 0xffff_ffff) by (nonlinear_arith)
        requires
            0 <= a <= 0x8000_0000,
            0 <= speed <= 0xffff_ffff,
            0 <= dt <= 0xffff_ffff,
    ;
}

/// Computes `displacement` without overflow for every heading component,
/// speed and frame time.
pub fn compute_displacement(h: i32, speed: u32, delta_micros: u32) -> (d: i64)
    ensures
        d == displacement(h as int, speed as int, delta_micros as int),
{
    let magnitude: u128 = if h >= 0 {
        h as u128
    } else {
        (-(h as i64)) as u128
    };
    proof {
        lemma_displacement_bound(h as int, speed as int, delta_micros as int);
        assert(0 <= magnitude * speed <= 0x8000_0000 * 0xffff_ffff) by (nonlinear_arith)
            requires
                0 <= magnitude <= 0x8000_0000,
                0 <= speed <= 0xffff_ffff,
        ;
    }
    let product: u128 = magnitude * (speed as u128) * (delta_micros as u128);
    let quotient: u128 = product / 1_000_000_000_000u128;
    if h >= 0 {
        quotient as i64
    } else {
        -(quotient as i64)
    }
}

} // verus!
