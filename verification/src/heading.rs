//! Headings: unit-length directions in fixed point, and how an arbitrary
//! vector is brought to unit length.

use vstd::prelude::*;
use crate::units::HEADING_ONE;

verus! {

/// A direction with unbounded integer components, in millionths: what a
/// `Heading` stands for in contracts.
pub struct Direction {
    pub x: int,
    pub y: int,
}

/// Square of `HEADING_ONE`: the squared length of an exact unit direction.
pub open spec fn unit_sq() -> int {
    1_000_000_000_000
}

/// Least squared length that still counts as unit length: the square of
/// `HEADING_ONE - 2`.
pub open spec fn unit_sq_floor() -> int {
    999_996_000_004
}

/// The two squares are those of `HEADING_ONE` and of `HEADING_ONE - 2`.
pub proof fn lemma_unit_squares()
    ensures
        unit_sq() == HEADING_ONE * HEADING_ONE,
        unit_sq_floor() == (HEADING_ONE - 2) * (HEADING_ONE - 2),
{
}

impl Direction {
    /// The direction of an entity that stands still.
    pub open spec fn zero() -> Direction {
        Direction { x: 0, y: 0 }
    }

    /// Square of the Euclidean length.
    pub open spec fn norm_sq(self) -> int {
        self.x * self.x + self.y * self.y
    }

    /// Both components are zero.
    pub open spec fn is_zero(self) -> bool {
        self.x == 0 && self.y == 0
    }

    /// The length is 1 to within two millionths, and never more than 1:
    /// it lies between `HEADING_ONE - 2` and `HEADING_ONE`.
    pub open spec fn is_unit(self) -> bool {
        unit_sq_floor() <= self.norm_sq() <= unit_sq()
    }

    /// What every stored heading is: the zero vector, which stands still, or
    /// a vector of unit length.
    pub open spec fn is_valid(self) -> bool {
        self.is_zero() || self.is_unit()
    }

    /// The vector `(vx, vy)` brought to unit length, each component rounded
    /// toward zero; the zero vector stays as it is.
    pub open spec fn normalized(vx: int, vy: int) -> Direction {
        if vx == 0 && vy == 0 {
            Direction::zero()
        } else {
            let n = vx * vx + vy * vy;
            Direction {
                x: with_sign_of(vx, unit_share(magnitude(vx), n)),
                y: with_sign_of(vy, unit_share(magnitude(vy), n)),
            }
        }
    }
}

/// Absolute value of `v`.
pub open spec fn magnitude(v: int) -> int {
    if v < 0 {
        -v
    } else {
        v
    }
}

/// `m`, negated where `v` is negative.
pub open spec fn with_sign_of(v: int, m: int) -> int {
    if v < 0 {
        -m
    } else {
        m
    }
}

/// `h` is `a * HEADING_ONE / sqrt(n)` rounded down: the largest integer whose
/// square, times `n`, does not exceed the square of `a * HEADING_ONE`.
pub open spec fn is_unit_share(h: int, a: int, n: int) -> bool {
    &&& 0 <= h
    &&& h * h * n <= a * a * unit_sq()
    &&& a * a * unit_sq() < (h + 1) * (h + 1) * n
}

/// The component of length `a` of a vector of squared length `n`, once the
/// vector is brought to unit length: `a * HEADING_ONE / sqrt(n)` rounded
/// down.
pub open spec fn unit_share(a: int, n: int) -> int {
    choose|h: int| is_unit_share(h, a, n)
}

/// At most one integer is `a * HEADING_ONE / sqrt(n)` rounded down.
pub proof fn lemma_unit_share_unique(h1: int, h2: int, a: int, n: int)
    requires
        n > 0,
        is_unit_share(h1, a, n),
        is_unit_share(h2, a, n),
    ensures
        h1 == h2,
{
    if h1 < h2 {
        assert((h1 + 1) * (h1 + 1) * n <= h2 * h2 * n) by (nonlinear_arith)
            requires
                0 <= h1 + 1 <= h2,
                n > 0,
        ;
    } else if h2 < h1 {
        assert((h2 + 1) * (h2 + 1) * n <= h1 * h1 * n) by (nonlinear_arith)
            requires
                0 <= h2 + 1 <= h1,
                n > 0,
        ;
    }
}

proof fn lemma_unit_share_below(a: int, n: int, k: int)
    requires
        n > 0,
        0 <= k,
        a * a * unit_sq() < (k + 1) * (k + 1) * n,
    ensures
        exists|h: int| 0 <= h <= k && #[trigger] is_unit_share(h, a, n),
    decreases k,
{
    if k * k * n <= a * a * unit_sq() {
        assert(is_unit_share(k, a, n));
    } else {
        assert(0 <= a * a * unit_sq()) by (nonlinear_arith);
        assert(k != 0) by {
            if k == 0 {
                assert(k * k * n == 0) by (nonlinear_arith)
                    requires
                        k == 0,
                ;
            }
        }
        lemma_unit_share_below(a, n, k - 1);
        let h = choose|h: int| 0 <= h <= k - 1 && #[trigger] is_unit_share(h, a, n);
        assert(0 <= h <= k && is_unit_share(h, a, n));
    }
}

/// Whenever `a * a <= n` and `n` is positive, `unit_share(a, n)` is
/// `a * HEADING_ONE / sqrt(n)` rounded down, and lies between 0 and
/// `HEADING_ONE`.
pub proof fn lemma_unit_share(a: int, n: int)
    requires
        0 <= a,
        a * a <= n,
        0 < n,
    ensures
        is_unit_share(unit_share(a, n), a, n),
        0 <= unit_share(a, n) <= HEADING_ONE,
{
    assert(a * a * unit_sq() < (HEADING_ONE + 1) * (HEADING_ONE + 1) * n) by (nonlinear_arith)
        requires
            a * a <= n,
            0 < n,
            unit_sq() == 1_000_000_000_000,
            HEADING_ONE == 1_000_000,
    ;
    lemma_unit_share_below(a, n, HEADING_ONE as int);
    let h = choose|h: int| 0 <= h <= HEADING_ONE && #[trigger] is_unit_share(h, a, n);
    lemma_unit_share_unique(h, unit_share(a, n), a, n);
}

/// Bringing a vector to unit length gives a valid heading: the zero vector
/// for the zero vector, and a vector of unit length for any other.
pub proof fn lemma_normalized_is_valid(vx: int, vy: int)
    ensures
        Direction::normalized(vx, vy).is_valid(),
        vx == 0 && vy == 0 ==> Direction::normalized(vx, vy).is_zero(),
        vx != 0 || vy != 0 ==> Direction::normalized(vx, vy).is_unit(),
        -HEADING_ONE <= Direction::normalized(vx, vy).x <= HEADING_ONE,
        -HEADING_ONE <= Direction::normalized(vx, vy).y <= HEADING_ONE,
{
    if vx != 0 || vy != 0 {
        let ax = magnitude(vx);
        let ay = magnitude(vy);
        let n = vx * vx + vy * vy;
        assert(ax * ax == vx * vx && ay * ay == vy * vy) by (nonlinear_arith)
            requires
                ax == vx || ax == -vx,
                ay == vy || ay == -vy,
        ;
        assert(n > 0 && ax * ax <= n && ay * ay <= n) by (nonlinear_arith)
            requires
                n == vx * vx + vy * vy,
                ax * ax == vx * vx,
                ay * ay == vy * vy,
                vx != 0 || vy != 0,
        ;
        lemma_unit_share(ax, n);
        lemma_unit_share(ay, n);
        let hx = unit_share(ax, n);
        let hy = unit_share(ay, n);
        let d = Direction::normalized(vx, vy);
        assert(d.norm_sq() == hx * hx + hy * hy) by (nonlinear_arith)
            requires
                d.x == hx || d.x == -hx,
                d.y == hy || d.y == -hy,
                d.norm_sq() == d.x * d.x + d.y * d.y,
        ;
        lemma_shares_make_unit(hx, hy, ax, ay, n);
    }
}

/// A vector without a negative component has none once it is brought to
/// unit length.
pub proof fn lemma_normalized_nonnegative(vx: int, vy: int)
    requires
        0 <= vx,
        0 <= vy,
    ensures
        Direction::normalized(vx, vy).x >= 0,
        Direction::normalized(vx, vy).y >= 0,
{
    if vx != 0 || vy != 0 {
        let n = vx * vx + vy * vy;
        assert(n > 0 && vx * vx <= n && vy * vy <= n) by (nonlinear_arith)
            requires
                n == vx * vx + vy * vy,
                vx != 0 || vy != 0,
        ;
        lemma_unit_share(vx, n);
        lemma_unit_share(vy, n);
    }
}

/// The two rounded-down shares of a vector have a squared length between
/// the square of `HEADING_ONE - 2` and the square of `HEADING_ONE`.
proof fn lemma_shares_make_unit(hx: int, hy: int, ax: int, ay: int, n: int)
    requires
        n > 0,
        n == ax * ax + ay * ay,
        is_unit_share(hx, ax, n),
        is_unit_share(hy, ay, n),
        hx <= HEADING_ONE,
        hy <= HEADING_ONE,
    ensures
        unit_sq_floor() <= hx * hx + hy * hy <= unit_sq(),
{
    let u = unit_sq();
    let s = hx * hx + hy * hy;
    let t = (hx + 1) * (hx + 1) + (hy + 1) * (hy + 1);
    assert(s * n <= u * n) by (nonlinear_arith)
        requires
            s == hx * hx + hy * hy,
            n == ax * ax + ay * ay,
            hx * hx * n <= ax * ax * u,
            hy * hy * n <= ay * ay * u,
    ;
    assert(s <= u) by (nonlinear_arith)
        requires
            s * n <= u * n,
            n > 0,
    ;
    assert(t * n > u * n) by (nonlinear_arith)
        requires
            t == (hx + 1) * (hx + 1) + (hy + 1) * (hy + 1),
            n == ax * ax + ay * ay,
            ax * ax * u < (hx + 1) * (hx + 1) * n,
            ay * ay * u < (hy + 1) * (hy + 1) * n,
    ;
    assert(t > u) by (nonlinear_arith)
        requires
            t * n > u * n,
            n > 0,
    ;
    assert(t == s + 2 * hx + 2 * hy + 2) by (nonlinear_arith)
        requires
            t == (hx + 1) * (hx + 1) + (hy + 1) * (hy + 1),
            s == hx * hx + hy * hy,
    ;
    if hx + hy >= 2 * HEADING_ONE - 2 {
        assert(hx * hx >= 999_998 * 999_998 && hy * hy >= 999_998 * 999_998) by (nonlinear_arith)
            requires
                hx >= 999_998,
                hy >= 999_998,
        ;
        assert(false);
    }
}

/// Direction of travel in fixed point: each component counts millionths, so
/// `HEADING_ONE` stands for 1.
#[derive(Clone, Copy, Debug, PartialEq, Eq, Structural)]
pub struct Heading {
    pub x: i32,
    pub y: i32,
}

impl View for Heading {
    type V = Direction;

    open spec fn view(&self) -> Direction {
        Direction { x: self.x as int, y: self.y as int }
    }
}

/// A valid direction has both components between `-HEADING_ONE` and
/// `HEADING_ONE`.
pub proof fn lemma_valid_components(d: Direction)
    requires
        d.is_valid(),
    ensures
        -HEADING_ONE <= d.x <= HEADING_ONE,
        -HEADING_ONE <= d.y <= HEADING_ONE,
{
    if !d.is_zero() {
        assert(-1_000_000 <= d.x <= 1_000_000 && -1_000_000 <= d.y <= 1_000_000)
            by (nonlinear_arith)
            requires
                d.x * d.x + d.y * d.y <= 1_000_000_000_000,
        ;
    }
}

impl Heading {
    /// The heading with the given components, in millionths.
    pub fn new(x: i32, y: i32) -> (h: Heading)
        ensures
            h@ == (Direction { x: x as int, y: y as int }),
    {
        Heading { x, y }
    }

    /// The heading of an entity that stands still.
    pub fn zero() -> (h: Heading)
        ensures
            h@ == Direction::zero(),
    {
        Heading { x: 0, y: 0 }
    }

    /// Tells whether the heading is the zero vector or has unit length.
    pub fn is_valid(&self) -> (b: bool)
        ensures
            b == self@.is_valid(),
    {
        let x: i64 = self.x as i64;
        let y: i64 = self.y as i64;
        assert(0 <= x * x <= 0x8000_0000 * 0x8000_0000 && 0 <= y * y <= 0x8000_0000 * 0x8000_0000)
            by (nonlinear_arith)
            requires
                -0x8000_0000 <= x <= 0x8000_0000,
                -0x8000_0000 <= y <= 0x8000_0000,
        ;
        let norm_sq: u64 = (x * x) as u64 + (y * y) as u64;
        (x == 0 && y == 0) || (999_996_000_004 <= norm_sq && norm_sq <= 1_000_000_000_000)
    }

    /// Brings the vector `(vx, vy)` to unit length, each component rounded
    /// toward zero. The zero vector is returned as it is.
    pub fn normalize(vx: i32, vy: i32) -> (h: Heading)
        ensures
            h@ == Direction::normalized(vx as int, vy as int),
            h@.is_valid(),
            h@.is_zero() <==> vx == 0 && vy == 0,
    {
        proof {
            lemma_normalized_is_valid(vx as int, vy as int);
        }
        if vx == 0 && vy == 0 {
            return Heading { x: 0, y: 0 };
        }
        let ax: u64 = if vx < 0 {
            (-(vx as i64)) as u64
        } else {
            vx as u64
        };
        let ay: u64 = if vy < 0 {
            (-(vy as i64)) as u64
        } else {
            vy as u64
        };
        assert(ax * ax <= 0x8000_0000 * 0x8000_0000 && ay * ay <= 0x8000_0000 * 0x8000_0000
            && ax * ax == vx * vx && ay * ay == vy * vy && ax * ax + ay * ay > 0)
            by (nonlinear_arith)
            requires
                0 <= ax <= 0x8000_0000,
                0 <= ay <= 0x8000_0000,
                ax == vx || ax == -vx,
                ay == vy || ay == -vy,
                ax != 0 || ay != 0,
        ;
        let n: u64 = ax * ax + ay * ay;
        let hx: u32 = rounded_share(ax, n);
        let hy: u32 = rounded_share(ay, n);
        proof {
            let ghost n = n as int;
            lemma_unit_share_unique(hx as int, unit_share(ax as int, n), ax as int, n);
            lemma_unit_share_unique(hy as int, unit_share(ay as int, n), ay as int, n);
        }
        let x: i32 = if vx < 0 {
            -(hx as i32)
        } else {
            hx as i32
        };
        let y: i32 = if vy < 0 {
            -(hy as i32)
        } else {
            hy as i32
        };
        proof {
            if x == 0 && y == 0 {
                assert(hx * hx + hy * hy == 0) by (nonlinear_arith)
                    requires
                        hx == 0,
                        hy == 0,
                ;
            }
        }
        Heading { x, y }
    }
}

/// Finds `a * HEADING_ONE / sqrt(n)` rounded down by bisection.
fn rounded_share(a: u64, n: u64) -> (h: u32)
    requires
        a <= 0x8000_0000,
        a * a <= n,
        0 < n,
    ensures
        is_unit_share(h as int, a as int, n as int),
        h <= HEADING_ONE,
{
    let square: u128 = (a as u128) * (a as u128);
    let target: u128 = square * 1_000_000_000_000u128;
    let mut lo: u32 = 0;
    let mut hi: u32 = 1_000_000;
    assert(lo * lo * n <= target) by (nonlinear_arith)
        requires
            lo == 0,
            0 <= target,
    ;
    assert(target < (hi + 1) * (hi + 1) * n) by (nonlinear_arith)
        requires
            hi == 1_000_000,
            target == a * a * 1_000_000_000_000,
            a * a <= n,
            0 < n,
    ;
    while lo < hi
        invariant
            lo <= hi <= 1_000_000,
            0 < n,
            target == a * a * unit_sq(),
            lo * lo * n <= target,
            target < (hi + 1) * (hi + 1) * n,
        decreases hi - lo,
    {
        let mid: u32 = lo + (hi - lo + 1) / 2;
        assert(mid * mid <= 1_000_000 * 1_000_000) by (nonlinear_arith)
            requires
                0 <= mid <= 1_000_000,
        ;
        assert(mid * mid * n <= 1_000_000 * 1_000_000 * 0xffff_ffff_ffff_ffff) by (nonlinear_arith)
            requires
                0 <= mid * mid <= 1_000_000 * 1_000_000,
                0 <= n <= 0xffff_ffff_ffff_ffff,
        ;
        let trial: u128 = (mid as u128) * (mid as u128) * (n as u128);
        if trial <= target {
            lo = mid;
        } else {
            hi = mid - 1;
        }
    }
    lo
}

} // verus!
