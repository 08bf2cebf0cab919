//! Fixed-point plane geometry: vectors and axis-aligned boxes in thousandths
//! of a tile, with truncating division as the single rounding rule.

use vstd::prelude::*;

verus! {

/// Widest world coordinate the simulation admits.
pub const COORD_LIMIT: i64 = 100_000_000_000;

/// Widest velocity component the simulation admits.
pub const VEL_LIMIT: i64 = 100_000_000;

/// Widest corner of an entity-relative box.
pub const BOX_LIMIT: i64 = 10_000_000;

/// Signed division that rounds toward zero, the rounding rule of every
/// fixed-point computation in this crate.
pub open spec fn div_tz(a: int, d: int) -> int
    recommends
        d > 0,
{
    if a >= 0 {
        a / d
    } else {
        -((-a) / d)
    }
}

/// Executable truncating division.
pub fn div_trunc(a: i64, d: i64) -> (r: i64)
    requires
        0 < d,
        -4_000_000_000_000_000_000 <= a <= 4_000_000_000_000_000_000,
    ensures
        r == div_tz(a as int, d as int),
{
    proof {
        vstd::arithmetic::div_mod::lemma_div_nonincreasing(if a >= 0 { a as int } else { -a as int }, d as int);
        vstd::arithmetic::div_mod::lemma_div_pos_is_pos(if a >= 0 { a as int } else { -a as int }, d as int);
    }
    if a >= 0 {
        let q: u64 = (a as u64) / (d as u64);
        q as i64
    } else {
        let m: u64 = (-a) as u64;
        let q: u64 = m / (d as u64);
        -(q as i64)
    }
}

/// `a * num / den`, rounding toward zero: the per-tick decay and easing step.
pub fn mul_frac(a: i64, num: i64, den: i64) -> (r: i64)
    requires
        0 < den <= 1_000_000,
        0 <= num <= 1_000_000,
        -1_000_000_000_000 <= a <= 1_000_000_000_000,
    ensures
        r == div_tz(a * num, den as int),
{
    proof {
        vstd::arithmetic::mul::lemma_mul_inequality(a as int, 1_000_000_000_000, num as int);
        vstd::arithmetic::mul::lemma_mul_inequality(-1_000_000_000_000, a as int, num as int);
    }
    div_trunc(a * num, den)
}

/// The magnitude of a truncating quotient never exceeds the dividend's.
pub proof fn lemma_div_tz_shrinks(a: int, d: int)
    requires
        d >= 1,
    ensures
        a >= 0 ==> 0 <= div_tz(a, d) <= a,
        a <= 0 ==> a <= div_tz(a, d) <= 0,
{
    if a >= 0 {
        vstd::arithmetic::div_mod::lemma_div_nonincreasing(a, d);
        vstd::arithmetic::div_mod::lemma_div_pos_is_pos(a, d);
    } else {
        vstd::arithmetic::div_mod::lemma_div_nonincreasing(-a, d);
        vstd::arithmetic::div_mod::lemma_div_pos_is_pos(-a, d);
    }
}

/// Truncating division by a positive divisor is monotone.
pub proof fn lemma_div_tz_ordered(a: int, b: int, d: int)
    requires
        a <= b,
        d >= 1,
    ensures
        div_tz(a, d) <= div_tz(b, d),
{
    if a >= 0 {
        vstd::arithmetic::div_mod::lemma_div_is_ordered(a, b, d);
    } else if b < 0 {
        vstd::arithmetic::div_mod::lemma_div_is_ordered(-b, -a, d);
    } else {
        vstd::arithmetic::div_mod::lemma_div_pos_is_pos(-a, d);
        vstd::arithmetic::div_mod::lemma_div_pos_is_pos(b, d);
    }
}

/// A 2D vector; the two fields are the horizontal and vertical components.
#[derive(Clone, Copy, Debug, PartialEq, Eq, Structural)]
pub struct Vec2(pub i64, pub i64);

impl Vec2 {
    /// Both components lie within `b` of zero.
    pub open spec fn bounded(self, b: int) -> bool {
        -b <= self.0 <= b && -b <= self.1 <= b
    }

    pub fn zero() -> (r: Self)
        ensures
            r == (Vec2(0, 0)),
    {
        Vec2(0, 0)
    }

    /// Componentwise sum.
    pub fn plus(self, rhs: Vec2) -> (r: Vec2)
        requires
            i64::MIN <= self.0 + rhs.0 <= i64::MAX,
            i64::MIN <= self.1 + rhs.1 <= i64::MAX,
        ensures
            r.0 == self.0 + rhs.0,
            r.1 == self.1 + rhs.1,
    {
        Vec2(self.0 + rhs.0, self.1 + rhs.1)
    }

    /// Componentwise difference.
    pub fn minus(self, rhs: Vec2) -> (r: Vec2)
        requires
            i64::MIN <= self.0 - rhs.0 <= i64::MAX,
            i64::MIN <= self.1 - rhs.1 <= i64::MAX,
        ensures
            r.0 == self.0 - rhs.0,
            r.1 == self.1 - rhs.1,
    {
        Vec2(self.0 - rhs.0, self.1 - rhs.1)
    }

    /// Euclidean length, rounded down to whole units.
    pub fn len(self) -> (r: i64)
        requires
            self.bounded(1_500_000_000),
        ensures
            0 <= r <= 2_200_000_000,
            r * r <= self.0 * self.0 + self.1 * self.1,
            self.0 * self.0 + self.1 * self.1 < (r + 1) * (r + 1),
    {
        proof {
            lemma_square_range(self.0 as int, 1_500_000_000);
            lemma_square_range(self.1 as int, 1_500_000_000);
        }
        let xx: u64 = (self.0 * self.0) as u64;
        let yy: u64 = (self.1 * self.1) as u64;
        let r: u64 = isqrt(xx + yy);
        r as i64
    }

    /// Distance between two points, rounded down to whole units.
    pub fn dist(self, other: Vec2) -> (r: i64)
        requires
            -1_500_000_000 <= self.0 - other.0 <= 1_500_000_000,
            -1_500_000_000 <= self.1 - other.1 <= 1_500_000_000,
        ensures
            0 <= r,
            r * r <= (self.0 - other.0) * (self.0 - other.0) + (self.1 - other.1) * (self.1
                - other.1),
            (self.0 - other.0) * (self.0 - other.0) + (self.1 - other.1) * (self.1 - other.1) < (r
                + 1) * (r + 1),
    {
        self.minus(other).len()
    }

    /// Direction of `self` scaled to a length of about one tile: each
    /// component is multiplied by the unit scale and divided by the rounded
    /// length.
    pub fn norm(self) -> (r: Vec2)
        requires
            self.bounded(1_500_000_000),
            self.0 != 0 || self.1 != 0,
        ensures
            is_unit_of(self, r),
            r.bounded(1000),
    {
        let l: i64 = self.len();
        proof {
            if self.0 != 0 {
                lemma_square_pos(self.0 as int);
            } else {
                lemma_square_pos(self.1 as int);
            }
            lemma_square_range(self.0 as int, 1_500_000_000);
            lemma_square_range(self.1 as int, 1_500_000_000);
            assert(self.0 * self.0 + self.1 * self.1 >= 1);
            assert(l >= 1) by (nonlinear_arith)
                requires
                    0 <= l,
                    1 <= self.0 * self.0 + self.1 * self.1,
                    self.0 * self.0 + self.1 * self.1 < (l + 1) * (l + 1),
            ;
        }
        let r = Vec2(div_trunc(self.0 * 1000, l), div_trunc(self.1 * 1000, l));
        proof {
            assert(l >= self.0 && l >= -self.0 && l >= self.1 && l >= -self.1) by (nonlinear_arith)
                requires
                    1 <= l,
                    self.0 * self.0 + self.1 * self.1 < (l + 1) * (l + 1),
            ;
            lemma_unit_component(self.0 as int, l as int);
            lemma_unit_component(self.1 as int, l as int);
            assert(1 <= l && (l as int * l as int) <= self.0 * self.0 + self.1 * self.1 && self.0
                * self.0 + self.1 * self.1 < (l + 1) * (l + 1) && r.0 == div_tz(
                self.0 * 1000,
                l as int,
            ) && r.1 == div_tz(self.1 * 1000, l as int));
            assert(is_unit_of(self, r));
        }
        r
    }

    /// Clockwise rotation by quarter turns.
    pub fn rotated(self, turns: u8) -> (r: Vec2)
        requires
            self.bounded(COORD_LIMIT as int),
        ensures
            r == spec_rotated(self, turns),
    {
        match turns % 4 {
            0 => Vec2(self.0, self.1),
            1 => Vec2(self.1, -self.0),
            2 => Vec2(-self.0, -self.1),
            _ => Vec2(-self.1, self.0),
        }
    }

    /// Linear interpolation from `self` at progress 0 to `destination` at
    /// progress 1000, the progress clamped to that range.
    pub fn lerp(self, destination: Vec2, progress: i64) -> (r: Vec2)
        requires
            self.bounded(2 * COORD_LIMIT as int),
            destination.bounded(2 * COORD_LIMIT as int),
        ensures
            r == spec_lerp(self, destination, progress as int),
            r.0 <= if self.0 >= destination.0 {
                self.0
            } else {
                destination.0
            },
            r.0 >= if self.0 <= destination.0 {
                self.0
            } else {
                destination.0
            },
            r.1 <= if self.1 >= destination.1 {
                self.1
            } else {
                destination.1
            },
            r.1 >= if self.1 <= destination.1 {
                self.1
            } else {
                destination.1
            },
    {
        let t: i64 = if progress < 0 {
            0
        } else if progress > 1000 {
            1000
        } else {
            progress
        };
        proof {
            lemma_lerp_product_range(self.0 as int, destination.0 as int, t as int);
            lemma_lerp_product_range(self.1 as int, destination.1 as int, t as int);
        }
        Vec2(
            self.0 + div_trunc((destination.0 - self.0) * t, 1000),
            self.1 + div_trunc((destination.1 - self.1) * t, 1000),
        )
    }
}

/// Scaling by a fraction of at most one shrinks a value toward zero.
pub proof fn lemma_frac_shrinks(a: int, num: int, den: int)
    requires
        0 <= num <= den,
        1 <= den,
    ensures
        a >= 0 ==> 0 <= div_tz(a * num, den) <= a,
        a <= 0 ==> a <= div_tz(a * num, den) <= 0,
{
    if a >= 0 {
        assert(0 <= a * num <= a * den) by (nonlinear_arith)
            requires
                0 <= a && 0 <= num <= den,
        ;
        lemma_div_tz_ordered(a * num, a * den, den);
        lemma_div_tz_shrinks(a * num, den);
        assert(a * den == den * a) by (nonlinear_arith);
        vstd::arithmetic::div_mod::lemma_div_multiples_vanish(a, den);
    } else {
        assert(0 <= (-a) * num <= (-a) * den) by (nonlinear_arith)
            requires
                0 <= -a && 0 <= num <= den,
        ;
        assert(a * num == -((-a) * num)) by (nonlinear_arith);
        lemma_div_tz_ordered((-a) * num, (-a) * den, den);
        lemma_div_tz_shrinks((-a) * num, den);
        assert((-a) * den == den * (-a)) by (nonlinear_arith);
        vstd::arithmetic::div_mod::lemma_div_multiples_vanish(-a, den);
    }
}

/// `r` is `d` scaled to a length of about 1000 units: each component is
/// multiplied by 1000 and divided, truncating, by the rounded length of `d`.
pub open spec fn is_unit_of(d: Vec2, r: Vec2) -> bool {
    exists|l: int|
        1 <= l && #[trigger] (l * l) <= d.0 * d.0 + d.1 * d.1 && d.0 * d.0 + d.1 * d.1 < (l + 1) * (
        l + 1) && r.0 == div_tz(d.0 * 1000, l) && r.1 == div_tz(d.1 * 1000, l)
}

/// A component no longer than the vector's rounded length divides to at most
/// a whole unit.
proof fn lemma_unit_component(x: int, l: int)
    requires
        1 <= l,
        -l <= x <= l,
    ensures
        -1000 <= div_tz(x * 1000, l) <= 1000,
{
    if x >= 0 {
        assert(0 <= x * 1000 <= l * 1000) by (nonlinear_arith)
            requires
                0 <= x <= l,
        ;
        lemma_div_tz_ordered(x * 1000, l * 1000, l);
        lemma_div_tz_shrinks(x * 1000, l);
        vstd::arithmetic::div_mod::lemma_div_multiples_vanish(1000, l);
        assert(l * 1000 / l == 1000);
    } else {
        assert(0 <= (-x) * 1000 <= l * 1000) by (nonlinear_arith)
            requires
                0 <= -x <= l,
        ;
        assert(x * 1000 == -((-x) * 1000)) by (nonlinear_arith);
        lemma_div_tz_ordered((-x) * 1000, l * 1000, l);
        lemma_div_tz_shrinks((-x) * 1000, l);
        vstd::arithmetic::div_mod::lemma_div_multiples_vanish(1000, l);
        assert(l * 1000 / l == 1000);
    }
}

/// One component of the interpolation: start plus the clamped fraction of the
/// difference, rounded toward zero.
pub open spec fn spec_lerp_at(a: int, b: int, t: int) -> int {
    let tc = if t < 0 {
        0
    } else if t > 1000 {
        1000
    } else {
        t
    };
    a + div_tz((b - a) * tc, 1000)
}

pub open spec fn spec_lerp(a: Vec2, b: Vec2, t: int) -> Vec2 {
    Vec2(spec_lerp_at(a.0 as int, b.0 as int, t) as i64, spec_lerp_at(a.1 as int, b.1 as int, t) as i64)
}

pub open spec fn spec_rotated(v: Vec2, turns: u8) -> Vec2 {
    if turns % 4 == 0 {
        v
    } else if turns % 4 == 1 {
        Vec2(v.1, (-v.0) as i64)
    } else if turns % 4 == 2 {
        Vec2((-v.0) as i64, (-v.1) as i64)
    } else {
        Vec2((-v.1) as i64, v.0)
    }
}

proof fn lemma_square_range(x: int, b: int)
    requires
        0 <= b,
        -b <= x <= b,
    ensures
        0 <= x * x <= b * b,
    decreases 0int,
{
    assert(0 <= x * x <= b * b) by (nonlinear_arith)
        requires
            0 <= b && -b <= x <= b,
    ;
}

proof fn lemma_square_pos(x: int)
    requires
        x != 0,
    ensures
        x * x >= 1,
{
    assert(x * x >= 1) by (nonlinear_arith)
        requires
            x != 0,
    ;
}

proof fn lemma_lerp_product_range(a: int, b: int, t: int)
    requires
        -2 * COORD_LIMIT as int <= a <= 2 * COORD_LIMIT as int,
        -2 * COORD_LIMIT as int <= b <= 2 * COORD_LIMIT as int,
        0 <= t <= 1000,
    ensures
        -400_000_000_000_000 <= (b - a) * t <= 400_000_000_000_000,
        a <= b ==> a <= a + div_tz((b - a) * t, 1000) <= b,
        a >= b ==> b <= a + div_tz((b - a) * t, 1000) <= a,
{
    assert(-400_000_000_000_000 <= (b - a) * t <= 400_000_000_000_000) by (nonlinear_arith)
        requires
            -400_000_000_000 <= b - a <= 400_000_000_000 && 0 <= t <= 1000,
    ;
    if a <= b {
        assert(0 <= (b - a) * t <= (b - a) * 1000) by (nonlinear_arith)
            requires
                0 <= b - a && 0 <= t <= 1000,
        ;
        lemma_div_tz_ordered((b - a) * t, (b - a) * 1000, 1000);
        lemma_div_tz_shrinks((b - a) * t, 1000);
        assert((b - a) * 1000 == 1000 * (b - a)) by (nonlinear_arith);
        vstd::arithmetic::div_mod::lemma_div_multiples_vanish(b - a, 1000);
    } else {
        assert(0 <= (a - b) * t <= (a - b) * 1000) by (nonlinear_arith)
            requires
                0 <= a - b && 0 <= t <= 1000,
        ;
        assert((b - a) * t == -((a - b) * t)) by (nonlinear_arith);
        lemma_div_tz_ordered((a - b) * t, (a - b) * 1000, 1000);
        lemma_div_tz_shrinks((a - b) * t, 1000);
        assert((a - b) * 1000 == 1000 * (a - b)) by (nonlinear_arith);
        vstd::arithmetic::div_mod::lemma_div_multiples_vanish(a - b, 1000);
        assert(div_tz((b - a) * t, 1000) == -div_tz((a - b) * t, 1000));
    }
}

/// At progress zero the interpolation sits on the start point, at full
/// progress exactly on the destination.
pub proof fn lemma_lerp_endpoints(a: Vec2, b: Vec2)
    requires
        a.bounded(2 * COORD_LIMIT as int),
        b.bounded(2 * COORD_LIMIT as int),
    ensures
        spec_lerp(a, b, 0) == a,
        spec_lerp(a, b, 1000) == b,
{
    assert((b.0 - a.0) * 0 == 0) by (nonlinear_arith);
    assert((b.1 - a.1) * 0 == 0) by (nonlinear_arith);
    lemma_lerp_at_full(a.0 as int, b.0 as int);
    lemma_lerp_at_full(a.1 as int, b.1 as int);
}

proof fn lemma_lerp_at_full(a: int, b: int)
    requires
        -2 * COORD_LIMIT as int <= a <= 2 * COORD_LIMIT as int,
        -2 * COORD_LIMIT as int <= b <= 2 * COORD_LIMIT as int,
    ensures
        spec_lerp_at(a, b, 1000) == b,
{
    if b >= a {
        assert((b - a) * 1000 == 1000 * (b - a)) by (nonlinear_arith);
        vstd::arithmetic::div_mod::lemma_div_multiples_vanish(b - a, 1000);
    } else {
        assert((b - a) * 1000 == -(1000 * (a - b))) by (nonlinear_arith);
        vstd::arithmetic::div_mod::lemma_div_multiples_vanish(a - b, 1000);
    }
}

/// Interpolation is monotone in the progress: moving the progress forward
/// never moves the point back against the direction of travel.
pub proof fn lemma_lerp_monotonic(a: int, b: int, t1: int, t2: int)
    requires
        -2 * COORD_LIMIT as int <= a <= 2 * COORD_LIMIT as int,
        -2 * COORD_LIMIT as int <= b <= 2 * COORD_LIMIT as int,
        t1 <= t2,
    ensures
        a <= b ==> spec_lerp_at(a, b, t1) <= spec_lerp_at(a, b, t2),
        a >= b ==> spec_lerp_at(a, b, t1) >= spec_lerp_at(a, b, t2),
{
    let c1 = if t1 < 0 {
        0
    } else if t1 > 1000 {
        1000
    } else {
        t1
    };
    let c2 = if t2 < 0 {
        0
    } else if t2 > 1000 {
        1000
    } else {
        t2
    };
    assert(0 <= c1 <= c2 <= 1000);
    if a <= b {
        assert((b - a) * c1 <= (b - a) * c2) by (nonlinear_arith)
            requires
                0 <= b - a && c1 <= c2,
        ;
        lemma_div_tz_ordered((b - a) * c1, (b - a) * c2, 1000);
    } else {
        assert((b - a) * c2 <= (b - a) * c1) by (nonlinear_arith)
            requires
                b - a <= 0 && c1 <= c2,
        ;
        lemma_div_tz_ordered((b - a) * c2, (b - a) * c1, 1000);
    }
}

/// Largest `r` with `r * r <= n`, by bisection.
pub fn isqrt(n: u64) -> (r: u64)
    requires
        n <= 4_500_000_000_000_000_000,
    ensures
        r * r <= n,
        n < (r + 1) * (r + 1),
        r <= 2_200_000_000,
{
    let mut lo: u64 = 0;
    let mut hi: u64 = 2_200_000_000;
    proof {
        assert((2_200_000_000u64 + 1) * (2_200_000_000u64 + 1) > 4_500_000_000_000_000_000);
    }
    while lo < hi
        invariant
            lo <= hi <= 2_200_000_000,
            lo * lo <= n,
            n < (hi + 1) * (hi + 1),
        decreases hi - lo,
    {
        let mid: u64 = lo + (hi - lo + 1) / 2;
        proof {
            assert(lo < mid <= hi);
            assert(mid * mid <= 2_200_000_000u64 * 2_200_000_000u64) by (nonlinear_arith)
                requires
                    0 <= mid <= 2_200_000_000u64,
            ;
        }
        if mid * mid <= n {
            lo = mid;
        } else {
            hi = mid - 1;
        }
    }
    lo
}

/// An axis-aligned box given by its lower-left and upper-right corners.
#[derive(Clone, Copy, Debug, PartialEq, Eq, Structural)]
pub struct Bounds {
    pub min: Vec2,
    pub max: Vec2,
}

impl Bounds {
    /// All four corner components lie within `b` of zero.
    pub open spec fn bounded(self, b: int) -> bool {
        self.min.bounded(b) && self.max.bounded(b)
    }

    /// The interiors of the two boxes intersect; shared edges do not count.
    pub open spec fn spec_overlaps(self, other: Bounds) -> bool {
        self.min.0 < other.max.0 && self.max.0 > other.min.0 && self.min.1 < other.max.1
            && self.max.1 > other.min.1
    }

    /// The point lies strictly inside the box.
    pub open spec fn spec_contains(self, pos: Vec2) -> bool {
        pos.0 > self.min.0 && pos.0 < self.max.0 && pos.1 > self.min.1 && pos.1 < self.max.1
    }

    /// The box shifted by `v`.
    pub open spec fn spec_translated(self, v: Vec2) -> Bounds {
        Bounds {
            min: Vec2((self.min.0 + v.0) as i64, (self.min.1 + v.1) as i64),
            max: Vec2((self.max.0 + v.0) as i64, (self.max.1 + v.1) as i64),
        }
    }

    /// The box of the given size centered on `center`; odd sizes lose their
    /// last unit to truncation.
    pub fn around(center: Vec2, size: Vec2) -> (r: Bounds)
        requires
            center.bounded(COORD_LIMIT as int),
            size.bounded(BOX_LIMIT as int),
            0 <= size.0,
            0 <= size.1,
        ensures
            r.min.0 == center.0 - div_tz(size.0 as int, 2),
            r.min.1 == center.1 - div_tz(size.1 as int, 2),
            r.max.0 == center.0 + div_tz(size.0 as int, 2),
            r.max.1 == center.1 + div_tz(size.1 as int, 2),
    {
        let half = Vec2(div_trunc(size.0, 2), div_trunc(size.1, 2));
        proof {
            lemma_div_tz_shrinks(size.0 as int, 2);
            lemma_div_tz_shrinks(size.1 as int, 2);
        }
        Bounds { min: center.minus(half), max: center.plus(half) }
    }

    /// Midpoint of the box, rounded toward zero.
    pub fn center(self) -> (r: Vec2)
        requires
            self.bounded(2 * COORD_LIMIT as int),
        ensures
            r.0 == div_tz(self.min.0 + self.max.0, 2),
            r.1 == div_tz(self.min.1 + self.max.1, 2),
    {
        Vec2(div_trunc(self.min.0 + self.max.0, 2), div_trunc(self.min.1 + self.max.1, 2))
    }

    /// Edge lengths of the box.
    pub fn size(self) -> (r: Vec2)
        requires
            self.bounded(2 * COORD_LIMIT as int),
        ensures
            r.0 == self.max.0 - self.min.0,
            r.1 == self.max.1 - self.min.1,
    {
        self.max.minus(self.min)
    }

    /// Whether the interiors of the two boxes intersect.
    pub fn overlapps(self, other: Bounds) -> (r: bool)
        ensures
            r == self.spec_overlaps(other),
    {
        (self.min.0 < other.max.0) && (self.max.0 > other.min.0) && (self.min.1 < other.max.1)
            && (self.max.1 > other.min.1)
    }

    /// Whether the point lies strictly inside the box.
    pub fn contains(self, pos: Vec2) -> (r: bool)
        ensures
            r == self.spec_contains(pos),
    {
        (pos.0 > self.min.0) && (pos.0 < self.max.0) && (pos.1 > self.min.1) && (pos.1
            < self.max.1)
    }

    /// The box shifted by `v`.
    pub fn translated(self, v: Vec2) -> (r: Bounds)
        requires
            i64::MIN <= self.min.0 + v.0 <= i64::MAX,
            i64::MIN <= self.min.1 + v.1 <= i64::MAX,
            i64::MIN <= self.max.0 + v.0 <= i64::MAX,
            i64::MIN <= self.max.1 + v.1 <= i64::MAX,
        ensures
            r == self.spec_translated(v),
    {
        Bounds { min: self.min.plus(v), max: self.max.plus(v) }
    }
}

} // verus!
