//! Fixed-point quantities shared by every subsystem.
//!
//! Lengths and world coordinates are whole millimetres, fractions (sines,
//! noise samples, the position inside a track segment) are parts per million,
//! and every quantity is a signed 64-bit integer. Products are formed in 128
//! bits and brought back with [`mul_div`], which rounds toward zero and
//! saturates.

use vstd::prelude::*;

verus! {

/// Millimetres in one world unit (a metre).
pub const MM_PER_M: i64 = 1000;

/// Parts per million in one whole.
pub const PPM: i64 = 1_000_000;

/// Largest magnitude of a world coordinate, in millimetres.
pub const WORLD_LIMIT: i64 = 1_000_000_000_000;

/// A point of the horizontal plane, in millimetres.
#[derive(Clone, Copy, Debug, PartialEq, Eq, Structural)]
pub struct Point2 {
    pub x: i64,
    pub z: i64,
}

/// A point of world space, in millimetres. `y` is the elevation.
#[derive(Clone, Copy, Debug, PartialEq, Eq, Structural)]
pub struct Point3 {
    pub x: i64,
    pub y: i64,
    pub z: i64,
}

/// Whether `v` is a coordinate inside the world.
pub open spec fn coord_in_world(v: int) -> bool {
    -WORLD_LIMIT <= v <= WORLD_LIMIT
}

/// Quotient of `n` by a positive `d`, rounded toward zero.
pub open spec fn trunc_div(n: int, d: int) -> int {
    if n >= 0 {
        n / d
    } else {
        -((-n) / d)
    }
}

/// `v` brought into the range of a signed 64-bit integer.
pub open spec fn saturate(v: int) -> int {
    if v > i64::MAX {
        i64::MAX as int
    } else if v < i64::MIN {
        i64::MIN as int
    } else {
        v
    }
}

/// Magnitude of `v`.
pub open spec fn abs_int(v: int) -> int {
    if v >= 0 {
        v
    } else {
        -v
    }
}

impl Point2 {
    /// Whether both coordinates are inside the world.
    pub open spec fn in_world(self) -> bool {
        coord_in_world(self.x as int) && coord_in_world(self.z as int)
    }

    /// Whether both coordinates are inside the world.
    pub fn is_in_world(&self) -> (r: bool)
        ensures
            r == self.in_world(),
    {
        -WORLD_LIMIT <= self.x && self.x <= WORLD_LIMIT && -WORLD_LIMIT <= self.z && self.z
            <= WORLD_LIMIT
    }
}

impl Point3 {
    /// Whether all three coordinates are inside the world.
    pub open spec fn in_world(self) -> bool {
        coord_in_world(self.x as int) && coord_in_world(self.y as int) && coord_in_world(
            self.z as int,
        )
    }

    /// The point's place on the horizontal plane.
    pub open spec fn ground(self) -> Point2 {
        Point2 { x: self.x, z: self.z }
    }

    /// Whether all three coordinates are inside the world.
    pub fn is_in_world(&self) -> (r: bool)
        ensures
            r == self.in_world(),
    {
        -WORLD_LIMIT <= self.x && self.x <= WORLD_LIMIT && -WORLD_LIMIT <= self.y && self.y
            <= WORLD_LIMIT && -WORLD_LIMIT <= self.z && self.z <= WORLD_LIMIT
    }

    /// The point's place on the horizontal plane.
    pub fn to_ground(&self) -> (r: Point2)
        ensures
            r == self.ground(),
    {
        Point2 { x: self.x, z: self.z }
    }
}

/// Whether `v` is a coordinate inside the world.
pub fn is_coord_in_world(v: i64) -> (r: bool)
    ensures
        r == coord_in_world(v as int),
{
    -WORLD_LIMIT <= v && v <= WORLD_LIMIT
}

/// Brings a 128-bit value into the range of a signed 64-bit integer.
pub fn saturate_i128(v: i128) -> (r: i64)
    ensures
        r == saturate(v as int),
{
    if v > i64::MAX as i128 {
        i64::MAX
    } else if v < i64::MIN as i128 {
        i64::MIN
    } else {
        v as i64
    }
}

/// Quotient of `n` by a positive `d`, rounded toward zero.
pub fn trunc_div_i128(n: i128, d: i128) -> (r: i128)
    requires
        d > 0,
        n > i128::MIN,
    ensures
        r == trunc_div(n as int, d as int),
        abs_int(r as int) <= abs_int(n as int),
{
    if n >= 0 {
        let q: i128 = n / d;
        assert(q <= n) by (nonlinear_arith)
            requires
                n >= 0,
                d > 0,
                q == (n as int) / (d as int),
        ;
        q
    } else {
        let m: i128 = -n;
        let q: i128 = m / d;
        assert(0 <= q <= m) by (nonlinear_arith)
            requires
                m >= 0,
                d > 0,
                q == (m as int) / (d as int),
        ;
        -q
    }
}

/// Quotient of `n` by a positive `d`, rounded down.
pub fn floor_div_i128(n: i128, d: i128) -> (r: i128)
    requires
        d > 0,
        n > i128::MIN,
    ensures
        r == (n as int) / (d as int),
{
    if n >= 0 {
        n / d
    } else {
        let m: i128 = -n;
        let q: i128 = m / d;
        let rest: i128 = m % d;
        assert(m == q * d + rest && 0 <= q <= m) by (nonlinear_arith)
            requires
                m >= 0,
                d > 0,
                q == (m as int) / (d as int),
                rest == (m as int) % (d as int),
        ;
        if rest == 0 {
            proof {
                assert(n == (-q) * d + 0) by (nonlinear_arith)
                    requires
                        n == -m,
                        m == q * d + rest,
                        rest == 0,
                ;
                vstd::arithmetic::div_mod::lemma_fundamental_div_mod_converse(
                    n as int,
                    d as int,
                    -q as int,
                    0,
                );
            }
            -q
        } else {
            proof {
                assert(n == (-q - 1) * d + (d - rest)) by (nonlinear_arith)
                    requires
                        n == -m,
                        m == q * d + rest,
                ;
                vstd::arithmetic::div_mod::lemma_fundamental_div_mod_converse(
                    n as int,
                    d as int,
                    -q - 1,
                    d - rest,
                );
            }
            -q - 1
        }
    }
}

/// `a * b / d`, rounded toward zero and saturated.
///
/// This is how a fixed-point quantity is scaled by a fraction `b / d`.
pub fn mul_div(a: i64, b: i64, d: i64) -> (r: i64)
    requires
        d > 0,
    ensures
        r == saturate(trunc_div(a * b, d as int)),
{
    let wide_a: i128 = a as i128;
    let wide_b: i128 = b as i128;
    assert(-0x4000_0000_0000_0000_0000_0000_0000_0000 <= wide_a * wide_b
        <= 0x4000_0000_0000_0000_0000_0000_0000_0000) by (nonlinear_arith)
        requires
            -0x8000_0000_0000_0000 <= wide_a <= 0x8000_0000_0000_0000,
            -0x8000_0000_0000_0000 <= wide_b <= 0x8000_0000_0000_0000,
    ;
    let product: i128 = wide_a * wide_b;
    let quotient: i128 = trunc_div_i128(product, d as i128);
    saturate_i128(quotient)
}

/// Quotient of `n` by a positive `d`, rounded toward zero and saturated.
pub fn quotient_i64(n: i128, d: i128) -> (r: i64)
    requires
        d > 0,
        n > i128::MIN,
    ensures
        r == saturate(trunc_div(n as int, d as int)),
{
    saturate_i128(trunc_div_i128(n, d))
}

/// Saturated sum.
pub fn add_saturating(a: i64, b: i64) -> (r: i64)
    ensures
        r == saturate(a + b),
{
    saturate_i128((a as i128) + (b as i128))
}

/// Saturated difference.
pub fn sub_saturating(a: i64, b: i64) -> (r: i64)
    ensures
        r == saturate(a - b),
{
    saturate_i128((a as i128) - (b as i128))
}

/// Saturated magnitude.
pub fn abs_saturating(v: i64) -> (r: i64)
    ensures
        r == saturate(abs_int(v as int)),
        r >= 0,
{
    if v >= 0 {
        v
    } else {
        saturate_i128(-(v as i128))
    }
}

/// Half of `v`, rounded toward zero.
pub fn half(v: i64) -> (r: i64)
    ensures
        r == trunc_div(v as int, 2),
{
    trunc_div_i128(v as i128, 2) as i64
}

/// Largest `r` with `r * r <= n`.
pub open spec fn is_sqrt_floor(n: int, r: int) -> bool {
    0 <= r && r * r <= n && n < (r + 1) * (r + 1)
}

/// Square root of a natural number, rounded down.
pub open spec fn sqrt_floor(n: int) -> int {
    choose|r: int| is_sqrt_floor(n, r)
}

/// A natural number has one rounded-down square root only.
pub proof fn lemma_sqrt_floor_unique(n: int, r: int)
    requires
        is_sqrt_floor(n, r),
    ensures
        sqrt_floor(n) == r,
{
    let s = sqrt_floor(n);
    assert(is_sqrt_floor(n, s));
    assert(s == r) by (nonlinear_arith)
        requires
            0 <= r,
            0 <= s,
            r * r <= n,
            n < (r + 1) * (r + 1),
            s * s <= n,
            n < (s + 1) * (s + 1),
    ;
}

/// Integer square root, rounded down.
pub fn isqrt(n: u128) -> (r: u64)
    ensures
        is_sqrt_floor(n as int, r as int),
        r == sqrt_floor(n as int),
{
    let mut low: u128 = 0;
    let mut high: u128 = 0x1_0000_0000_0000_0000;
    assert(n < high * high) by (nonlinear_arith)
        requires
            high == 0x1_0000_0000_0000_0000,
            n <= u128::MAX,
    ;
    while high - low > 1
        invariant
            low < high <= 0x1_0000_0000_0000_0000,
            low * low <= n,
            n < high * high,
        decreases high - low,
    {
        let mid: u128 = low + (high - low) / 2;
        assert(mid * mid < 0x1_0000_0000_0000_0000 * 0x1_0000_0000_0000_0000)
            by (nonlinear_arith)
            requires
                0 <= mid < 0x1_0000_0000_0000_0000,
        ;
        if mid * mid <= n {
            low = mid;
        } else {
            high = mid;
        }
    }
    assert(high == low + 1);
    proof {
        lemma_sqrt_floor_unique(n as int, low as int);
    }
    low as u64
}

/// Square of the straight-line distance between two points.
pub open spec fn distance_squared(a: Point3, b: Point3) -> int {
    (a.x - b.x) * (a.x - b.x) + (a.y - b.y) * (a.y - b.y) + (a.z - b.z) * (a.z - b.z)
}

/// Straight-line distance between two points, rounded down to a whole
/// millimetre.
pub open spec fn distance_between(a: Point3, b: Point3) -> int {
    sqrt_floor(distance_squared(a, b))
}

/// Straight-line distance between two points of the world, rounded down to a
/// whole millimetre.
pub fn distance(a: Point3, b: Point3) -> (r: u64)
    requires
        a.in_world(),
        b.in_world(),
    ensures
        is_sqrt_floor(distance_squared(a, b), r as int),
        r == distance_between(a, b),
        r <= 4_000_000_000_000,
{
    let dx: i128 = (a.x - b.x) as i128;
    let dy: i128 = (a.y - b.y) as i128;
    let dz: i128 = (a.z - b.z) as i128;
    assert(0 <= dx * dx <= 4_000_000_000_000_000_000_000_000) by (nonlinear_arith)
        requires
            -2_000_000_000_000 <= dx <= 2_000_000_000_000,
    ;
    assert(0 <= dy * dy <= 4_000_000_000_000_000_000_000_000) by (nonlinear_arith)
        requires
            -2_000_000_000_000 <= dy <= 2_000_000_000_000,
    ;
    assert(0 <= dz * dz <= 4_000_000_000_000_000_000_000_000) by (nonlinear_arith)
        requires
            -2_000_000_000_000 <= dz <= 2_000_000_000_000,
    ;
    let sum: i128 = dx * dx + dy * dy + dz * dz;
    let r: u64 = isqrt(sum as u128);
    assert(r <= 4_000_000_000_000) by (nonlinear_arith)
        requires
            r * r <= sum,
            sum <= 12_000_000_000_000_000_000_000_000,
            0 <= r,
    ;
    r
}

} // verus!
