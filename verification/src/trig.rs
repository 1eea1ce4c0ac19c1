//! Sines and cosines of whole degrees, in parts per million.
//!
//! The table holds the sine of each whole degree of the first quadrant,
//! rounded down. The other quadrants follow by symmetry. Rounding down keeps
//! `sin * sin + cos * cos` at or below one, so that a step taken along a
//! bearing is never longer than asked for.

use crate::units::{
    distance, distance_between, distance_squared, isqrt, mul_div, sqrt_floor, trunc_div,
    trunc_div_i128, Point3, PPM,
};
use vstd::prelude::*;

verus! {

/// Sine of `degrees`, for `0 <= degrees <= 90`, in parts per million, rounded
/// down.
#[verifier::opaque]
pub open spec fn sin_quadrant(degrees: int) -> int {
    if degrees <= 0 {
        0
    } else if degrees <= 1 {
        17_452
    } else if degrees <= 2 {
        34_899
    } else if degrees <= 3 {
        52_335
    } else if degrees <= 4 {
        69_756
    } else if degrees <= 5 {
        87_155
    } else if degrees <= 6 {
        104_528
    } else if degrees <= 7 {
        121_869
    } else if degrees <= 8 {
        139_173
    } else if degrees <= 9 {
        156_434
    } else if degrees <= 10 {
        173_648
    } else if degrees <= 11 {
        190_808
    } else if degrees <= 12 {
        207_911
    } else if degrees <= 13 {
        224_951
    } else if degrees <= 14 {
        241_921
    } else if degrees <= 15 {
        258_819
    } else if degrees <= 16 {
        275_637
    } else if degrees <= 17 {
        292_371
    } else if degrees <= 18 {
        309_016
    } else if degrees <= 19 {
        325_568
    } else if degrees <= 20 {
        342_020
    } else if degrees <= 21 {
        358_367
    } else if degrees <= 22 {
        374_606
    } else if degrees <= 23 {
        390_731
    } else if degrees <= 24 {
        406_736
    } else if degrees <= 25 {
        422_618
    } else if degrees <= 26 {
        438_371
    } else if degrees <= 27 {
        453_990
    } else if degrees <= 28 {
        469_471
    } else if degrees <= 29 {
        484_809
    } else if degrees <= 30 {
        500_000
    } else if degrees <= 31 {
        515_038
    } else if degrees <= 32 {
        529_919
    } else if degrees <= 33 {
        544_639
    } else if degrees <= 34 {
        559_192
    } else if degrees <= 35 {
        573_576
    } else if degrees <= 36 {
        587_785
    } else if degrees <= 37 {
        601_815
    } else if degrees <= 38 {
        615_661
    } else if degrees <= 39 {
        629_320
    } else if degrees <= 40 {
        642_787
    } else if degrees <= 41 {
        656_059
    } else if degrees <= 42 {
        669_130
    } else if degrees <= 43 {
        681_998
    } else if degrees <= 44 {
        694_658
    } else if degrees <= 45 {
        707_106
    } else if degrees <= 46 {
        719_339
    } else if degrees <= 47 {
        731_353
    } else if degrees <= 48 {
        743_144
    } else if degrees <= 49 {
        754_709
    } else if degrees <= 50 {
        766_044
    } else if degrees <= 51 {
        777_145
    } else if degrees <= 52 {
        788_010
    } else if degrees <= 53 {
        798_635
    } else if degrees <= 54 {
        809_016
    } else if degrees <= 55 {
        819_152
    } else if degrees <= 56 {
        829_037
    } else if degrees <= 57 {
        838_670
    } else if degrees <= 58 {
        848_048
    } else if degrees <= 59 {
        857_167
    } else if degrees <= 60 {
        866_025
    } else if degrees <= 61 {
        874_619
    } else if degrees <= 62 {
        882_947
    } else if degrees <= 63 {
        891_006
    } else if degrees <= 64 {
        898_794
    } else if degrees <= 65 {
        906_307
    } else if degrees <= 66 {
        913_545
    } else if degrees <= 67 {
        920_504
    } else if degrees <= 68 {
        927_183
    } else if degrees <= 69 {
        933_580
    } else if degrees <= 70 {
        939_692
    } else if degrees <= 71 {
        945_518
    } else if degrees <= 72 {
        951_056
    } else if degrees <= 73 {
        956_304
    } else if degrees <= 74 {
        961_261
    } else if degrees <= 75 {
        965_925
    } else if degrees <= 76 {
        970_295
    } else if degrees <= 77 {
        974_370
    } else if degrees <= 78 {
        978_147
    } else if degrees <= 79 {
        981_627
    } else if degrees <= 80 {
        984_807
    } else if degrees <= 81 {
        987_688
    } else if degrees <= 82 {
        990_268
    } else if degrees <= 83 {
        992_546
    } else if degrees <= 84 {
        994_521
    } else if degrees <= 85 {
        996_194
    } else if degrees <= 86 {
        997_564
    } else if degrees <= 87 {
        998_629
    } else if degrees <= 88 {
        999_390
    } else if degrees <= 89 {
        999_847
    } else {
        1_000_000
    }
}

/// Sine of `degrees`, for `0 <= degrees < 360`, in parts per million, rounded
/// toward zero.
pub open spec fn sin_ppm(degrees: int) -> int {
    if degrees <= 90 {
        sin_quadrant(degrees)
    } else if degrees <= 180 {
        sin_quadrant(180 - degrees)
    } else if degrees <= 270 {
        -sin_quadrant(degrees - 180)
    } else {
        -sin_quadrant(360 - degrees)
    }
}

/// Cosine of `degrees`, for `0 <= degrees < 360`, in parts per million,
/// rounded toward zero.
pub open spec fn cos_ppm(degrees: int) -> int {
    sin_ppm((degrees + 90) % 360)
}

/// Sine of a whole degree of the first quadrant, in parts per million.
pub fn sin_quadrant_of(degrees: u32) -> (r: u32)
    requires
        degrees <= 90,
    ensures
        r == sin_quadrant(degrees as int),
        r <= 1_000_000,
{
    reveal(sin_quadrant);
    if degrees <= 0 {
        0
    } else if degrees <= 1 {
        17_452
    } else if degrees <= 2 {
        34_899
    } else if degrees <= 3 {
        52_335
    } else if degrees <= 4 {
        69_756
    } else if degrees <= 5 {
        87_155
    } else if degrees <= 6 {
        104_528
    } else if degrees <= 7 {
        121_869
    } else if degrees <= 8 {
        139_173
    } else if degrees <= 9 {
        156_434
    } else if degrees <= 10 {
        173_648
    } else if degrees <= 11 {
        190_808
    } else if degrees <= 12 {
        207_911
    } else if degrees <= 13 {
        224_951
    } else if degrees <= 14 {
        241_921
    } else if degrees <= 15 {
        258_819
    } else if degrees <= 16 {
        275_637
    } else if degrees <= 17 {
        292_371
    } else if degrees <= 18 {
        309_016
    } else if degrees <= 19 {
        325_568
    } else if degrees <= 20 {
        342_020
    } else if degrees <= 21 {
        358_367
    } else if degrees <= 22 {
        374_606
    } else if degrees <= 23 {
        390_731
    } else if degrees <= 24 {
        406_736
    } else if degrees <= 25 {
        422_618
    } else if degrees <= 26 {
        438_371
    } else if degrees <= 27 {
        453_990
    } else if degrees <= 28 {
        469_471
    } else if degrees <= 29 {
        484_809
    } else if degrees <= 30 {
        500_000
    } else if degrees <= 31 {
        515_038
    } else if degrees <= 32 {
        529_919
    } else if degrees <= 33 {
        544_639
    } else if degrees <= 34 {
        559_192
    } else if degrees <= 35 {
        573_576
    } else if degrees <= 36 {
        587_785
    } else if degrees <= 37 {
        601_815
    } else if degrees <= 38 {
        615_661
    } else if degrees <= 39 {
        629_320
    } else if degrees <= 40 {
        642_787
    } else if degrees <= 41 {
        656_059
    } else if degrees <= 42 {
        669_130
    } else if degrees <= 43 {
        681_998
    } else if degrees <= 44 {
        694_658
    } else if degrees <= 45 {
        707_106
    } else if degrees <= 46 {
        719_339
    } else if degrees <= 47 {
        731_353
    } else if degrees <= 48 {
        743_144
    } else if degrees <= 49 {
        754_709
    } else if degrees <= 50 {
        766_044
    } else if degrees <= 51 {
        777_145
    } else if degrees <= 52 {
        788_010
    } else if degrees <= 53 {
        798_635
    } else if degrees <= 54 {
        809_016
    } else if degrees <= 55 {
        819_152
    } else if degrees <= 56 {
        829_037
    } else if degrees <= 57 {
        838_670
    } else if degrees <= 58 {
        848_048
    } else if degrees <= 59 {
        857_167
    } else if degrees <= 60 {
        866_025
    } else if degrees <= 61 {
        874_619
    } else if degrees <= 62 {
        882_947
    } else if degrees <= 63 {
        891_006
    } else if degrees <= 64 {
        898_794
    } else if degrees <= 65 {
        906_307
    } else if degrees <= 66 {
        913_545
    } else if degrees <= 67 {
        920_504
    } else if degrees <= 68 {
        927_183
    } else if degrees <= 69 {
        933_580
    } else if degrees <= 70 {
        939_692
    } else if degrees <= 71 {
        945_518
    } else if degrees <= 72 {
        951_056
    } else if degrees <= 73 {
        956_304
    } else if degrees <= 74 {
        961_261
    } else if degrees <= 75 {
        965_925
    } else if degrees <= 76 {
        970_295
    } else if degrees <= 77 {
        974_370
    } else if degrees <= 78 {
        978_147
    } else if degrees <= 79 {
        981_627
    } else if degrees <= 80 {
        984_807
    } else if degrees <= 81 {
        987_688
    } else if degrees <= 82 {
        990_268
    } else if degrees <= 83 {
        992_546
    } else if degrees <= 84 {
        994_521
    } else if degrees <= 85 {
        996_194
    } else if degrees <= 86 {
        997_564
    } else if degrees <= 87 {
        998_629
    } else if degrees <= 88 {
        999_390
    } else if degrees <= 89 {
        999_847
    } else {
        1_000_000
    }
}

/// Sine of a whole degree of the full circle, in parts per million.
pub fn sin_of(degrees: u32) -> (r: i64)
    requires
        degrees < 360,
    ensures
        r == sin_ppm(degrees as int),
        -PPM <= r <= PPM,
{
    if degrees <= 90 {
        sin_quadrant_of(degrees) as i64
    } else if degrees <= 180 {
        sin_quadrant_of(180 - degrees) as i64
    } else if degrees <= 270 {
        -(sin_quadrant_of(degrees - 180) as i64)
    } else {
        -(sin_quadrant_of(360 - degrees) as i64)
    }
}

/// Cosine of a whole degree of the full circle, in parts per million.
pub fn cos_of(degrees: u32) -> (r: i64)
    requires
        degrees < 360,
    ensures
        r == cos_ppm(degrees as int),
        -PPM <= r <= PPM,
{
    sin_of((degrees + 90) % 360)
}

/// In the first quadrant the squares of the table's sine and cosine add up
/// to at most one, and fall short of it by less than four millionths.
pub proof fn lemma_quadrant_circle(degrees: int)
    requires
        0 <= degrees <= 90,
    ensures
        999_996_000_000 <= sin_quadrant(degrees) * sin_quadrant(degrees) + sin_quadrant(
            90 - degrees,
        ) * sin_quadrant(90 - degrees) <= 1_000_000_000_000,
        0 <= sin_quadrant(degrees) <= 1_000_000,
        0 <= sin_quadrant(90 - degrees) <= 1_000_000,
{
    if degrees <= 30 {
        lemma_quadrant_circle_range(degrees, 0, 30);
    } else if degrees <= 60 {
        lemma_quadrant_circle_range(degrees, 31, 60);
    } else {
        lemma_quadrant_circle_range(degrees, 61, 90);
    }
}

proof fn lemma_quadrant_circle_range(degrees: int, low: int, high: int)
    requires
        0 <= low <= degrees <= high <= 90,
        high - low <= 30,
    ensures
        999_996_000_000 <= sin_quadrant(degrees) * sin_quadrant(degrees) + sin_quadrant(
            90 - degrees,
        ) * sin_quadrant(90 - degrees) <= 1_000_000_000_000,
        0 <= sin_quadrant(degrees) <= 1_000_000,
        0 <= sin_quadrant(90 - degrees) <= 1_000_000,
    decreases high - low,
{
    if degrees == low {
        reveal(sin_quadrant);
        let s = sin_quadrant(degrees);
        let c = sin_quadrant(90 - degrees);
        assert(999_996_000_000 <= s * s + c * c <= 1_000_000_000_000);
    } else {
        lemma_quadrant_circle_range(degrees, low + 1, high);
    }
}

/// Around the full circle the squares of sine and cosine add up to at most
/// one, and fall short of it by less than four millionths.
pub proof fn lemma_unit_circle(degrees: int)
    requires
        0 <= degrees < 360,
    ensures
        999_996_000_000 <= sin_ppm(degrees) * sin_ppm(degrees) + cos_ppm(degrees) * cos_ppm(
            degrees,
        ) <= 1_000_000_000_000,
        -PPM <= sin_ppm(degrees) <= PPM,
        -PPM <= cos_ppm(degrees) <= PPM,
{
    let s = sin_ppm(degrees);
    let c = cos_ppm(degrees);
    if degrees <= 90 {
        lemma_quadrant_circle(degrees);
        assert(s == sin_quadrant(degrees));
        assert(c == sin_quadrant(90 - degrees) || c == -sin_quadrant(90 - degrees));
    } else if degrees <= 180 {
        lemma_quadrant_circle(180 - degrees);
        assert(s == sin_quadrant(180 - degrees));
        assert(c == -sin_quadrant(degrees - 90));
    } else if degrees <= 270 {
        lemma_quadrant_circle(degrees - 180);
        assert(s == -sin_quadrant(degrees - 180));
        if degrees == 270 {
            assert((degrees + 90) % 360 == 0);
            assert(c == sin_quadrant(270 - degrees));
        } else {
            assert((degrees + 90) % 360 == degrees + 90);
            assert(c == -sin_quadrant(270 - degrees));
        }
    } else {
        lemma_quadrant_circle(360 - degrees);
        assert(s == -sin_quadrant(360 - degrees));
        assert(c == sin_quadrant(degrees - 270));
    }
    lemma_square_of_negation(sin_quadrant(90 - degrees));
    lemma_square_of_negation(sin_quadrant(degrees - 90));
    lemma_square_of_negation(sin_quadrant(degrees - 180));
    lemma_square_of_negation(sin_quadrant(270 - degrees));
    lemma_square_of_negation(sin_quadrant(360 - degrees));
    lemma_square_of_negation(sin_quadrant(180 - degrees));
}

proof fn lemma_square_of_negation(v: int)
    ensures
        (-v) * (-v) == v * v,
{
    assert((-v) * (-v) == v * v) by (nonlinear_arith);
}

/// Eastward part of a step of `length` millimetres along `bearing`, rounded
/// toward zero. Bearings are whole degrees, counted from the `x` axis toward
/// the `z` axis.
pub open spec fn step_offset_x(length: int, bearing: int) -> int {
    trunc_div(length * cos_ppm(bearing), PPM as int)
}

/// Northward part of a step of `length` millimetres along `bearing`, rounded
/// toward zero.
pub open spec fn step_offset_z(length: int, bearing: int) -> int {
    trunc_div(length * sin_ppm(bearing), PPM as int)
}

/// The two parts of a step of `length` millimetres along `bearing`.
pub fn step_offset(length: u32, bearing: u32) -> (r: (i64, i64))
    requires
        bearing < 360,
    ensures
        r.0 == step_offset_x(length as int, bearing as int),
        r.1 == step_offset_z(length as int, bearing as int),
        -length <= r.0 <= length,
        -length <= r.1 <= length,
{
    let c: i64 = cos_of(bearing);
    let s: i64 = sin_of(bearing);
    proof {
        lemma_scaled_magnitude(length as int, c as int);
        lemma_scaled_magnitude(length as int, s as int);
    }
    (mul_div(length as i64, c, PPM), mul_div(length as i64, s, PPM))
}

/// Neither part of a step is longer than the step.
pub proof fn lemma_step_offset_bounds(length: int, bearing: int)
    requires
        0 <= length,
        0 <= bearing < 360,
    ensures
        -length <= step_offset_x(length, bearing) <= length,
        -length <= step_offset_z(length, bearing) <= length,
{
    lemma_unit_circle(bearing);
    lemma_scaled_magnitude(length, cos_ppm(bearing));
    lemma_scaled_magnitude(length, sin_ppm(bearing));
}

/// A length scaled by a fraction of at most one does not grow.
proof fn lemma_scaled_magnitude(length: int, fraction: int)
    requires
        0 <= length,
        -PPM <= fraction <= PPM,
    ensures
        -length <= trunc_div(length * fraction, PPM as int) <= length,
{
    let n = length * fraction;
    if fraction >= 0 {
        assert(0 <= n <= length * PPM) by (nonlinear_arith)
            requires
                n == length * fraction,
                0 <= length,
                0 <= fraction <= PPM,
        ;
        assert(n / (PPM as int) <= length) by (nonlinear_arith)
            requires
                0 <= n <= length * PPM,
                PPM == 1_000_000,
        ;
        assert(0 <= n / (PPM as int)) by (nonlinear_arith)
            requires
                0 <= n,
                PPM == 1_000_000,
        ;
    } else {
        assert(0 <= -n <= length * PPM) by (nonlinear_arith)
            requires
                n == length * fraction,
                0 <= length,
                -PPM <= fraction < 0,
        ;
        assert(0 <= (-n) / (PPM as int) <= length) by (nonlinear_arith)
            requires
                0 <= -n <= length * PPM,
                PPM == 1_000_000,
        ;
    }
}

/// A step is never longer than asked for: the squares of its two parts add
/// up to at most the square of its length.
pub proof fn lemma_step_is_short(length: int, bearing: int)
    requires
        0 <= length,
        0 <= bearing < 360,
    ensures
        step_offset_x(length, bearing) * step_offset_x(length, bearing) + step_offset_z(
            length,
            bearing,
        ) * step_offset_z(length, bearing) <= length * length,
{
    let c = cos_ppm(bearing);
    let s = sin_ppm(bearing);
    let dx = step_offset_x(length, bearing);
    let dz = step_offset_z(length, bearing);
    lemma_unit_circle(bearing);
    lemma_scaled_square(length, c, dx);
    lemma_scaled_square(length, s, dz);
    assert(dx * dx + dz * dz <= length * length) by (nonlinear_arith)
        requires
            dx * dx * 1_000_000_000_000 <= length * length * (c * c),
            dz * dz * 1_000_000_000_000 <= length * length * (s * s),
            s * s + c * c <= 1_000_000_000_000,
            0 <= length * length,
    ;
}

proof fn lemma_scaled_square(length: int, fraction: int, scaled: int)
    requires
        0 <= length,
        -PPM <= fraction <= PPM,
        scaled == trunc_div(length * fraction, PPM as int),
    ensures
        scaled * scaled * 1_000_000_000_000 <= length * length * (fraction * fraction),
        0 <= length * length,
{
    let magnitude = if fraction >= 0 {
        fraction
    } else {
        -fraction
    };
    let n = length * magnitude;
    assert(0 <= n) by (nonlinear_arith)
        requires
            n == length * magnitude,
            0 <= length,
            0 <= magnitude,
    ;
    let q = n / (PPM as int);
    assert(0 <= q && q * 1_000_000 <= n) by (nonlinear_arith)
        requires
            q == n / 1_000_000,
            0 <= n,
    ;
    if fraction >= 0 {
        assert(scaled == q);
    } else {
        assert(-(length * fraction) == length * magnitude) by (nonlinear_arith)
            requires
                magnitude == -fraction,
        ;
        assert(scaled == -q);
    }
    assert(scaled * scaled == q * q) by (nonlinear_arith)
        requires
            scaled == q || scaled == -q,
    ;
    assert((q * 1_000_000) * (q * 1_000_000) <= n * n) by (nonlinear_arith)
        requires
            0 <= q * 1_000_000 <= n,
    ;
    assert(n * n == length * length * (fraction * fraction)) by (nonlinear_arith)
        requires
            n == length * magnitude,
            magnitude == fraction || magnitude == -fraction,
    ;
    assert(scaled * scaled * 1_000_000_000_000 == (q * 1_000_000) * (q * 1_000_000))
        by (nonlinear_arith)
        requires
            scaled * scaled == q * q,
    ;
    assert(0 <= length * length) by (nonlinear_arith);
}

/// The slope of the track at a place, given by the sine and the cosine of its
/// angle, in parts per million. A positive sine is a climb.
#[derive(Clone, Copy, Debug, PartialEq, Eq, Structural)]
pub struct SlopeAngle {
    sin: i64,
    cos: i64,
}

impl SlopeAngle {
    /// Sine of the slope's angle, in parts per million.
    pub closed spec fn sin(self) -> i64 {
        self.sin
    }

    /// Cosine of the slope's angle, in parts per million.
    pub closed spec fn cos(self) -> i64 {
        self.cos
    }

    /// The invariant of a slope: an angle between a vertical fall and a
    /// vertical climb.
    pub open spec fn wf(self) -> bool {
        -PPM <= self.sin() <= PPM && 0 <= self.cos() <= PPM
    }

    /// The slope with the given sine and cosine. `None` unless the sine lies
    /// between minus one and one and the cosine between zero and one.
    pub fn new(sin: i64, cos: i64) -> (r: Option<SlopeAngle>)
        ensures
            r.is_some() == (-PPM <= sin <= PPM && 0 <= cos <= PPM),
            r matches Some(slope) ==> slope.sin() == sin && slope.cos() == cos && slope.wf(),
    {
        if -PPM <= sin && sin <= PPM && 0 <= cos && cos <= PPM {
            Some(SlopeAngle { sin, cos })
        } else {
            None
        }
    }

    /// Level track.
    pub fn level() -> (slope: SlopeAngle)
        ensures
            slope.sin() == 0,
            slope.cos() == PPM,
            slope.wf(),
    {
        SlopeAngle { sin: 0, cos: PPM }
    }

    /// Sine of the slope's angle, in parts per million.
    pub fn get_sin(&self) -> (r: i64)
        ensures
            r == self.sin(),
    {
        self.sin
    }

    /// Cosine of the slope's angle, in parts per million.
    pub fn get_cos(&self) -> (r: i64)
        ensures
            r == self.cos(),
    {
        self.cos
    }
}

/// Sine of the slope of the straight line from `here` to `ahead`, in parts
/// per million: the rise over the distance, rounded toward zero.
pub open spec fn slope_sin(here: Point3, ahead: Point3) -> int {
    trunc_div((ahead.y - here.y) * PPM, distance_between(here, ahead))
}

/// Cosine that belongs to a sine, both in parts per million: the root of one
/// minus the sine's square, rounded down.
pub open spec fn cos_of_sin(sin: int) -> int {
    sqrt_floor(PPM * PPM - sin * sin)
}

/// The slope of the straight line from `here` to `ahead`. `None` where the
/// two are less than a millimetre apart, so that no direction is defined.
pub fn slope_between(here: Point3, ahead: Point3) -> (r: Option<SlopeAngle>)
    requires
        here.in_world(),
        ahead.in_world(),
    ensures
        r.is_some() == (distance_between(here, ahead) >= 1),
        r matches Some(slope) ==> slope.wf() && slope.sin() == slope_sin(here, ahead)
            && slope.cos() == cos_of_sin(slope.sin() as int),
{
    let run: u64 = distance(here, ahead);
    if run == 0 {
        return None;
    }
    assert(1 <= run * run) by (nonlinear_arith)
        requires
            1 <= run,
    ;
    let rise: i128 = (ahead.y as i128) - (here.y as i128);
    proof {
        let dx = here.x - ahead.x;
        let dz = here.z - ahead.z;
        let dy = here.y - ahead.y;
        assert(0 <= dx * dx) by (nonlinear_arith);
        assert(0 <= dz * dz) by (nonlinear_arith);
        assert(dy * dy == rise * rise) by (nonlinear_arith)
            requires
                dy == -rise,
        ;
        // the rise is no longer than the whole distance
        assert(abs_rise_at_most(rise as int, run as int)) by (nonlinear_arith)
            requires
                rise * rise <= distance_squared(here, ahead),
                distance_squared(here, ahead) < (run + 1) * (run + 1),
                0 <= run,
        ;
    }
    assert(-2_000_000_000_000 <= rise <= 2_000_000_000_000);
    assert(PPM == 1_000_000);
    let scaled: i128 = rise * 1_000_000;
    let sin_wide: i128 = trunc_div_i128(scaled, run as i128);
    proof {
        lemma_ratio_at_most_one(rise as int, run as int);
    }
    let sin: i64 = sin_wide as i64;
    assert(0 <= sin_wide * sin_wide <= 1_000_000_000_000) by (nonlinear_arith)
        requires
            -1_000_000 <= sin_wide <= 1_000_000,
    ;
    let rest: i128 = 1_000_000_000_000 - sin_wide * sin_wide;
    let cos: u64 = isqrt(rest as u128);
    assert(cos <= 1_000_000) by (nonlinear_arith)
        requires
            cos * cos <= rest,
            rest <= 1_000_000_000_000,
            0 <= cos,
    ;
    Some(SlopeAngle { sin, cos: cos as i64 })
}

/// Whether a rise is no longer than a run.
pub open spec fn abs_rise_at_most(rise: int, run: int) -> bool {
    -run <= rise <= run
}

proof fn lemma_ratio_at_most_one(rise: int, run: int)
    requires
        1 <= run,
        -run <= rise <= run,
    ensures
        -PPM <= trunc_div(rise * PPM, run) <= PPM,
{
    if rise >= 0 {
        assert(0 <= (rise * PPM) / run <= PPM) by (nonlinear_arith)
            requires
                0 <= rise <= run,
                1 <= run,
                PPM == 1_000_000,
        ;
        assert(rise * PPM >= 0) by (nonlinear_arith)
            requires
                0 <= rise,
                PPM == 1_000_000,
        ;
    } else {
        assert(0 <= (-(rise * PPM)) / run <= PPM) by (nonlinear_arith)
            requires
                -run <= rise < 0,
                1 <= run,
                PPM == 1_000_000,
        ;
        assert(rise * PPM < 0) by (nonlinear_arith)
            requires
                rise < 0,
                PPM == 1_000_000,
        ;
    }
}

} // verus!
