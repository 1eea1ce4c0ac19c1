//! The height field: how the elevation of the ground is put together from
//! layers of noise.
//!
//! The noise itself is read elsewhere. For a place in the world this module
//! names the place in the noise at which each layer is read, and adds up what
//! was read there, each layer weighted less than the one before.

use crate::units::{add_saturating, mul_div, saturate, trunc_div, Point2, Point3, MM_PER_M, PPM};
use vstd::prelude::*;

verus! {

/// Seed of the noise.
pub const SEED: u32 = 1354251456;

/// Number of layers of noise.
pub const OCTAVES: usize = 4;

/// What shapes the height field.
#[derive(Clone, Copy, Debug)]
pub struct NoiseSettings {
    /// Height that the first layer adds at most, in millimetres.
    pub amplitude: i64,
    /// In parts per million.
    pub frequency: i64,
    /// Length in the world of one unit of the noise, along `x` and along `z`,
    /// in millimetres. All layers are read at the scale along `x`.
    pub scale: (i64, i64),
    pub seed: u32,
}

impl Default for NoiseSettings {
    fn default() -> (settings: NoiseSettings)
        ensures
            settings.amplitude == 25 * MM_PER_M,
            settings.frequency == PPM,
            settings.scale.0 == 1000 * MM_PER_M,
            settings.scale.1 == 1000 * MM_PER_M,
            settings.seed == SEED,
    {
        NoiseSettings {
            amplitude: 25 * MM_PER_M,
            frequency: PPM,
            scale: (1000 * MM_PER_M, 1000 * MM_PER_M),
            seed: SEED,
        }
    }
}

/// How far the place at which layer `octave` is read is shifted, in
/// millimetres, so that no two layers read the same noise.
pub open spec fn octave_shift(octave: int) -> int {
    if octave <= 0 {
        0
    } else if octave == 1 {
        100 * MM_PER_M
    } else if octave == 2 {
        200 * MM_PER_M
    } else {
        400 * MM_PER_M
    }
}

/// Height that layer `octave` adds at most: the amplitude for the first
/// layer, a half, a third and a quarter of it for those that follow.
pub open spec fn octave_amplitude(amplitude: i64, octave: int) -> int {
    trunc_div(amplitude as int, octave + 1)
}

/// One coordinate of the place in the noise at which layer `octave` is read
/// for the world coordinate `position`, in millionths of a unit of the noise.
/// The height field is centred on a chunk and moved by `offset`.
pub open spec fn noise_coordinate(
    position: i64,
    chunk_size_mm: i64,
    offset: i64,
    octave: int,
    scale: i64,
) -> int {
    let base = saturate(saturate(position - trunc_div(chunk_size_mm as int, 2)) + offset);
    saturate(trunc_div(saturate(base + octave_shift(octave)) * PPM, scale as int))
}

/// The height that the layers add up to, given what each of them reads, in
/// parts per million between minus one and one, over a ground that lies at
/// `base`. Layers beyond the first `octaves` are left out.
pub open spec fn layered_height(amplitude: i64, base: i64, samples: Seq<i64>, octaves: int) -> int
    decreases octaves,
{
    if octaves <= 0 {
        base as int
    } else {
        saturate(
            layered_height(amplitude, base, samples, octaves - 1) + saturate(
                trunc_div(octave_amplitude(amplitude, octaves - 1) * samples[octaves - 1], PPM as int),
            ),
        )
    }
}

/// How far the place at which a layer is read is shifted.
fn octave_shift_of(octave: usize) -> (r: i64)
    ensures
        r == octave_shift(octave as int),
{
    if octave == 0 {
        0
    } else if octave == 1 {
        100 * MM_PER_M
    } else if octave == 2 {
        200 * MM_PER_M
    } else {
        400 * MM_PER_M
    }
}

/// One coordinate of the place in the noise at which a layer is read.
fn noise_coordinate_of(position: i64, chunk_size_mm: i64, offset: i64, octave: usize, scale: i64) -> (r:
    i64)
    requires
        scale > 0,
    ensures
        r == noise_coordinate(position, chunk_size_mm, offset, octave as int, scale),
{
    let centred = crate::units::sub_saturating(position, crate::units::half(chunk_size_mm));
    let base = add_saturating(centred, offset);
    mul_div(add_saturating(base, octave_shift_of(octave)), PPM, scale)
}

impl NoiseSettings {
    /// Whether the height field is defined: the noise has a positive scale.
    pub open spec fn valid(self) -> bool {
        self.scale.0 > 0
    }

    /// The places in the noise at which the layers are read for a place in
    /// the world, in millionths of a unit of the noise, the first layer
    /// first. `None` unless the settings are valid.
    pub fn heightmap_sample_points(&self, chunk_size_mm: i64, offset: Point3, position: Point2) -> (points:
        Option<Vec<Point2>>)
        ensures
            points.is_some() == self.valid(),
            points matches Some(p) ==> p.len() == OCTAVES && forall|k: int|
                0 <= k < OCTAVES ==> #[trigger] p[k] == (Point2 {
                    x: noise_coordinate(position.x, chunk_size_mm, offset.x, k, self.scale.0) as i64,
                    z: noise_coordinate(position.z, chunk_size_mm, offset.z, k, self.scale.0) as i64,
                }),
    {
        if self.scale.0 <= 0 {
            return None;
        }
        let mut points: Vec<Point2> = Vec::new();
        let mut k: usize = 0;
        while k < OCTAVES
            invariant
                k <= OCTAVES,
                self.scale.0 > 0,
                points.len() == k,
                forall|j: int|
                    0 <= j < k ==> #[trigger] points[j] == (Point2 {
                        x: noise_coordinate(
                            position.x,
                            chunk_size_mm,
                            offset.x,
                            j,
                            self.scale.0,
                        ) as i64,
                        z: noise_coordinate(
                            position.z,
                            chunk_size_mm,
                            offset.z,
                            j,
                            self.scale.0,
                        ) as i64,
                    }),
            decreases OCTAVES - k,
        {
            points.push(
                Point2 {
                    x: noise_coordinate_of(position.x, chunk_size_mm, offset.x, k, self.scale.0),
                    z: noise_coordinate_of(position.z, chunk_size_mm, offset.z, k, self.scale.0),
                },
            );
            k += 1;
        }
        Some(points)
    }

    /// The elevation of the ground at a place, given what each layer of the
    /// noise reads there, in parts per million between minus one and one.
    /// `offset` moves the height field; its elevation is the ground's where
    /// the noise reads zero. `None` unless there is one sample per layer.
    pub fn heightmap_elevation(&self, offset: Point3, samples: &Vec<i64>) -> (elevation: Option<i64>)
        ensures
            elevation.is_some() == (samples.len() == OCTAVES),
            elevation matches Some(e) ==> e == layered_height(
                self.amplitude,
                offset.y,
                samples@,
                OCTAVES as int,
            ),
    {
        if samples.len() != OCTAVES {
            return None;
        }
        let mut height: i64 = offset.y;
        let mut k: usize = 0;
        while k < OCTAVES
            invariant
                k <= OCTAVES,
                samples.len() == OCTAVES,
                height == layered_height(self.amplitude, offset.y, samples@, k as int),
            decreases OCTAVES - k,
        {
            let amplitude: i64 = crate::units::quotient_i64(self.amplitude as i128, (k as i128) + 1);
            proof {
                assert(amplitude == octave_amplitude(self.amplitude, k as int)) by {
                    lemma_share_fits(self.amplitude as int, k as int + 1);
                }
            }
            height = add_saturating(height, mul_div(amplitude, samples[k], PPM));
            k += 1;
        }
        Some(height)
    }
}

/// A share of a 64-bit value is a 64-bit value.
proof fn lemma_share_fits(value: int, parts: int)
    requires
        i64::MIN <= value <= i64::MAX,
        1 <= parts,
    ensures
        saturate(trunc_div(value, parts)) == trunc_div(value, parts),
{
    if value >= 0 {
        assert(0 <= value / parts <= value) by (nonlinear_arith)
            requires
                0 <= value,
                1 <= parts,
        ;
    } else {
        assert(0 <= (-value) / parts <= -value) by (nonlinear_arith)
            requires
                0 <= -value,
                1 <= parts,
        ;
    }
}

} // verus!
