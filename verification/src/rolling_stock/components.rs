//! What a train is made of: bogies that ride the track, and wagons that rest
//! on two bogies each.
//!
//! Masses are whole kilograms, forces millinewtons, velocities micrometres
//! per second and lengths millimetres. A position on the track counts
//! millionths of a segment: the whole part selects the segment, the rest is
//! the place inside it.

use crate::trig::SlopeAngle;
use vstd::prelude::*;

verus! {

/// A wheeled unit that rides the track.
#[derive(Clone, Copy, Debug, PartialEq, Eq, Structural)]
pub struct Bogie {
    /// Whether this bogie is the leading bogie of the wagon.
    /// `None` if not attached to any wagon.
    pub is_leading: Option<bool>,
    /// The track this bogie is currently on.
    pub current_track: Option<usize>,
    /// The position of this bogie on the current track (the "t" value), in
    /// millionths of a segment.
    pub position_on_track: i64,
}

/// The motion of a bogie and the forces on it.
#[derive(Clone, Copy, Debug, PartialEq, Eq, Structural)]
pub struct BogiePhysics {
    /// The mass of the bogie in kg.
    pub mass: i64,
    /// Velocity along the track, in micrometres per second.
    pub velocity: i64,
    /// The force that is applied regardless of the slope of the track,
    /// i.e. tractive force.
    pub horizontal_force: i64,
    /// The force that is applied depending on the slope of the track,
    /// i.e. gravity.
    pub vertical_force: i64,
    /// The force that is applied in the direction opposite to velocity,
    /// i.e. braking force, kinetic friction.
    pub kinetic_force: i64,
    /// The force that, if it is not exceeded by the sum of the horizontal and
    /// the vertical force, keeps a resting bogie from moving, i.e. braking
    /// force, static friction.
    pub static_force: i64,
    /// The slope of the track under the bogie, if the track is known there.
    pub current_slope_angle: Option<SlopeAngle>,
}

/// Specifies the wagon this part is attached to, by the wagon's index.
#[derive(Clone, Copy, Debug, PartialEq, Eq, Structural)]
pub struct AttachedToWagon(pub usize);

/// A wagon, which rests on a leading and a trailing bogie.
#[derive(Clone, Copy, Debug, PartialEq, Eq, Structural)]
pub struct Wagon {
    /// Distance at which the wagon holds its two bogies, in millimetres.
    pub distance_between_bogies: i64,
}

/// The motion of a wagon and the forces that it is driven with.
#[derive(Clone, Copy, Debug, PartialEq, Eq, Structural)]
pub struct WagonPhysics {
    /// The mass of the wagon (excluding bogies) in kg.
    pub mass: i64,
    /// The averaged velocity of the bogies attached to the wagon.
    pub velocity: i64,
    /// Force that drives the wagon, in millinewtons. Each bogie takes half.
    pub tractive_force: i64,
    /// Force that brakes the wagon, in millinewtons. Each bogie takes half.
    pub braking_force: i64,
}

/// Marks the single wagon whose status is shown.
#[derive(Clone, Copy, Debug, PartialEq, Eq, Structural)]
pub struct TrackedWagon;

} // verus!
