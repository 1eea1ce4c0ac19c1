//! The rules for bogies: forces, velocities and places on the track.

use crate::rolling_stock::components::{Bogie, BogiePhysics, WagonPhysics};
use crate::rolling_stock::utils::{carried_mass, get_carried_mass, wagon_of};
use crate::rolling_stock::{bogie_fits, BogieBundle, RollingStock};
use crate::trig::SlopeAngle;
use crate::units::{
    abs_int, abs_saturating, add_saturating, half, mul_div, quotient_i64, saturate,
    sub_saturating, trunc_div, Point3, PPM,
};
use vstd::prelude::*;

verus! {

/// Acceleration of gravity, in millimetres per second squared.
pub const GRAV_ACCELERATION: i64 = -9_800;

/// Number of physics steps in a second.
pub const PHYSICS_TICKS_PER_SECOND: i64 = 60;

/// Metres of travel that move a bogie on by one track segment.
pub const T_COEFFICIENT: i64 = 100;

/// Coefficient of kinetic friction, in parts per million.
pub const KINETIC_FRICTION_COEFFICIENT: i64 = 1_000;

/// Coefficient of static friction, in parts per million.
pub const STATIC_FRICTION_COEFFICIENT: i64 = 10_000;

/// Speed at or below which a bogie counts as standing, in micrometres per
/// second.
pub const STANDSTILL_SPEED: i64 = 1_000;

/// `value` scaled by a fraction given in parts per million.
pub open spec fn scaled(value: int, fraction: int) -> int {
    saturate(trunc_div(value * fraction, PPM as int))
}

/// The weight of a mass, in millinewtons. It points down, so it is negative.
pub open spec fn weight(mass: int) -> int {
    saturate(mass * GRAV_ACCELERATION)
}

/// Friction of a mass on a slope, in millinewtons:
/// `coefficient * mass * |gravity| * cos(slope)`.
pub open spec fn friction(mass: int, coefficient: int, slope: SlopeAngle) -> int {
    saturate(abs_int(scaled(scaled(weight(mass), slope.cos() as int), coefficient)))
}

/// The force along the track that gravity puts on a mass on a slope, in
/// millinewtons: `mass * gravity * sin(slope)`.
pub open spec fn slope_force(mass: int, slope: SlopeAngle) -> int {
    scaled(weight(mass), slope.sin() as int)
}

/// The braking force that a wagon puts on each of its bogies.
pub open spec fn braking_share(wagon: Option<WagonPhysics>) -> int {
    match wagon {
        Some(w) => trunc_div(w.braking_force as int, 2),
        None => 0,
    }
}

/// The tractive force that a wagon puts on each of its bogies.
pub open spec fn tractive_share(wagon: Option<WagonPhysics>) -> int {
    match wagon {
        Some(w) => trunc_div(w.tractive_force as int, 2),
        None => 0,
    }
}

/// A bogie's physics after its static and kinetic force are set. Nothing
/// changes while the slope under the bogie is unknown.
pub open spec fn with_static_kinetic_forces(physics: BogiePhysics, wagon: Option<WagonPhysics>) -> BogiePhysics {
    match physics.current_slope_angle {
        Some(slope) => {
            let mass = carried_mass(physics, wagon);
            BogiePhysics {
                static_force: saturate(
                    braking_share(wagon) + friction(mass, STATIC_FRICTION_COEFFICIENT as int, slope),
                ) as i64,
                kinetic_force: saturate(
                    braking_share(wagon) + friction(
                        mass,
                        KINETIC_FRICTION_COEFFICIENT as int,
                        slope,
                    ),
                ) as i64,
                ..physics
            }
        },
        None => physics,
    }
}

/// A bogie's physics after its horizontal force is set.
pub open spec fn with_horizontal_force(physics: BogiePhysics, wagon: Option<WagonPhysics>) -> BogiePhysics {
    BogiePhysics { horizontal_force: tractive_share(wagon) as i64, ..physics }
}

/// A bogie's physics after its vertical force is set. Nothing changes while
/// the slope under the bogie is unknown.
pub open spec fn with_vertical_force(physics: BogiePhysics, wagon: Option<WagonPhysics>) -> BogiePhysics {
    match physics.current_slope_angle {
        Some(slope) => BogiePhysics {
            vertical_force: slope_force(carried_mass(physics, wagon), slope) as i64,
            ..physics
        },
        None => physics,
    }
}

/// The change of velocity that a force gives a mass within one physics step,
/// in micrometres per second.
pub open spec fn velocity_change(force: int, mass: int) -> int {
    saturate(trunc_div(force * 1000, mass * PHYSICS_TICKS_PER_SECOND))
}

/// A velocity with standstill made exact: zero at or below
/// `STANDSTILL_SPEED`.
pub open spec fn settled(velocity: int) -> int {
    if abs_int(velocity) <= STANDSTILL_SPEED {
        0
    } else {
        velocity
    }
}

/// The force that drives a bogie: the sum of its vertical and its horizontal
/// force.
pub open spec fn driving_force(physics: BogiePhysics) -> int {
    saturate(physics.vertical_force + physics.horizontal_force)
}

/// Whether static friction holds a bogie in place: it stands and the force
/// that drives it does not exceed its static force.
pub open spec fn held_by_stiction(physics: BogiePhysics) -> bool {
    settled(physics.velocity as int) == 0 && abs_int(driving_force(physics))
        <= physics.static_force
}

/// A bogie's velocity after one physics step.
///
/// While the slope is unknown the velocity stays. Otherwise standstill is
/// made exact first. A bogie held by stiction, or one that carries no mass,
/// keeps that velocity. Any other is slowed by its kinetic force, against the
/// direction in which it moves (a standing bogie counts as moving forward),
/// and then sped up by the force that drives it.
pub open spec fn velocity_after_forces(physics: BogiePhysics, mass: int) -> int {
    if physics.current_slope_angle.is_none() {
        physics.velocity as int
    } else if held_by_stiction(physics) || mass <= 0 {
        settled(physics.velocity as int)
    } else {
        let start = settled(physics.velocity as int);
        let braking = velocity_change(physics.kinetic_force as int, mass);
        let slowed = if start < 0 {
            saturate(start + braking)
        } else {
            saturate(start - braking)
        };
        saturate(slowed + velocity_change(driving_force(physics), mass))
    }
}

/// A bogie's physics after its forces are applied.
pub open spec fn with_forces_applied(physics: BogiePhysics, wagon: Option<WagonPhysics>) -> BogiePhysics {
    BogiePhysics {
        velocity: velocity_after_forces(physics, carried_mass(physics, wagon)) as i64,
        ..physics
    }
}

/// The way that a velocity takes a bogie within one physics step, in
/// millionths of a segment.
pub open spec fn travel(velocity: int) -> int {
    trunc_div(velocity, PHYSICS_TICKS_PER_SECOND * T_COEFFICIENT)
}

/// A bogie after its velocity is applied to its place on the track.
pub open spec fn with_velocity_applied(bogie: Bogie, physics: BogiePhysics) -> Bogie {
    Bogie {
        position_on_track: saturate(bogie.position_on_track + travel(physics.velocity as int)) as i64,
        ..bogie
    }
}

/// `value` scaled by a fraction given in parts per million.
fn scale(value: i64, fraction: i64) -> (r: i64)
    ensures
        r == scaled(value as int, fraction as int),
{
    mul_div(value, fraction, PPM)
}

/// The weight of a mass, in millinewtons.
fn weight_of(mass: i64) -> (r: i64)
    ensures
        r == weight(mass as int),
{
    mul_div(mass, GRAV_ACCELERATION, 1)
}

/// Friction of a mass on a slope, in millinewtons.
fn friction_of(mass: i64, coefficient: i64, slope: &SlopeAngle) -> (r: i64)
    ensures
        r == friction(mass as int, coefficient as int, *slope),
{
    abs_saturating(scale(scale(weight_of(mass), slope.get_cos()), coefficient))
}

/// The change of velocity that a force gives a mass within one physics step.
fn velocity_change_of(force: i64, mass: i64) -> (r: i64)
    requires
        mass > 0,
    ensures
        r == velocity_change(force as int, mass as int),
{
    assert(PHYSICS_TICKS_PER_SECOND == 60);
    quotient_i64((force as i128) * 1000, (mass as i128) * 60)
}

/// Sets a bogie's static and kinetic force from the slope under it.
pub fn set_static_kinetic_forces(physics: &BogiePhysics, wagon: Option<WagonPhysics>) -> (r: BogiePhysics)
    ensures
        r == with_static_kinetic_forces(*physics, wagon),
{
    match physics.current_slope_angle {
        Some(slope) => {
            let wagon_braking_force: i64 = match wagon {
                Some(w) => half(w.braking_force),
                None => 0,
            };
            let mass = get_carried_mass(physics, wagon);
            let static_friction = friction_of(mass, STATIC_FRICTION_COEFFICIENT, &slope);
            let kinetic_friction = friction_of(mass, KINETIC_FRICTION_COEFFICIENT, &slope);
            BogiePhysics {
                mass: physics.mass,
                velocity: physics.velocity,
                horizontal_force: physics.horizontal_force,
                vertical_force: physics.vertical_force,
                kinetic_force: add_saturating(wagon_braking_force, kinetic_friction),
                static_force: add_saturating(wagon_braking_force, static_friction),
                current_slope_angle: physics.current_slope_angle,
            }
        },
        None => *physics,
    }
}

/// Sets a bogie's horizontal force: half of its wagon's tractive force.
pub fn set_horizontal_force(physics: &BogiePhysics, wagon: Option<WagonPhysics>) -> (r: BogiePhysics)
    ensures
        r == with_horizontal_force(*physics, wagon),
{
    let wagon_tractive_force: i64 = match wagon {
        Some(w) => w.tractive_force,
        None => 0,
    };
    BogiePhysics {
        mass: physics.mass,
        velocity: physics.velocity,
        horizontal_force: half(wagon_tractive_force),
        vertical_force: physics.vertical_force,
        kinetic_force: physics.kinetic_force,
        static_force: physics.static_force,
        current_slope_angle: physics.current_slope_angle,
    }
}

/// Sets a bogie's vertical force from the slope under it.
pub fn set_vertical_force(physics: &BogiePhysics, wagon: Option<WagonPhysics>) -> (r: BogiePhysics)
    ensures
        r == with_vertical_force(*physics, wagon),
{
    match physics.current_slope_angle {
        Some(slope) => {
            let mass = get_carried_mass(physics, wagon);
            BogiePhysics {
                mass: physics.mass,
                velocity: physics.velocity,
                horizontal_force: physics.horizontal_force,
                vertical_force: scale(weight_of(mass), slope.get_sin()),
                kinetic_force: physics.kinetic_force,
                static_force: physics.static_force,
                current_slope_angle: physics.current_slope_angle,
            }
        },
        None => *physics,
    }
}

/// Applies a bogie's forces to its velocity, for one physics step.
pub fn apply_forces(physics: &BogiePhysics, wagon: Option<WagonPhysics>) -> (r: BogiePhysics)
    ensures
        r == with_forces_applied(*physics, wagon),
{
    if physics.current_slope_angle.is_none() {
        return *physics;
    }
    // Set the velocity to 0 if it's small.
    let mut velocity: i64 = physics.velocity;
    if -STANDSTILL_SPEED <= velocity && velocity <= STANDSTILL_SPEED {
        velocity = 0;
    }
    let drive = add_saturating(physics.vertical_force, physics.horizontal_force);
    let mass = get_carried_mass(physics, wagon);
    // Do not start moving the bogie if the sum of vertical and horizontal
    // forces does not exceed the static force.
    let drive_size: i128 = if drive >= 0 {
        drive as i128
    } else {
        -(drive as i128)
    };
    let held = velocity == 0 && drive_size <= physics.static_force as i128;
    if !held && mass > 0 {
        // Apply the kinetic force (opposite to velocity).
        let braking = velocity_change_of(physics.kinetic_force, mass);
        velocity = if velocity < 0 {
            add_saturating(velocity, braking)
        } else {
            sub_saturating(velocity, braking)
        };
        // Finally, apply the vertical and horizontal forces.
        velocity = add_saturating(velocity, velocity_change_of(drive, mass));
    }
    BogiePhysics {
        mass: physics.mass,
        velocity,
        horizontal_force: physics.horizontal_force,
        vertical_force: physics.vertical_force,
        kinetic_force: physics.kinetic_force,
        static_force: physics.static_force,
        current_slope_angle: physics.current_slope_angle,
    }
}

/// Applies a bogie's velocity to its place on the track, for one physics
/// step.
pub fn apply_velocity(bogie: &Bogie, physics: &BogiePhysics) -> (r: Bogie)
    ensures
        r == with_velocity_applied(*bogie, *physics),
{
    assert(PHYSICS_TICKS_PER_SECOND * T_COEFFICIENT == 6000);
    let step = quotient_i64(physics.velocity as i128, 6000);
    Bogie {
        is_leading: bogie.is_leading,
        current_track: bogie.current_track,
        position_on_track: add_saturating(bogie.position_on_track, step),
    }
}

/// The rules that are applied to every bogie of a train.
#[derive(Clone, Copy, Debug, PartialEq, Eq, Structural)]
pub enum BogieRule {
    SetStaticKineticForces,
    SetHorizontalForces,
    SetVerticalForces,
    ApplyForces,
    ApplyVelocities,
}

/// A bogie after a rule is applied to it.
pub open spec fn after_rule(rule: BogieRule, bundle: BogieBundle, wagon: Option<WagonPhysics>) -> BogieBundle {
    match rule {
        BogieRule::SetStaticKineticForces => BogieBundle {
            physics: with_static_kinetic_forces(bundle.physics, wagon),
            ..bundle
        },
        BogieRule::SetHorizontalForces => BogieBundle {
            physics: with_horizontal_force(bundle.physics, wagon),
            ..bundle
        },
        BogieRule::SetVerticalForces => BogieBundle {
            physics: with_vertical_force(bundle.physics, wagon),
            ..bundle
        },
        BogieRule::ApplyForces => BogieBundle {
            physics: with_forces_applied(bundle.physics, wagon),
            ..bundle
        },
        BogieRule::ApplyVelocities => BogieBundle {
            bogie: with_velocity_applied(bundle.bogie, bundle.physics),
            ..bundle
        },
    }
}

/// Whether `after` is `before` with a rule applied to every bogie, each with
/// the wagon that it carries. The wagons stay as they are.
pub open spec fn rule_applied(rule: BogieRule, before: RollingStock, after: RollingStock) -> bool {
    &&& after.wagons() == before.wagons()
    &&& after.bogies().len() == before.bogies().len()
    &&& forall|i: int|
        0 <= i < before.bogies().len() ==> #[trigger] after.bogies()[i] == after_rule(
            rule,
            before.bogies()[i],
            wagon_of(before.bogies()[i], before.wagons()),
        )
}

/// Applies a rule to one bogie.
fn apply_rule(rule: BogieRule, bundle: &BogieBundle, wagon: Option<WagonPhysics>) -> (r: BogieBundle)
    ensures
        r == after_rule(rule, *bundle, wagon),
{
    let physics = match rule {
        BogieRule::SetStaticKineticForces => set_static_kinetic_forces(&bundle.physics, wagon),
        BogieRule::SetHorizontalForces => set_horizontal_force(&bundle.physics, wagon),
        BogieRule::SetVerticalForces => set_vertical_force(&bundle.physics, wagon),
        BogieRule::ApplyForces => apply_forces(&bundle.physics, wagon),
        BogieRule::ApplyVelocities => bundle.physics,
    };
    let bogie = match rule {
        BogieRule::ApplyVelocities => apply_velocity(&bundle.bogie, &bundle.physics),
        _ => bundle.bogie,
    };
    BogieBundle { bogie, physics, attached_to: bundle.attached_to, translation: bundle.translation }
}

impl RollingStock {
    /// Applies a rule to every bogie.
    pub fn apply_to_bogies(&mut self, rule: BogieRule)
        requires
            old(self).wf(),
        ensures
            final(self).wf(),
            rule_applied(rule, *old(self), *final(self)),
    {
        let count = self.bogie_count();
        let mut i: usize = 0;
        while i < count
            invariant
                i <= count,
                count == old(self).bogies().len(),
                self.wf(),
                self.wagons() == old(self).wagons(),
                self.bogies().len() == count,
                forall|j: int|
                    0 <= j < i ==> #[trigger] self.bogies()[j] == after_rule(
                        rule,
                        old(self).bogies()[j],
                        wagon_of(old(self).bogies()[j], old(self).wagons()),
                    ),
                forall|j: int| i <= j < count ==> #[trigger] self.bogies()[j] == old(self).bogies()[j],
            decreases count - i,
        {
            let bundle = self.get_bogie(i).unwrap();
            let wagon = self.wagon_physics_of(i);
            let updated = apply_rule(rule, &bundle, wagon);
            assert(bogie_fits(bundle, self.wagons().len() as int));
            self.put_bogie(i, updated);
            i += 1;
        }
    }

    /// Sets the static and the kinetic force of every bogie: friction on the
    /// slope under it, and half of its wagon's braking force.
    pub fn set_bogie_static_kinetic_forces(&mut self)
        requires
            old(self).wf(),
        ensures
            final(self).wf(),
            rule_applied(BogieRule::SetStaticKineticForces, *old(self), *final(self)),
    {
        self.apply_to_bogies(BogieRule::SetStaticKineticForces)
    }

    /// Sets the horizontal force of every bogie: half of its wagon's tractive
    /// force.
    pub fn set_bogie_horizontal_forces(&mut self)
        requires
            old(self).wf(),
        ensures
            final(self).wf(),
            rule_applied(BogieRule::SetHorizontalForces, *old(self), *final(self)),
    {
        self.apply_to_bogies(BogieRule::SetHorizontalForces)
    }

    /// Sets the vertical force of every bogie: the pull of gravity along the
    /// slope under it.
    pub fn set_bogie_vertical_forces(&mut self)
        requires
            old(self).wf(),
        ensures
            final(self).wf(),
            rule_applied(BogieRule::SetVerticalForces, *old(self), *final(self)),
    {
        self.apply_to_bogies(BogieRule::SetVerticalForces)
    }

    /// Applies the forces of every bogie to its velocity.
    pub fn apply_bogie_forces(&mut self)
        requires
            old(self).wf(),
        ensures
            final(self).wf(),
            rule_applied(BogieRule::ApplyForces, *old(self), *final(self)),
    {
        self.apply_to_bogies(BogieRule::ApplyForces)
    }

    /// Applies the velocity of every bogie to its place on the track.
    pub fn apply_bogie_velocities(&mut self)
        requires
            old(self).wf(),
        ensures
            final(self).wf(),
            rule_applied(BogieRule::ApplyVelocities, *old(self), *final(self)),
    {
        self.apply_to_bogies(BogieRule::ApplyVelocities)
    }

    /// Records the slope of the track under a bogie, or that the track is not
    /// known there. Returns whether the bogie exists.
    pub fn update_bogie_current_slope_angle(&mut self, bogie: usize, slope_angle: Option<SlopeAngle>) -> (done:
        bool)
        requires
            old(self).wf(),
        ensures
            final(self).wf(),
            final(self).wagons() == old(self).wagons(),
            done == (bogie < old(self).bogies().len()),
            done ==> final(self).bogies() == old(self).bogies().update(
                bogie as int,
                BogieBundle {
                    physics: BogiePhysics {
                        current_slope_angle: slope_angle,
                        ..old(self).bogies()[bogie as int].physics
                    },
                    ..old(self).bogies()[bogie as int]
                },
            ),
            !done ==> final(self).bogies() == old(self).bogies(),
    {
        match self.get_bogie(bogie) {
            Some(bundle) => {
                assert(bogie_fits(bundle, self.wagons().len() as int));
                self.put_bogie(
                    bogie,
                    BogieBundle {
                        bogie: bundle.bogie,
                        physics: BogiePhysics {
                            mass: bundle.physics.mass,
                            velocity: bundle.physics.velocity,
                            horizontal_force: bundle.physics.horizontal_force,
                            vertical_force: bundle.physics.vertical_force,
                            kinetic_force: bundle.physics.kinetic_force,
                            static_force: bundle.physics.static_force,
                            current_slope_angle: slope_angle,
                        },
                        attached_to: bundle.attached_to,
                        translation: bundle.translation,
                    },
                );
                true
            },
            None => false,
        }
    }

    /// Moves a bogie to where the track puts it. The bogie stays where it is
    /// while the slope under it is unknown, the track has no place for it, or
    /// that place lies outside the world. Returns whether the bogie moved.
    pub fn update_bogie_transforms(&mut self, bogie: usize, position: Option<Point3>) -> (moved: bool)
        requires
            old(self).wf(),
        ensures
            final(self).wf(),
            final(self).wagons() == old(self).wagons(),
            moved == bogie_moves(old(self).bogies(), bogie as int, position),
            moved ==> final(self).bogies() == old(self).bogies().update(
                bogie as int,
                BogieBundle { translation: position.unwrap(), ..old(self).bogies()[bogie as int] },
            ),
            !moved ==> final(self).bogies() == old(self).bogies(),
    {
        match self.get_bogie(bogie) {
            Some(bundle) => {
                if bundle.physics.current_slope_angle.is_none() {
                    return false;
                }
                match position {
                    Some(place) => {
                        if !place.is_in_world() {
                            return false;
                        }
                        assert(bogie_fits(bundle, self.wagons().len() as int));
                        self.put_bogie(
                            bogie,
                            BogieBundle {
                                bogie: bundle.bogie,
                                physics: bundle.physics,
                                attached_to: bundle.attached_to,
                                translation: place,
                            },
                        );
                        true
                    },
                    None => false,
                }
            },
            None => false,
        }
    }
}

/// Whether a bogie is moved to `position`: the bogie exists, the slope under
/// it is known, and the position is one of the world.
pub open spec fn bogie_moves(bogies: Seq<BogieBundle>, bogie: int, position: Option<Point3>) -> bool {
    &&& 0 <= bogie < bogies.len()
    &&& bogies[bogie].physics.current_slope_angle.is_some()
    &&& position matches Some(place) && place.in_world()
}

/// Stiction gate: a bogie that stands, with a force driving it that does not
/// exceed its static force, still stands after its forces are applied.
pub proof fn lemma_stiction_gate(physics: BogiePhysics, wagon: Option<WagonPhysics>)
    requires
        physics.velocity == 0,
        abs_int(driving_force(physics)) <= physics.static_force,
    ensures
        with_forces_applied(physics, wagon).velocity == 0,
        with_forces_applied(physics, wagon) == physics,
{
}

} // verus!
