//! The order of a tick: forces are set before they are applied, and the
//! bogies of a wagon are brought in step and held at their distance after
//! they have moved.

use crate::rolling_stock::bogie_systems::{
    after_rule, driving_force, rule_applied, with_forces_applied, with_horizontal_force,
    with_static_kinetic_forces, with_vertical_force, BogieRule,
};
use crate::rolling_stock::utils::{is_attached_to, wagon_of};
use crate::rolling_stock::wagon_systems::{
    bogies_constrained, velocities_synced, with_rod_constraint, with_synced_velocity,
};
use crate::rolling_stock::{BogieBundle, RollingStock};
use crate::units::abs_int;
use vstd::prelude::*;

verus! {

/// Whether `after` is `before` with the forces of every bogie set from the
/// slope under it and from the wagon that it carries.
pub open spec fn forces_set(before: RollingStock, after: RollingStock) -> bool {
    &&& after.wagons() == before.wagons()
    &&& after.bogies().len() == before.bogies().len()
    &&& forall|i: int|
        0 <= i < before.bogies().len() ==> #[trigger] after.bogies()[i] == (BogieBundle {
            physics: with_horizontal_force(
                with_vertical_force(
                    with_static_kinetic_forces(
                        before.bogies()[i].physics,
                        wagon_of(before.bogies()[i], before.wagons()),
                    ),
                    wagon_of(before.bogies()[i], before.wagons()),
                ),
                wagon_of(before.bogies()[i], before.wagons()),
            ),
            ..before.bogies()[i]
        })
}

/// Whether `after` is `before` one fixed step later: `forced` is `before`
/// with the forces applied, `moved` is `forced` with the velocities applied,
/// `synced` is `moved` with the velocities of each wagon's bogies brought to
/// their mean, and `after` is `synced` with the distances between the bogies
/// seen to, if there is a track.
pub open spec fn stepped_through(
    before: RollingStock,
    forced: RollingStock,
    moved: RollingStock,
    synced: RollingStock,
    after: RollingStock,
    track_present: bool,
) -> bool {
    &&& rule_applied(BogieRule::ApplyForces, before, forced)
    &&& rule_applied(BogieRule::ApplyVelocities, forced, moved)
    &&& velocities_synced(moved, synced)
    &&& track_present ==> bogies_constrained(synced, after)
    &&& !track_present ==> after.bogies() == synced.bogies() && after.wagons() == synced.wagons()
}

/// Whether `after` is `before` one fixed step later.
pub open spec fn fixed_step(before: RollingStock, after: RollingStock, track_present: bool) -> bool {
    exists|forced: RollingStock, moved: RollingStock, synced: RollingStock|
        stepped_through(before, forced, moved, synced, after, track_present)
}

impl RollingStock {
    /// Sets the forces of every bogie: static and kinetic force, vertical
    /// force and horizontal force. This is the part of a tick that comes
    /// before the fixed steps.
    pub fn set_bogie_forces(&mut self)
        requires
            old(self).wf(),
        ensures
            final(self).wf(),
            forces_set(*old(self), *final(self)),
    {
        self.set_bogie_static_kinetic_forces();
        let ghost first = *self;
        self.set_bogie_vertical_forces();
        let ghost second = *self;
        self.set_bogie_horizontal_forces();
        proof {
            assert forall|i: int| 0 <= i < old(self).bogies().len() implies #[trigger] self.bogies()[i]
                == (BogieBundle {
                physics: with_horizontal_force(
                    with_vertical_force(
                        with_static_kinetic_forces(
                            old(self).bogies()[i].physics,
                            wagon_of(old(self).bogies()[i], old(self).wagons()),
                        ),
                        wagon_of(old(self).bogies()[i], old(self).wagons()),
                    ),
                    wagon_of(old(self).bogies()[i], old(self).wagons()),
                ),
                ..old(self).bogies()[i]
            }) by {
                assert(first.bogies()[i] == after_rule(
                    BogieRule::SetStaticKineticForces,
                    old(self).bogies()[i],
                    wagon_of(old(self).bogies()[i], old(self).wagons()),
                ));
                assert(second.bogies()[i] == after_rule(
                    BogieRule::SetVerticalForces,
                    first.bogies()[i],
                    wagon_of(first.bogies()[i], first.wagons()),
                ));
                assert(self.bogies()[i] == after_rule(
                    BogieRule::SetHorizontalForces,
                    second.bogies()[i],
                    wagon_of(second.bogies()[i], second.wagons()),
                ));
            }
        }
    }

    /// One fixed step of the train: the forces are applied to the
    /// velocities, the velocities to the places on the track, the bogies of
    /// each wagon are brought to one velocity, and the trailing bogies are
    /// held at their distance.
    pub fn fixed_update(&mut self, track_present: bool)
        requires
            old(self).wf(),
        ensures
            final(self).wf(),
            fixed_step(*old(self), *final(self), track_present),
    {
        self.apply_bogie_forces();
        let ghost forced = *self;
        self.apply_bogie_velocities();
        let ghost moved = *self;
        self.sync_bogie_velocities();
        let ghost synced = *self;
        self.constrain_attached_bogies(track_present);
        proof {
            assert(stepped_through(*old(self), forced, moved, synced, *self, track_present));
        }
    }
}

/// Bogie-pair sync: after a fixed step any two bogies of a wagon have the
/// same velocity.
pub proof fn lemma_step_syncs_pairs(
    before: RollingStock,
    after: RollingStock,
    track_present: bool,
    a: int,
    b: int,
    wagon: int,
)
    requires
        fixed_step(before, after, track_present),
        0 <= a < before.bogies().len(),
        0 <= b < before.bogies().len(),
        is_attached_to(before.bogies()[a], wagon),
        is_attached_to(before.bogies()[b], wagon),
    ensures
        after.bogies()[a].physics.velocity == after.bogies()[b].physics.velocity,
{
    let (forced, moved, synced) = choose|
        forced: RollingStock,
        moved: RollingStock,
        synced: RollingStock,
    | stepped_through(before, forced, moved, synced, after, track_present);
    assert(stepped_through(before, forced, moved, synced, after, track_present));
    assert(forced.bogies()[a] == after_rule(
        BogieRule::ApplyForces,
        before.bogies()[a],
        wagon_of(before.bogies()[a], before.wagons()),
    ));
    assert(forced.bogies()[b] == after_rule(
        BogieRule::ApplyForces,
        before.bogies()[b],
        wagon_of(before.bogies()[b], before.wagons()),
    ));
    assert(moved.bogies()[a] == after_rule(
        BogieRule::ApplyVelocities,
        forced.bogies()[a],
        wagon_of(forced.bogies()[a], forced.wagons()),
    ));
    assert(moved.bogies()[b] == after_rule(
        BogieRule::ApplyVelocities,
        forced.bogies()[b],
        wagon_of(forced.bogies()[b], forced.wagons()),
    ));
    assert(synced.bogies()[a] == with_synced_velocity(moved.bogies()[a], moved.bogies()));
    assert(synced.bogies()[b] == with_synced_velocity(moved.bogies()[b], moved.bogies()));
    if track_present {
        assert(after.bogies()[a] == with_rod_constraint(a, synced.bogies(), synced.wagons()));
        assert(after.bogies()[b] == with_rod_constraint(b, synced.bogies(), synced.wagons()));
    }
}

/// Stiction gate: a bogie that carries no wagon, stands, and is driven by a
/// force that does not exceed its static force still stands after a fixed
/// step.
pub proof fn lemma_step_keeps_standing(
    before: RollingStock,
    after: RollingStock,
    track_present: bool,
    i: int,
)
    requires
        fixed_step(before, after, track_present),
        0 <= i < before.bogies().len(),
        before.bogies()[i].attached_to.is_none(),
        before.bogies()[i].physics.velocity == 0,
        abs_int(driving_force(before.bogies()[i].physics))
            <= before.bogies()[i].physics.static_force,
    ensures
        after.bogies()[i].physics.velocity == 0,
        after.bogies()[i].bogie.position_on_track == before.bogies()[i].bogie.position_on_track,
{
    let (forced, moved, synced) = choose|
        forced: RollingStock,
        moved: RollingStock,
        synced: RollingStock,
    | stepped_through(before, forced, moved, synced, after, track_present);
    assert(stepped_through(before, forced, moved, synced, after, track_present));
    assert(forced.bogies()[i] == after_rule(
        BogieRule::ApplyForces,
        before.bogies()[i],
        wagon_of(before.bogies()[i], before.wagons()),
    ));
    assert(forced.bogies()[i].physics == with_forces_applied(before.bogies()[i].physics, None));
    assert(moved.bogies()[i] == after_rule(
        BogieRule::ApplyVelocities,
        forced.bogies()[i],
        wagon_of(forced.bogies()[i], forced.wagons()),
    ));
    assert(synced.bogies()[i] == with_synced_velocity(moved.bogies()[i], moved.bogies()));
    if track_present {
        assert(after.bogies()[i] == with_rod_constraint(i, synced.bogies(), synced.wagons()));
    }
}

} // verus!
