//! The rules for wagons: how a wagon and its two bogies are made, how the
//! bogies are kept in step and at their distance, and where the wagon stands.

use crate::rolling_stock::components::{AttachedToWagon, Bogie, BogiePhysics, Wagon, WagonPhysics};
use crate::rolling_stock::utils::is_attached_to;
use crate::rolling_stock::{bogie_fits, BogieBundle, RollingStock, WagonBundle};
use crate::units::{
    abs_int, add_saturating, distance, distance_between, half, quotient_i64, saturate,
    saturate_i128, sub_saturating, trunc_div, Point3, PPM,
};
use vstd::prelude::*;

verus! {

/// Distance between the two bogies of a wagon, in millimetres.
pub const WAGON_BOGIE_DISTANCE: i64 = 12_000;

/// Mass of a wagon without its bogies, in kilograms.
pub const WAGON_MASS: i64 = 30_000;

/// Tractive force that a new wagon is driven with, in millinewtons.
pub const WAGON_TRACTIVE_FORCE: i64 = 10_000_000;

/// Mass of a bogie, in kilograms.
pub const BOGIE_MASS: i64 = 4_700;

/// Place on the track at which the bogies of a new wagon are put, in
/// millionths of a segment.
pub const BOGIE_START_POSITION: i64 = 2 * PPM;

/// Height of a wagon above the line between its bogies, in millimetres.
pub const WAGON_HEIGHT_OFFSET: i64 = 750;

/// The wagon that `spawn_wagon` makes.
pub open spec fn new_wagon() -> WagonBundle {
    WagonBundle {
        wagon: Wagon { distance_between_bogies: WAGON_BOGIE_DISTANCE },
        physics: WagonPhysics {
            mass: WAGON_MASS,
            velocity: 0,
            tractive_force: WAGON_TRACTIVE_FORCE,
            braking_force: 0,
        },
        translation: Point3 { x: 0, y: 0, z: 0 },
        status_shown: true,
    }
}

/// One of the two bogies that `spawn_wagon` makes for the wagon with index
/// `wagon`.
pub open spec fn new_bogie(wagon: usize, is_leading: bool) -> BogieBundle {
    BogieBundle {
        bogie: Bogie {
            is_leading: Some(is_leading),
            current_track: None,
            position_on_track: BOGIE_START_POSITION,
        },
        physics: BogiePhysics {
            mass: BOGIE_MASS,
            velocity: 0,
            horizontal_force: 0,
            vertical_force: 0,
            kinetic_force: 0,
            static_force: 0,
            current_slope_angle: None,
        },
        attached_to: Some(AttachedToWagon(wagon)),
        translation: Point3 { x: 0, y: 0, z: 0 },
    }
}

/// Sum of the velocities of those of the first `n` bogies that are attached
/// to `wagon`.
pub open spec fn attached_velocity_sum(bogies: Seq<BogieBundle>, wagon: int, n: int) -> int
    decreases n,
{
    if n <= 0 {
        0
    } else {
        attached_velocity_sum(bogies, wagon, n - 1) + (if is_attached_to(bogies[n - 1], wagon) {
            bogies[n - 1].physics.velocity as int
        } else {
            0
        })
    }
}

/// Number of those of the first `n` bogies that are attached to `wagon`.
pub open spec fn attached_count(bogies: Seq<BogieBundle>, wagon: int, n: int) -> int
    decreases n,
{
    if n <= 0 {
        0
    } else {
        attached_count(bogies, wagon, n - 1) + (if is_attached_to(bogies[n - 1], wagon) {
            1int
        } else {
            0int
        })
    }
}

/// Mean velocity of the bogies attached to `wagon`, rounded toward zero.
pub open spec fn average_velocity(bogies: Seq<BogieBundle>, wagon: int) -> int {
    saturate(
        trunc_div(
            attached_velocity_sum(bogies, wagon, bogies.len() as int),
            attached_count(bogies, wagon, bogies.len() as int),
        ),
    )
}

/// Index of the last of the first `n` bogies that is attached to `wagon` and
/// leads it, or trails it, as `leading` says.
pub open spec fn last_with_role(bogies: Seq<BogieBundle>, wagon: int, leading: bool, n: int) -> Option<
    int,
>
    decreases n,
{
    if n <= 0 {
        None
    } else if is_attached_to(bogies[n - 1], wagon) && bogies[n - 1].bogie.is_leading == Some(
        leading,
    ) {
        Some(n - 1)
    } else {
        last_with_role(bogies, wagon, leading, n - 1)
    }
}

/// The bogie that leads `wagon`, if it has one.
pub open spec fn leading_bogie(bogies: Seq<BogieBundle>, wagon: int) -> Option<int> {
    last_with_role(bogies, wagon, true, bogies.len() as int)
}

/// The bogie that trails `wagon`, if it has one.
pub open spec fn trailing_bogie(bogies: Seq<BogieBundle>, wagon: int) -> Option<int> {
    last_with_role(bogies, wagon, false, bogies.len() as int)
}

/// A bogie after the velocities of each wagon's bogies are brought to their
/// mean. An unattached bogie keeps its velocity.
pub open spec fn with_synced_velocity(bundle: BogieBundle, bogies: Seq<BogieBundle>) -> BogieBundle {
    match bundle.attached_to {
        Some(attached) => BogieBundle {
            physics: BogiePhysics {
                velocity: average_velocity(bogies, attached.0 as int) as i64,
                ..bundle.physics
            },
            ..bundle
        },
        None => bundle,
    }
}

/// Whether `after` is `before` with the velocities of each wagon's bogies
/// brought to their mean.
pub open spec fn velocities_synced(before: RollingStock, after: RollingStock) -> bool {
    &&& after.wagons() == before.wagons()
    &&& after.bogies().len() == before.bogies().len()
    &&& forall|i: int|
        0 <= i < before.bogies().len() ==> #[trigger] after.bogies()[i] == with_synced_velocity(
            before.bogies()[i],
            before.bogies(),
        )
}

/// The middle between two points, each coordinate rounded toward the second.
pub open spec fn midpoint(leading: Point3, trailing: Point3) -> Point3 {
    Point3 {
        x: (trailing.x + trunc_div(leading.x - trailing.x, 2)) as i64,
        y: (trailing.y + trunc_div(leading.y - trailing.y, 2)) as i64,
        z: (trailing.z + trunc_div(leading.z - trailing.z, 2)) as i64,
    }
}

/// Where a wagon stands and what it faces.
#[derive(Clone, Copy, Debug, PartialEq, Eq, Structural)]
pub struct WagonPose {
    /// The middle between the wagon's two bogies.
    pub midpoint: Point3,
    /// The place of the leading bogie, which the wagon faces from the middle.
    pub facing: Point3,
    /// Where the wagon stands: `WAGON_HEIGHT_OFFSET` above the middle.
    pub translation: Point3,
}

/// The pose of `wagon`, if it has a leading and a trailing bogie.
pub open spec fn wagon_pose(bogies: Seq<BogieBundle>, wagon: int) -> Option<WagonPose> {
    match (leading_bogie(bogies, wagon), trailing_bogie(bogies, wagon)) {
        (Some(l), Some(t)) => {
            let middle = midpoint(bogies[l].translation, bogies[t].translation);
            Some(
                WagonPose {
                    midpoint: middle,
                    facing: bogies[l].translation,
                    translation: Point3 { y: (middle.y + WAGON_HEIGHT_OFFSET) as i64, ..middle },
                },
            )
        },
        _ => None,
    }
}

/// A wagon after it is brought in line with its bogies: its velocity is their
/// mean, and it stands at its pose if it has one. A wagon without bogies
/// stays as it is.
pub open spec fn wagon_in_line(bundle: WagonBundle, bogies: Seq<BogieBundle>, wagon: int) -> WagonBundle {
    if attached_count(bogies, wagon, bogies.len() as int) == 0 {
        bundle
    } else {
        WagonBundle {
            physics: WagonPhysics {
                velocity: average_velocity(bogies, wagon) as i64,
                ..bundle.physics
            },
            translation: match wagon_pose(bogies, wagon) {
                Some(pose) => pose.translation,
                None => bundle.translation,
            },
            ..bundle
        }
    }
}

/// The place on the track of a trailing bogie after it is nudged toward its
/// distance from the leading bogie: back by the size of the error if the two
/// are too close, forward by it otherwise.
pub open spec fn nudged_position(position: i64, current_distance: int, target: i64) -> int {
    let error = saturate(abs_int(current_distance - target));
    if current_distance < target {
        saturate(position - error)
    } else {
        saturate(position + error)
    }
}

/// A bogie after the distances between the bogies of each wagon are seen to.
/// Only the trailing bogie of a wagon that also has a leading bogie moves.
pub open spec fn with_rod_constraint(
    index: int,
    bogies: Seq<BogieBundle>,
    wagons: Seq<WagonBundle>,
) -> BogieBundle {
    let bundle = bogies[index];
    match bundle.attached_to {
        Some(attached) => {
            let wagon = attached.0 as int;
            if wagon < wagons.len() && trailing_bogie(bogies, wagon) == Some(index)
                && leading_bogie(bogies, wagon).is_some() {
                let leading = bogies[leading_bogie(bogies, wagon).unwrap()];
                BogieBundle {
                    bogie: Bogie {
                        position_on_track: nudged_position(
                            bundle.bogie.position_on_track,
                            distance_between(leading.translation, bundle.translation),
                            wagons[wagon].wagon.distance_between_bogies,
                        ) as i64,
                        ..bundle.bogie
                    },
                    ..bundle
                }
            } else {
                bundle
            }
        },
        None => bundle,
    }
}

/// Whether `after` is `before` with the distances between the bogies of each
/// wagon seen to.
pub open spec fn bogies_constrained(before: RollingStock, after: RollingStock) -> bool {
    &&& after.wagons() == before.wagons()
    &&& after.bogies().len() == before.bogies().len()
    &&& forall|i: int|
        0 <= i < before.bogies().len() ==> #[trigger] after.bogies()[i] == with_rod_constraint(
            i,
            before.bogies(),
            before.wagons(),
        )
}

impl RollingStock {
    /// Makes a wagon with a leading and a trailing bogie. Returns the
    /// wagon's index.
    pub fn spawn_wagon(&mut self) -> (wagon: usize)
        requires
            old(self).wf(),
        ensures
            final(self).wf(),
            wagon == old(self).wagons().len(),
            final(self).wagons() == old(self).wagons().push(new_wagon()),
            final(self).bogies() == old(self).bogies().push(new_bogie(wagon, true)).push(
                new_bogie(wagon, false),
            ),
    {
        let wagon = self.add_wagon(
            WagonBundle {
                wagon: Wagon { distance_between_bogies: WAGON_BOGIE_DISTANCE },
                physics: WagonPhysics {
                    mass: WAGON_MASS,
                    velocity: 0,
                    tractive_force: WAGON_TRACTIVE_FORCE,
                    braking_force: 0,
                },
                translation: Point3 { x: 0, y: 0, z: 0 },
                status_shown: true,
            },
        );
        let physics = BogiePhysics {
            mass: BOGIE_MASS,
            velocity: 0,
            horizontal_force: 0,
            vertical_force: 0,
            kinetic_force: 0,
            static_force: 0,
            current_slope_angle: None,
        };
        let _ = self.add_bogie(
            BogieBundle {
                bogie: Bogie {
                    is_leading: Some(true),
                    current_track: None,
                    position_on_track: BOGIE_START_POSITION,
                },
                physics,
                attached_to: Some(AttachedToWagon(wagon)),
                translation: Point3 { x: 0, y: 0, z: 0 },
            },
        );
        let _ = self.add_bogie(
            BogieBundle {
                bogie: Bogie {
                    is_leading: Some(false),
                    current_track: None,
                    position_on_track: BOGIE_START_POSITION,
                },
                physics,
                attached_to: Some(AttachedToWagon(wagon)),
                translation: Point3 { x: 0, y: 0, z: 0 },
            },
        );
        wagon
    }

    /// Mean velocity of the bogies attached to a wagon, and their number.
    /// Without bogies the mean is zero.
    pub fn average_bogie_velocity(&self, wagon: usize) -> (r: (i64, usize))
        ensures
            r.1 == attached_count(self.bogies(), wagon as int, self.bogies().len() as int),
            r.1 > 0 ==> r.0 == average_velocity(self.bogies(), wagon as int),
    {
        let count = self.bogie_count();
        let mut total: i128 = 0;
        let mut attached: usize = 0;
        let mut i: usize = 0;
        while i < count
            invariant
                i <= count,
                count == self.bogies().len(),
                total == attached_velocity_sum(self.bogies(), wagon as int, i as int),
                attached == attached_count(self.bogies(), wagon as int, i as int),
                attached <= i,
                -0x8000_0000_0000_0000 * i <= total <= 0x8000_0000_0000_0000 * i,
            decreases count - i,
        {
            let bundle = self.get_bogie(i).unwrap();
            let is_attached = match bundle.attached_to {
                Some(a) => a.0 == wagon,
                None => false,
            };
            if is_attached {
                total = total + (bundle.physics.velocity as i128);
                attached = attached + 1;
            }
            i += 1;
        }
        if attached == 0 {
            (0, 0)
        } else {
            (quotient_i64(total, attached as i128), attached)
        }
    }

    /// The last bogie that is attached to a wagon and leads it, or trails it,
    /// as `leading` says.
    pub fn find_bogie_with_role(&self, wagon: usize, leading: bool) -> (found: Option<usize>)
        ensures
            found.is_some() == last_with_role(
                self.bogies(),
                wagon as int,
                leading,
                self.bogies().len() as int,
            ).is_some(),
            found matches Some(i) ==> last_with_role(
                self.bogies(),
                wagon as int,
                leading,
                self.bogies().len() as int,
            ) == Some(i as int) && i < self.bogies().len(),
    {
        let count = self.bogie_count();
        let mut found: Option<usize> = None;
        let mut i: usize = 0;
        while i < count
            invariant
                i <= count,
                count == self.bogies().len(),
                found.is_some() == last_with_role(
                    self.bogies(),
                    wagon as int,
                    leading,
                    i as int,
                ).is_some(),
                found matches Some(k) ==> last_with_role(
                    self.bogies(),
                    wagon as int,
                    leading,
                    i as int,
                ) == Some(k as int) && k < i,
            decreases count - i,
        {
            let bundle = self.get_bogie(i).unwrap();
            let is_attached = match bundle.attached_to {
                Some(a) => a.0 == wagon,
                None => false,
            };
            let has_role = match bundle.bogie.is_leading {
                Some(l) => l == leading,
                None => false,
            };
            if is_attached && has_role {
                found = Some(i);
            }
            i += 1;
        }
        found
    }

    /// Brings the velocities of each wagon's bogies to their mean, so that
    /// the bogies of a wagon move in step.
    pub fn sync_bogie_velocities(&mut self)
        requires
            old(self).wf(),
        ensures
            final(self).wf(),
            velocities_synced(*old(self), *final(self)),
    {
        let count = self.bogie_count();
        let mut velocities: Vec<i64> = Vec::new();
        let mut i: usize = 0;
        while i < count
            invariant
                i <= count,
                count == self.bogies().len(),
                self.wf(),
                velocities.len() == i,
                forall|j: int|
                    0 <= j < i ==> #[trigger] velocities[j] == with_synced_velocity(
                        self.bogies()[j],
                        self.bogies(),
                    ).physics.velocity,
            decreases count - i,
        {
            let bundle = self.get_bogie(i).unwrap();
            let velocity: i64 = match bundle.attached_to {
                Some(attached) => {
                    let (mean, attached_bogies) = self.average_bogie_velocity(attached.0);
                    proof {
                        lemma_count_includes(self.bogies(), attached.0 as int, i as int, count as int);
                    }
                    mean
                },
                None => bundle.physics.velocity,
            };
            velocities.push(velocity);
            i += 1;
        }
        let mut k: usize = 0;
        while k < count
            invariant
                k <= count,
                count == old(self).bogies().len(),
                self.wf(),
                self.wagons() == old(self).wagons(),
                self.bogies().len() == count,
                velocities.len() == count,
                forall|j: int|
                    0 <= j < count ==> #[trigger] velocities[j] == with_synced_velocity(
                        old(self).bogies()[j],
                        old(self).bogies(),
                    ).physics.velocity,
                forall|j: int|
                    0 <= j < k ==> #[trigger] self.bogies()[j] == with_synced_velocity(
                        old(self).bogies()[j],
                        old(self).bogies(),
                    ),
                forall|j: int| k <= j < count ==> #[trigger] self.bogies()[j] == old(self).bogies()[j],
            decreases count - k,
        {
            let bundle = self.get_bogie(k).unwrap();
            assert(bogie_fits(bundle, self.wagons().len() as int));
            self.put_bogie(
                k,
                BogieBundle {
                    bogie: bundle.bogie,
                    physics: BogiePhysics {
                        mass: bundle.physics.mass,
                        velocity: velocities[k],
                        horizontal_force: bundle.physics.horizontal_force,
                        vertical_force: bundle.physics.vertical_force,
                        kinetic_force: bundle.physics.kinetic_force,
                        static_force: bundle.physics.static_force,
                        current_slope_angle: bundle.physics.current_slope_angle,
                    },
                    attached_to: bundle.attached_to,
                    translation: bundle.translation,
                },
            );
            k += 1;
        }
    }

    /// The pose of a wagon between its bogies, if it has a leading and a
    /// trailing bogie.
    pub fn pose_of_wagon(&self, wagon: usize) -> (pose: Option<WagonPose>)
        requires
            self.wf(),
        ensures
            pose == wagon_pose(self.bogies(), wagon as int),
    {
        let leading = self.find_bogie_with_role(wagon, true);
        let trailing = self.find_bogie_with_role(wagon, false);
        match (leading, trailing) {
            (Some(l), Some(t)) => {
                let front = self.get_bogie(l).unwrap().translation;
                let back = self.get_bogie(t).unwrap().translation;
                assert(bogie_fits(self.bogies()[l as int], self.wagons().len() as int));
                assert(bogie_fits(self.bogies()[t as int], self.wagons().len() as int));
                let middle = Point3 {
                    x: back.x + half(front.x - back.x),
                    y: back.y + half(front.y - back.y),
                    z: back.z + half(front.z - back.z),
                };
                Some(
                    WagonPose {
                        midpoint: middle,
                        facing: front,
                        translation: Point3 {
                            x: middle.x,
                            y: middle.y + WAGON_HEIGHT_OFFSET,
                            z: middle.z,
                        },
                    },
                )
            },
            _ => None,
        }
    }

    /// Brings every wagon in line with its bogies: its velocity becomes their
    /// mean, and it is put `WAGON_HEIGHT_OFFSET` above the middle between its
    /// leading and its trailing bogie. Returns the pose of each wagon that
    /// has both, so that it can be turned to face its leading bogie.
    pub fn sync_wagons_with_bogies(&mut self) -> (poses: Vec<Option<WagonPose>>)
        requires
            old(self).wf(),
        ensures
            final(self).wf(),
            final(self).bogies() == old(self).bogies(),
            final(self).wagons().len() == old(self).wagons().len(),
            poses.len() == old(self).wagons().len(),
            forall|w: int|
                0 <= w < old(self).wagons().len() ==> #[trigger] final(self).wagons()[w]
                    == wagon_in_line(old(self).wagons()[w], old(self).bogies(), w),
            forall|w: int|
                0 <= w < old(self).wagons().len() ==> #[trigger] poses[w] == wagon_pose(
                    old(self).bogies(),
                    w,
                ),
    {
        let count = self.wagon_count();
        let mut poses: Vec<Option<WagonPose>> = Vec::new();
        let mut w: usize = 0;
        while w < count
            invariant
                w <= count,
                count == old(self).wagons().len(),
                self.wf(),
                self.bogies() == old(self).bogies(),
                self.wagons().len() == count,
                poses.len() == w,
                forall|k: int|
                    0 <= k < w ==> #[trigger] self.wagons()[k] == wagon_in_line(
                        old(self).wagons()[k],
                        old(self).bogies(),
                        k,
                    ),
                forall|k: int| w <= k < count ==> #[trigger] self.wagons()[k] == old(self).wagons()[k],
                forall|k: int|
                    0 <= k < w ==> #[trigger] poses[k] == wagon_pose(old(self).bogies(), k),
            decreases count - w,
        {
            let bundle = self.get_wagon(w).unwrap();
            let (mean, attached) = self.average_bogie_velocity(w);
            let pose = self.pose_of_wagon(w);
            if attached > 0 {
                let translation = match pose {
                    Some(p) => p.translation,
                    None => bundle.translation,
                };
                self.put_wagon(
                    w,
                    WagonBundle {
                        wagon: bundle.wagon,
                        physics: WagonPhysics {
                            mass: bundle.physics.mass,
                            velocity: mean,
                            tractive_force: bundle.physics.tractive_force,
                            braking_force: bundle.physics.braking_force,
                        },
                        translation,
                        status_shown: bundle.status_shown,
                    },
                );
            }
            poses.push(pose);
            w += 1;
        }
        poses
    }

    /// Holds the two bogies of each wagon at their distance: the trailing
    /// bogie is nudged along the track by a thousandth of a segment for each
    /// metre that the distance is off, back if the bogies are too close and
    /// forward if they are too far apart. Nothing happens without a track.
    pub fn constrain_attached_bogies(&mut self, track_present: bool)
        requires
            old(self).wf(),
        ensures
            final(self).wf(),
            track_present ==> bogies_constrained(*old(self), *final(self)),
            !track_present ==> final(self).bogies() == old(self).bogies() && final(self).wagons()
                == old(self).wagons(),
    {
        if !track_present {
            return;
        }
        let count = self.wagon_count();
        let mut w: usize = 0;
        while w < count
            invariant
                w <= count,
                count == old(self).wagons().len(),
                self.wf(),
                self.wagons() == old(self).wagons(),
                self.bogies().len() == old(self).bogies().len(),
                forall|i: int|
                    0 <= i < self.bogies().len() ==> same_but_position(
                        #[trigger] self.bogies()[i],
                        old(self).bogies()[i],
                    ),
                forall|i: int|
                    0 <= i < self.bogies().len() ==> #[trigger] self.bogies()[i] == (if is_below(
                        old(self).bogies()[i],
                        w as int,
                    ) {
                        with_rod_constraint(i, old(self).bogies(), old(self).wagons())
                    } else {
                        old(self).bogies()[i]
                    }),
            decreases count - w,
        {
            let ghost prior = self.bogies();
            proof {
                lemma_roles_kept(old(self).bogies(), prior, w as int, prior.len() as int, true);
                lemma_roles_kept(old(self).bogies(), prior, w as int, prior.len() as int, false);
            }
            let leading = self.find_bogie_with_role(w, true);
            let trailing = self.find_bogie_with_role(w, false);
            match (leading, trailing) {
                (Some(l), Some(t)) => {
                    let front = self.get_bogie(l).unwrap();
                    let back = self.get_bogie(t).unwrap();
                    let wagon = self.get_wagon(w).unwrap();
                    proof {
                        lemma_role_found(old(self).bogies(), w as int, true, prior.len() as int);
                        lemma_role_found(old(self).bogies(), w as int, false, prior.len() as int);
                        assert(bogie_fits(prior[l as int], self.wagons().len() as int));
                        assert(bogie_fits(prior[t as int], self.wagons().len() as int));
                        assert(same_but_position(prior[l as int], old(self).bogies()[l as int]));
                        assert(same_but_position(prior[t as int], old(self).bogies()[t as int]));
                    }
                    let current_distance: u64 = distance(front.translation, back.translation);
                    let target: i64 = wagon.wagon.distance_between_bogies;
                    let difference: i128 = (current_distance as i128) - (target as i128);
                    let error: i64 = saturate_i128(
                        if difference >= 0 {
                            difference
                        } else {
                            -difference
                        },
                    );
                    let position: i64 = if (current_distance as i128) < (target as i128) {
                        sub_saturating(back.bogie.position_on_track, error)
                    } else {
                        add_saturating(back.bogie.position_on_track, error)
                    };
                    self.put_bogie(
                        t,
                        BogieBundle {
                            bogie: Bogie {
                                is_leading: back.bogie.is_leading,
                                current_track: back.bogie.current_track,
                                position_on_track: position,
                            },
                            physics: back.physics,
                            attached_to: back.attached_to,
                            translation: back.translation,
                        },
                    );
                    proof {
                        assert(prior[t as int] == old(self).bogies()[t as int]);
                        assert forall|i: int| 0 <= i < self.bogies().len() implies #[trigger] self.bogies()[i]
                            == (if is_below(old(self).bogies()[i], w + 1) {
                            with_rod_constraint(i, old(self).bogies(), old(self).wagons())
                        } else {
                            old(self).bogies()[i]
                        }) by {
                            if i != t {
                                assert(self.bogies()[i] == prior[i]);
                            }
                        }
                    }
                },
                _ => {
                    proof {
                        lemma_role_found(old(self).bogies(), w as int, true, prior.len() as int);
                        lemma_role_found(old(self).bogies(), w as int, false, prior.len() as int);
                    }
                },
            }
            w += 1;
        }
        proof {
            assert forall|i: int| 0 <= i < old(self).bogies().len() implies #[trigger] self.bogies()[i]
                == with_rod_constraint(i, old(self).bogies(), old(self).wagons()) by {
                assert(bogie_fits(old(self).bogies()[i], old(self).wagons().len() as int));
            }
        }
    }
}

/// A bogie that is attached to a wagon counts among the wagon's bogies.
proof fn lemma_count_includes(bogies: Seq<BogieBundle>, wagon: int, i: int, n: int)
    requires
        0 <= i < n <= bogies.len(),
        is_attached_to(bogies[i], wagon),
    ensures
        attached_count(bogies, wagon, n) > 0,
    decreases n,
{
    lemma_count_nonnegative(bogies, wagon, n - 1);
    if i < n - 1 {
        lemma_count_includes(bogies, wagon, i, n - 1);
    }
}

proof fn lemma_count_nonnegative(bogies: Seq<BogieBundle>, wagon: int, n: int)
    ensures
        attached_count(bogies, wagon, n) >= 0,
    decreases n,
{
    if n > 0 {
        lemma_count_nonnegative(bogies, wagon, n - 1);
    }
}

/// Bogie-pair sync: once the velocities are synced, any two bogies attached
/// to the same wagon have the same velocity, the mean of what they had.
pub proof fn lemma_pair_sync(before: RollingStock, after: RollingStock, a: int, b: int, wagon: int)
    requires
        velocities_synced(before, after),
        0 <= a < before.bogies().len(),
        0 <= b < before.bogies().len(),
        is_attached_to(before.bogies()[a], wagon),
        is_attached_to(before.bogies()[b], wagon),
    ensures
        after.bogies()[a].physics.velocity == after.bogies()[b].physics.velocity,
        after.bogies()[a].physics.velocity == average_velocity(before.bogies(), wagon),
{
    assert(after.bogies()[a] == with_synced_velocity(before.bogies()[a], before.bogies()));
    assert(after.bogies()[b] == with_synced_velocity(before.bogies()[b], before.bogies()));
}

/// Whether two bogies differ in their place on the track only.
pub open spec fn same_but_position(a: BogieBundle, b: BogieBundle) -> bool {
    a == (BogieBundle {
        bogie: Bogie { position_on_track: a.bogie.position_on_track, ..b.bogie },
        ..b
    })
}

/// Whether a bogie is attached to a wagon with an index below `bound`.
pub open spec fn is_below(bundle: BogieBundle, bound: int) -> bool {
    bundle.attached_to matches Some(attached) && attached.0 < bound
}

/// Bogies that differ in their places on the track only have the same roles.
proof fn lemma_roles_kept(
    before: Seq<BogieBundle>,
    now: Seq<BogieBundle>,
    wagon: int,
    n: int,
    leading: bool,
)
    requires
        before.len() == now.len(),
        0 <= n <= now.len(),
        forall|i: int| 0 <= i < now.len() ==> same_but_position(#[trigger] now[i], before[i]),
    ensures
        last_with_role(now, wagon, leading, n) == last_with_role(before, wagon, leading, n),
    decreases n,
{
    if n > 0 {
        assert(same_but_position(now[n - 1], before[n - 1]));
        lemma_roles_kept(before, now, wagon, n - 1, leading);
    }
}

/// The bogie found for a role is attached to the wagon and has that role.
proof fn lemma_role_found(bogies: Seq<BogieBundle>, wagon: int, leading: bool, n: int)
    requires
        0 <= n <= bogies.len(),
    ensures
        last_with_role(bogies, wagon, leading, n) matches Some(i) ==> 0 <= i < n && is_attached_to(
            bogies[i],
            wagon,
        ) && bogies[i].bogie.is_leading == Some(leading),
    decreases n,
{
    if n > 0 {
        lemma_role_found(bogies, wagon, leading, n - 1);
    }
}

/// Distance between two bogies on a straight stretch of track on which a
/// segment is `segment_length` millimetres long, rounded down to a whole
/// millimetre. The leading bogie stands at `leading` and the trailing bogie
/// at `trailing`, both in millionths of a segment.
pub open spec fn straight_distance(leading: int, trailing: int, segment_length: int) -> int {
    ((leading - trailing) * segment_length) / (PPM as int)
}

/// The rod's nudge goes the right way: back if the bogies are too close,
/// forward if they are too far apart, and nowhere if their distance is
/// right. Short of the ends of the number range it is as long as the error.
pub proof fn lemma_rod_nudge(position: i64, current_distance: int, target: i64)
    ensures
        current_distance < target ==> nudged_position(position, current_distance, target)
            <= position,
        current_distance > target ==> nudged_position(position, current_distance, target)
            >= position,
        current_distance == target ==> nudged_position(position, current_distance, target)
            == position,
        i64::MIN <= position - abs_int(current_distance - target) && position + abs_int(
            current_distance - target,
        ) <= i64::MAX ==> abs_int(nudged_position(position, current_distance, target) - position)
            == abs_int(current_distance - target),
{
}

/// Rigid-rod convergence on straight track: where a segment is no longer
/// than a kilometre, a nudge of the trailing bogie never takes the distance
/// between the bogies further from its target and never past it, and it
/// takes the distance closer whenever the error times the segment's length
/// comes to a million or more (with segments of 50 m: an error of 20 mm).
pub proof fn lemma_rigid_rod_convergence(
    leading: int,
    trailing: i64,
    segment_length: int,
    target: i64,
)
    requires
        0 < segment_length <= PPM,
        trailing <= leading,
        0 <= target,
        ({
            let distance = straight_distance(leading, trailing as int, segment_length);
            i64::MIN <= trailing - abs_int(distance - target) && trailing + abs_int(
                distance - target,
            ) <= i64::MAX
        }),
    ensures
        ({
            let before = straight_distance(leading, trailing as int, segment_length);
            let nudged = nudged_position(trailing, before, target);
            let after = straight_distance(leading, nudged, segment_length);
            &&& abs_int(after - target) <= abs_int(before - target)
            &&& before <= target ==> before <= after <= target
            &&& before >= target ==> target <= after <= before
            &&& abs_int(before - target) * segment_length >= PPM ==> abs_int(after - target)
                < abs_int(before - target)
        }),
{
    let scale = PPM as int;
    let stretch = (leading - trailing) * segment_length;
    let before = stretch / scale;
    let error = abs_int(before - target);
    let nudged = nudged_position(trailing, before, target);
    let shift = error * segment_length;
    assert(0 <= stretch) by (nonlinear_arith)
        requires
            stretch == (leading - trailing) * segment_length,
            0 <= leading - trailing,
            0 < segment_length,
    ;
    assert(0 <= shift <= error * scale) by (nonlinear_arith)
        requires
            shift == error * segment_length,
            0 <= error,
            0 < segment_length <= scale,
    ;
    if before < target {
        assert(nudged == trailing - error);
        assert((leading - nudged) * segment_length == stretch + shift) by (nonlinear_arith)
            requires
                nudged == trailing - error,
                stretch == (leading - trailing) * segment_length,
                shift == error * segment_length,
        ;
        lemma_shifted_quotient(stretch, shift, error, scale);
    } else if before > target {
        assert(nudged == trailing + error);
        assert((leading - nudged) * segment_length == stretch - shift) by (nonlinear_arith)
            requires
                nudged == trailing + error,
                stretch == (leading - trailing) * segment_length,
                shift == error * segment_length,
        ;
        lemma_shifted_quotient(stretch - shift, shift, error, scale);
    } else {
        assert(nudged == trailing as int);
        assert(shift == 0);
    }
}

/// Adding `shift` to a number, where `shift` is at most `steps` times the
/// divisor, raises the quotient by `steps` at most, and by one at least if
/// `shift` is no less than the divisor.
proof fn lemma_shifted_quotient(base: int, shift: int, steps: int, divisor: int)
    requires
        0 < divisor,
        0 <= shift <= steps * divisor,
    ensures
        base / divisor <= (base + shift) / divisor <= base / divisor + steps,
        shift >= divisor ==> (base + shift) / divisor >= base / divisor + 1,
{
    let q = base / divisor;
    let r = base % divisor;
    let q2 = (base + shift) / divisor;
    let r2 = (base + shift) % divisor;
    assert(base == q * divisor + r && 0 <= r < divisor) by (nonlinear_arith)
        requires
            q == base / divisor,
            r == base % divisor,
            0 < divisor,
    ;
    assert(base + shift == q2 * divisor + r2 && 0 <= r2 < divisor) by (nonlinear_arith)
        requires
            q2 == (base + shift) / divisor,
            r2 == (base + shift) % divisor,
            0 < divisor,
    ;
    assert(q <= q2) by (nonlinear_arith)
        requires
            base == q * divisor + r,
            base + shift == q2 * divisor + r2,
            0 <= r < divisor,
            0 <= r2 < divisor,
            0 <= shift,
            0 < divisor,
    ;
    assert(q2 <= q + steps) by (nonlinear_arith)
        requires
            base == q * divisor + r,
            base + shift == q2 * divisor + r2,
            0 <= r < divisor,
            0 <= r2 < divisor,
            shift <= steps * divisor,
            0 < divisor,
    ;
    if shift >= divisor {
        assert(q2 >= q + 1) by (nonlinear_arith)
            requires
                base == q * divisor + r,
                base + shift == q2 * divisor + r2,
                0 <= r < divisor,
                0 <= r2 < divisor,
                shift >= divisor,
                0 < divisor,
        ;
    }
}

} // verus!
