//! The train: bogies and wagons, and the rules that move them along the
//! track one fixed time step after the other.
//!
//! Within a tick the forces are set first, from the slope under each bogie.
//! Then forces and velocities are applied, the two bogies of each wagon are
//! brought to one velocity and held at their distance, and last the wagon is
//! placed between its bogies.

pub mod bogie_systems;
pub mod components;
pub mod dynamics;
pub mod utils;
pub mod wagon_systems;

use crate::rolling_stock::components::{AttachedToWagon, Bogie, BogiePhysics, Wagon, WagonPhysics};
use crate::units::Point3;
use vstd::prelude::*;

verus! {

/// A bogie with all that belongs to it.
#[derive(Clone, Copy, Debug, PartialEq, Eq, Structural)]
pub struct BogieBundle {
    pub bogie: Bogie,
    pub physics: BogiePhysics,
    /// The wagon that the bogie carries, if any.
    pub attached_to: Option<AttachedToWagon>,
    /// Where the bogie stands in the world.
    pub translation: Point3,
}

/// A wagon with all that belongs to it.
#[derive(Clone, Copy, Debug, PartialEq, Eq, Structural)]
pub struct WagonBundle {
    pub wagon: Wagon,
    pub physics: WagonPhysics,
    /// Where the wagon stands in the world.
    pub translation: Point3,
    /// Whether this is the wagon whose status is shown.
    pub status_shown: bool,
}

/// All bogies and wagons. A bogie names its wagon by the wagon's index.
pub struct RollingStock {
    bogies: Vec<BogieBundle>,
    wagons: Vec<WagonBundle>,
}

/// Whether a bogie fits a train of `wagon_count` wagons: it stands in the
/// world, and if it is attached, its wagon exists and the bogie knows whether
/// it leads.
pub open spec fn bogie_fits(bundle: BogieBundle, wagon_count: int) -> bool {
    &&& bundle.translation.in_world()
    &&& bundle.attached_to matches Some(attached) ==> attached.0 < wagon_count
        && bundle.bogie.is_leading.is_some()
}

impl RollingStock {
    /// The bogies, in the order in which they were added.
    pub closed spec fn bogies(self) -> Seq<BogieBundle> {
        self.bogies@
    }

    /// The wagons, in the order in which they were added.
    pub closed spec fn wagons(self) -> Seq<WagonBundle> {
        self.wagons@
    }

    /// The train's invariant: every bogie fits.
    pub open spec fn wf(self) -> bool {
        forall|i: int|
            0 <= i < self.bogies().len() ==> bogie_fits(
                #[trigger] self.bogies()[i],
                self.wagons().len() as int,
            )
    }

    /// A train without bogies and wagons.
    pub fn new() -> (stock: RollingStock)
        ensures
            stock.wf(),
            stock.bogies().len() == 0,
            stock.wagons().len() == 0,
    {
        RollingStock { bogies: Vec::new(), wagons: Vec::new() }
    }

    /// Number of bogies.
    pub fn bogie_count(&self) -> (n: usize)
        ensures
            n == self.bogies().len(),
    {
        self.bogies.len()
    }

    /// Number of wagons.
    pub fn wagon_count(&self) -> (n: usize)
        ensures
            n == self.wagons().len(),
    {
        self.wagons.len()
    }

    /// The bogie with the given index, if it exists.
    pub fn get_bogie(&self, index: usize) -> (r: Option<BogieBundle>)
        ensures
            r.is_some() == (index < self.bogies().len()),
            r matches Some(bundle) ==> bundle == self.bogies()[index as int],
    {
        if index < self.bogies.len() {
            Some(self.bogies[index])
        } else {
            None
        }
    }

    /// The wagon with the given index, if it exists.
    pub fn get_wagon(&self, index: usize) -> (r: Option<WagonBundle>)
        ensures
            r.is_some() == (index < self.wagons().len()),
            r matches Some(bundle) ==> bundle == self.wagons()[index as int],
    {
        if index < self.wagons.len() {
            Some(self.wagons[index])
        } else {
            None
        }
    }

    /// Adds a wagon and returns its index.
    pub fn add_wagon(&mut self, bundle: WagonBundle) -> (index: usize)
        requires
            old(self).wf(),
        ensures
            final(self).wf(),
            index == old(self).wagons().len(),
            final(self).wagons() == old(self).wagons().push(bundle),
            final(self).bogies() == old(self).bogies(),
    {
        let index = self.wagons.len();
        self.wagons.push(bundle);
        proof {
            assert forall|i: int| 0 <= i < self.bogies().len() implies bogie_fits(
                #[trigger] self.bogies()[i],
                self.wagons().len() as int,
            ) by {
                assert(bogie_fits(old(self).bogies()[i], old(self).wagons().len() as int));
            }
        }
        index
    }

    /// Adds a bogie and returns its index. `None`, and nothing is added, if
    /// the bogie does not fit the train.
    pub fn add_bogie(&mut self, bundle: BogieBundle) -> (index: Option<usize>)
        requires
            old(self).wf(),
        ensures
            final(self).wf(),
            final(self).wagons() == old(self).wagons(),
            index.is_some() == bogie_fits(bundle, old(self).wagons().len() as int),
            index matches Some(i) ==> i == old(self).bogies().len() && final(self).bogies() == old(
                self,
            ).bogies().push(bundle),
            index.is_none() ==> final(self).bogies() == old(self).bogies(),
    {
        if !bundle.translation.is_in_world() {
            return None;
        }
        match bundle.attached_to {
            Some(attached) => {
                if attached.0 >= self.wagons.len() || bundle.bogie.is_leading.is_none() {
                    return None;
                }
            },
            None => {},
        }
        let index = self.bogies.len();
        self.bogies.push(bundle);
        proof {
            assert forall|i: int| 0 <= i < self.bogies().len() implies bogie_fits(
                #[trigger] self.bogies()[i],
                self.wagons().len() as int,
            ) by {
                if i < index {
                    assert(self.bogies()[i] == old(self).bogies()[i]);
                }
            }
        }
        Some(index)
    }

    /// Replaces the bogie with the given index.
    pub(crate) fn put_bogie(&mut self, index: usize, bundle: BogieBundle)
        requires
            old(self).wf(),
            index < old(self).bogies().len(),
            bogie_fits(bundle, old(self).wagons().len() as int),
        ensures
            final(self).wf(),
            final(self).wagons() == old(self).wagons(),
            final(self).bogies() == old(self).bogies().update(index as int, bundle),
    {
        self.bogies.set(index, bundle);
        proof {
            assert forall|i: int| 0 <= i < self.bogies().len() implies bogie_fits(
                #[trigger] self.bogies()[i],
                self.wagons().len() as int,
            ) by {
                if i != index {
                    assert(self.bogies()[i] == old(self).bogies()[i]);
                }
            }
        }
    }

    /// Replaces the wagon with the given index.
    pub(crate) fn put_wagon(&mut self, index: usize, bundle: WagonBundle)
        requires
            old(self).wf(),
            index < old(self).wagons().len(),
        ensures
            final(self).wf(),
            final(self).bogies() == old(self).bogies(),
            final(self).wagons() == old(self).wagons().update(index as int, bundle),
    {
        self.wagons.set(index, bundle);
        proof {
            assert forall|i: int| 0 <= i < self.bogies().len() implies bogie_fits(
                #[trigger] self.bogies()[i],
                self.wagons().len() as int,
            ) by {
                assert(bogie_fits(old(self).bogies()[i], old(self).wagons().len() as int));
            }
        }
    }

    /// Sets the tractive and the braking force that a wagon is driven with.
    /// Returns whether the wagon exists.
    pub fn set_wagon_forces(&mut self, wagon: usize, tractive_force: i64, braking_force: i64) -> (done:
        bool)
        requires
            old(self).wf(),
        ensures
            final(self).wf(),
            final(self).bogies() == old(self).bogies(),
            done == (wagon < old(self).wagons().len()),
            done ==> final(self).wagons() == old(self).wagons().update(
                wagon as int,
                WagonBundle {
                    physics: WagonPhysics {
                        tractive_force,
                        braking_force,
                        ..old(self).wagons()[wagon as int].physics
                    },
                    ..old(self).wagons()[wagon as int]
                },
            ),
            !done ==> final(self).wagons() == old(self).wagons(),
    {
        if wagon >= self.wagons.len() {
            return false;
        }
        let current = self.wagons[wagon];
        self.wagons.set(
            wagon,
            WagonBundle {
                wagon: current.wagon,
                physics: WagonPhysics {
                    mass: current.physics.mass,
                    velocity: current.physics.velocity,
                    tractive_force,
                    braking_force,
                },
                translation: current.translation,
                status_shown: current.status_shown,
            },
        );
        proof {
            assert forall|i: int| 0 <= i < self.bogies().len() implies bogie_fits(
                #[trigger] self.bogies()[i],
                self.wagons().len() as int,
            ) by {
                assert(bogie_fits(old(self).bogies()[i], old(self).wagons().len() as int));
            }
        }
        true
    }

    /// Index of the wagon whose status is shown: the first that is marked.
    pub fn tracked_wagon(&self) -> (found: Option<usize>)
        ensures
            found matches Some(w) ==> w < self.wagons().len() && self.wagons()[w as int].status_shown
                && forall|k: int| 0 <= k < w ==> !self.wagons()[k].status_shown,
            found.is_none() ==> forall|k: int|
                0 <= k < self.wagons().len() ==> !self.wagons()[k].status_shown,
    {
        let mut w: usize = 0;
        while w < self.wagons.len()
            invariant
                w <= self.wagons.len(),
                forall|k: int| 0 <= k < w ==> !self.wagons()[k].status_shown,
            decreases self.wagons.len() - w,
        {
            if self.wagons[w].status_shown {
                return Some(w);
            }
            w += 1;
        }
        None
    }
}

} // verus!
