//! What the rules for bogies and wagons share.

use crate::rolling_stock::components::{BogiePhysics, WagonPhysics};
use crate::rolling_stock::{BogieBundle, RollingStock, WagonBundle};
use crate::units::{add_saturating, half, saturate, trunc_div};
use vstd::prelude::*;

verus! {

/// The physics of the wagon that a bogie carries, if it carries one.
pub open spec fn wagon_of(bundle: BogieBundle, wagons: Seq<WagonBundle>) -> Option<WagonPhysics> {
    match bundle.attached_to {
        Some(attached) => if attached.0 < wagons.len() {
            Some(wagons[attached.0 as int].physics)
        } else {
            None
        },
        None => None,
    }
}

/// Whether a bogie is attached to the wagon with index `wagon`.
pub open spec fn is_attached_to(bundle: BogieBundle, wagon: int) -> bool {
    bundle.attached_to matches Some(attached) && attached.0 == wagon
}

/// The mass that a bogie carries, in kilograms: its own, and half of its
/// wagon's if it is attached to one.
pub open spec fn carried_mass(physics: BogiePhysics, wagon: Option<WagonPhysics>) -> int {
    match wagon {
        Some(w) => saturate(trunc_div(w.mass as int, 2) + physics.mass),
        None => physics.mass as int,
    }
}

/// The mass that a bogie carries, in kilograms.
pub fn get_carried_mass(physics: &BogiePhysics, wagon: Option<WagonPhysics>) -> (mass: i64)
    ensures
        mass == carried_mass(*physics, wagon),
{
    match wagon {
        Some(w) => {
            let carried_wagon_mass = half(w.mass);
            add_saturating(carried_wagon_mass, physics.mass)
        },
        None => physics.mass,
    }
}

impl RollingStock {
    /// The physics of the wagon that the bogie with index `bogie` carries.
    pub fn wagon_physics_of(&self, bogie: usize) -> (wagon: Option<WagonPhysics>)
        requires
            bogie < self.bogies().len(),
        ensures
            wagon == wagon_of(self.bogies()[bogie as int], self.wagons()),
    {
        match self.get_bogie(bogie) {
            Some(bundle) => match bundle.attached_to {
                Some(attached) => match self.get_wagon(attached.0) {
                    Some(w) => Some(w.physics),
                    None => None,
                },
                None => None,
            },
            None => None,
        }
    }

    /// The indices of the bogies attached to a wagon, in rising order.
    pub fn get_attached_bogies(&self, wagon: usize) -> (result: Vec<usize>)
        ensures
            forall|k: int|
                0 <= k < result.len() ==> (#[trigger] result[k]) < self.bogies().len()
                    && is_attached_to(self.bogies()[result[k] as int], wagon as int),
            forall|j: int, k: int| 0 <= j < k < result.len() ==> result[j] < result[k],
            forall|i: int|
                0 <= i < self.bogies().len() && is_attached_to(self.bogies()[i], wagon as int)
                    ==> result@.contains(i as usize),
    {
        let mut result: Vec<usize> = Vec::new();
        let count = self.bogie_count();
        let mut i: usize = 0;
        while i < count
            invariant
                i <= count,
                count == self.bogies().len(),
                forall|k: int|
                    0 <= k < result.len() ==> (#[trigger] result[k]) < i && is_attached_to(
                        self.bogies()[result[k] as int],
                        wagon as int,
                    ),
                forall|j: int, k: int| 0 <= j < k < result.len() ==> result[j] < result[k],
                forall|b: int|
                    0 <= b < i && is_attached_to(self.bogies()[b], wagon as int)
                        ==> result@.contains(b as usize),
            decreases count - i,
        {
            let bundle = self.get_bogie(i).unwrap();
            let attached = match bundle.attached_to {
                Some(a) => a.0 == wagon,
                None => false,
            };
            if attached {
                let ghost prior = result@;
                result.push(i);
                proof {
                    assert forall|b: int|
                        0 <= b < i + 1 && is_attached_to(
                            self.bogies()[b],
                            wagon as int,
                        ) implies result@.contains(b as usize) by {
                        if b < i {
                            assert(prior.contains(b as usize));
                            let k = choose|k: int| 0 <= k < prior.len() && prior[k] == b as usize;
                            assert(result@[k] == b as usize);
                        } else {
                            assert(result@[prior.len() as int] == i);
                        }
                    }
                }
            }
            i += 1;
        }
        result
    }
}

} // verus!
