//! Search in lists of places along the track.

use crate::units::abs_int;
use vstd::prelude::*;

verus! {

/// Distance between `t` and the place of the `k`-th entry.
pub open spec fn place_distance<T>(t: i64, entries: Seq<(i64, T)>, k: int) -> int {
    abs_int(t - entries[k].0)
}

/// Whether the entry `chosen` is the closest to `t`: it is less than `t_max`
/// away, no entry is closer, and none before it is as close.
pub open spec fn is_closest<T>(t: i64, t_max: i64, entries: Seq<(i64, T)>, chosen: int) -> bool {
    &&& 0 <= chosen < entries.len()
    &&& place_distance(t, entries, chosen) < t_max
    &&& forall|k: int|
        0 <= k < entries.len() ==> place_distance(t, entries, chosen) <= place_distance(
            t,
            entries,
            k,
        )
    &&& forall|k: int|
        0 <= k < chosen ==> place_distance(t, entries, chosen) < place_distance(t, entries, k)
}

/// Finds the entry whose place is closest to `t`, among those less than
/// `t_max` away; of several equally close the first. Returns its index, the
/// entry, and whether its place lies beyond `t`.
pub fn get_closest<T>(t: i64, t_max: i64, vec: &Vec<(i64, T)>) -> (found: Option<
    (usize, &(i64, T), bool),
>)
    ensures
        found.is_none() <==> forall|k: int|
            0 <= k < vec.len() ==> place_distance(t, vec@, k) >= t_max,
        found matches Some(r) ==> is_closest(t, t_max, vec@, r.0 as int) && *r.1 == vec@[r.0 as int]
            && r.2 == (vec@[r.0 as int].0 > t),
{
    let mut closest_index: Option<usize> = None;
    let mut smallest_diff: i128 = t_max as i128;
    let mut i: usize = 0;
    while i < vec.len()
        invariant
            i <= vec.len(),
            smallest_diff <= t_max,
            closest_index.is_none() ==> smallest_diff == t_max && forall|k: int|
                0 <= k < i ==> place_distance(t, vec@, k) >= t_max,
            closest_index matches Some(c) ==> {
                &&& c < i
                &&& smallest_diff == place_distance(t, vec@, c as int)
                &&& smallest_diff < t_max
                &&& forall|k: int| 0 <= k < i ==> smallest_diff <= place_distance(t, vec@, k)
                &&& forall|k: int| 0 <= k < c ==> smallest_diff < place_distance(t, vec@, k)
            },
        decreases vec.len() - i,
    {
        let place: i64 = vec[i].0;
        let difference: i128 = (t as i128) - (place as i128);
        let diff: i128 = if difference >= 0 {
            difference
        } else {
            -difference
        };
        if diff < smallest_diff {
            closest_index = Some(i);
            smallest_diff = diff;
        }
        i += 1;
    }
    match closest_index {
        Some(index) => {
            let closest_obj = &vec[index];
            let is_overestimate = closest_obj.0 > t;
            Some((index, closest_obj, is_overestimate))
        },
        None => None,
    }
}

} // verus!
