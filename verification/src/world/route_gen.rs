//! The route: a polyline that grows one step at a time, each step taken in
//! the direction of least slope within a bound on the turn.
//!
//! Elevations come from the height field, which is evaluated elsewhere. A
//! step is therefore made in two parts: the route names the places to be
//! examined, and given their elevations it picks one of them.

use crate::lines::LineStrip;
use crate::trig::{step_offset, step_offset_x, step_offset_z};
use crate::units::{abs_int, coord_in_world, is_coord_in_world, Point2, Point3, MM_PER_M};
use crate::world::terrain::{chunk_of, within_render_distance, Terrain};
use vstd::prelude::*;

verus! {

/// Default distance between two route nodes, in millimetres.
pub const NODE_LENGTH: u32 = 50_000;

/// Default bound on the turn between two successive steps, in degrees.
pub const MAX_TURN_ANGLE: u32 = 5;

/// Height of the first route node above the ground, in millimetres.
pub const START_CLEARANCE: i64 = MM_PER_M;

/// Half-width of the scan for the first step, in degrees: the full circle.
pub const FIRST_SCAN_ANGLE: u32 = 180;

/// Distance between the bearings examined for the first step, in degrees.
pub const FIRST_SCAN_STEP: u32 = 5;

/// Distance between the bearings examined for every later step, in degrees.
pub const NEXT_SCAN_STEP: u32 = 1;

/// A place that a step may lead to.
#[derive(Clone, Copy, Debug, PartialEq, Eq, Structural)]
pub struct Candidate {
    /// Direction of the step, in degrees from the `x` axis, below 360.
    pub bearing: u32,
    /// Where the step ends.
    pub position: Point2,
}

/// A step that was picked.
#[derive(Clone, Copy, Debug, PartialEq, Eq, Structural)]
pub struct RouteStep {
    /// Place of the step among the candidates.
    pub index: usize,
    /// Direction of the step, in degrees from the `x` axis, below 360.
    pub bearing: u32,
    /// Where the step ends, at the elevation found there.
    pub point: Point3,
}

/// Number of bearings in a scan of `max_angle` degrees to either side, taken
/// every `angle_step` degrees.
pub open spec fn scan_len(max_angle: int, angle_step: int) -> int {
    2 * max_angle / angle_step + 1
}

/// The `k`-th bearing of a scan around `start_bearing`, brought below 360.
/// The scan starts `max_angle` degrees below `start_bearing` and goes upward.
pub open spec fn scan_bearing(start_bearing: int, max_angle: int, angle_step: int, k: int) -> int {
    (start_bearing + 360 - max_angle + k * angle_step) % 360
}

/// The place one step of `step_length` along `bearing` away from `start`.
pub open spec fn step_from(start: Point2, bearing: int, step_length: int) -> Point2 {
    Point2 {
        x: (start.x + step_offset_x(step_length, bearing)) as i64,
        z: (start.z + step_offset_z(step_length, bearing)) as i64,
    }
}

/// The `k`-th candidate of a scan.
pub open spec fn scan_candidate(
    start: Point2,
    start_bearing: int,
    max_angle: int,
    angle_step: int,
    step_length: int,
    k: int,
) -> Candidate {
    let bearing = scan_bearing(start_bearing, max_angle, angle_step, k);
    Candidate { bearing: bearing as u32, position: step_from(start, bearing, step_length) }
}

/// Angle between two bearings below 360, in degrees: at most 180.
pub open spec fn turn_between(from: int, to: int) -> int {
    let d = (to - from + 360) % 360;
    if d > 180 {
        360 - d
    } else {
        d
    }
}

/// Whether the `k`-th candidate can be stepped to: it lies in the world and so
/// does the elevation found there.
pub open spec fn usable(candidates: Seq<Candidate>, elevations: Seq<i64>, k: int) -> bool {
    candidates[k].position.in_world() && coord_in_world(elevations[k] as int)
}

/// How much a step to the `k`-th candidate climbs or falls. All candidates
/// are one step length away, so the least of these is the least slope.
pub open spec fn climb(start_elevation: i64, elevations: Seq<i64>, k: int) -> int {
    abs_int(elevations[k] - start_elevation)
}

/// Whether `chosen` is the candidate of least slope: usable, no usable
/// candidate climbs less, and none before it climbs as little.
pub open spec fn is_lowest_slope(
    start_elevation: i64,
    candidates: Seq<Candidate>,
    elevations: Seq<i64>,
    chosen: int,
) -> bool {
    &&& 0 <= chosen < candidates.len()
    &&& usable(candidates, elevations, chosen)
    &&& forall|k: int|
        0 <= k < candidates.len() && usable(candidates, elevations, k) ==> climb(
            start_elevation,
            elevations,
            chosen,
        ) <= climb(start_elevation, elevations, k)
    &&& forall|k: int|
        0 <= k < chosen && usable(candidates, elevations, k) ==> climb(
            start_elevation,
            elevations,
            chosen,
        ) < climb(start_elevation, elevations, k)
}

/// Whether any candidate can be stepped to.
pub open spec fn some_usable(candidates: Seq<Candidate>, elevations: Seq<i64>) -> bool {
    exists|k: int| 0 <= k < candidates.len() && usable(candidates, elevations, k)
}

/// The places to be examined for a step from `start`: one step length away,
/// at the bearings from `max_angle` degrees below `start_bearing` to
/// `max_angle` degrees above it, every `angle_step` degrees, in that order.
pub fn scan_candidates(
    start: Point2,
    start_bearing: u32,
    max_angle: u32,
    angle_step: u32,
    step_length: u32,
) -> (candidates: Vec<Candidate>)
    requires
        start.in_world(),
        start_bearing < 360,
        max_angle <= 180,
        1 <= angle_step,
    ensures
        candidates.len() == scan_len(max_angle as int, angle_step as int),
        forall|k: int|
            0 <= k < candidates.len() ==> candidates[k] == scan_candidate(
                start,
                start_bearing as int,
                max_angle as int,
                angle_step as int,
                step_length as int,
                k,
            ),
{
    let mut candidates: Vec<Candidate> = Vec::new();
    let mut offset: u32 = 0;
    let ghost mut k: int = 0;
    while offset <= 2 * max_angle
        invariant
            start.in_world(),
            start_bearing < 360,
            max_angle <= 180,
            1 <= angle_step,
            0 <= k,
            offset == k * angle_step,
            offset <= 2 * max_angle + angle_step,
            candidates.len() == k,
            k == (if offset <= 2 * max_angle {
                offset as int / angle_step as int
            } else {
                scan_len(max_angle as int, angle_step as int)
            }),
            forall|j: int|
                0 <= j < candidates.len() ==> candidates[j] == scan_candidate(
                    start,
                    start_bearing as int,
                    max_angle as int,
                    angle_step as int,
                    step_length as int,
                    j,
                ),
        decreases 2 * max_angle + angle_step - offset,
    {
        let bearing: u32 = (start_bearing + 360 - max_angle + offset) % 360;
        let (dx, dz) = step_offset(step_length, bearing);
        candidates.push(Candidate { bearing, position: Point2 { x: start.x + dx, z: start.z + dz } });
        proof {
            let step = angle_step as int;
            let span = 2 * max_angle as int;
            assert((k + 1) * step == offset + step) by (nonlinear_arith)
                requires
                    offset == k * step,
            ;
            if offset + step <= span {
                assert((offset + step) / step == k + 1) by (nonlinear_arith)
                    requires
                        offset == k * step,
                        step >= 1,
                ;
            } else {
                assert(span / step == k) by (nonlinear_arith)
                    requires
                        offset == k * step,
                        offset <= span < offset + step,
                        step >= 1,
                        0 <= k,
                ;
            }
            k = k + 1;
        }
        if angle_step > 2 * max_angle - offset {
            proof {
                assert(candidates.len() == scan_len(max_angle as int, angle_step as int));
            }
            return candidates;
        }
        offset = offset + angle_step;
    }
    candidates
}

/// Picks the candidate of least slope, the first of them where several climb
/// equally little. `None` if the two lists differ in length or no candidate
/// is usable.
pub fn select_lowest_slope(
    start_elevation: i64,
    candidates: &Vec<Candidate>,
    elevations: &Vec<i64>,
) -> (chosen: Option<usize>)
    ensures
        chosen.is_some() == (candidates.len() == elevations.len() && some_usable(
            candidates@,
            elevations@,
        )),
        chosen matches Some(i) ==> is_lowest_slope(
            start_elevation,
            candidates@,
            elevations@,
            i as int,
        ),
{
    if candidates.len() != elevations.len() {
        return None;
    }
    let mut best: Option<usize> = None;
    let mut best_climb: i128 = 0;
    let mut k: usize = 0;
    while k < candidates.len()
        invariant
            k <= candidates.len(),
            candidates.len() == elevations.len(),
            best.is_none() ==> forall|j: int|
                0 <= j < k ==> !usable(candidates@, elevations@, j),
            best matches Some(i) ==> {
                &&& i < k
                &&& usable(candidates@, elevations@, i as int)
                &&& best_climb == climb(start_elevation, elevations@, i as int)
                &&& forall|j: int|
                    0 <= j < k && usable(candidates@, elevations@, j) ==> best_climb <= climb(
                        start_elevation,
                        elevations@,
                        j,
                    )
                &&& forall|j: int|
                    0 <= j < i && usable(candidates@, elevations@, j) ==> best_climb < climb(
                        start_elevation,
                        elevations@,
                        j,
                    )
            },
        decreases candidates.len() - k,
    {
        let candidate = candidates[k];
        let elevation: i64 = elevations[k];
        if candidate.position.is_in_world() && is_coord_in_world(elevation) {
            let difference: i128 = (elevation as i128) - (start_elevation as i128);
            let this_climb: i128 = if difference >= 0 {
                difference
            } else {
                -difference
            };
            let better = match best {
                None => true,
                Some(_) => this_climb < best_climb,
            };
            if better {
                best = Some(k);
                best_climb = this_climb;
            }
        }
        k += 1;
    }
    proof {
        if best.is_none() {
            assert(!some_usable(candidates@, elevations@));
        } else {
            assert(usable(candidates@, elevations@, best.unwrap() as int));
        }
    }
    best
}

/// Finds the next node of the route: the place one step away from `start`,
/// within `max_angle_deg` degrees of `starting_absolute_angle_deg`, to which
/// the slope is least. `elevations` holds the elevation found at each
/// candidate of the scan, in the scan's order.
pub fn find_next_path_node(
    start: Point3,
    starting_absolute_angle_deg: u32,
    max_angle_deg: u32,
    angle_step_deg: u32,
    step_length: u32,
    elevations: &Vec<i64>,
) -> (step: Option<RouteStep>)
    requires
        start.in_world(),
        starting_absolute_angle_deg < 360,
        max_angle_deg <= 180,
        1 <= angle_step_deg,
    ensures
        step.is_some() == step_exists(
            start,
            starting_absolute_angle_deg as int,
            max_angle_deg as int,
            angle_step_deg as int,
            step_length as int,
            elevations@,
        ),
        step matches Some(s) ==> is_next_step(
            start,
            starting_absolute_angle_deg as int,
            max_angle_deg as int,
            angle_step_deg as int,
            step_length as int,
            elevations@,
            s,
        ),
{
    let candidates = scan_candidates(
        start.to_ground(),
        starting_absolute_angle_deg,
        max_angle_deg,
        angle_step_deg,
        step_length,
    );
    proof {
        assert(candidates@ =~= scan_of(
            start.ground(),
            starting_absolute_angle_deg as int,
            max_angle_deg as int,
            angle_step_deg as int,
            step_length as int,
        ));
    }
    match select_lowest_slope(start.y, &candidates, elevations) {
        Some(index) => {
            let candidate = candidates[index];
            Some(
                RouteStep {
                    index,
                    bearing: candidate.bearing,
                    point: Point3 {
                        x: candidate.position.x,
                        y: elevations[index],
                        z: candidate.position.z,
                    },
                },
            )
        },
        None => None,
    }
}

/// All candidates of a scan, in order.
pub open spec fn scan_of(
    start: Point2,
    start_bearing: int,
    max_angle: int,
    angle_step: int,
    step_length: int,
) -> Seq<Candidate> {
    Seq::new(
        scan_len(max_angle, angle_step) as nat,
        |k: int| scan_candidate(start, start_bearing, max_angle, angle_step, step_length, k),
    )
}

/// Whether a step can be taken: there is one elevation for each candidate of
/// the scan and some candidate is usable.
pub open spec fn step_exists(
    start: Point3,
    start_bearing: int,
    max_angle: int,
    angle_step: int,
    step_length: int,
    elevations: Seq<i64>,
) -> bool {
    let candidates = scan_of(start.ground(), start_bearing, max_angle, angle_step, step_length);
    candidates.len() == elevations.len() && some_usable(candidates, elevations)
}

/// Whether `step` is the step of least slope from `start`.
pub open spec fn is_next_step(
    start: Point3,
    start_bearing: int,
    max_angle: int,
    angle_step: int,
    step_length: int,
    elevations: Seq<i64>,
    step: RouteStep,
) -> bool {
    let candidates = scan_of(start.ground(), start_bearing, max_angle, angle_step, step_length);
    &&& is_lowest_slope(start.y, candidates, elevations, step.index as int)
    &&& step.bearing == candidates[step.index as int].bearing
    &&& step.point == (Point3 {
        x: candidates[step.index as int].position.x,
        y: elevations[step.index as int],
        z: candidates[step.index as int].position.z,
    })
}

/// The route: its nodes in the order in which they were made.
pub struct Route {
    /// Id that the next node gets: the number of nodes.
    id_counter: usize,
    points: Vec<Point3>,
    /// Bearing of each step: `headings[i]` leads from node `i` to node `i + 1`.
    headings: Vec<u32>,
    points_changed: bool,
    step_length: u32,
    max_turn: u32,
}

impl View for Route {
    type V = Seq<Point3>;

    /// The nodes of the route, in order.
    closed spec fn view(&self) -> Seq<Point3> {
        self.points@
    }
}

impl Route {
    /// Id that the next node gets.
    pub closed spec fn next_id(self) -> usize {
        self.id_counter
    }

    /// Bearing of each step, in degrees below 360: the `i`-th leads from node
    /// `i` to node `i + 1`.
    pub closed spec fn headings(self) -> Seq<u32> {
        self.headings@
    }

    /// Whether nodes were added since the polyline was last taken.
    pub closed spec fn changed(self) -> bool {
        self.points_changed
    }

    /// Distance between two nodes on the ground, in millimetres.
    pub closed spec fn step_length(self) -> u32 {
        self.step_length
    }

    /// Bound on the turn between two successive steps, in degrees.
    pub closed spec fn max_turn(self) -> u32 {
        self.max_turn
    }

    /// The route's invariant.
    pub open spec fn wf(self) -> bool {
        &&& self.next_id() == self@.len()
        &&& self.max_turn() <= 180
        &&& self@.len() != 1
        &&& self@.len() == 0 ==> self.headings().len() == 0
        &&& self@.len() > 0 ==> self.headings().len() + 1 == self@.len()
        &&& forall|i: int| 0 <= i < self@.len() ==> (#[trigger] self@[i]).in_world()
        &&& forall|i: int|
            0 <= i < self.headings().len() ==> (#[trigger] self.headings()[i]) < 360 && self@[i
                + 1].ground() == step_from(
                self@[i].ground(),
                self.headings()[i] as int,
                self.step_length() as int,
            )
        &&& forall|i: int|
            1 <= i < self.headings().len() ==> turn_between(
                self.headings()[i - 1] as int,
                #[trigger] self.headings()[i] as int,
            ) <= self.max_turn()
    }

    /// An empty route with the given step length, in millimetres, and bound on
    /// the turn, in degrees. `None` if the bound is above 180.
    pub fn new(step_length: u32, max_turn: u32) -> (r: Option<Route>)
        ensures
            r.is_some() == (max_turn <= 180),
            r matches Some(route) ==> route.wf() && route@.len() == 0 && route.step_length()
                == step_length && route.max_turn() == max_turn && !route.changed(),
    {
        if max_turn > 180 {
            return None;
        }
        Some(
            Route {
                id_counter: 0,
                points: Vec::new(),
                headings: Vec::new(),
                points_changed: false,
                step_length,
                max_turn,
            },
        )
    }

    /// Id of the last node.
    pub fn get_last_id(&self) -> (id: usize)
        requires
            self.wf(),
            self@.len() > 0,
        ensures
            id == self@.len() - 1,
    {
        self.id_counter - 1
    }

    /// The node with the given id, if it exists.
    pub fn get_point(&self, id: usize) -> (point: Option<&Point3>)
        ensures
            point.is_some() == (id < self@.len()),
            point matches Some(p) ==> *p == self@[id as int],
    {
        if id >= self.points.len() {
            None
        } else {
            Some(&self.points[id])
        }
    }

    /// A copy of the nodes, in order.
    pub fn get_cloned_points(&self) -> (points: Vec<Point3>)
        ensures
            points@ == self@,
    {
        let mut points: Vec<Point3> = Vec::new();
        let mut i: usize = 0;
        while i < self.points.len()
            invariant
                i <= self.points.len(),
                points@ == self.points@.take(i as int),
            decreases self.points.len() - i,
        {
            points.push(self.points[i]);
            proof {
                assert(self.points@.take(i + 1) =~= self.points@.take(i as int).push(
                    self.points@[i as int],
                ));
            }
            i += 1;
        }
        proof {
            assert(self.points@.take(i as int) =~= self.points@);
        }
        points
    }

    /// Number of nodes.
    pub fn len(&self) -> (n: usize)
        ensures
            n == self@.len(),
    {
        self.points.len()
    }

    /// Bearing of the last step, if a step was made.
    pub fn last_heading(&self) -> (heading: Option<u32>)
        ensures
            heading.is_some() == (self.headings().len() > 0),
            heading matches Some(h) ==> h == self.headings().last(),
    {
        if self.headings.len() == 0 {
            None
        } else {
            Some(self.headings[self.headings.len() - 1])
        }
    }

    /// The places to be examined for the first step: one step away from the
    /// origin, all around it.
    pub fn first_scan(&self) -> (candidates: Vec<Candidate>)
        ensures
            candidates@ == first_scan_of(self.step_length()),
    {
        let candidates = scan_candidates(
            Point2 { x: 0, z: 0 },
            0,
            FIRST_SCAN_ANGLE,
            FIRST_SCAN_STEP,
            self.step_length,
        );
        proof {
            assert(candidates@ =~= first_scan_of(self.step_length()));
        }
        candidates
    }

    /// Makes the first two nodes of an empty route. The first stands at the
    /// world's origin, `START_CLEARANCE` above the ground, whose elevation
    /// there is `origin_elevation`. The second is the candidate of the first
    /// scan to which the slope is least; `elevations` holds the elevation
    /// found at each candidate, in the scan's order.
    ///
    /// Returns the step that was made. Without one the route stays as it is.
    pub fn init_line_points(&mut self, origin_elevation: i64, elevations: &Vec<i64>) -> (made:
        Option<RouteStep>)
        requires
            old(self).wf(),
        ensures
            final(self).wf(),
            final(self).step_length() == old(self).step_length(),
            final(self).max_turn() == old(self).max_turn(),
            made.is_some() == can_init(*old(self), origin_elevation, elevations@),
            made matches Some(step) ==> {
                &&& is_next_step(
                    first_point(origin_elevation),
                    0,
                    FIRST_SCAN_ANGLE as int,
                    FIRST_SCAN_STEP as int,
                    old(self).step_length() as int,
                    elevations@,
                    step,
                )
                &&& final(self)@ == seq![first_point(origin_elevation), step.point]
                &&& final(self).headings() == seq![step.bearing]
                &&& final(self).changed()
            },
            made.is_none() ==> final(self)@ == old(self)@ && final(self).headings() == old(self).headings() && final(self).changed() == old(self).changed(),
            old(self)@.is_prefix_of(final(self)@),
    {
        if self.points.len() != 0 {
            return None;
        }
        if !is_coord_in_world(origin_elevation) || origin_elevation > crate::units::WORLD_LIMIT
            - START_CLEARANCE {
            return None;
        }
        let start = Point3 { x: 0, y: origin_elevation + START_CLEARANCE, z: 0 };
        let found = find_next_path_node(
            start,
            0,
            FIRST_SCAN_ANGLE,
            FIRST_SCAN_STEP,
            self.step_length,
            elevations,
        );
        match found {
            Some(step) => {
                self.points.push(start);
                self.points.push(step.point);
                self.headings.push(step.bearing);
                self.id_counter = 2;
                self.points_changed = true;
                proof {
                    assert(self@ =~= seq![first_point(origin_elevation), step.point]);
                    assert(self.headings() =~= seq![step.bearing]);
                    lemma_step_lands(
                        start,
                        0,
                        FIRST_SCAN_ANGLE as int,
                        FIRST_SCAN_STEP as int,
                        self.step_length as int,
                        elevations@,
                        step,
                    );
                }
                Some(step)
            },
            None => None,
        }
    }

    /// The places to be examined for the next step: one step away from the
    /// last node, within the bound on the turn of the last step's bearing.
    /// Empty while the route has no step yet.
    pub fn next_scan(&self) -> (candidates: Vec<Candidate>)
        requires
            self.wf(),
        ensures
            candidates@ == next_scan_of(*self),
    {
        if self.headings.len() == 0 {
            return Vec::new();
        }
        let last = self.points[self.points.len() - 1];
        let heading: u32 = self.headings[self.headings.len() - 1];
        let candidates = scan_candidates(
            last.to_ground(),
            heading,
            self.max_turn,
            NEXT_SCAN_STEP,
            self.step_length,
        );
        proof {
            assert(candidates@ =~= next_scan_of(*self));
        }
        candidates
    }

    /// Adds a node to the route, if its last node lies within the load radius
    /// of the viewpoint's chunk. The node is the candidate of the next scan to
    /// which the slope is least; `elevations` holds the elevation found at
    /// each candidate, in the scan's order.
    ///
    /// Returns the step that was made. Without one the route stays as it is.
    pub fn build_route_path(&mut self, terrain: &Terrain, viewpoint: Point2, elevations: &Vec<i64>) -> (made:
        Option<RouteStep>)
        requires
            old(self).wf(),
            terrain.wf(),
        ensures
            final(self).wf(),
            final(self).step_length() == old(self).step_length(),
            final(self).max_turn() == old(self).max_turn(),
            made.is_some() == can_extend(*old(self), *terrain, viewpoint, elevations@),
            made matches Some(step) ==> {
                &&& is_next_step(
                    old(self)@.last(),
                    old(self).headings().last() as int,
                    old(self).max_turn() as int,
                    NEXT_SCAN_STEP as int,
                    old(self).step_length() as int,
                    elevations@,
                    step,
                )
                &&& final(self)@ == old(self)@.push(step.point)
                &&& final(self).headings() == old(self).headings().push(step.bearing)
                &&& final(self).changed()
            },
            made.is_none() ==> final(self)@ == old(self)@ && final(self).headings() == old(self).headings() && final(self).changed() == old(self).changed(),
            old(self)@.is_prefix_of(final(self)@),
    {
        if self.points.len() < 2 || self.points.len() == usize::MAX {
            return None;
        }
        let last = self.points[self.points.len() - 1];
        let player_chunk_pos = terrain.get_far_chunk_position(viewpoint);
        // Do not proceed if outside of render distance
        if !terrain.is_within_far_render_distance(&last.to_ground(), &player_chunk_pos) {
            return None;
        }
        let heading: u32 = self.headings[self.headings.len() - 1];
        let found = find_next_path_node(
            last,
            heading,
            self.max_turn,
            NEXT_SCAN_STEP,
            self.step_length,
            elevations,
        );
        match found {
            Some(step) => {
                let ghost before = *self;
                self.points.push(step.point);
                self.headings.push(step.bearing);
                self.id_counter = self.id_counter + 1;
                self.points_changed = true;
                proof {
                    lemma_step_lands(
                        last,
                        heading as int,
                        self.max_turn as int,
                        NEXT_SCAN_STEP as int,
                        self.step_length as int,
                        elevations@,
                        step,
                    );
                    lemma_scan_turn(heading as int, self.max_turn as int, step.index as int);
                    assert forall|i: int| 0 <= i < self.headings().len() implies (
                    #[trigger] self.headings()[i]) < 360 && self@[i + 1].ground() == step_from(
                        self@[i].ground(),
                        self.headings()[i] as int,
                        self.step_length() as int,
                    ) by {
                        if i < before.headings().len() {
                            assert(self.headings()[i] == before.headings()[i]);
                            assert(self@[i] == before@[i]);
                            assert(self@[i + 1] == before@[i + 1]);
                        }
                    }
                    assert forall|i: int| 1 <= i < self.headings().len() implies turn_between(
                        self.headings()[i - 1] as int,
                        #[trigger] self.headings()[i] as int,
                    ) <= self.max_turn() by {
                        if i < before.headings().len() {
                            assert(self.headings()[i] == before.headings()[i]);
                            assert(self.headings()[i - 1] == before.headings()[i - 1]);
                        }
                    }
                    assert forall|i: int| 0 <= i < self@.len() implies (#[trigger] self@[i]).in_world() by {
                        if i < before@.len() {
                            assert(self@[i] == before@[i]);
                        }
                    }
                }
                Some(step)
            },
            None => None,
        }
    }

    /// Hands out the polyline to be shown, if nodes were added since it was
    /// last taken.
    pub fn update_polyline_points(&mut self) -> (strip: Option<LineStrip>)
        requires
            old(self).wf(),
        ensures
            final(self).wf(),
            final(self)@ == old(self)@,
            final(self).headings() == old(self).headings(),
            final(self).step_length() == old(self).step_length(),
            final(self).max_turn() == old(self).max_turn(),
            !final(self).changed(),
            strip.is_some() == old(self).changed(),
            strip matches Some(line) ==> line.points@ == old(self)@,
    {
        if !self.points_changed {
            return None;
        }
        let point_array = self.get_cloned_points();
        self.points_changed = false;
        Some(LineStrip { points: point_array })
    }
}

impl Default for Route {
    /// An empty route with steps of `NODE_LENGTH` and turns of at most
    /// `MAX_TURN_ANGLE`.
    fn default() -> (route: Route)
        ensures
            route.wf(),
            route@.len() == 0,
            route.step_length() == NODE_LENGTH,
            route.max_turn() == MAX_TURN_ANGLE,
            !route.changed(),
    {
        Route {
            id_counter: 0,
            points: Vec::new(),
            headings: Vec::new(),
            points_changed: false,
            step_length: NODE_LENGTH,
            max_turn: MAX_TURN_ANGLE,
        }
    }
}

/// The first node of a route over ground that lies at `origin_elevation` at
/// the world's origin.
pub open spec fn first_point(origin_elevation: i64) -> Point3 {
    Point3 { x: 0, y: (origin_elevation + START_CLEARANCE) as i64, z: 0 }
}

/// The candidates for the first step of a route.
pub open spec fn first_scan_of(step_length: u32) -> Seq<Candidate> {
    scan_of(
        Point2 { x: 0, z: 0 },
        0,
        FIRST_SCAN_ANGLE as int,
        FIRST_SCAN_STEP as int,
        step_length as int,
    )
}

/// The candidates for the next step of a route.
pub open spec fn next_scan_of(route: Route) -> Seq<Candidate> {
    if route.headings().len() == 0 {
        Seq::empty()
    } else {
        scan_of(
            route@.last().ground(),
            route.headings().last() as int,
            route.max_turn() as int,
            NEXT_SCAN_STEP as int,
            route.step_length() as int,
        )
    }
}

/// Whether `init_line_points` makes the first two nodes: the route is empty,
/// the first node lies in the world, and a first step exists.
pub open spec fn can_init(route: Route, origin_elevation: i64, elevations: Seq<i64>) -> bool {
    &&& route@.len() == 0
    &&& coord_in_world(origin_elevation as int)
    &&& coord_in_world(origin_elevation + START_CLEARANCE)
    &&& step_exists(
        first_point(origin_elevation),
        0,
        FIRST_SCAN_ANGLE as int,
        FIRST_SCAN_STEP as int,
        route.step_length() as int,
        elevations,
    )
}

/// Whether `build_route_path` adds a node: the route has its first two nodes,
/// its last node lies within the load radius of the viewpoint's chunk, and a
/// next step exists.
pub open spec fn can_extend(route: Route, terrain: Terrain, viewpoint: Point2, elevations: Seq<i64>) -> bool {
    &&& 2 <= route@.len() < usize::MAX
    &&& within_render_distance(
        route@.last().ground(),
        chunk_of(viewpoint, terrain.settings().chunk_size),
        terrain.settings(),
    )
    &&& step_exists(
        route@.last(),
        route.headings().last() as int,
        route.max_turn() as int,
        NEXT_SCAN_STEP as int,
        route.step_length() as int,
        elevations,
    )
}

/// A step that was picked ends in the world, one step along its bearing from
/// where it began, and its bearing is below 360.
proof fn lemma_step_lands(
    start: Point3,
    start_bearing: int,
    max_angle: int,
    angle_step: int,
    step_length: int,
    elevations: Seq<i64>,
    step: RouteStep,
)
    requires
        is_next_step(start, start_bearing, max_angle, angle_step, step_length, elevations, step),
        0 <= start_bearing < 360,
        0 <= max_angle <= 180,
        1 <= angle_step,
    ensures
        step.point.in_world(),
        step.bearing < 360,
        step.bearing == scan_bearing(start_bearing, max_angle, angle_step, step.index as int),
        step.point.ground() == step_from(start.ground(), step.bearing as int, step_length),
        0 <= step.index < scan_len(max_angle, angle_step),
{
    let k = step.index as int;
    let bearing = scan_bearing(start_bearing, max_angle, angle_step, k);
    assert(0 <= bearing < 360) by {
        assert(0 <= k * angle_step) by (nonlinear_arith)
            requires
                0 <= k,
                1 <= angle_step,
        ;
    }
}

/// The bearings of a scan with steps of one degree lie within the scan's
/// half-width of the bearing that it is made around.
proof fn lemma_scan_turn(start_bearing: int, max_angle: int, k: int)
    requires
        0 <= start_bearing < 360,
        0 <= max_angle <= 180,
        0 <= k < scan_len(max_angle, NEXT_SCAN_STEP as int),
    ensures
        turn_between(start_bearing, scan_bearing(start_bearing, max_angle, NEXT_SCAN_STEP as int, k))
            <= max_angle,
{
}

/// Turn-angle bound: from the second step on, no step of a route turns away
/// from the step before it by more than the route's bound.
pub proof fn lemma_turn_angle_bound(route: Route, i: int)
    requires
        route.wf(),
        1 <= i < route.headings().len(),
    ensures
        turn_between(route.headings()[i - 1] as int, route.headings()[i] as int)
            <= route.max_turn(),
{
}

/// Each step of a route leads from one node to the next along its bearing,
/// and on the ground two successive nodes are never farther apart than the
/// route's step length.
pub proof fn lemma_step_length_bound(route: Route, i: int)
    requires
        route.wf(),
        0 <= i < route@.len() - 1,
    ensures
        route@[i + 1].ground() == step_from(
            route@[i].ground(),
            route.headings()[i] as int,
            route.step_length() as int,
        ),
        (route@[i + 1].x - route@[i].x) * (route@[i + 1].x - route@[i].x) + (route@[i + 1].z
            - route@[i].z) * (route@[i + 1].z - route@[i].z) <= route.step_length()
            * route.step_length(),
{
    let heading = route.headings()[i];
    assert(heading < 360);
    crate::trig::lemma_step_is_short(route.step_length() as int, heading as int);
    crate::trig::lemma_step_offset_bounds(route.step_length() as int, heading as int);
    let dx = step_offset_x(route.step_length() as int, heading as int);
    let dz = step_offset_z(route.step_length() as int, heading as int);
    assert(route@[i].in_world());
    assert(route@[i + 1].in_world());
    assert(route@[i + 1].ground().x == route@[i].x + dx);
    assert(route@[i + 1].ground().z == route@[i].z + dz);
}

} // verus!
