//! The track: smooth curves laid along the route, one per step, and the
//! single parameter by which a place on the track is named.
//!
//! A curve is given by four control points. Evaluating it, and measuring its
//! length over the ground, is left to the geometry kernel; what is decided
//! here is which curve is made from which route nodes, which curve a place on
//! the track belongs to, and where on that curve it lies.

use crate::trig::{cos_of_sin, slope_between, slope_sin, SlopeAngle};
use crate::units::{
    add_saturating, distance_between, isqrt, mul_div, saturate, sqrt_floor, sub_saturating,
    trunc_div, Point2, Point3, MM_PER_M, PPM,
};
use crate::world::route_gen::Route;
use vstd::prelude::*;

verus! {

/// Number of parts into which a curve is divided to measure its length.
pub const NUM_SUBDIVISIONS: u32 = 20;

/// Height of the track above the ground, in millimetres.
pub const TRACK_ELEVATION: i64 = MM_PER_M;

/// Share of the chord between a node's neighbours that its control point
/// stands away from it, in parts per million.
pub const SMOOTHING: i64 = 200_000;

/// Height that is added to the ground when a curve's length is measured, in
/// millimetres.
pub const SAMPLING_CLEARANCE: i64 = 300;

/// Distance along the track over which its slope is taken, in millionths of
/// a segment.
pub const SLOPE_STEP: i64 = 50_000;

/// The four control points of a cubic curve, relative to the curve's start.
#[derive(Clone, Copy, Debug, PartialEq, Eq, Structural)]
pub struct BezierCurve {
    pub start: Point3,
    pub control1: Point3,
    pub control2: Point3,
    pub end: Point3,
}

/// A curve of the track that is yet to be measured.
#[derive(Clone, Copy, Debug, PartialEq, Eq, Structural)]
pub struct TrackSegment {
    pub id: usize,
    pub curve: BezierCurve,
    /// Where in the world the curve starts.
    pub world_translation: Point3,
}

/// A curve of the track whose length is measured, so that equal steps of
/// its parameter are equal distances.
#[derive(Clone, Copy, Debug, PartialEq, Eq, Structural)]
pub struct SampledTrackSegment {
    pub id: usize,
    /// Where in the world the curve starts.
    pub world_translation: Point3,
}

/// Length and direction of the line from one point to another.
#[derive(Clone, Copy, Debug, PartialEq, Eq, Structural)]
pub struct LineProperties {
    /// Length of the line, rounded down.
    pub length: u64,
    /// The line's extent along `x`.
    pub dx: i64,
    /// The line's extent along `z`.
    pub dz: i64,
}

/// A part of a chord: the share `SMOOTHING` of it, rounded toward zero.
pub open spec fn smoothed(extent: int) -> int {
    trunc_div(extent * SMOOTHING, PPM as int)
}

/// Length and direction of the line from `point1` to `point2`.
pub fn line_properties(point1: Point2, point2: Point2) -> (r: LineProperties)
    requires
        point1.in_world(),
        point2.in_world(),
    ensures
        r.dx == point2.x - point1.x,
        r.dz == point2.z - point1.z,
        r.length == sqrt_floor(r.dx * r.dx + r.dz * r.dz),
{
    let length_x: i64 = point2.x - point1.x;
    let length_y: i64 = point2.z - point1.z;
    let wide_x: i128 = length_x as i128;
    let wide_y: i128 = length_y as i128;
    assert(0 <= wide_x * wide_x <= 4_000_000_000_000_000_000_000_000) by (nonlinear_arith)
        requires
            -2_000_000_000_000 <= wide_x <= 2_000_000_000_000,
    ;
    assert(0 <= wide_y * wide_y <= 4_000_000_000_000_000_000_000_000) by (nonlinear_arith)
        requires
            -2_000_000_000_000 <= wide_y <= 2_000_000_000_000,
    ;
    let square: i128 = wide_x * wide_x + wide_y * wide_y;
    LineProperties { length: isqrt(square as u128), dx: length_x, dz: length_y }
}

/// The control point that belongs to `current`: away from it by the share
/// `SMOOTHING` of the chord from `previous` to `next`, along the chord, or
/// against it if `is_reverse`. A neighbour that is missing is taken to be
/// `current` itself.
pub open spec fn control_point(
    previous: Option<Point3>,
    current: Point3,
    next: Option<Point3>,
    is_reverse: bool,
) -> Point3 {
    let from = match previous {
        Some(p) => p,
        None => current,
    };
    let to = match next {
        Some(p) => p,
        None => current,
    };
    let dx = smoothed(to.x - from.x);
    let dz = smoothed(to.z - from.z);
    if is_reverse {
        Point3 { x: (current.x - dx) as i64, y: current.y, z: (current.z - dz) as i64 }
    } else {
        Point3 { x: (current.x + dx) as i64, y: current.y, z: (current.z + dz) as i64 }
    }
}

/// The control point that belongs to `current_point`.
pub fn find_control_point(
    previous_point: Option<Point3>,
    current_point: Point3,
    next_point: Option<Point3>,
    is_reverse: bool,
) -> (r: Point3)
    requires
        current_point.in_world(),
        previous_point matches Some(p) ==> p.in_world(),
        next_point matches Some(p) ==> p.in_world(),
    ensures
        r == control_point(previous_point, current_point, next_point, is_reverse),
        -2_000_000_000_000 <= r.x <= 2_000_000_000_000,
        -2_000_000_000_000 <= r.z <= 2_000_000_000_000,
{
    let previous = match previous_point {
        Some(p) => p,
        None => current_point,
    };
    let next = match next_point {
        Some(p) => p,
        None => current_point,
    };
    let opposing = line_properties(previous.to_ground(), next.to_ground());
    proof {
        lemma_smoothed_bounds(opposing.dx as int);
        lemma_smoothed_bounds(opposing.dz as int);
    }
    let dx: i64 = mul_div(opposing.dx, SMOOTHING, PPM);
    let dz: i64 = mul_div(opposing.dz, SMOOTHING, PPM);
    if is_reverse {
        Point3 { x: current_point.x - dx, y: current_point.y, z: current_point.z - dz }
    } else {
        Point3 { x: current_point.x + dx, y: current_point.y, z: current_point.z + dz }
    }
}

proof fn lemma_smoothed_bounds(extent: int)
    requires
        -2_000_000_000_000 <= extent <= 2_000_000_000_000,
    ensures
        -400_000_000_000 <= smoothed(extent) <= 400_000_000_000,
{
    assert(SMOOTHING == 200_000 && PPM == 1_000_000);
}

/// `point` as seen from `origin`.
pub open spec fn relative_to(point: Point3, origin: Point3) -> Point3 {
    Point3 {
        x: (point.x - origin.x) as i64,
        y: (point.y - origin.y) as i64,
        z: (point.z - origin.z) as i64,
    }
}

/// `point` at elevation zero.
pub open spec fn flat(point: Point3) -> Point3 {
    Point3 { y: 0, ..point }
}

/// The two inner control points of the curve from `start` to `end`, as seen
/// from `centered_at`.
pub fn find_control_points(
    start: Point3,
    end: Point3,
    previous: Option<Point3>,
    next: Option<Point3>,
    centered_at: Point3,
) -> (r: (Point3, Point3))
    requires
        start.in_world(),
        end.in_world(),
        centered_at.in_world(),
        previous matches Some(p) ==> p.in_world(),
        next matches Some(p) ==> p.in_world(),
    ensures
        r.0 == relative_to(control_point(previous, start, Some(end), false), centered_at),
        r.1 == relative_to(control_point(Some(start), end, next, true), centered_at),
{
    let first = find_control_point(previous, start, Some(end), false);
    let second = find_control_point(Some(start), end, next, true);
    (
        Point3 { x: first.x - centered_at.x, y: first.y - centered_at.y, z: first.z - centered_at.z },
        Point3 {
            x: second.x - centered_at.x,
            y: second.y - centered_at.y,
            z: second.z - centered_at.z,
        },
    )
}

/// The curve of the track that leads from node `id - 1` of a route to node
/// `id`, drawn from the four nodes around it and flattened: elevations come
/// from the ground when the curve is measured, not from the control points.
pub open spec fn segment_curve(points: Seq<Point3>, id: int) -> BezierCurve {
    let previous = points[id - 2];
    let last = points[id - 1];
    let new = points[id];
    let next = points[id + 1];
    BezierCurve {
        start: Point3 { x: 0, y: 0, z: 0 },
        control1: flat(relative_to(control_point(Some(previous), last, Some(new), false), last)),
        control2: flat(relative_to(control_point(Some(last), new, Some(next), true), last)),
        end: flat(relative_to(new, last)),
    }
}

/// What is known of how the track is to be laid: the curves made so far, and
/// how far the route is used up and the track meshes are placed.
pub struct PlacementData {
    track_shape: bool,
    track_material: bool,
    segments: Vec<TrackSegment>,
    last_placed_segment_id: usize,
    last_used_node_id: usize,
}

/// A track mesh to be made and placed.
#[derive(Clone, Copy, Debug, PartialEq, Eq, Structural)]
pub struct TrackPlacement {
    /// The curve along which the track's cross-section is drawn out.
    pub segment: TrackSegment,
    /// Offset of the height field under the curve.
    pub height_offset: Point3,
    /// Number of parts into which the curve is divided.
    pub subdivisions: u32,
    /// Where the mesh is placed.
    pub translation: Point3,
}

/// Offset of the height field under a curve that starts at `world`: the
/// curve's own place, with the elevation turned around and `clearance` added.
pub open spec fn height_offset(world: Point3, clearance: int) -> Point3 {
    Point3 { x: world.x, y: saturate(clearance - world.y) as i64, z: world.z }
}

/// The placement of a curve's track mesh.
pub open spec fn placement_of(segment: TrackSegment) -> TrackPlacement {
    TrackPlacement {
        segment,
        height_offset: height_offset(segment.world_translation, 0),
        subdivisions: NUM_SUBDIVISIONS,
        translation: Point3 {
            y: saturate(segment.world_translation.y + TRACK_ELEVATION) as i64,
            ..segment.world_translation
        },
    }
}

impl PlacementData {
    /// The curves made so far, in order.
    pub closed spec fn segments(self) -> Seq<TrackSegment> {
        self.segments@
    }

    /// Id of the last curve whose mesh is placed, or 0.
    pub closed spec fn last_placed(self) -> usize {
        self.last_placed_segment_id
    }

    /// Id of the last route node that a curve leads to, or 0.
    pub closed spec fn last_used_node(self) -> usize {
        self.last_used_node_id
    }

    /// Whether the cross-section and the material of the track are loaded.
    pub closed spec fn assets_ready(self) -> bool {
        self.track_shape && self.track_material
    }

    /// The invariant: curves are numbered from 1 in order, curve `k` leads to
    /// route node `k + 1`, and no mesh is placed for a curve that is not made.
    pub open spec fn wf(self) -> bool {
        &&& forall|i: int| 0 <= i < self.segments().len() ==> (#[trigger] self.segments()[i]).id == i + 1
        &&& self.last_placed() <= self.segments().len()
        &&& self.segments().len() == 0 ==> self.last_used_node() == 0
        &&& self.segments().len() > 0 ==> self.last_used_node() == self.segments().len() + 1
    }

    /// Id of the route node that the next curve leads to.
    pub open spec fn node_to_add(self) -> int {
        if self.last_used_node() == 0 {
            2
        } else {
            self.last_used_node() + 1
        }
    }

    /// Whether a curve can be made: the route has the node that the curve
    /// leads to and the node after it.
    pub open spec fn can_grow(self, route: Route) -> bool {
        self.node_to_add() + 1 < route@.len()
    }

    /// Placement data without curves, with the track's assets yet to load.
    pub fn new() -> (data: PlacementData)
        ensures
            data.wf(),
            data.segments().len() == 0,
            data.last_placed() == 0,
            data.last_used_node() == 0,
            !data.assets_ready(),
    {
        PlacementData {
            track_shape: false,
            track_material: false,
            segments: Vec::new(),
            last_placed_segment_id: 0,
            last_used_node_id: 0,
        }
    }

    /// Records whether the track's cross-section and material are loaded.
    pub fn setup_track_data(&mut self, track_shape: bool, track_material: bool)
        ensures
            final(self).segments() == old(self).segments(),
            final(self).last_placed() == old(self).last_placed(),
            final(self).last_used_node() == old(self).last_used_node(),
            final(self).assets_ready() == (track_shape && track_material),
    {
        self.track_shape = track_shape;
        self.track_material = track_material;
    }

    /// Id of the last curve made, or 0.
    pub fn current_segment_id(&self) -> (id: usize)
        requires
            self.wf(),
        ensures
            id == self.segments().len(),
    {
        if self.segments.len() == 0 {
            0
        } else {
            self.segments[self.segments.len() - 1].id
        }
    }

    /// The curve with the given id, if it is made.
    pub fn get_segment(&self, id: usize) -> (segment: Option<TrackSegment>)
        requires
            self.wf(),
        ensures
            segment.is_some() == (1 <= id <= self.segments().len()),
            segment matches Some(s) ==> s == self.segments()[id - 1] && s.id == id,
    {
        if id >= 1 && id <= self.segments.len() {
            Some(self.segments[id - 1])
        } else {
            None
        }
    }

    /// Makes the next curve, if the route has grown far enough: the curve
    /// that leads to the first node not yet used needs that node, the two
    /// before it and the one after it. One curve is made per call.
    ///
    /// Returns whether a curve was made.
    pub fn update_placement_data(&mut self, route: &Route) -> (made: bool)
        requires
            old(self).wf(),
            route.wf(),
        ensures
            final(self).wf(),
            final(self).last_placed() == old(self).last_placed(),
            final(self).assets_ready() == old(self).assets_ready(),
            made == old(self).can_grow(*route),
            made ==> final(self).segments() == old(self).segments().push(
                TrackSegment {
                    id: (old(self).segments().len() + 1) as usize,
                    curve: segment_curve(route@, old(self).node_to_add()),
                    world_translation: route@[old(self).node_to_add() - 1],
                },
            ) && final(self).last_used_node() == old(self).node_to_add(),
            !made ==> final(self).segments() == old(self).segments() && final(self).last_used_node() == old(self).last_used_node(),
    {
        let id_to_add: usize = if self.last_used_node_id == 0 {
            2
        } else {
            if self.last_used_node_id >= usize::MAX - 1 {
                return false;
            }
            self.last_used_node_id + 1
        };
        if route.len() <= id_to_add + 1 {
            return false;
        }
        // We need at least four points to get the direction stuff right.
        let next_node = *route.get_point(id_to_add + 1).unwrap();
        let new_node = *route.get_point(id_to_add).unwrap();
        let last_node = *route.get_point(id_to_add - 1).unwrap();
        let previous_node = *route.get_point(id_to_add - 2).unwrap();
        proof {
            assert(route@[id_to_add + 1].in_world());
            assert(route@[id_to_add as int].in_world());
            assert(route@[id_to_add - 1].in_world());
            assert(route@[id_to_add - 2].in_world());
        }
        // Calculate the bezier points (the vertices will be positioned relative to zero)
        let (bezier_control1, bezier_control2) = find_control_points(
            last_node,
            new_node,
            Some(previous_node),
            Some(next_node),
            last_node,
        );
        let bezier_curve = BezierCurve {
            start: Point3 { x: 0, y: 0, z: 0 },
            control1: Point3 { x: bezier_control1.x, y: 0, z: bezier_control1.z },
            control2: Point3 { x: bezier_control2.x, y: 0, z: bezier_control2.z },
            end: Point3 { x: new_node.x - last_node.x, y: 0, z: new_node.z - last_node.z },
        };
        // Push the new segment
        let segment = TrackSegment {
            id: self.current_segment_id() + 1,
            curve: bezier_curve,
            world_translation: last_node,
        };
        self.segments.push(segment);
        self.last_used_node_id = id_to_add;
        proof {
            assert forall|i: int| 0 <= i < self.segments().len() implies (
            #[trigger] self.segments()[i]).id == i + 1 by {
                if i < old(self).segments().len() {
                    assert(self.segments()[i] == old(self).segments()[i]);
                }
            }
        }
        true
    }

    /// Hands out the next curve whose track mesh is to be placed, if the
    /// track's assets are loaded and a curve waits. One mesh is placed per
    /// call, in the order of the curves.
    pub fn place_tracks(&mut self) -> (placement: Option<TrackPlacement>)
        requires
            old(self).wf(),
        ensures
            final(self).wf(),
            final(self).segments() == old(self).segments(),
            final(self).last_used_node() == old(self).last_used_node(),
            final(self).assets_ready() == old(self).assets_ready(),
            placement.is_some() == (old(self).assets_ready() && old(self).last_placed() < old(self).segments().len()),
            placement matches Some(p) ==> p == placement_of(
                old(self).segments()[old(self).last_placed() as int],
            ) && final(self).last_placed() == old(self).last_placed() + 1,
            placement.is_none() ==> final(self).last_placed() == old(self).last_placed(),
    {
        if !self.track_shape || !self.track_material {
            return None;
        }
        if self.last_placed_segment_id >= self.current_segment_id() {
            return None;
        }
        let id_to_place = self.last_placed_segment_id + 1;
        let segment = self.get_segment(id_to_place).unwrap();
        let world_pos = segment.world_translation;
        let placement = TrackPlacement {
            segment,
            height_offset: Point3 { x: world_pos.x, y: sub_saturating(0, world_pos.y), z: world_pos.z },
            subdivisions: NUM_SUBDIVISIONS,
            translation: Point3 {
                x: world_pos.x,
                y: add_saturating(world_pos.y, TRACK_ELEVATION),
                z: world_pos.z,
            },
        };
        self.last_placed_segment_id = id_to_place;
        Some(placement)
    }
}

impl Default for PlacementData {
    fn default() -> (data: PlacementData)
        ensures
            data.wf(),
            data.segments().len() == 0,
            data.last_placed() == 0,
            data.last_used_node() == 0,
            !data.assets_ready(),
    {
        PlacementData::new()
    }
}

/// A place on a curve of the track.
#[derive(Clone, Copy, Debug, PartialEq, Eq, Structural)]
pub struct CurveSample {
    /// Id of the curve.
    pub segment_id: usize,
    /// Share of the curve's length that lies before the place, in parts per
    /// million, below one million.
    pub local_t: u32,
    /// Where in the world the curve starts.
    pub world_translation: Point3,
}

/// The two places between which the slope of the track is taken.
#[derive(Clone, Copy, Debug, PartialEq, Eq, Structural)]
pub struct SlopeSamples {
    pub here: CurveSample,
    pub ahead: CurveSample,
}

/// A curve to be measured before it is part of the track.
#[derive(Clone, Copy, Debug, PartialEq, Eq, Structural)]
pub struct SegmentToSample {
    pub segment: TrackSegment,
    /// Offset of the height field under the curve.
    pub height_offset: Point3,
}

/// The track: the measured curves, in the order of their ids.
pub struct Track {
    /// Used to sample the t value (used by train bogies).
    segments: Vec<SampledTrackSegment>,
    last_used_segment_id: usize,
}

/// Id of the curve that the place `t` on the track belongs to: its whole
/// part, `t` being counted in millionths of a curve.
pub open spec fn segment_index(t: int) -> int {
    t / (PPM as int)
}

/// Place of `t` within its curve, in parts per million.
pub open spec fn local_part(t: int) -> int {
    t % (PPM as int)
}

impl Track {
    /// The curves of the track, in the order of their ids.
    pub closed spec fn segments(self) -> Seq<SampledTrackSegment> {
        self.segments@
    }

    /// Id of the last curve of the track, or 0.
    pub closed spec fn last_used(self) -> usize {
        self.last_used_segment_id
    }

    /// The invariant: curves are taken in strictly in the order of their ids,
    /// from 1.
    pub open spec fn wf(self) -> bool {
        &&& self.last_used() == self.segments().len()
        &&& forall|i: int| 0 <= i < self.segments().len() ==> (#[trigger] self.segments()[i]).id == i + 1
    }

    /// The curve with the given id, if the track has it.
    pub open spec fn segment(self, id: int) -> Option<SampledTrackSegment> {
        if 1 <= id <= self.segments().len() {
            Some(self.segments()[id - 1])
        } else {
            None
        }
    }

    /// The place `t` on the track as a place on its curve, if the track has
    /// that curve. A negative `t` names no place.
    pub open spec fn sample_at(self, t: int) -> Option<CurveSample> {
        if t < 0 {
            None
        } else {
            match self.segment(segment_index(t)) {
                Some(s) => Some(
                    CurveSample {
                        segment_id: s.id,
                        local_t: local_part(t) as u32,
                        world_translation: s.world_translation,
                    },
                ),
                None => None,
            }
        }
    }

    /// A track without curves.
    pub fn new() -> (track: Track)
        ensures
            track.wf(),
            track.segments().len() == 0,
    {
        Track { segments: Vec::new(), last_used_segment_id: 0 }
    }

    /// Number of curves of the track.
    pub fn segment_count(&self) -> (n: usize)
        ensures
            n == self.segments().len(),
    {
        self.segments.len()
    }

    /// The curve that the place `t` on the track belongs to, if the track has
    /// it.
    pub fn get_segment_at_t(&self, t: i64) -> (found: Option<SampledTrackSegment>)
        requires
            self.wf(),
        ensures
            found == (if t < 0 {
                None
            } else {
                self.segment(segment_index(t as int))
            }),
    {
        if t < 0 {
            return None;
        }
        let lower_bound: i64 = t / PPM;
        if lower_bound >= 1 && (lower_bound as u64) <= (self.segments.len() as u64) {
            Some(self.segments[(lower_bound - 1) as usize])
        } else {
            None
        }
    }

    /// The place `t` on the track as a place on its curve.
    fn sample_wide(&self, t: i128) -> (sample: Option<CurveSample>)
        requires
            self.wf(),
            t <= i64::MAX + SLOPE_STEP,
        ensures
            sample == self.sample_at(t as int),
    {
        if t < 0 {
            return None;
        }
        let lower_bound: i128 = t / (PPM as i128);
        let local_t: i128 = t % (PPM as i128);
        if lower_bound >= 1 && lower_bound <= (self.segments.len() as i128) {
            let segment = self.segments[(lower_bound - 1) as usize];
            Some(
                CurveSample {
                    segment_id: segment.id,
                    local_t: local_t as u32,
                    world_translation: segment.world_translation,
                },
            )
        } else {
            None
        }
    }

    /// Where on which curve the place `t` on the track lies. `None` where the
    /// track has no curve for it: it is not laid that far yet.
    ///
    /// The place in the world follows from the sample: the curve's point at
    /// `local_t` of its length, moved by `world_translation`, set on the
    /// ground and lifted by `TRACK_ELEVATION`.
    pub fn get_interpolated_position_at_t(&self, t: i64) -> (sample: Option<CurveSample>)
        requires
            self.wf(),
        ensures
            sample == self.sample_at(t as int),
    {
        self.sample_wide(t as i128)
    }

    /// The two places between which the slope at `t` is taken: `t` itself
    /// and the place `SLOPE_STEP` further on, which may lie on the next
    /// curve. `None` where the track has no curve for either.
    pub fn get_slope_angle_at_t(&self, t: i64) -> (samples: Option<SlopeSamples>)
        requires
            self.wf(),
        ensures
            samples == slope_samples(*self, t as int),
    {
        match self.sample_wide(t as i128) {
            Some(this_sample) => {
                match self.sample_wide((t as i128) + (SLOPE_STEP as i128)) {
                    Some(new_sample) => Some(SlopeSamples { here: this_sample, ahead: new_sample }),
                    None => None,
                }
            },
            None => None,
        }
    }

    /// Takes the next curve into the track, if one waits: the curve whose id
    /// follows on the last curve of the track. One curve is taken per call.
    ///
    /// Returns the curve, which is to be measured over the height field at
    /// `height_offset`.
    pub fn update_track_entity(&mut self, placement_data: &PlacementData) -> (taken: Option<
        SegmentToSample,
    >)
        requires
            old(self).wf(),
            placement_data.wf(),
        ensures
            final(self).wf(),
            taken.is_some() == (old(self).segments().len() < placement_data.segments().len()),
            taken matches Some(sampled) ==> {
                &&& sampled.segment == placement_data.segments()[old(self).segments().len() as int]
                &&& sampled.height_offset == height_offset(
                    sampled.segment.world_translation,
                    SAMPLING_CLEARANCE as int,
                )
                &&& final(self).segments() == old(self).segments().push(
                    SampledTrackSegment {
                        id: sampled.segment.id,
                        world_translation: sampled.segment.world_translation,
                    },
                )
            },
            taken.is_none() ==> final(self).segments() == old(self).segments(),
    {
        if placement_data.current_segment_id() <= self.last_used_segment_id {
            return None;
        }
        let segment = placement_data.get_segment(self.last_used_segment_id + 1).unwrap();
        let world_pos = segment.world_translation;
        let sampled_segment = SampledTrackSegment {
            id: segment.id,
            world_translation: segment.world_translation,
        };
        self.segments.push(sampled_segment);
        self.last_used_segment_id += 1;
        proof {
            assert forall|i: int| 0 <= i < self.segments().len() implies (
            #[trigger] self.segments()[i]).id == i + 1 by {
                if i < old(self).segments().len() {
                    assert(self.segments()[i] == old(self).segments()[i]);
                }
            }
        }
        Some(
            SegmentToSample {
                segment,
                height_offset: Point3 {
                    x: world_pos.x,
                    y: sub_saturating(SAMPLING_CLEARANCE, world_pos.y),
                    z: world_pos.z,
                },
            },
        )
    }
}

impl Default for Track {
    fn default() -> (track: Track)
        ensures
            track.wf(),
            track.segments().len() == 0,
    {
        Track::new()
    }
}

/// The two places between which the slope at `t` is taken, if the track has
/// a curve for both.
pub open spec fn slope_samples(track: Track, t: int) -> Option<SlopeSamples> {
    match (track.sample_at(t), track.sample_at(t + SLOPE_STEP)) {
        (Some(here), Some(ahead)) => Some(SlopeSamples { here, ahead }),
        _ => None,
    }
}

/// Where in the world a point of a curve lies on the ground, the curve
/// starting at `world_translation`.
pub open spec fn ground_under(local: Point3, world_translation: Point3) -> Point2 {
    Point2 {
        x: saturate(local.x + world_translation.x) as i64,
        z: saturate(local.z + world_translation.z) as i64,
    }
}

/// Where in the world a point of a curve lies on the ground.
pub fn track_ground_position(local: Point3, sample: &CurveSample) -> (ground: Point2)
    ensures
        ground == ground_under(local, sample.world_translation),
{
    Point2 {
        x: add_saturating(local.x, sample.world_translation.x),
        z: add_saturating(local.z, sample.world_translation.z),
    }
}

/// The place of the track above a place on the ground: `TRACK_ELEVATION`
/// above the ground's elevation there.
pub fn track_position(ground: Point2, ground_elevation: i64) -> (position: Point3)
    ensures
        position == (Point3 {
            x: ground.x,
            y: saturate(ground_elevation + TRACK_ELEVATION) as i64,
            z: ground.z,
        }),
{
    Point3 { x: ground.x, y: add_saturating(ground_elevation, TRACK_ELEVATION), z: ground.z }
}

/// The slope of the track between two places on the ground, each given with
/// the ground's elevation there. `None` where either lies outside the world
/// or the two are less than a millimetre apart.
pub fn slope_angle_between(here: Point3, ahead: Point3) -> (slope: Option<SlopeAngle>)
    ensures
        slope.is_some() == (here.in_world() && ahead.in_world() && distance_between(here, ahead)
            >= 1),
        slope matches Some(s) ==> s.wf() && s.sin() == slope_sin(here, ahead) && s.cos()
            == cos_of_sin(s.sin() as int),
{
    if !here.is_in_world() || !ahead.is_in_world() {
        return None;
    }
    slope_between(here, ahead)
}

} // verus!
