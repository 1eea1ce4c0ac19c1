use railworld::units::{Point2, Point3, WORLD_LIMIT};
use railworld::world::route_gen::Route;
use railworld::world::terrain::Terrain;
use railworld::world::train_tracks::{
    find_control_point, find_control_points, line_properties, slope_angle_between,
    track_ground_position, track_position, BezierCurve, CurveSample, PlacementData, Track,
    NUM_SUBDIVISIONS, TRACK_ELEVATION,
};

fn flat_ground(_position: &Point2) -> i64 {
    250
}

/// A route of `nodes` nodes over level ground.
fn route_of(nodes: usize) -> Route {
    let terrain = Terrain::default();
    let mut route = Route::default();
    let elevations: Vec<i64> = route.first_scan().iter().map(flat_ground_of).collect();
    assert!(route.init_line_points(250, &elevations).is_some());
    while route.len() < nodes {
        let last = *route.get_point(route.get_last_id()).unwrap();
        let elevations: Vec<i64> = route.next_scan().iter().map(flat_ground_of).collect();
        let made = route.build_route_path(&terrain, Point2 { x: last.x, z: last.z }, &elevations);
        assert!(made.is_some());
    }
    route
}

fn flat_ground_of(candidate: &railworld::world::route_gen::Candidate) -> i64 {
    flat_ground(&candidate.position)
}

#[test]
fn length_and_direction_of_a_line() {
    let line = line_properties(Point2 { x: 1000, z: 1000 }, Point2 { x: 4000, z: -3000 });
    assert_eq!(line.dx, 3000);
    assert_eq!(line.dz, -4000);
    assert_eq!(line.length, 5000);
    let none = line_properties(Point2 { x: 5, z: 5 }, Point2 { x: 5, z: 5 });
    assert_eq!((none.length, none.dx, none.dz), (0, 0, 0));
}

#[test]
fn control_points_stand_a_fifth_of_the_chord_away() {
    let previous = Point3 { x: 0, y: 10, z: 0 };
    let current = Point3 { x: 1000, y: 20, z: 500 };
    let next = Point3 { x: 2003, y: 30, z: -998 };
    let forward = find_control_point(Some(previous), current, Some(next), false);
    assert_eq!(forward, Point3 { x: 1400, y: 20, z: 301 });
    let backward = find_control_point(Some(previous), current, Some(next), true);
    assert_eq!(backward, Point3 { x: 600, y: 20, z: 699 });
    // a missing neighbour is taken to be the point itself
    let open_start = find_control_point(None, current, Some(next), false);
    assert_eq!(open_start, Point3 { x: 1200, y: 20, z: 201 });
    let alone = find_control_point(None, current, None, true);
    assert_eq!(alone, current);
}

#[test]
fn control_points_of_a_curve_are_seen_from_its_start() {
    let previous = Point3 { x: -50_000, y: 0, z: 0 };
    let start = Point3 { x: 0, y: 100, z: 0 };
    let end = Point3 { x: 50_000, y: 200, z: 10_000 };
    let next = Point3 { x: 100_000, y: 300, z: 30_000 };
    let (first, second) = find_control_points(start, end, Some(previous), Some(next), start);
    assert_eq!(first, Point3 { x: 20_000, y: 0, z: 2_000 });
    assert_eq!(second, Point3 { x: 30_000, y: 100, z: 4_000 });
}

#[test]
fn no_curve_before_the_route_has_four_nodes() {
    let mut data = PlacementData::new();
    assert_eq!(data.current_segment_id(), 0);
    assert!(!data.update_placement_data(&Route::default()));
    assert!(!data.update_placement_data(&route_of(2)));
    assert!(!data.update_placement_data(&route_of(3)));
    assert_eq!(data.current_segment_id(), 0);
    assert!(data.get_segment(1).is_none());
    assert!(data.update_placement_data(&route_of(4)));
    assert_eq!(data.current_segment_id(), 1);
}

#[test]
fn one_curve_is_made_per_call_in_the_order_of_the_route() {
    let route = route_of(7);
    let points = route.get_cloned_points();
    let mut data = PlacementData::default();
    assert!(data.update_placement_data(&route));
    assert!(data.update_placement_data(&route));
    assert!(data.update_placement_data(&route));
    assert!(data.update_placement_data(&route));
    // the curve to the last node needs a node after it
    assert!(!data.update_placement_data(&route));
    assert_eq!(data.current_segment_id(), 4);
    assert!(data.get_segment(0).is_none());
    assert!(data.get_segment(5).is_none());
    for id in 1..=4usize {
        let segment = data.get_segment(id).unwrap();
        assert_eq!(segment.id, id);
        // curve `id` leads from node `id` to node `id + 1`
        let (previous, last, new, next) = (points[id - 1], points[id], points[id + 1], points[id + 2]);
        assert_eq!(segment.world_translation, last);
        let fifth = |v: i64| v * 200_000 / 1_000_000;
        assert_eq!(
            segment.curve,
            BezierCurve {
                start: Point3 { x: 0, y: 0, z: 0 },
                control1: Point3 { x: fifth(new.x - previous.x), y: 0, z: fifth(new.z - previous.z) },
                control2: Point3 {
                    x: new.x - fifth(next.x - last.x) - last.x,
                    y: 0,
                    z: new.z - fifth(next.z - last.z) - last.z,
                },
                end: Point3 { x: new.x - last.x, y: 0, z: new.z - last.z },
            }
        );
    }
}

#[test]
fn track_meshes_are_placed_once_the_assets_are_loaded() {
    let route = route_of(6);
    let mut data = PlacementData::new();
    assert!(data.update_placement_data(&route));
    assert!(data.update_placement_data(&route));
    assert!(data.place_tracks().is_none());
    data.setup_track_data(true, false);
    assert!(data.place_tracks().is_none());
    data.setup_track_data(true, true);
    let first = data.place_tracks().unwrap();
    assert_eq!(first.segment, data.get_segment(1).unwrap());
    assert_eq!(first.subdivisions, NUM_SUBDIVISIONS);
    let start = first.segment.world_translation;
    assert_eq!(first.height_offset, Point3 { x: start.x, y: -start.y, z: start.z });
    assert_eq!(first.translation, Point3 { x: start.x, y: start.y + TRACK_ELEVATION, z: start.z });
    let second = data.place_tracks().unwrap();
    assert_eq!(second.segment.id, 2);
    assert!(data.place_tracks().is_none());
    assert!(data.update_placement_data(&route));
    assert_eq!(data.place_tracks().unwrap().segment.id, 3);
}

#[test]
fn curves_enter_the_track_one_at_a_time_in_order() {
    let route = route_of(6);
    let mut data = PlacementData::new();
    let mut track = Track::new();
    assert!(track.update_track_entity(&data).is_none());
    assert!(data.update_placement_data(&route));
    assert!(data.update_placement_data(&route));
    assert!(data.update_placement_data(&route));
    let first = track.update_track_entity(&data).unwrap();
    assert_eq!(first.segment, data.get_segment(1).unwrap());
    let start = first.segment.world_translation;
    assert_eq!(first.height_offset, Point3 { x: start.x, y: 300 - start.y, z: start.z });
    assert_eq!(track.segment_count(), 1);
    assert_eq!(track.update_track_entity(&data).unwrap().segment.id, 2);
    assert_eq!(track.update_track_entity(&data).unwrap().segment.id, 3);
    assert!(track.update_track_entity(&data).is_none());
    assert_eq!(track.segment_count(), 3);
    for id in 1..=3i64 {
        let found = track.get_segment_at_t(id * 1_000_000 + 5).unwrap();
        assert_eq!(found.id, id as usize);
        assert_eq!(found.world_translation, data.get_segment(id as usize).unwrap().world_translation);
    }
}

fn track_of(segments: usize) -> (Track, PlacementData) {
    let route = route_of(segments + 3);
    let mut data = PlacementData::new();
    let mut track = Track::new();
    for _ in 0..segments {
        assert!(data.update_placement_data(&route));
        assert!(track.update_track_entity(&data).is_some());
    }
    (track, data)
}

#[test]
fn a_place_on_the_track_is_a_place_on_one_curve() {
    let (track, data) = track_of(2);
    let sample = track.get_interpolated_position_at_t(1_300_000).unwrap();
    assert_eq!(
        sample,
        CurveSample {
            segment_id: 1,
            local_t: 300_000,
            world_translation: data.get_segment(1).unwrap().world_translation,
        }
    );
    let sample = track.get_interpolated_position_at_t(2_999_999).unwrap();
    assert_eq!((sample.segment_id, sample.local_t), (2, 999_999));
    let sample = track.get_interpolated_position_at_t(2_000_000).unwrap();
    assert_eq!((sample.segment_id, sample.local_t), (2, 0));
}

#[test]
fn no_data_where_the_track_is_not_laid() {
    let (track, _) = track_of(2);
    // there is no curve 0, and none beyond the last
    assert!(track.get_interpolated_position_at_t(0).is_none());
    assert!(track.get_interpolated_position_at_t(999_999).is_none());
    assert!(track.get_interpolated_position_at_t(3_000_000).is_none());
    assert!(track.get_interpolated_position_at_t(-1).is_none());
    assert!(track.get_interpolated_position_at_t(i64::MAX).is_none());
    assert!(track.get_interpolated_position_at_t(i64::MIN).is_none());
    assert!(track.get_segment_at_t(-1_000_000).is_none());
    assert!(track.get_segment_at_t(3_000_000).is_none());
    assert!(track.get_slope_angle_at_t(i64::MAX).is_none());
    assert!(track.get_slope_angle_at_t(-5).is_none());
}

#[test]
fn a_bogie_beyond_the_track_gets_no_data() {
    let (track, _) = track_of(1);
    // at 2.3 with no curve 2
    assert!(track.get_interpolated_position_at_t(2_300_000).is_none());
    assert!(track.get_slope_angle_at_t(2_300_000).is_none());
    let empty = Track::default();
    assert!(empty.get_interpolated_position_at_t(2_300_000).is_none());
    assert!(empty.get_slope_angle_at_t(2_300_000).is_none());
}

#[test]
fn the_slope_is_taken_a_twentieth_of_a_curve_ahead() {
    let (track, _) = track_of(2);
    let samples = track.get_slope_angle_at_t(1_500_000).unwrap();
    assert_eq!((samples.here.segment_id, samples.here.local_t), (1, 500_000));
    assert_eq!((samples.ahead.segment_id, samples.ahead.local_t), (1, 550_000));
    let samples = track.get_slope_angle_at_t(1_949_999).unwrap();
    assert_eq!((samples.ahead.segment_id, samples.ahead.local_t), (1, 999_999));
    // across the end of a curve the next curve is used
    let samples = track.get_slope_angle_at_t(1_950_000).unwrap();
    assert_eq!((samples.here.segment_id, samples.here.local_t), (1, 950_000));
    assert_eq!((samples.ahead.segment_id, samples.ahead.local_t), (2, 0));
    let samples = track.get_slope_angle_at_t(1_990_000).unwrap();
    assert_eq!((samples.ahead.segment_id, samples.ahead.local_t), (2, 40_000));
    // and where the next curve is missing there is no slope
    assert!(track.get_slope_angle_at_t(2_949_999).is_some());
    assert!(track.get_slope_angle_at_t(2_950_000).is_none());
}

#[test]
fn places_in_the_world() {
    let sample = CurveSample {
        segment_id: 1,
        local_t: 0,
        world_translation: Point3 { x: 50_000, y: 1234, z: -20_000 },
    };
    let ground = track_ground_position(Point3 { x: 1500, y: 99, z: 2500 }, &sample);
    assert_eq!(ground, Point2 { x: 51_500, z: -17_500 });
    assert_eq!(track_position(ground, 700), Point3 { x: 51_500, y: 1700, z: -17_500 });
    assert_eq!(track_position(ground, i64::MAX).y, i64::MAX);
}

#[test]
fn slope_between_two_places() {
    let here = Point3 { x: 0, y: 0, z: 0 };
    let ahead = Point3 { x: 0, y: 600, z: 800 };
    let slope = slope_angle_between(here, ahead).unwrap();
    assert_eq!((slope.get_sin(), slope.get_cos()), (600_000, 800_000));
    assert!(slope_angle_between(here, here).is_none());
    assert!(slope_angle_between(here, Point3 { x: WORLD_LIMIT + 1, y: 0, z: 0 }).is_none());
    assert!(slope_angle_between(Point3 { x: 0, y: -WORLD_LIMIT - 1, z: 0 }, ahead).is_none());
}
