use railworld::rolling_stock::bogie_systems::{
    apply_forces, apply_velocity, set_horizontal_force, set_static_kinetic_forces,
    set_vertical_force, BogieRule,
};
use railworld::rolling_stock::components::{
    AttachedToWagon, Bogie, BogiePhysics, Wagon, WagonPhysics,
};
use railworld::rolling_stock::utils::get_carried_mass;
use railworld::rolling_stock::wagon_systems::WagonPose;
use railworld::rolling_stock::{BogieBundle, RollingStock, WagonBundle};
use railworld::trig::SlopeAngle;
use railworld::units::{Point3, WORLD_LIMIT};

fn origin() -> Point3 {
    Point3 { x: 0, y: 0, z: 0 }
}

fn physics(mass: i64) -> BogiePhysics {
    BogiePhysics {
        mass,
        velocity: 0,
        horizontal_force: 0,
        vertical_force: 0,
        kinetic_force: 0,
        static_force: 0,
        current_slope_angle: None,
    }
}

fn wagon_physics(mass: i64, tractive_force: i64, braking_force: i64) -> WagonPhysics {
    WagonPhysics { mass, velocity: 0, tractive_force, braking_force }
}

fn free_bogie(velocity: i64) -> BogieBundle {
    BogieBundle {
        bogie: Bogie { is_leading: None, current_track: None, position_on_track: 2_000_000 },
        physics: BogiePhysics { velocity, ..physics(4700) },
        attached_to: None,
        translation: origin(),
    }
}

fn attached_bogie(wagon: usize, is_leading: bool, velocity: i64) -> BogieBundle {
    BogieBundle {
        bogie: Bogie { is_leading: Some(is_leading), current_track: None, position_on_track: 2_000_000 },
        physics: BogiePhysics { velocity, ..physics(4700) },
        attached_to: Some(AttachedToWagon(wagon)),
        translation: origin(),
    }
}

fn plain_wagon() -> WagonBundle {
    WagonBundle {
        wagon: Wagon { distance_between_bogies: 12_000 },
        physics: wagon_physics(30_000, 0, 0),
        translation: origin(),
        status_shown: false,
    }
}

#[test]
fn a_spawned_wagon_has_a_leading_and_a_trailing_bogie() {
    let mut stock = RollingStock::new();
    assert_eq!(stock.tracked_wagon(), None);
    let wagon = stock.spawn_wagon();
    assert_eq!(wagon, 0);
    assert_eq!(stock.wagon_count(), 1);
    assert_eq!(stock.bogie_count(), 2);
    let bundle = stock.get_wagon(0).unwrap();
    assert_eq!(bundle.wagon.distance_between_bogies, 12_000);
    assert_eq!(bundle.physics, wagon_physics(30_000, 10_000_000, 0));
    assert!(bundle.status_shown);
    assert_eq!(stock.tracked_wagon(), Some(0));
    let leading = stock.get_bogie(0).unwrap();
    let trailing = stock.get_bogie(1).unwrap();
    assert_eq!(leading.bogie.is_leading, Some(true));
    assert_eq!(trailing.bogie.is_leading, Some(false));
    for bogie in [leading, trailing] {
        assert_eq!(bogie.bogie.position_on_track, 2_000_000);
        assert_eq!(bogie.bogie.current_track, None);
        assert_eq!(bogie.physics, physics(4700));
        assert_eq!(bogie.attached_to, Some(AttachedToWagon(0)));
    }
    assert!(stock.get_bogie(2).is_none());
    assert!(stock.get_wagon(1).is_none());
    assert_eq!(stock.get_attached_bogies(0), vec![0, 1]);
    assert_eq!(stock.get_attached_bogies(1), Vec::<usize>::new());
    assert_eq!(stock.find_bogie_with_role(0, true), Some(0));
    assert_eq!(stock.find_bogie_with_role(0, false), Some(1));
    assert_eq!(stock.spawn_wagon(), 1);
    assert_eq!(stock.get_attached_bogies(1), vec![2, 3]);
    assert_eq!(stock.tracked_wagon(), Some(0));
}

#[test]
fn bogies_that_do_not_fit_are_refused() {
    let mut stock = RollingStock::new();
    // no wagon 0 yet
    assert_eq!(stock.add_bogie(attached_bogie(0, true, 0)), None);
    assert_eq!(stock.add_wagon(plain_wagon()), 0);
    assert_eq!(stock.add_bogie(attached_bogie(0, true, 0)), Some(0));
    assert_eq!(stock.add_bogie(attached_bogie(1, true, 0)), None);
    // attached, but without a role
    let mut odd = attached_bogie(0, true, 0);
    odd.bogie.is_leading = None;
    assert_eq!(stock.add_bogie(odd), None);
    let mut lost = free_bogie(0);
    lost.translation = Point3 { x: 0, y: WORLD_LIMIT + 1, z: 0 };
    assert_eq!(stock.add_bogie(lost), None);
    assert_eq!(stock.add_bogie(free_bogie(0)), Some(1));
    assert_eq!(stock.bogie_count(), 2);
}

#[test]
fn carried_mass_is_the_bogie_and_half_the_wagon() {
    assert_eq!(get_carried_mass(&physics(4700), None), 4700);
    assert_eq!(get_carried_mass(&physics(4700), Some(wagon_physics(30_000, 0, 0))), 19_700);
    assert_eq!(get_carried_mass(&physics(4700), Some(wagon_physics(30_001, 0, 0))), 19_700);
    assert_eq!(get_carried_mass(&physics(i64::MAX), Some(wagon_physics(30_000, 0, 0))), i64::MAX);
}

#[test]
fn friction_on_level_track() {
    let on_level = BogiePhysics { current_slope_angle: Some(SlopeAngle::level()), ..physics(4700) };
    let free = set_static_kinetic_forces(&on_level, None);
    assert_eq!(free.static_force, 460_600);
    assert_eq!(free.kinetic_force, 46_060);
    let loaded = set_static_kinetic_forces(&on_level, Some(wagon_physics(30_000, 0, 0)));
    assert_eq!(loaded.static_force, 1_930_600);
    assert_eq!(loaded.kinetic_force, 193_060);
    let braked = set_static_kinetic_forces(&on_level, Some(wagon_physics(30_000, 0, 1001)));
    assert_eq!(braked.static_force, 1_931_100);
    assert_eq!(braked.kinetic_force, 193_560);
    assert_eq!(braked.velocity, 0);
    assert_eq!(braked.mass, 4700);
}

#[test]
fn friction_and_gravity_on_a_slope() {
    let climb = SlopeAngle::new(600_000, 800_000).unwrap();
    let on_slope = BogiePhysics { current_slope_angle: Some(climb), ..physics(4700) };
    let wagon = Some(wagon_physics(30_000, 0, 0));
    let forces = set_static_kinetic_forces(&on_slope, wagon);
    assert_eq!(forces.static_force, 1_544_480);
    assert_eq!(forces.kinetic_force, 154_448);
    // gravity pulls back on a climb
    assert_eq!(set_vertical_force(&on_slope, wagon).vertical_force, -115_836_000);
    let fall = SlopeAngle::new(-600_000, 800_000).unwrap();
    let on_fall = BogiePhysics { current_slope_angle: Some(fall), ..physics(4700) };
    assert_eq!(set_vertical_force(&on_fall, wagon).vertical_force, 115_836_000);
    assert_eq!(set_vertical_force(&on_fall, None).vertical_force, 27_636_000);
}

#[test]
fn forces_stay_while_the_slope_is_unknown() {
    let unknown = BogiePhysics { static_force: 5, kinetic_force: 6, vertical_force: 7, velocity: 500, ..physics(4700) };
    let wagon = Some(wagon_physics(30_000, 8000, 100));
    assert_eq!(set_static_kinetic_forces(&unknown, wagon), unknown);
    assert_eq!(set_vertical_force(&unknown, wagon), unknown);
    assert_eq!(apply_forces(&unknown, wagon), unknown);
    // the tractive force does not depend on the slope
    assert_eq!(set_horizontal_force(&unknown, wagon).horizontal_force, 4000);
    assert_eq!(set_horizontal_force(&unknown, None).horizontal_force, 0);
    assert_eq!(set_horizontal_force(&unknown, Some(wagon_physics(1, -7, 0))).horizontal_force, -3);
}

#[test]
fn stiction_holds_a_standing_bogie() {
    let level = Some(SlopeAngle::level());
    let at_threshold = BogiePhysics {
        vertical_force: 400_000,
        horizontal_force: 60_600,
        static_force: 460_600,
        kinetic_force: 46_060,
        current_slope_angle: level,
        ..physics(4700)
    };
    assert_eq!(apply_forces(&at_threshold, None).velocity, 0);
    assert_eq!(apply_forces(&at_threshold, None), at_threshold);
    let pulled_back = BogiePhysics { vertical_force: -500_000, horizontal_force: 39_400, ..at_threshold };
    assert_eq!(apply_forces(&pulled_back, None).velocity, 0);
    // a crawl counts as standing
    let crawling = BogiePhysics { velocity: 1000, ..at_threshold };
    assert_eq!(apply_forces(&crawling, None).velocity, 0);
    let crawling_back = BogiePhysics { velocity: -1000, ..at_threshold };
    assert_eq!(apply_forces(&crawling_back, None).velocity, 0);
}

#[test]
fn a_force_above_the_threshold_moves_the_bogie() {
    let above = BogiePhysics {
        vertical_force: 400_000,
        horizontal_force: 60_601,
        static_force: 460_600,
        kinetic_force: 46_060,
        current_slope_angle: Some(SlopeAngle::level()),
        ..physics(4700)
    };
    // 46_060 mN on 4700 kg for a sixtieth of a second slow by 163 um/s,
    // 460_601 mN speed up by 1633 um/s
    assert_eq!(apply_forces(&above, None).velocity, 1470);
    let back = BogiePhysics { vertical_force: -400_000, horizontal_force: -60_601, ..above };
    assert_eq!(apply_forces(&back, None).velocity, -163 - 1633);
}

#[test]
fn kinetic_friction_works_against_the_motion() {
    let rolling = BogiePhysics {
        velocity: 5000,
        kinetic_force: 46_060,
        static_force: 460_600,
        current_slope_angle: Some(SlopeAngle::level()),
        ..physics(4700)
    };
    assert_eq!(apply_forces(&rolling, None).velocity, 4837);
    let rolling_back = BogiePhysics { velocity: -5000, ..rolling };
    assert_eq!(apply_forces(&rolling_back, None).velocity, -4837);
    let barely = BogiePhysics { velocity: 1001, ..rolling };
    assert_eq!(apply_forces(&barely, None).velocity, 838);
}

#[test]
fn a_bogie_without_mass_is_not_sped_up() {
    let weightless = BogiePhysics {
        velocity: 700,
        horizontal_force: 1_000_000,
        current_slope_angle: Some(SlopeAngle::level()),
        ..physics(0)
    };
    assert_eq!(apply_forces(&weightless, None).velocity, 0);
    let moving = BogiePhysics { velocity: 7000, ..weightless };
    assert_eq!(apply_forces(&moving, None).velocity, 7000);
    let negative = BogiePhysics { mass: -5, ..moving };
    assert_eq!(apply_forces(&negative, None).velocity, 7000);
}

#[test]
fn velocity_moves_a_bogie_along_the_track() {
    let bogie = Bogie { is_leading: None, current_track: None, position_on_track: 2_000_000 };
    let at = |velocity: i64| {
        apply_velocity(&bogie, &BogiePhysics { velocity, ..physics(4700) }).position_on_track
    };
    // a metre per second is a six-thousandth of a segment per step
    assert_eq!(at(1_000_000), 2_000_166);
    assert_eq!(at(-1_000_000), 1_999_834);
    assert_eq!(at(5999), 2_000_000);
    assert_eq!(at(6000), 2_000_001);
    assert_eq!(at(-6000), 1_999_999);
    assert_eq!(at(0), 2_000_000);
    let at_the_end = Bogie { position_on_track: i64::MAX, ..bogie };
    let moved = apply_velocity(&at_the_end, &BogiePhysics { velocity: 1_000_000, ..physics(1) });
    assert_eq!(moved.position_on_track, i64::MAX);
}

fn level_train() -> RollingStock {
    let mut stock = RollingStock::new();
    stock.spawn_wagon();
    assert!(stock.update_bogie_current_slope_angle(0, Some(SlopeAngle::level())));
    assert!(stock.update_bogie_current_slope_angle(1, Some(SlopeAngle::level())));
    stock
}

fn set_forces(stock: &mut RollingStock) {
    stock.set_bogie_forces();
}

fn fixed_update(stock: &mut RollingStock) {
    stock.fixed_update(false);
}

#[test]
fn the_phases_of_a_tick_add_up_to_the_tick() {
    let mut whole = level_train();
    let mut parts = level_train();
    whole.set_bogie_forces();
    parts.set_bogie_static_kinetic_forces();
    parts.set_bogie_vertical_forces();
    parts.set_bogie_horizontal_forces();
    place(&mut whole, 0, Point3 { x: 9_000, y: 0, z: 0 });
    place(&mut parts, 0, Point3 { x: 9_000, y: 0, z: 0 });
    for _ in 0..5 {
        whole.fixed_update(true);
        parts.apply_bogie_forces();
        parts.apply_bogie_velocities();
        parts.sync_bogie_velocities();
        parts.constrain_attached_bogies(true);
    }
    for index in 0..2 {
        assert_eq!(whole.get_bogie(index), parts.get_bogie(index));
    }
    let leading = whole.get_bogie(0).unwrap();
    let trailing = whole.get_bogie(1).unwrap();
    assert_eq!(leading.physics.velocity, trailing.physics.velocity);
    assert_eq!(leading.physics.velocity, 5 * 4067);
    // 0 + 1 + 2 + 2 + 3 millionths of travel
    assert_eq!(leading.bogie.position_on_track, 2_000_008);
    // and for the trailing bogie five nudges of 3000 back
    assert_eq!(trailing.bogie.position_on_track, 2_000_008 - 15_000);
}

#[test]
fn a_held_bogie_still_stands_after_a_tick() {
    let mut stock = RollingStock::new();
    let mut held = free_bogie(0);
    held.physics.vertical_force = 460_600;
    held.physics.static_force = 460_600;
    held.physics.kinetic_force = 46_060;
    held.physics.current_slope_angle = Some(SlopeAngle::level());
    assert_eq!(stock.add_bogie(held), Some(0));
    let mut pulled = held;
    pulled.physics.vertical_force = 460_601;
    assert_eq!(stock.add_bogie(pulled), Some(1));
    stock.fixed_update(true);
    assert_eq!(stock.get_bogie(0), Some(held));
    assert_eq!(stock.get_bogie(1).unwrap().physics.velocity, 1470);
}

#[test]
fn a_wagon_starts_to_roll_on_level_track() {
    let mut stock = level_train();
    set_forces(&mut stock);
    for index in 0..2 {
        let bogie = stock.get_bogie(index).unwrap().physics;
        assert_eq!(bogie.static_force, 1_930_600);
        assert_eq!(bogie.kinetic_force, 193_060);
        assert_eq!(bogie.horizontal_force, 5_000_000);
        assert_eq!(bogie.vertical_force, 0);
    }
    fixed_update(&mut stock);
    for index in 0..2 {
        let bogie = stock.get_bogie(index).unwrap();
        assert_eq!(bogie.physics.velocity, 4067);
        assert_eq!(bogie.bogie.position_on_track, 2_000_000);
    }
    fixed_update(&mut stock);
    for index in 0..2 {
        let bogie = stock.get_bogie(index).unwrap();
        assert_eq!(bogie.physics.velocity, 8134);
        assert_eq!(bogie.bogie.position_on_track, 2_000_001);
    }
    // the wagon itself is not touched by the rules for bogies
    assert_eq!(stock.get_wagon(0).unwrap().physics.velocity, 0);
}

#[test]
fn a_braked_wagon_stays() {
    let mut stock = level_train();
    assert!(stock.set_wagon_forces(0, 10_000_000, 8_000_000));
    assert!(!stock.set_wagon_forces(1, 1, 1));
    set_forces(&mut stock);
    assert_eq!(stock.get_bogie(0).unwrap().physics.static_force, 5_930_600);
    for _ in 0..10 {
        fixed_update(&mut stock);
    }
    for index in 0..2 {
        let bogie = stock.get_bogie(index).unwrap();
        assert_eq!(bogie.physics.velocity, 0);
        assert_eq!(bogie.bogie.position_on_track, 2_000_000);
    }
}

#[test]
fn a_wagon_without_a_known_slope_does_not_move() {
    let mut stock = RollingStock::new();
    stock.spawn_wagon();
    set_forces(&mut stock);
    fixed_update(&mut stock);
    let bogie = stock.get_bogie(0).unwrap();
    assert_eq!(bogie.physics.velocity, 0);
    assert_eq!(bogie.physics.static_force, 0);
    assert_eq!(bogie.physics.horizontal_force, 5_000_000);
    assert_eq!(bogie.bogie.position_on_track, 2_000_000);
}

#[test]
fn rules_are_applied_to_every_bogie() {
    let mut stock = RollingStock::new();
    assert_eq!(stock.add_bogie(free_bogie(12_000)), Some(0));
    assert_eq!(stock.add_bogie(free_bogie(-12_000)), Some(1));
    stock.apply_to_bogies(BogieRule::ApplyVelocities);
    assert_eq!(stock.get_bogie(0).unwrap().bogie.position_on_track, 2_000_002);
    assert_eq!(stock.get_bogie(1).unwrap().bogie.position_on_track, 1_999_998);
    assert_eq!(stock.get_bogie(0).unwrap().physics.velocity, 12_000);
}

#[test]
fn the_bogies_of_a_wagon_are_brought_to_one_velocity() {
    let mut stock = RollingStock::new();
    stock.add_wagon(plain_wagon());
    stock.add_wagon(plain_wagon());
    assert_eq!(stock.add_bogie(attached_bogie(0, true, 100)), Some(0));
    assert_eq!(stock.add_bogie(attached_bogie(1, true, -100)), Some(1));
    assert_eq!(stock.add_bogie(free_bogie(77)), Some(2));
    assert_eq!(stock.add_bogie(attached_bogie(0, false, 301)), Some(3));
    assert_eq!(stock.add_bogie(attached_bogie(1, false, -301)), Some(4));
    assert_eq!(stock.average_bogie_velocity(0), (200, 2));
    assert_eq!(stock.average_bogie_velocity(1), (-200, 2));
    assert_eq!(stock.average_bogie_velocity(2).1, 0);
    stock.sync_bogie_velocities();
    let velocity = |index: usize| stock.get_bogie(index).unwrap().physics.velocity;
    assert_eq!(velocity(0), 200);
    assert_eq!(velocity(3), 200);
    assert_eq!(velocity(1), -200);
    assert_eq!(velocity(4), -200);
    assert_eq!(velocity(2), 77);
}

fn place(stock: &mut RollingStock, bogie: usize, position: Point3) {
    assert!(stock.update_bogie_current_slope_angle(bogie, Some(SlopeAngle::level())));
    assert!(stock.update_bogie_transforms(bogie, Some(position)));
}

#[test]
fn bogies_too_close_are_pushed_apart_and_bogies_too_far_pulled_together() {
    let mut stock = RollingStock::new();
    stock.spawn_wagon();
    place(&mut stock, 0, Point3 { x: 10_000, y: 0, z: 0 });
    place(&mut stock, 1, Point3 { x: 0, y: 0, z: 0 });
    stock.constrain_attached_bogies(false);
    assert_eq!(stock.get_bogie(1).unwrap().bogie.position_on_track, 2_000_000);
    stock.constrain_attached_bogies(true);
    // 2 m short of 12 m: back by two thousandths of a segment
    assert_eq!(stock.get_bogie(1).unwrap().bogie.position_on_track, 1_998_000);
    assert_eq!(stock.get_bogie(0).unwrap().bogie.position_on_track, 2_000_000);
    place(&mut stock, 0, Point3 { x: 5_000, y: 0, z: 12_000 });
    stock.constrain_attached_bogies(true);
    // 13 m: forward by one thousandth
    assert_eq!(stock.get_bogie(1).unwrap().bogie.position_on_track, 1_999_000);
    place(&mut stock, 0, Point3 { x: 0, y: 12_000, z: 0 });
    stock.constrain_attached_bogies(true);
    assert_eq!(stock.get_bogie(1).unwrap().bogie.position_on_track, 1_999_000);
}

#[test]
fn a_wagon_with_one_bogie_is_not_held() {
    let mut stock = RollingStock::new();
    stock.add_wagon(plain_wagon());
    assert_eq!(stock.add_bogie(attached_bogie(0, false, 0)), Some(0));
    assert_eq!(stock.add_bogie(free_bogie(0)), Some(1));
    stock.constrain_attached_bogies(true);
    assert_eq!(stock.get_bogie(0).unwrap().bogie.position_on_track, 2_000_000);
    assert_eq!(stock.get_bogie(1).unwrap().bogie.position_on_track, 2_000_000);
    assert_eq!(stock.pose_of_wagon(0), None);
    let poses = stock.sync_wagons_with_bogies();
    assert_eq!(poses, vec![None]);
}

#[test]
fn a_wagon_stands_between_its_bogies() {
    let mut stock = RollingStock::new();
    stock.spawn_wagon();
    stock.add_wagon(plain_wagon());
    place(&mut stock, 0, Point3 { x: 10_000, y: 2_001, z: -4_000 });
    place(&mut stock, 1, Point3 { x: 0, y: 1_000, z: 1 });
    let mut leading = stock.get_bogie(0).unwrap();
    leading.physics.velocity = 900;
    let mut stock_with_velocity = RollingStock::new();
    stock_with_velocity.add_wagon(plain_wagon());
    stock_with_velocity.add_bogie(leading);
    stock_with_velocity.add_bogie(stock.get_bogie(1).unwrap());
    let poses = stock_with_velocity.sync_wagons_with_bogies();
    let pose = WagonPose {
        midpoint: Point3 { x: 5_000, y: 1_500, z: -1_999 },
        facing: Point3 { x: 10_000, y: 2_001, z: -4_000 },
        translation: Point3 { x: 5_000, y: 2_250, z: -1_999 },
    };
    assert_eq!(poses, vec![Some(pose)]);
    let wagon = stock_with_velocity.get_wagon(0).unwrap();
    assert_eq!(wagon.translation, pose.translation);
    assert_eq!(wagon.physics.velocity, 450);
    // a wagon without bogies stays as it is
    let poses = stock.sync_wagons_with_bogies();
    assert_eq!(poses.len(), 2);
    assert!(poses[0].is_some());
    assert_eq!(poses[1], None);
    assert_eq!(stock.get_wagon(1).unwrap(), plain_wagon());
}

#[test]
fn a_bogie_stays_where_it_is_without_data() {
    let mut stock = RollingStock::new();
    stock.spawn_wagon();
    let there = Point3 { x: 1, y: 2, z: 3 };
    // the slope is unknown
    assert!(!stock.update_bogie_transforms(0, Some(there)));
    assert_eq!(stock.get_bogie(0).unwrap().translation, origin());
    assert!(stock.update_bogie_current_slope_angle(0, Some(SlopeAngle::level())));
    // the track has no place for the bogie
    assert!(!stock.update_bogie_transforms(0, None));
    assert_eq!(stock.get_bogie(0).unwrap().translation, origin());
    assert!(!stock.update_bogie_transforms(0, Some(Point3 { x: WORLD_LIMIT + 1, y: 0, z: 0 })));
    assert!(stock.update_bogie_transforms(0, Some(there)));
    assert_eq!(stock.get_bogie(0).unwrap().translation, there);
    assert_eq!(stock.get_bogie(1).unwrap().translation, origin());
    assert!(stock.update_bogie_current_slope_angle(0, None));
    assert!(!stock.update_bogie_transforms(0, Some(origin())));
    assert_eq!(stock.get_bogie(0).unwrap().translation, there);
    assert!(!stock.update_bogie_transforms(5, Some(there)));
    assert!(!stock.update_bogie_current_slope_angle(5, None));
}

#[test]
fn on_straight_track_the_rod_brings_the_bogies_to_their_distance() {
    // a straight track along x on which a segment is 50 m long
    let place_of = |t: i64| Point3 { x: t * 50_000 / 1_000_000, y: 0, z: 0 };
    for start in [2_000_000i64, 2_400_000] {
        let mut stock = RollingStock::new();
        stock.add_wagon(plain_wagon());
        let mut leading = attached_bogie(0, true, 0);
        leading.bogie.position_on_track = 2_500_000;
        let mut trailing = attached_bogie(0, false, 0);
        trailing.bogie.position_on_track = start;
        assert_eq!(stock.add_bogie(leading), Some(0));
        assert_eq!(stock.add_bogie(trailing), Some(1));
        let mut last_error = i64::MAX;
        for _ in 0..400 {
            for index in 0..2 {
                let t = stock.get_bogie(index).unwrap().bogie.position_on_track;
                place(&mut stock, index, place_of(t));
            }
            let front = stock.get_bogie(0).unwrap().translation;
            let back = stock.get_bogie(1).unwrap().translation;
            let error = (front.x - back.x - 12_000).abs();
            assert!(error <= last_error);
            if last_error != i64::MAX && last_error >= 20 {
                assert!(error < last_error);
            }
            // never past the target
            assert_eq!((front.x - back.x - 12_000).signum() * (start - 2_260_000).signum(), if error == 0 { 0 } else { -1 });
            last_error = error;
            stock.constrain_attached_bogies(true);
        }
        assert!(last_error < 20);
    }
}
