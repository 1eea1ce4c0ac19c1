use railworld::trig::{cos_of, sin_of, sin_quadrant_of, slope_between, step_offset, SlopeAngle};
use railworld::units::Point3;

#[test]
fn sines_of_whole_degrees() {
    assert_eq!(sin_quadrant_of(0), 0);
    assert_eq!(sin_quadrant_of(1), 17_452);
    assert_eq!(sin_quadrant_of(30), 500_000);
    assert_eq!(sin_quadrant_of(45), 707_106);
    assert_eq!(sin_quadrant_of(60), 866_025);
    assert_eq!(sin_quadrant_of(90), 1_000_000);
    assert_eq!(sin_of(0), 0);
    assert_eq!(sin_of(90), 1_000_000);
    assert_eq!(sin_of(150), 500_000);
    assert_eq!(sin_of(180), 0);
    assert_eq!(sin_of(210), -500_000);
    assert_eq!(sin_of(270), -1_000_000);
    assert_eq!(sin_of(330), -500_000);
    assert_eq!(sin_of(359), -17_452);
}

#[test]
fn cosines_of_whole_degrees() {
    assert_eq!(cos_of(0), 1_000_000);
    assert_eq!(cos_of(60), 500_000);
    assert_eq!(cos_of(90), 0);
    assert_eq!(cos_of(120), -500_000);
    assert_eq!(cos_of(180), -1_000_000);
    assert_eq!(cos_of(270), 0);
    assert_eq!(cos_of(300), 500_000);
    assert_eq!(cos_of(20), 939_692);
}

#[test]
fn squares_of_sine_and_cosine_add_up_to_at_most_one() {
    for degrees in 0..360u32 {
        let s = sin_of(degrees) as i128;
        let c = cos_of(degrees) as i128;
        let sum = s * s + c * c;
        assert!(sum <= 1_000_000_000_000, "at {}", degrees);
        assert!(sum >= 999_996_000_000, "at {}", degrees);
    }
}

#[test]
fn step_offsets() {
    assert_eq!(step_offset(50_000, 0), (50_000, 0));
    assert_eq!(step_offset(50_000, 90), (0, 50_000));
    assert_eq!(step_offset(50_000, 180), (-50_000, 0));
    assert_eq!(step_offset(50_000, 270), (0, -50_000));
    assert_eq!(step_offset(50_000, 20), (46_984, 17_101));
    assert_eq!(step_offset(50_000, 200), (-46_984, -17_101));
    assert_eq!(step_offset(0, 77), (0, 0));
}

#[test]
fn steps_are_never_longer_than_asked_for() {
    for degrees in 0..360u32 {
        let (dx, dz) = step_offset(90_000, degrees);
        let square = (dx as i128) * (dx as i128) + (dz as i128) * (dz as i128);
        assert!(square <= 90_000i128 * 90_000, "at {}", degrees);
        assert!(square >= 89_998i128 * 89_998, "at {}", degrees);
    }
}

#[test]
fn slope_angles_are_checked() {
    assert!(SlopeAngle::new(0, 1_000_000).is_some());
    assert!(SlopeAngle::new(-1_000_000, 0).is_some());
    assert!(SlopeAngle::new(1_000_001, 0).is_none());
    assert!(SlopeAngle::new(-1_000_001, 0).is_none());
    assert!(SlopeAngle::new(0, -1).is_none());
    assert!(SlopeAngle::new(0, 1_000_001).is_none());
    let slope = SlopeAngle::new(600_000, 800_000).unwrap();
    assert_eq!(slope.get_sin(), 600_000);
    assert_eq!(slope.get_cos(), 800_000);
    assert_eq!(SlopeAngle::level().get_sin(), 0);
    assert_eq!(SlopeAngle::level().get_cos(), 1_000_000);
}

#[test]
fn slope_of_a_climb_and_of_a_fall() {
    let here = Point3 { x: 0, y: 0, z: 0 };
    let up = Point3 { x: 3000, y: 4000, z: 0 };
    let slope = slope_between(here, up).unwrap();
    assert_eq!(slope.get_sin(), 800_000);
    assert_eq!(slope.get_cos(), 600_000);
    let down = slope_between(up, here).unwrap();
    assert_eq!(down.get_sin(), -800_000);
    assert_eq!(down.get_cos(), 600_000);
    let level = slope_between(here, Point3 { x: 0, y: 0, z: 2500 }).unwrap();
    assert_eq!(level.get_sin(), 0);
    assert_eq!(level.get_cos(), 1_000_000);
    let steep = slope_between(here, Point3 { x: 0, y: -7, z: 0 }).unwrap();
    assert_eq!(steep.get_sin(), -1_000_000);
    assert_eq!(steep.get_cos(), 0);
}

#[test]
fn no_slope_between_a_point_and_itself() {
    let here = Point3 { x: 5, y: 6, z: 7 };
    assert!(slope_between(here, here).is_none());
}
