use railworld::noise::{NoiseSettings, SEED};
use railworld::units::{Point2, Point3};

fn zero() -> Point3 {
    Point3 { x: 0, y: 0, z: 0 }
}

#[test]
fn default_settings() {
    let settings = NoiseSettings::default();
    assert_eq!(settings.amplitude, 25_000);
    assert_eq!(settings.frequency, 1_000_000);
    assert_eq!(settings.scale, (1_000_000, 1_000_000));
    assert_eq!(settings.seed, SEED);
    assert_eq!(SEED, 1354251456);
}

#[test]
fn each_layer_is_read_at_its_own_place() {
    let settings = NoiseSettings::default();
    let points = settings
        .heightmap_sample_points(1_000_000, zero(), Point2 { x: 0, z: 250_000 })
        .unwrap();
    assert_eq!(
        points,
        vec![
            Point2 { x: -500_000, z: -250_000 },
            Point2 { x: -400_000, z: -150_000 },
            Point2 { x: -300_000, z: -50_000 },
            Point2 { x: -100_000, z: 150_000 },
        ]
    );
    let moved = settings
        .heightmap_sample_points(256_000, Point3 { x: 1000, y: 5, z: -1000 }, Point2 { x: 0, z: 0 })
        .unwrap();
    assert_eq!(moved[0], Point2 { x: -127_000, z: -129_000 });
    assert_eq!(moved[3], Point2 { x: 273_000, z: 271_000 });
}

#[test]
fn the_scale_stretches_the_noise() {
    let settings = NoiseSettings { amplitude: 1000, frequency: 0, scale: (500_000, 1), seed: 1 };
    let points = settings.heightmap_sample_points(0, zero(), Point2 { x: 250_000, z: -1 }).unwrap();
    assert_eq!(points[0], Point2 { x: 500_000, z: -2 });
    assert_eq!(points[1], Point2 { x: 700_000, z: 199_998 });
}

#[test]
fn no_height_field_without_a_scale() {
    let settings = NoiseSettings { amplitude: 1000, frequency: 0, scale: (0, 5), seed: 1 };
    assert!(settings.heightmap_sample_points(0, zero(), Point2 { x: 0, z: 0 }).is_none());
    let settings = NoiseSettings { amplitude: 1000, frequency: 0, scale: (-1, 5), seed: 1 };
    assert!(settings.heightmap_sample_points(0, zero(), Point2 { x: 0, z: 0 }).is_none());
}

#[test]
fn layers_weigh_a_whole_a_half_a_third_and_a_quarter() {
    let settings = NoiseSettings::default();
    let full = 1_000_000;
    assert_eq!(settings.heightmap_elevation(zero(), &vec![full, 0, 0, 0]), Some(25_000));
    assert_eq!(settings.heightmap_elevation(zero(), &vec![0, full, 0, 0]), Some(12_500));
    assert_eq!(settings.heightmap_elevation(zero(), &vec![0, 0, full, 0]), Some(8_333));
    assert_eq!(settings.heightmap_elevation(zero(), &vec![0, 0, 0, full]), Some(6_250));
    assert_eq!(settings.heightmap_elevation(zero(), &vec![full; 4]), Some(52_083));
    assert_eq!(settings.heightmap_elevation(zero(), &vec![-full; 4]), Some(-52_083));
    assert_eq!(settings.heightmap_elevation(zero(), &vec![500_000, -250_000, 0, 100_000]), Some(10_000));
    assert_eq!(settings.heightmap_elevation(zero(), &vec![0; 4]), Some(0));
}

#[test]
fn the_offset_lifts_the_ground() {
    let settings = NoiseSettings::default();
    let offset = Point3 { x: 9, y: -700, z: 9 };
    assert_eq!(settings.heightmap_elevation(offset, &vec![0; 4]), Some(-700));
    assert_eq!(settings.heightmap_elevation(offset, &vec![1_000_000, 0, 0, 0]), Some(24_300));
}

#[test]
fn one_sample_per_layer() {
    let settings = NoiseSettings::default();
    assert!(settings.heightmap_elevation(zero(), &vec![0; 3]).is_none());
    assert!(settings.heightmap_elevation(zero(), &vec![0; 5]).is_none());
    assert!(settings.heightmap_elevation(zero(), &vec![]).is_none());
}

#[test]
fn the_same_samples_give_the_same_elevation() {
    let settings = NoiseSettings::default();
    let samples = vec![123_456, -654_321, 999_999, -1];
    let once = settings.heightmap_elevation(zero(), &samples);
    let again = settings.heightmap_elevation(zero(), &samples);
    assert_eq!(once, again);
    assert_eq!(once, Some(3086 - 8179 + 8332));
}
