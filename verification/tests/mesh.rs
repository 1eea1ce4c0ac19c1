use railworld::units::{Point2, Point3, WORLD_LIMIT};
use railworld::world::mesh::{
    calculate_normals, grid_counts, mesh_data_from_noise, mesh_sample_points, NormalSum,
};

#[test]
fn vertex_counts_of_a_grid() {
    assert_eq!(grid_counts(4, 4, 2), Some((4, 4)));
    assert_eq!(grid_counts(1001, 1001, 200), Some((7, 7)));
    assert_eq!(grid_counts(101, 101, 20), Some((7, 7)));
    assert_eq!(grid_counts(0, 5, 1), Some((2, 7)));
    assert_eq!(grid_counts(10, 10, 0), None);
    assert_eq!(grid_counts(u32::MAX, u32::MAX, 1), None);
    assert_eq!(grid_counts(65_533, 65_533, 1), Some((65_535, 65_535)));
    assert_eq!(grid_counts(65_534, 65_534, 1), None);
}

#[test]
fn sample_points_go_row_by_row() {
    let points = mesh_sample_points(4, 2, 2, Point2 { x: 1000, z: -2000 }).unwrap();
    assert_eq!(points.len(), 12);
    assert_eq!(points[0], Point2 { x: 1000, z: -2000 });
    assert_eq!(points[1], Point2 { x: 3000, z: -2000 });
    assert_eq!(points[3], Point2 { x: 7000, z: -2000 });
    assert_eq!(points[4], Point2 { x: 1000, z: 0 });
    assert_eq!(points[11], Point2 { x: 7000, z: 2000 });
    assert!(mesh_sample_points(4, 2, 0, Point2 { x: 0, z: 0 }).is_none());
}

#[test]
fn sample_points_stop_at_the_edge_of_the_numbers() {
    let points = mesh_sample_points(2, 2, 2, Point2 { x: i64::MAX - 1000, z: 0 }).unwrap();
    assert_eq!(points[0].x, i64::MAX - 1000);
    assert_eq!(points[1].x, i64::MAX);
    assert_eq!(points[2].x, i64::MAX);
}

#[test]
fn mesh_of_a_three_by_three_grid() {
    let elevations: Vec<i64> = (0..9).map(|i| 100 * i).collect();
    let mesh = mesh_data_from_noise(2, 2, 2, &elevations).unwrap();
    assert_eq!(mesh.vertices.len(), 9);
    assert_eq!(mesh.indices.len(), 24);
    // both lists are turned around
    assert_eq!(mesh.vertices[0], Point3 { x: 4000, y: 800, z: 4000 });
    assert_eq!(mesh.vertices[1], Point3 { x: 2000, y: 700, z: 4000 });
    assert_eq!(mesh.vertices[3], Point3 { x: 4000, y: 500, z: 2000 });
    assert_eq!(mesh.vertices[8], Point3 { x: 0, y: 0, z: 0 });
    assert_eq!(
        mesh.indices,
        vec![5, 4, 8, 7, 8, 4, 4, 3, 7, 6, 7, 3, 2, 1, 5, 4, 5, 1, 1, 0, 4, 3, 4, 0]
    );
}

#[test]
fn mesh_has_two_triangles_per_cell() {
    for (width, subdivision) in [(1001u32, 200u32), (101, 20), (8, 1), (2, 5)] {
        let (count_x, count_z) = grid_counts(width, width, subdivision).unwrap();
        let n = (count_x * count_z) as usize;
        let elevations = vec![0i64; n];
        let mesh = mesh_data_from_noise(width, width, subdivision, &elevations).unwrap();
        assert_eq!(mesh.vertices.len(), n);
        assert_eq!(mesh.indices.len() % 3, 0);
        assert_eq!(mesh.indices.len() / 3, ((count_x - 1) * (count_z - 1) * 2) as usize);
        assert!(mesh.indices.iter().all(|index| (*index as usize) < n));
    }
}

#[test]
fn a_far_grid_mesh_has_49_vertices() {
    let elevations = vec![0i64; 49];
    let mesh = mesh_data_from_noise(1001, 1001, 200, &elevations).unwrap();
    assert_eq!(mesh.vertices.len(), 49);
    assert_eq!(mesh.indices.len(), 216);
    assert_eq!(mesh.vertices[48], Point3 { x: 0, y: 0, z: 0 });
    assert_eq!(mesh.vertices[0], Point3 { x: 1_200_000, y: 0, z: 1_200_000 });
}

#[test]
fn mesh_needs_one_elevation_per_vertex() {
    assert!(mesh_data_from_noise(2, 2, 2, &vec![0; 8]).is_none());
    assert!(mesh_data_from_noise(2, 2, 2, &vec![0; 10]).is_none());
    assert!(mesh_data_from_noise(2, 2, 0, &vec![0; 9]).is_none());
    assert!(mesh_data_from_noise(2, 2, 2, &vec![0; 9]).is_some());
}

#[test]
fn normals_of_one_triangle() {
    let vertices = vec![
        Point3 { x: 0, y: 0, z: 0 },
        Point3 { x: 1000, y: 0, z: 0 },
        Point3 { x: 0, y: 0, z: 1000 },
        Point3 { x: 7, y: 7, z: 7 },
    ];
    let normals = calculate_normals(&vertices, &vec![0, 1, 2]).unwrap();
    let down = NormalSum { x: 0, y: -1_000_000, z: 0 };
    assert_eq!(normals, vec![down, down, down, NormalSum { x: 0, y: 0, z: 0 }]);
    let turned = calculate_normals(&vertices, &vec![0, 2, 1]).unwrap();
    assert_eq!(turned[0], NormalSum { x: 0, y: 1_000_000, z: 0 });
}

#[test]
fn normals_add_up_over_the_triangles_at_a_vertex() {
    let vertices = vec![
        Point3 { x: 0, y: 0, z: 0 },
        Point3 { x: 1000, y: 0, z: 0 },
        Point3 { x: 0, y: 0, z: 1000 },
        Point3 { x: 0, y: 1000, z: 0 },
    ];
    // one triangle on the ground, one standing on the x axis
    let normals = calculate_normals(&vertices, &vec![0, 2, 1, 0, 1, 3]).unwrap();
    assert_eq!(normals[0], NormalSum { x: 0, y: 1_000_000, z: 1_000_000 });
    assert_eq!(normals[1], NormalSum { x: 0, y: 1_000_000, z: 1_000_000 });
    assert_eq!(normals[2], NormalSum { x: 0, y: 1_000_000, z: 0 });
    assert_eq!(normals[3], NormalSum { x: 0, y: 0, z: 1_000_000 });
    // a corner named twice gets the normal twice
    let twice = calculate_normals(&vertices, &vec![0, 0, 1]).unwrap();
    assert_eq!(twice[0], NormalSum { x: 0, y: 0, z: 0 });
}

#[test]
fn normals_of_a_generated_mesh_point_up() {
    let elevations = vec![0i64; 9];
    let mesh = mesh_data_from_noise(2, 2, 2, &elevations).unwrap();
    let normals = calculate_normals(&mesh.vertices, &mesh.indices).unwrap();
    assert_eq!(normals.len(), 9);
    for normal in normals.iter() {
        assert_eq!(normal.x, 0);
        assert_eq!(normal.z, 0);
        assert!(normal.y > 0);
    }
}

#[test]
fn normals_are_refused_for_broken_meshes() {
    let vertices = vec![
        Point3 { x: 0, y: 0, z: 0 },
        Point3 { x: 1000, y: 0, z: 0 },
        Point3 { x: 0, y: 0, z: 1000 },
    ];
    assert!(calculate_normals(&vertices, &vec![0, 1]).is_none());
    assert!(calculate_normals(&vertices, &vec![0, 1, 3]).is_none());
    let outside = vec![
        Point3 { x: 0, y: 0, z: 0 },
        Point3 { x: WORLD_LIMIT + 1, y: 0, z: 0 },
        Point3 { x: 0, y: 0, z: 1000 },
    ];
    assert!(calculate_normals(&outside, &vec![0, 1, 2]).is_none());
    assert_eq!(calculate_normals(&vertices, &vec![]).unwrap().len(), 3);
    assert_eq!(calculate_normals(&vec![], &vec![]).unwrap().len(), 0);
}
