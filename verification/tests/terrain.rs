use railworld::units::Point2;
use railworld::world::terrain::{
    ChunkCoord, ChunkState, FinishedJob, GenerateChunkMeshTaskType, Terrain, TerrainSettings,
    FAR_GRID_CHUNK_SIZE, FAR_GRID_RENDER_DISTANCE,
};

fn origin() -> Point2 {
    Point2 { x: 0, z: 0 }
}

fn finish_all(terrain: &mut Terrain, ids: &[u64]) {
    for id in ids {
        assert!(terrain.begin_generation(*id));
        assert!(terrain.complete_job(*id, GenerateChunkMeshTaskType::FarGrid));
    }
}

#[test]
fn default_terrain_is_empty() {
    let terrain = Terrain::default();
    assert_eq!(terrain.loaded_count(), 0);
    assert_eq!(terrain.get_settings().chunk_size, FAR_GRID_CHUNK_SIZE);
    assert_eq!(terrain.get_settings().load_radius, FAR_GRID_RENDER_DISTANCE);
    assert!(terrain.get_chunk(0).is_none());
    assert!(terrain.find_chunk_at(ChunkCoord { x: 0, z: 0 }).is_none());
}

#[test]
fn settings_are_checked() {
    assert!(Terrain::new(TerrainSettings { chunk_size: 0, load_radius: 5 }).is_none());
    assert!(Terrain::new(TerrainSettings { chunk_size: 1_000_001, load_radius: 5 }).is_none());
    assert!(Terrain::new(TerrainSettings { chunk_size: 1000, load_radius: 1025 }).is_none());
    assert!(Terrain::new(TerrainSettings { chunk_size: 1, load_radius: 0 }).is_some());
    assert!(Terrain::new(TerrainSettings { chunk_size: 1_000_000, load_radius: 1024 }).is_some());
}

#[test]
fn chunk_of_a_position() {
    let terrain = Terrain::default();
    let at = |x: i64, z: i64| terrain.get_far_chunk_position(Point2 { x, z });
    assert_eq!(at(0, 0), ChunkCoord { x: 0, z: 0 });
    assert_eq!(at(499_999, -500_000), ChunkCoord { x: 0, z: 0 });
    assert_eq!(at(500_000, -500_001), ChunkCoord { x: 1, z: -1 });
    assert_eq!(at(-1_500_000, 1_499_999), ChunkCoord { x: -1, z: 1 });
    assert_eq!(at(-1_500_001, 1_500_000), ChunkCoord { x: -2, z: 2 });
    assert_eq!(at(i64::MAX, i64::MIN), ChunkCoord { x: 9_223_372_036_855, z: -9_223_372_036_855 });
}

#[test]
fn hundred_chunks_reach_ready_around_the_origin() {
    let mut terrain = Terrain::new(TerrainSettings { chunk_size: 1000, load_radius: 5 }).unwrap();
    assert_eq!(terrain.get_far_chunk_position(origin()), ChunkCoord { x: 0, z: 0 });
    let evicted = terrain.remove_unused_terrain(origin());
    assert!(evicted.is_empty());
    let jobs = terrain.generate_far_terrain(origin());
    assert_eq!(jobs.len(), 100);
    assert_eq!(terrain.loaded_count(), 100);
    let ids: Vec<u64> = jobs.iter().map(|job| job.id).collect();
    finish_all(&mut terrain, &ids);
    let mut ready = 0;
    for x in -6..=6i64 {
        for z in -6..=6i64 {
            let inside = (-5..5).contains(&x) && (-5..5).contains(&z);
            let found = terrain.find_chunk_at(ChunkCoord { x, z });
            assert_eq!(found.is_some(), inside, "chunk {} {}", x, z);
            if let Some(id) = found {
                let data = terrain.get_chunk(id).unwrap();
                assert_eq!(data.pos, ChunkCoord { x, z });
                assert_eq!(data.state, ChunkState::Ready);
                ready += 1;
            }
        }
    }
    assert_eq!(ready, 100);
    // stable: nothing more is asked for, nothing is dropped
    assert!(terrain.generate_far_terrain(origin()).is_empty());
    assert!(terrain.remove_unused_terrain(origin()).is_empty());
    assert_eq!(terrain.loaded_count(), 100);
}

#[test]
fn jobs_come_in_scan_order_with_rising_ids() {
    let mut terrain = Terrain::default();
    let jobs = terrain.generate_far_terrain(origin());
    assert_eq!(jobs[0].id, 0);
    assert_eq!(jobs[0].chunk, ChunkCoord { x: -5, z: -5 });
    assert_eq!(jobs[0].kind, GenerateChunkMeshTaskType::FarGrid);
    assert_eq!(jobs[0].world_position, Point2 { x: -5_500_000, z: -5_500_000 });
    assert_eq!(jobs[0].mesh_size, 1001);
    assert_eq!(jobs[0].vertex_subdivision, 200);
    assert_eq!(jobs[1].chunk, ChunkCoord { x: -5, z: -4 });
    assert_eq!(jobs[10].chunk, ChunkCoord { x: -4, z: -5 });
    assert_eq!(jobs[55].chunk, ChunkCoord { x: 0, z: 0 });
    assert_eq!(jobs[55].world_position, Point2 { x: -500_000, z: -500_000 });
    assert_eq!(jobs[99].chunk, ChunkCoord { x: 4, z: 4 });
    for (i, job) in jobs.iter().enumerate() {
        assert_eq!(job.id, i as u64);
        let data = terrain.get_chunk(job.id).unwrap();
        assert_eq!(data.pos, job.chunk);
        assert_eq!(data.state, ChunkState::Queued);
        assert_eq!(data.near_meshes, 0);
        assert!(!data.flagged);
        assert!(!data.generating_near_chunks);
    }
}

#[test]
fn moving_on_drops_one_column_and_asks_for_another() {
    let mut terrain = Terrain::default();
    let first = terrain.generate_far_terrain(origin());
    let ids: Vec<u64> = first.iter().map(|job| job.id).collect();
    finish_all(&mut terrain, &ids);
    let moved = Point2 { x: 1_000_000, z: 0 };
    let mut evicted = terrain.remove_unused_terrain(moved);
    evicted.sort();
    assert_eq!(evicted, (0..10).collect::<Vec<u64>>());
    assert_eq!(terrain.loaded_count(), 90);
    assert!(terrain.get_chunk(3).is_none());
    let jobs = terrain.generate_far_terrain(moved);
    assert_eq!(jobs.len(), 10);
    for (i, job) in jobs.iter().enumerate() {
        assert_eq!(job.id, 100 + i as u64);
        assert_eq!(job.chunk, ChunkCoord { x: 5, z: -5 + i as i64 });
    }
    assert_eq!(terrain.loaded_count(), 100);
    for x in -5..=6i64 {
        for z in -6..=5i64 {
            let inside = (-4..6).contains(&x) && (-5..5).contains(&z);
            assert_eq!(terrain.find_chunk_at(ChunkCoord { x, z }).is_some(), inside);
        }
    }
}

#[test]
fn a_chunk_goes_from_queued_to_generating_to_ready() {
    let mut terrain = Terrain::default();
    let jobs = terrain.generate_far_terrain(origin());
    let id = jobs[7].id;
    assert_eq!(terrain.get_chunk(id).unwrap().state, ChunkState::Queued);
    // a mesh that nobody was asked to build is not taken
    assert!(!terrain.complete_job(id, GenerateChunkMeshTaskType::FarGrid));
    assert_eq!(terrain.get_chunk(id).unwrap().state, ChunkState::Queued);
    assert!(terrain.begin_generation(id));
    assert_eq!(terrain.get_chunk(id).unwrap().state, ChunkState::Generating);
    // at most one job in flight per chunk
    assert!(!terrain.begin_generation(id));
    assert!(terrain.complete_job(id, GenerateChunkMeshTaskType::FarGrid));
    assert_eq!(terrain.get_chunk(id).unwrap().state, ChunkState::Ready);
    assert!(!terrain.complete_job(id, GenerateChunkMeshTaskType::FarGrid));
    assert!(!terrain.begin_generation(id));
    assert!(!terrain.begin_generation(12345));
}

#[test]
fn a_late_mesh_of_a_dropped_chunk_is_discarded() {
    let mut terrain = Terrain::default();
    let jobs = terrain.generate_far_terrain(origin());
    let id = jobs[0].id;
    assert!(terrain.begin_generation(id));
    let far_away = Point2 { x: 100_000_000, z: 0 };
    let evicted = terrain.remove_unused_terrain(far_away);
    assert_eq!(evicted.len(), 100);
    assert_eq!(terrain.loaded_count(), 0);
    assert!(!terrain.complete_job(id, GenerateChunkMeshTaskType::FarGrid));
    assert!(!terrain.complete_job(id, GenerateChunkMeshTaskType::NearGrid));
    assert_eq!(terrain.loaded_count(), 0);
}

#[test]
fn the_origin_chunk_gets_its_near_grid() {
    let mut terrain = Terrain::default();
    let jobs = terrain.generate_far_terrain(origin());
    assert!(terrain.generate_near_terrain().is_empty());
    let origin_id = terrain.find_chunk_at(ChunkCoord { x: 0, z: 0 }).unwrap();
    assert_eq!(origin_id, jobs[55].id);
    terrain.flag_origin_chunk();
    assert!(terrain.get_chunk(origin_id).unwrap().flagged);
    for job in jobs.iter() {
        if job.id != origin_id {
            assert!(!terrain.get_chunk(job.id).unwrap().flagged);
        }
    }
    let near = terrain.generate_near_terrain();
    assert_eq!(near.len(), 100);
    let data = terrain.get_chunk(origin_id).unwrap();
    assert!(!data.flagged);
    assert!(data.generating_near_chunks);
    assert_eq!(near[0].id, origin_id);
    assert_eq!(near[0].kind, GenerateChunkMeshTaskType::NearGrid);
    assert_eq!(near[0].chunk, ChunkCoord { x: 0, z: 0 });
    assert_eq!(near[0].world_position, Point2 { x: -500_000, z: -500_000 });
    assert_eq!(near[0].mesh_size, 101);
    assert_eq!(near[0].vertex_subdivision, 20);
    assert_eq!(near[1].world_position, Point2 { x: -500_000, z: -400_000 });
    assert_eq!(near[10].world_position, Point2 { x: -400_000, z: -500_000 });
    assert_eq!(near[99].world_position, Point2 { x: 400_000, z: 400_000 });
    // flagged once only while its jobs are in flight
    terrain.flag_origin_chunk();
    assert!(!terrain.get_chunk(origin_id).unwrap().flagged);
    assert!(terrain.generate_near_terrain().is_empty());
    assert!(terrain.complete_job(origin_id, GenerateChunkMeshTaskType::NearGrid));
    let data = terrain.get_chunk(origin_id).unwrap();
    assert_eq!(data.near_meshes, 1);
    assert!(!data.generating_near_chunks);
    assert_eq!(data.state, ChunkState::Queued);
    // a chunk with near meshes is not flagged again
    terrain.flag_origin_chunk();
    assert!(!terrain.get_chunk(origin_id).unwrap().flagged);
}

#[test]
fn finished_jobs_are_taken_in_order() {
    let mut terrain = Terrain::default();
    let jobs = terrain.generate_far_terrain(origin());
    assert!(terrain.begin_generation(jobs[0].id));
    assert!(terrain.begin_generation(jobs[1].id));
    let finished = vec![
        FinishedJob { id: jobs[0].id, kind: GenerateChunkMeshTaskType::FarGrid },
        FinishedJob { id: jobs[0].id, kind: GenerateChunkMeshTaskType::FarGrid },
        FinishedJob { id: jobs[2].id, kind: GenerateChunkMeshTaskType::FarGrid },
        FinishedJob { id: 777, kind: GenerateChunkMeshTaskType::NearGrid },
        FinishedJob { id: jobs[1].id, kind: GenerateChunkMeshTaskType::FarGrid },
        FinishedJob { id: jobs[2].id, kind: GenerateChunkMeshTaskType::NearGrid },
    ];
    let published = terrain.spawn_generated_chunks(&finished);
    assert_eq!(published, vec![true, false, false, false, true, true]);
    assert_eq!(terrain.get_chunk(jobs[0].id).unwrap().state, ChunkState::Ready);
    assert_eq!(terrain.get_chunk(jobs[1].id).unwrap().state, ChunkState::Ready);
    assert_eq!(terrain.get_chunk(jobs[2].id).unwrap().state, ChunkState::Queued);
    assert_eq!(terrain.get_chunk(jobs[2].id).unwrap().near_meshes, 1);
    // the origin chunk was flagged on the way
    let origin_id = terrain.find_chunk_at(ChunkCoord { x: 0, z: 0 }).unwrap();
    assert!(terrain.get_chunk(origin_id).unwrap().flagged);
}

#[test]
fn render_distance_includes_its_bounds() {
    let terrain = Terrain::default();
    let from = ChunkCoord { x: 0, z: 0 };
    let within = |x: i64, z: i64| terrain.is_within_far_render_distance(&Point2 { x, z }, &from);
    assert!(within(0, 0));
    assert!(within(5_000_000, -5_000_000));
    assert!(!within(5_000_001, 0));
    assert!(!within(0, -5_000_001));
    let shifted = ChunkCoord { x: 2, z: -1 };
    assert!(terrain.is_within_far_render_distance(&Point2 { x: 7_000_000, z: -6_000_000 }, &shifted));
    assert!(!terrain.is_within_far_render_distance(&Point2 { x: -3_000_001, z: 0 }, &shifted));
}

#[test]
fn cleared_terrain_keeps_counting_ids() {
    let mut terrain = Terrain::new(TerrainSettings { chunk_size: 10, load_radius: 1 }).unwrap();
    let jobs = terrain.generate_far_terrain(origin());
    assert_eq!(jobs.len(), 4);
    assert_eq!(jobs[0].mesh_size, 11);
    assert_eq!(jobs[0].world_position, Point2 { x: -15_000, z: -15_000 });
    terrain.clear_loaded_chunks();
    assert_eq!(terrain.loaded_count(), 0);
    assert!(terrain.get_chunk(0).is_none());
    let again = terrain.generate_far_terrain(origin());
    assert_eq!(again.iter().map(|job| job.id).collect::<Vec<u64>>(), vec![4, 5, 6, 7]);
}

#[test]
fn a_radius_of_zero_loads_nothing() {
    let mut terrain = Terrain::new(TerrainSettings { chunk_size: 1000, load_radius: 0 }).unwrap();
    assert!(terrain.generate_far_terrain(origin()).is_empty());
    assert_eq!(terrain.loaded_count(), 0);
}
