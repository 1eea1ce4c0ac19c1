//! Streaming of terrain chunks around a moving viewpoint.
//!
//! The terrain keeps one entry per loaded chunk. Each tick the chunks that
//! left the load window are dropped and the window's missing chunks get an id
//! and a generation job. A job's mesh is built elsewhere; when it comes back
//! the chunk becomes ready, unless it was dropped in the meantime.

use crate::units::{floor_div_i128, saturate, saturate_i128, Point2, MM_PER_M};
use crate::world::chunk_table::ChunkTable;
use vstd::prelude::*;

verus! {

/// Edge length of a far-grid chunk, in metres.
pub const FAR_GRID_CHUNK_SIZE: u32 = 1000;

/// Load radius of the far grid, in chunks.
pub const FAR_GRID_RENDER_DISTANCE: u32 = 5;

/// Edge length of a near-grid chunk, in metres.
pub const NEAR_GRID_CHUNK_SIZE: u32 = FAR_GRID_CHUNK_SIZE / 10;

/// Load radius of the near grid, in far-grid chunks.
pub const NEAR_GRID_RENDER_DISTANCE: u32 = 2;

/// Elevation of the water plane, in millimetres.
pub const WATER_LEVEL: i64 = -23_000;

/// Distance between neighbouring vertices of a far-grid mesh, in metres.
pub const FAR_GRID_VERTEX_SUBDIVISION: u32 = 200;

/// Distance between neighbouring vertices of a near-grid mesh, in metres.
pub const NEAR_GRID_VERTEX_SUBDIVISION: u32 = 20;

/// Number of near-grid chunks along one edge of a far-grid chunk.
pub const NEAR_CHUNKS_PER_EDGE: u32 = 10;

/// Largest chunk size that the terrain accepts, in metres.
pub const MAX_CHUNK_SIZE: u32 = 1_000_000;

/// Largest load radius that the terrain accepts, in chunks.
pub const MAX_LOAD_RADIUS: u32 = 1024;

/// Grid coordinate of a chunk. Chunk `(0, 0)` is centred on the world's origin.
#[derive(Clone, Copy, Debug, PartialEq, Eq, Structural)]
pub struct ChunkCoord {
    pub x: i64,
    pub z: i64,
}

/// Where a loaded chunk stands between being asked for and being shown.
#[derive(Clone, Copy, Debug, PartialEq, Eq, Structural)]
pub enum ChunkState {
    /// An id is assigned and a generation job is handed out.
    Queued,
    /// A worker is building the mesh.
    Generating,
    /// The mesh is built and published.
    Ready,
}

/// What the terrain keeps of one loaded far-grid chunk.
#[derive(Clone, Copy, Debug, PartialEq, Eq, Structural)]
pub struct FarChunkData {
    /// Grid coordinate of the chunk.
    pub pos: ChunkCoord,
    /// Progress of the chunk's own mesh.
    pub state: ChunkState,
    /// Number of near-grid meshes received for this chunk.
    pub near_meshes: u32,
    /// Whether the chunk waits for its near grid to be generated.
    pub flagged: bool,
    /// Whether near-grid jobs of this chunk are in flight.
    pub generating_near_chunks: bool,
}

/// Which grid a generation job builds a mesh for.
#[derive(Clone, Copy, Debug, PartialEq, Eq, Structural)]
pub enum GenerateChunkMeshTaskType {
    FarGrid,
    NearGrid,
}

/// A mesh to be generated for a chunk.
#[derive(Clone, Copy, Debug, PartialEq, Eq, Structural)]
pub struct ChunkJob {
    /// Id of the far-grid chunk that the mesh belongs to.
    pub id: u64,
    pub kind: GenerateChunkMeshTaskType,
    /// Grid coordinate of that far-grid chunk.
    pub chunk: ChunkCoord,
    /// World position of the mesh's first vertex, in millimetres.
    pub world_position: Point2,
    /// Number of metres that the mesh spans along each edge, plus one.
    pub mesh_size: u32,
    /// Distance between neighbouring vertices, in metres.
    pub vertex_subdivision: u32,
}

/// Chunk size and load radius of a terrain.
#[derive(Clone, Copy, Debug, PartialEq, Eq, Structural)]
pub struct TerrainSettings {
    /// Edge length of a chunk, in metres.
    pub chunk_size: u32,
    /// Number of chunks loaded to each side of the viewpoint's chunk.
    pub load_radius: u32,
}

impl TerrainSettings {
    /// Whether a terrain can be made with these settings: chunks of 1 m to
    /// `MAX_CHUNK_SIZE`, and a load radius of at most `MAX_LOAD_RADIUS`.
    pub open spec fn valid(self) -> bool {
        1 <= self.chunk_size <= MAX_CHUNK_SIZE && self.load_radius <= MAX_LOAD_RADIUS
    }

    /// Whether a terrain can be made with these settings.
    pub fn is_valid(&self) -> (r: bool)
        ensures
            r == self.valid(),
    {
        1 <= self.chunk_size && self.chunk_size <= MAX_CHUNK_SIZE && self.load_radius
            <= MAX_LOAD_RADIUS
    }
}

/// Edge length of a chunk in millimetres.
pub open spec fn chunk_size_mm(chunk_size: u32) -> int {
    chunk_size * MM_PER_M
}

/// Index along one axis of the chunk that holds the coordinate `pos`: the
/// chunk with index `k` spans `k * size - size / 2` up to `k * size + size / 2`.
pub open spec fn chunk_index(pos: int, size_mm: int) -> int {
    (pos + size_mm / 2) / size_mm
}

/// Grid coordinate of the chunk that holds a world position.
pub open spec fn chunk_of(position: Point2, chunk_size: u32) -> ChunkCoord {
    ChunkCoord {
        x: chunk_index(position.x as int, chunk_size_mm(chunk_size)) as i64,
        z: chunk_index(position.z as int, chunk_size_mm(chunk_size)) as i64,
    }
}

/// Whether chunk `c` lies in the load window around `center`: `2 * radius`
/// chunks along each axis, starting `radius` chunks below the centre.
pub open spec fn in_load_window(center: ChunkCoord, radius: u32, c: ChunkCoord) -> bool {
    &&& center.x - radius <= c.x < center.x + radius
    &&& center.z - radius <= c.z < center.z + radius
}

/// Place of chunk `c` in the order in which the load window is scanned:
/// by `x` first, then by `z`.
pub open spec fn scan_rank(center: ChunkCoord, radius: u32, c: ChunkCoord) -> int {
    (c.x - (center.x - radius)) * (2 * radius) + (c.z - (center.z - radius))
}

/// World coordinate at which the chunk with index `k` begins.
pub open spec fn chunk_origin(k: int, size_mm: int) -> int {
    saturate(k * size_mm - size_mm / 2)
}

/// World position of the first vertex of a chunk's mesh.
pub open spec fn chunk_world_position(c: ChunkCoord, chunk_size: u32) -> Point2 {
    Point2 {
        x: chunk_origin(c.x as int, chunk_size_mm(chunk_size)) as i64,
        z: chunk_origin(c.z as int, chunk_size_mm(chunk_size)) as i64,
    }
}

/// The entry of a chunk that has just been asked for.
pub open spec fn queued_chunk(pos: ChunkCoord) -> FarChunkData {
    FarChunkData {
        pos,
        state: ChunkState::Queued,
        near_meshes: 0,
        flagged: false,
        generating_near_chunks: false,
    }
}

/// The job that builds the far-grid mesh of chunk `c` under the id `id`.
pub open spec fn far_job(id: u64, c: ChunkCoord, chunk_size: u32) -> ChunkJob {
    ChunkJob {
        id,
        kind: GenerateChunkMeshTaskType::FarGrid,
        chunk: c,
        world_position: chunk_world_position(c, chunk_size),
        mesh_size: (chunk_size + 1) as u32,
        vertex_subdivision: FAR_GRID_VERTEX_SUBDIVISION,
    }
}

/// Index along one axis of the chunk that holds the coordinate `pos`.
fn chunk_index_of(pos: i64, chunk_size: u32) -> (k: i64)
    requires
        1 <= chunk_size <= MAX_CHUNK_SIZE,
    ensures
        k == chunk_index(pos as int, chunk_size_mm(chunk_size)),
        -10_000_000_000_000_000 <= k <= 10_000_000_000_000_000,
{
    let size_mm: i128 = (chunk_size as i128) * (MM_PER_M as i128);
    let shifted: i128 = (pos as i128) + size_mm / 2;
    let k: i128 = floor_div_i128(shifted, size_mm);
    assert(-10_000_000_000_000_000 <= k <= 10_000_000_000_000_000) by (nonlinear_arith)
        requires
            k == (shifted as int) / (size_mm as int),
            1000 <= size_mm <= 1_000_000_000,
            -9_300_000_000_000_000_000 <= shifted <= 9_300_000_000_000_000_000,
    ;
    k as i64
}

/// World coordinate at which the chunk with index `k` begins.
fn chunk_origin_of(k: i64, chunk_size: u32) -> (r: i64)
    requires
        1 <= chunk_size <= MAX_CHUNK_SIZE,
    ensures
        r == chunk_origin(k as int, chunk_size_mm(chunk_size)),
{
    let size_mm: i128 = (chunk_size as i128) * (MM_PER_M as i128);
    assert(-10_000_000_000_000_000_000_000_000_000 <= k * size_mm
        <= 10_000_000_000_000_000_000_000_000_000) by (nonlinear_arith)
        requires
            -10_000_000_000_000_000_000 <= k <= 10_000_000_000_000_000_000,
            1000 <= size_mm <= 1_000_000_000,
    ;
    saturate_i128((k as i128) * size_mm - size_mm / 2)
}

/// The terrain: the loaded chunks and the counter that names new ones.
pub struct Terrain {
    /// Id that the next new chunk gets.
    id_counter: u64,
    /// The loaded far-grid chunks by id.
    pub(crate) loaded_chunks: ChunkTable,
    settings: TerrainSettings,
}

impl Terrain {
    /// The loaded chunks by id.
    pub closed spec fn chunks(self) -> Map<u64, FarChunkData> {
        self.loaded_chunks.entries()
    }

    /// Id that the next new chunk gets.
    pub closed spec fn next_id(self) -> u64 {
        self.id_counter
    }

    /// Chunk size and load radius.
    pub closed spec fn settings(self) -> TerrainSettings {
        self.settings
    }

    /// The terrain's invariant: ids below the counter, and no grid coordinate
    /// loaded under two ids.
    pub open spec fn wf(self) -> bool {
        &&& self.settings().valid()
        &&& forall|id: u64| self.chunks().contains_key(id) ==> id < self.next_id()
        &&& forall|a: u64, b: u64|
            self.chunks().contains_key(a) && self.chunks().contains_key(b) && self.chunks()[a].pos
                == self.chunks()[b].pos ==> a == b
    }

    /// Whether a chunk at grid coordinate `c` is loaded.
    pub open spec fn is_tracked(self, c: ChunkCoord) -> bool {
        exists|id: u64| self.chunks().contains_key(id) && self.chunks()[id].pos == c
    }

    /// Whether a chunk at grid coordinate `c` is loaded and ready.
    pub open spec fn is_ready(self, c: ChunkCoord) -> bool {
        exists|id: u64|
            self.chunks().contains_key(id) && self.chunks()[id].pos == c && self.chunks()[id].state
                == ChunkState::Ready
    }

    /// Number of chunks in the load window.
    pub open spec fn window_area(self) -> int {
        (2 * self.settings().load_radius) * (2 * self.settings().load_radius)
    }

    /// A terrain without chunks. `None` if the settings are not valid.
    pub fn new(settings: TerrainSettings) -> (r: Option<Terrain>)
        ensures
            r.is_some() == settings.valid(),
            r matches Some(t) ==> t.wf() && t.settings() == settings && t.next_id() == 0
                && t.chunks() == Map::<u64, FarChunkData>::empty(),
    {
        if !settings.is_valid() {
            return None;
        }
        let t = Terrain { id_counter: 0, loaded_chunks: ChunkTable::new(), settings };
        assert(t.chunks() =~= Map::<u64, FarChunkData>::empty());
        Some(t)
    }

    /// Chunk size and load radius.
    pub fn get_settings(&self) -> (s: TerrainSettings)
        ensures
            s == self.settings(),
    {
        self.settings
    }

    /// Number of loaded chunks, in whatever state.
    pub fn loaded_count(&self) -> (n: usize)
        ensures
            n == self.chunks().dom().len(),
            self.chunks().dom().finite(),
    {
        let ids = self.loaded_chunks.keys();
        proof {
            ids@.unique_seq_to_set();
            assert(ids@.to_set() =~= self.chunks().dom());
        }
        ids.len()
    }

    /// The data of the chunk loaded under `id`, if there is one.
    pub fn get_chunk(&self, id: u64) -> (r: Option<FarChunkData>)
        ensures
            r == (if self.chunks().contains_key(id) {
                Some(self.chunks()[id])
            } else {
                None
            }),
    {
        self.loaded_chunks.get(id)
    }

    /// Hands out the id for a new chunk.
    pub(crate) fn get_new_chunk_id(&mut self) -> (id: u64)
        requires
            old(self).next_id() < u64::MAX,
        ensures
            id == old(self).next_id(),
            final(self).next_id() == old(self).next_id() + 1,
            final(self).chunks() == old(self).chunks(),
            final(self).settings() == old(self).settings(),
    {
        let result = self.id_counter;
        self.id_counter += 1;
        result
    }

    /// Grid coordinate of the chunk that holds a world position.
    pub fn get_far_chunk_position(&self, world_position: Point2) -> (c: ChunkCoord)
        requires
            self.settings().valid(),
        ensures
            c == chunk_of(world_position, self.settings().chunk_size),
            -10_000_000_000_000_000 <= c.x <= 10_000_000_000_000_000,
            -10_000_000_000_000_000 <= c.z <= 10_000_000_000_000_000,
    {
        ChunkCoord {
            x: chunk_index_of(world_position.x, self.settings.chunk_size),
            z: chunk_index_of(world_position.z, self.settings.chunk_size),
        }
    }

    /// Whether `point` lies within the load radius of the chunk
    /// `from_chunk_pos`, the bounds included.
    pub fn is_within_far_render_distance(&self, point: &Point2, from_chunk_pos: &ChunkCoord) -> (r:
        bool)
        requires
            self.settings().valid(),
        ensures
            r == within_render_distance(*point, *from_chunk_pos, self.settings()),
    {
        let size_mm: i128 = (self.settings.chunk_size as i128) * (MM_PER_M as i128);
        let radius: i128 = self.settings.load_radius as i128;
        let low_x: i128 = (from_chunk_pos.x as i128) - radius;
        let high_x: i128 = (from_chunk_pos.x as i128) + radius;
        let low_z: i128 = (from_chunk_pos.z as i128) - radius;
        let high_z: i128 = (from_chunk_pos.z as i128) + radius;
        proof {
            lemma_edge_product_bounds(low_x as int, size_mm as int);
            lemma_edge_product_bounds(high_x as int, size_mm as int);
            lemma_edge_product_bounds(low_z as int, size_mm as int);
            lemma_edge_product_bounds(high_z as int, size_mm as int);
        }
        let min_x: i128 = low_x * size_mm;
        let max_x: i128 = high_x * size_mm;
        let min_z: i128 = low_z * size_mm;
        let max_z: i128 = high_z * size_mm;
        let px: i128 = point.x as i128;
        let pz: i128 = point.z as i128;
        if px > max_x || px < min_x {
            false
        } else if pz > max_z || pz < min_z {
            false
        } else {
            true
        }
    }

    /// Whether ids are left for every chunk of a load window, so that
    /// `generate_far_terrain` can be called.
    pub fn has_free_ids(&self) -> (r: bool)
        requires
            self.settings().valid(),
        ensures
            r == (self.next_id() + self.window_area() <= u64::MAX),
    {
        let edge: u64 = 2 * (self.settings.load_radius as u64);
        assert(edge * edge <= 2048 * 2048) by (nonlinear_arith)
            requires
                0 <= edge <= 2048,
        ;
        self.id_counter <= u64::MAX - edge * edge
    }

    /// The id under which a chunk at `c` is loaded, looked for among `ids`.
    fn find_among(&self, ids: &Vec<u64>, c: ChunkCoord) -> (found: Option<u64>)
        ensures
            found matches Some(id) ==> self.chunks().contains_key(id) && self.chunks()[id].pos
                == c,
            found.is_none() ==> forall|k: int|
                0 <= k < ids.len() && self.chunks().contains_key(#[trigger] ids[k])
                    ==> self.chunks()[ids[k]].pos != c,
    {
        let mut k: usize = 0;
        while k < ids.len()
            invariant
                k <= ids.len(),
                forall|j: int|
                    0 <= j < k && self.chunks().contains_key(#[trigger] ids[j])
                        ==> self.chunks()[ids[j]].pos != c,
            decreases ids.len() - k,
        {
            let id: u64 = ids[k];
            match self.loaded_chunks.get(id) {
                Some(data) => {
                    if data.pos == c {
                        return Some(id);
                    }
                },
                None => {},
            }
            k += 1;
        }
        None
    }

    /// The id under which a chunk at grid coordinate `c` is loaded, if one is.
    pub fn find_chunk_at(&self, c: ChunkCoord) -> (found: Option<u64>)
        ensures
            found.is_some() == self.is_tracked(c),
            found matches Some(id) ==> self.chunks().contains_key(id) && self.chunks()[id].pos
                == c,
    {
        let ids = self.loaded_chunks.keys();
        let found = self.find_among(&ids, c);
        proof {
            if found.is_none() {
                assert forall|id: u64| self.chunks().contains_key(id) implies self.chunks()[id].pos
                    != c by {
                    assert(ids@.contains(id));
                    let k = choose|k: int| 0 <= k < ids.len() && ids[k] == id;
                    assert(self.chunks().contains_key(ids[k]));
                }
            }
        }
        found
    }

    /// Asks for every chunk of the load window around the viewpoint that is
    /// not loaded yet. Each gets the next free id and an entry in state
    /// `Queued`. Returns one far-grid job per new chunk, in scan order.
    pub fn generate_far_terrain(&mut self, viewpoint: Point2) -> (jobs: Vec<ChunkJob>)
        requires
            old(self).wf(),
            old(self).next_id() + old(self).window_area() <= u64::MAX,
        ensures
            final(self).wf(),
            generated_from(
                *old(self),
                *final(self),
                chunk_of(viewpoint, old(self).settings().chunk_size),
                jobs@,
            ),
    {
        let center = self.get_far_chunk_position(viewpoint);
        let radius: i64 = self.settings.load_radius as i64;
        let chunk_size: u32 = self.settings.chunk_size;
        let ids = self.loaded_chunks.keys();
        let mut jobs: Vec<ChunkJob> = Vec::new();
        let ghost before = *self;
        let low_x: i64 = center.x - radius;
        let low_z: i64 = center.z - radius;
        let mut x: i64 = low_x;
        proof {
            assert(self.window_area() == (2 * radius) * (2 * radius));
            lemma_rank_bounds(0, 0, radius as int);
        }
        while x < center.x + radius
            invariant
                before.wf(),
                self.settings() == before.settings(),
                chunk_size == before.settings().chunk_size,
                radius == before.settings().load_radius,
                before.next_id() + (2 * radius) * (2 * radius) <= u64::MAX,
                -10_000_000_000_000_000 <= center.x <= 10_000_000_000_000_000,
                -10_000_000_000_000_000 <= center.z <= 10_000_000_000_000_000,
                low_x == center.x - radius,
                low_z == center.z - radius,
                low_x <= x <= center.x + radius,
                forall|id: u64| ids@.contains(id) <==> before.chunks().contains_key(id),
                scan_progress(before, *self, center, jobs@, (x - low_x) * (2 * radius)),
            decreases center.x + radius - x,
        {
            let mut z: i64 = low_z;
            while z < center.z + radius
                invariant
                    before.wf(),
                    self.settings() == before.settings(),
                    chunk_size == before.settings().chunk_size,
                    radius == before.settings().load_radius,
                    before.next_id() + (2 * radius) * (2 * radius) <= u64::MAX,
                    -10_000_000_000_000_000 <= center.x <= 10_000_000_000_000_000,
                    -10_000_000_000_000_000 <= center.z <= 10_000_000_000_000_000,
                    low_x == center.x - radius,
                    low_z == center.z - radius,
                    low_x <= x < center.x + radius,
                    low_z <= z <= center.z + radius,
                    forall|id: u64| ids@.contains(id) <==> before.chunks().contains_key(id),
                    scan_progress(
                        before,
                        *self,
                        center,
                        jobs@,
                        (x - low_x) * (2 * radius) + (z - low_z),
                    ),
                decreases center.z + radius - z,
            {
                let c = ChunkCoord { x, z };
                let ghost rank = (x - low_x) * (2 * radius) + (z - low_z);
                let ghost next_rank = rank + 1;
                proof {
                    lemma_rank_bounds(x - low_x, z - low_z, radius as int);
                    assert(scan_rank(center, before.settings().load_radius, c) == rank);
                }
                let found = self.find_among(&ids, c);
                let ghost during = *self;
                let ghost prior_jobs = jobs@;
                if found.is_none() {
                    proof {
                        assert forall|id: u64| before.chunks().contains_key(id) implies before.chunks()[id].pos
                            != c by {
                            assert(ids@.contains(id));
                            let k = choose|k: int| 0 <= k < ids.len() && ids[k] == id;
                            assert(during.chunks().contains_key(ids[k]));
                        }
                        assert(!before.is_tracked(c));
                    }
                    let id = self.get_new_chunk_id();
                    let job = ChunkJob {
                        id,
                        kind: GenerateChunkMeshTaskType::FarGrid,
                        chunk: c,
                        world_position: Point2 {
                            x: chunk_origin_of(x, chunk_size),
                            z: chunk_origin_of(z, chunk_size),
                        },
                        mesh_size: chunk_size + 1,
                        vertex_subdivision: FAR_GRID_VERTEX_SUBDIVISION,
                    };
                    let data = FarChunkData {
                        pos: c,
                        state: ChunkState::Queued,
                        near_meshes: 0,
                        flagged: false,
                        generating_near_chunks: false,
                    };
                    let _ = self.loaded_chunks.insert(id, data);
                    jobs.push(job);
                    proof {
                        assert(job == far_job(id, c, chunk_size));
                        assert(data == queued_chunk(c));
                        assert(scan_progress(before, *self, center, jobs@, next_rank)) by {
                            let n = jobs@.len() - 1;
                            assert(jobs@ == prior_jobs.push(job));
                            assert(self.chunks() == during.chunks().insert(id, data));
                            assert forall|i: int| 0 <= i < jobs@.len() implies job_at_place(
                                before,
                                *self,
                                center,
                                jobs@,
                                i,
                                next_rank,
                            ) by {
                                if i < n {
                                    assert(job_at_place(before, during, center, prior_jobs, i, rank));
                                }
                            }
                            assert forall|i: int, j: int| 0 <= i < j < jobs@.len() implies scan_rank(
                                center,
                                before.settings().load_radius,
                                jobs@[i].chunk,
                            ) < scan_rank(center, before.settings().load_radius, jobs@[j].chunk) by {
                                assert(job_at_place(before, during, center, prior_jobs, i, rank));
                                if j < n {
                                    assert(prior_jobs[j] == jobs@[j]);
                                    assert(prior_jobs[i] == jobs@[i]);
                                }
                            }
                            assert forall|w: ChunkCoord|
                                in_load_window(center, before.settings().load_radius, w)
                                    && scan_rank(center, before.settings().load_radius, w) < rank
                                    + 1 && !before.is_tracked(w) implies exists|i: int|
                                0 <= i < jobs@.len() && jobs@[i].chunk == w by {
                                if scan_rank(center, before.settings().load_radius, w) < rank {
                                    let i = choose|i: int|
                                        0 <= i < prior_jobs.len() && prior_jobs[i].chunk
                                            == w;
                                    assert(jobs@[i].chunk == w);
                                } else {
                                    lemma_rank_injective(center, before.settings().load_radius, w, c);
                                    assert(jobs@[n].chunk == w);
                                }
                            }
                        }
                    }
                } else {
                    proof {
                        assert(before.is_tracked(c)) by {
                            let id = found.unwrap();
                            assert(during.chunks().contains_key(id));
                            if !before.chunks().contains_key(id) {
                                let i = id - before.next_id();
                                assert(job_at_place(before, during, center, jobs@, i, rank));
                                lemma_rank_injective(
                                    center,
                                    before.settings().load_radius,
                                    jobs@[i].chunk,
                                    c,
                                );
                            }
                        }
                        assert(scan_progress(before, *self, center, jobs@, next_rank)) by {
                            assert forall|i: int| 0 <= i < jobs@.len() implies job_at_place(
                                before,
                                *self,
                                center,
                                jobs@,
                                i,
                                next_rank,
                            ) by {
                                assert(job_at_place(before, *self, center, jobs@, i, rank));
                            }
                            assert forall|w: ChunkCoord|
                                in_load_window(center, before.settings().load_radius, w)
                                    && scan_rank(center, before.settings().load_radius, w) < rank
                                    + 1 && !before.is_tracked(w) implies exists|i: int|
                                0 <= i < jobs@.len() && jobs@[i].chunk == w by {
                                if scan_rank(center, before.settings().load_radius, w) >= rank {
                                    lemma_rank_injective(center, before.settings().load_radius, w, c);
                                }
                            }
                        }
                    }
                }
                z += 1;
            }
            proof {
                assert((x - low_x) * (2 * radius) + (2 * radius) == (x + 1 - low_x) * (2 * radius))
                    by (nonlinear_arith);
            }
            x += 1;
        }
        proof {
            lemma_scan_complete(before, *self, center, jobs@);
        }
        jobs
    }

    /// Drops every loaded chunk that lies outside the load window around the
    /// viewpoint, in whatever state it is. Returns the ids of the dropped
    /// chunks, so that what is shown of them can be removed.
    pub fn remove_unused_terrain(&mut self, viewpoint: Point2) -> (evicted: Vec<u64>)
        requires
            old(self).wf(),
        ensures
            final(self).wf(),
            evicted_from(
                *old(self),
                *final(self),
                chunk_of(viewpoint, old(self).settings().chunk_size),
                evicted@,
            ),
    {
        let center = self.get_far_chunk_position(viewpoint);
        let radius: i64 = self.settings.load_radius as i64;
        let ids = self.loaded_chunks.keys();
        let mut evicted: Vec<u64> = Vec::new();
        let ghost before = *self;
        let ghost load_radius = before.settings().load_radius;
        let mut k: usize = 0;
        while k < ids.len()
            invariant
                k <= ids.len(),
                before.wf(),
                radius == load_radius,
                load_radius == before.settings().load_radius,
                -10_000_000_000_000_000 <= center.x <= 10_000_000_000_000_000,
                -10_000_000_000_000_000 <= center.z <= 10_000_000_000_000_000,
                ids@.no_duplicates(),
                forall|id: u64| ids@.contains(id) <==> before.chunks().contains_key(id),
                self.settings() == before.settings(),
                self.next_id() == before.next_id(),
                forall|id: u64|
                    self.chunks().contains_key(id) <==> before.chunks().contains_key(id) && !(
                    visited(ids@, k as int, id) && !in_load_window(
                        center,
                        load_radius,
                        before.chunks()[id].pos,
                    )),
                forall|id: u64|
                    self.chunks().contains_key(id) ==> before.chunks().contains_key(id)
                        && self.chunks()[id] == before.chunks()[id],
                evicted@.no_duplicates(),
                forall|id: u64|
                    evicted@.contains(id) <==> visited(ids@, k as int, id) && !in_load_window(
                        center,
                        load_radius,
                        before.chunks()[id].pos,
                    ),
            decreases ids.len() - k,
        {
            let id: u64 = ids[k];
            let ghost prior_evicted = evicted@;
            proof {
                assert(ids@.contains(id));
                lemma_not_yet_visited(ids@, k as int);
            }
            let found = self.loaded_chunks.get(id);
            assert(found.is_some());
            let data = found.unwrap();
            let inside = center.x - radius <= data.pos.x && data.pos.x < center.x + radius
                && center.z - radius <= data.pos.z && data.pos.z < center.z + radius;
            assert(inside == in_load_window(center, load_radius, before.chunks()[id].pos));
            if !inside {
                let _ = self.loaded_chunks.remove(id);
                evicted.push(id);
                proof {
                    assert(!prior_evicted.contains(id));
                    lemma_push_fresh(prior_evicted, id);
                }
            }
            let ghost grew = !inside;
            proof {
                let next = k + 1;
                assert forall|other: u64|
                    self.chunks().contains_key(other) <==> before.chunks().contains_key(other)
                        && !(visited(ids@, next, other) && !in_load_window(
                        center,
                        load_radius,
                        before.chunks()[other].pos,
                    )) by {
                    lemma_visited_step(ids@, k as int, other);
                }
                assert forall|other: u64|
                    evicted@.contains(other) <==> visited(ids@, next, other) && !in_load_window(
                        center,
                        load_radius,
                        before.chunks()[other].pos,
                    ) by {
                    lemma_visited_step(ids@, k as int, other);
                    if grew {
                        assert(evicted@.contains(other) <==> prior_evicted.contains(other) || other
                            == id);
                    } else {
                        assert(evicted@ == prior_evicted);
                    }
                }
            }
            k += 1;
        }
        proof {
            assert forall|id: u64| visited(ids@, k as int, id) <==> before.chunks().contains_key(
                id,
            ) by {
                lemma_visited_all(ids@, id);
            }
            assert forall|a: u64, b: u64|
                self.chunks().contains_key(a) && self.chunks().contains_key(b)
                    && self.chunks()[a].pos == self.chunks()[b].pos implies a == b by {
                assert(before.chunks()[a].pos == before.chunks()[b].pos);
            }
            assert forall|id: u64| self.chunks().contains_key(id) implies id
                < self.next_id() by {
                assert(before.chunks().contains_key(id));
            }
        }
        evicted
    }

    /// Records that a worker has taken up the job of chunk `id`. The chunk
    /// goes from `Queued` to `Generating`; in any other state, or when it is
    /// no longer loaded, nothing changes and the job must not be started.
    pub fn begin_generation(&mut self, id: u64) -> (started: bool)
        requires
            old(self).wf(),
        ensures
            final(self).wf(),
            final(self).settings() == old(self).settings(),
            final(self).next_id() == old(self).next_id(),
            started == generation_starts(old(self).chunks(), id),
            final(self).chunks() == chunks_after_start(old(self).chunks(), id),
    {
        match self.loaded_chunks.get(id) {
            Some(data) => {
                if data.state == ChunkState::Queued {
                    let _ = self.loaded_chunks.insert(
                        id,
                        FarChunkData {
                            pos: data.pos,
                            state: ChunkState::Generating,
                            near_meshes: data.near_meshes,
                            flagged: data.flagged,
                            generating_near_chunks: data.generating_near_chunks,
                        },
                    );
                    proof {
                        lemma_update_keeps_wf(*old(self), *self, id);
                    }
                    true
                } else {
                    false
                }
            },
            None => false,
        }
    }

    /// Takes in the mesh of a finished job. Returns whether the mesh is to be
    /// published; if not, it belongs to a chunk that is gone or that did not
    /// wait for it, and is to be discarded.
    pub fn complete_job(&mut self, id: u64, kind: GenerateChunkMeshTaskType) -> (publish: bool)
        requires
            old(self).wf(),
        ensures
            final(self).wf(),
            final(self).settings() == old(self).settings(),
            final(self).next_id() == old(self).next_id(),
            publish == job_publishes(old(self).chunks(), id, kind),
            final(self).chunks() == chunks_after_job(old(self).chunks(), id, kind),
    {
        match self.loaded_chunks.get(id) {
            Some(data) => {
                match kind {
                    GenerateChunkMeshTaskType::FarGrid => {
                        if data.state == ChunkState::Generating {
                            let _ = self.loaded_chunks.insert(
                                id,
                                FarChunkData {
                                    pos: data.pos,
                                    state: ChunkState::Ready,
                                    near_meshes: data.near_meshes,
                                    flagged: data.flagged,
                                    generating_near_chunks: data.generating_near_chunks,
                                },
                            );
                            proof {
                                lemma_update_keeps_wf(*old(self), *self, id);
                            }
                            true
                        } else {
                            false
                        }
                    },
                    GenerateChunkMeshTaskType::NearGrid => {
                        let count: u32 = if data.near_meshes < u32::MAX {
                            data.near_meshes + 1
                        } else {
                            u32::MAX
                        };
                        let _ = self.loaded_chunks.insert(
                            id,
                            FarChunkData {
                                pos: data.pos,
                                state: data.state,
                                near_meshes: count,
                                flagged: data.flagged,
                                generating_near_chunks: false,
                            },
                        );
                        proof {
                            lemma_update_keeps_wf(*old(self), *self, id);
                        }
                        true
                    },
                }
            },
            None => false,
        }
    }

    /// Flags the chunk at the world's origin for near-grid generation, unless
    /// it has near-grid meshes already, is flagged, or has near-grid jobs in
    /// flight.
    pub fn flag_origin_chunk(&mut self)
        requires
            old(self).wf(),
        ensures
            final(self).wf(),
            final(self).settings() == old(self).settings(),
            final(self).next_id() == old(self).next_id(),
            final(self).chunks() == chunks_with_origin_flagged(old(self).chunks()),
    {
        let origin = ChunkCoord { x: 0, z: 0 };
        let found = self.find_chunk_at(origin);
        match found {
            Some(id) => {
                let data = self.loaded_chunks.get(id).unwrap();
                if data.near_meshes == 0 && !data.flagged && !data.generating_near_chunks {
                    let _ = self.loaded_chunks.insert(
                        id,
                        FarChunkData {
                            pos: data.pos,
                            state: data.state,
                            near_meshes: data.near_meshes,
                            flagged: true,
                            generating_near_chunks: data.generating_near_chunks,
                        },
                    );
                    proof {
                        lemma_update_keeps_wf(*old(self), *self, id);
                    }
                }
                proof {
                    assert(self.chunks() =~= chunks_with_origin_flagged(old(self).chunks()));
                }
            },
            None => {
                proof {
                    assert(self.chunks() =~= chunks_with_origin_flagged(old(self).chunks()));
                }
            },
        }
    }

    /// Takes in the jobs that finished since the last tick, in the order
    /// given, after flagging the origin chunk. Returns for each job whether
    /// its mesh is to be published.
    pub fn spawn_generated_chunks(&mut self, finished: &Vec<FinishedJob>) -> (published: Vec<bool>)
        requires
            old(self).wf(),
        ensures
            final(self).wf(),
            final(self).settings() == old(self).settings(),
            final(self).next_id() == old(self).next_id(),
            final(self).chunks() == chunks_after_jobs(
                chunks_with_origin_flagged(old(self).chunks()),
                finished@,
            ),
            published.len() == finished.len(),
            forall|i: int|
                0 <= i < finished.len() ==> published[i] == job_publishes(
                    chunks_after_jobs(
                        chunks_with_origin_flagged(old(self).chunks()),
                        finished@.take(i),
                    ),
                    #[trigger] finished[i].id,
                    finished[i].kind,
                ),
    {
        self.flag_origin_chunk();
        let ghost start = self.chunks();
        let mut published: Vec<bool> = Vec::new();
        let mut k: usize = 0;
        assert(finished@.take(0) =~= Seq::<FinishedJob>::empty());
        while k < finished.len()
            invariant
                k <= finished.len(),
                self.wf(),
                self.settings() == old(self).settings(),
                self.next_id() == old(self).next_id(),
                start == chunks_with_origin_flagged(old(self).chunks()),
                self.chunks() == chunks_after_jobs(start, finished@.take(k as int)),
                published.len() == k,
                forall|i: int|
                    0 <= i < k ==> published[i] == job_publishes(
                        chunks_after_jobs(start, finished@.take(i)),
                        #[trigger] finished[i].id,
                        finished[i].kind,
                    ),
            decreases finished.len() - k,
        {
            let job = finished[k];
            let publish = self.complete_job(job.id, job.kind);
            published.push(publish);
            proof {
                assert(finished@.take(k + 1).drop_last() =~= finished@.take(k as int));
                assert(finished@.take(k + 1).last() == job);
            }
            k += 1;
        }
        assert(finished@.take(k as int) =~= finished@);
        published
    }

    /// Forgets every loaded chunk, as after a change of the noise settings.
    /// Ids handed out before are not used again.
    pub fn clear_loaded_chunks(&mut self)
        requires
            old(self).wf(),
        ensures
            final(self).wf(),
            final(self).settings() == old(self).settings(),
            final(self).next_id() == old(self).next_id(),
            final(self).chunks() == Map::<u64, FarChunkData>::empty(),
    {
        self.loaded_chunks.clear();
        assert(self.chunks() =~= Map::<u64, FarChunkData>::empty());
    }

    /// Asks for the near grid of every chunk that is flagged for it: the
    /// chunk is no longer flagged and has near-grid jobs in flight, one for
    /// each of the `NEAR_CHUNKS_PER_EDGE` by `NEAR_CHUNKS_PER_EDGE` parts of
    /// the chunk. The jobs of one chunk stand together, column by column; the
    /// chunks come in no particular order.
    pub fn generate_near_terrain(&mut self) -> (jobs: Vec<ChunkJob>)
        requires
            old(self).wf(),
        ensures
            final(self).wf(),
            final(self).settings() == old(self).settings(),
            final(self).next_id() == old(self).next_id(),
            final(self).chunks() == chunks_with_near_grid_started(old(self).chunks()),
            near_jobs_of(old(self).chunks(), old(self).settings().chunk_size, jobs@),
    {
        let ids = self.loaded_chunks.keys();
        let chunk_size: u32 = self.settings.chunk_size;
        let near_edge: u32 = chunk_size / NEAR_CHUNKS_PER_EDGE;
        let mut jobs: Vec<ChunkJob> = Vec::new();
        let ghost before = *self;
        let mut k: usize = 0;
        while k < ids.len()
            invariant
                k <= ids.len(),
                before.wf(),
                chunk_size == before.settings().chunk_size,
                near_edge == near_size(chunk_size),
                ids@.no_duplicates(),
                forall|id: u64| ids@.contains(id) <==> before.chunks().contains_key(id),
                self.settings() == before.settings(),
                self.next_id() == before.next_id(),
                self.chunks().dom() =~= before.chunks().dom(),
                forall|id: u64|
                    before.chunks().contains_key(id) ==> #[trigger] self.chunks()[id] == (if visited(
                        ids@,
                        k as int,
                        id,
                    ) {
                        near_grid_started(before.chunks()[id])
                    } else {
                        before.chunks()[id]
                    }),
                jobs.len() % 100 == 0,
                forall|m: int|
                    0 <= m < jobs.len() ==> is_near_job(before.chunks(), chunk_size, jobs@, m),
                forall|m: int|
                    0 <= m < jobs.len() ==> visited(ids@, k as int, (#[trigger] jobs[m]).id),
                forall|m: int, n: int|
                    0 <= m < jobs.len() && 0 <= n < jobs.len() && (#[trigger] jobs[m]).id == (
                    #[trigger] jobs[n]).id ==> m / 100 == n / 100,
                forall|id: u64|
                    visited(ids@, k as int, id) && before.chunks()[id].flagged ==> has_near_jobs(
                        jobs@,
                        id,
                    ),
            decreases ids.len() - k,
        {
            let id: u64 = ids[k];
            let ghost prior_jobs = jobs@;
            proof {
                assert(ids@.contains(id));
                lemma_not_yet_visited(ids@, k as int);
            }
            let data = self.loaded_chunks.get(id).unwrap();
            if data.flagged {
                // begin near grid generation process for this far chunk
                let _ = self.loaded_chunks.insert(
                    id,
                    FarChunkData {
                        pos: data.pos,
                        state: data.state,
                        near_meshes: data.near_meshes,
                        flagged: false,
                        generating_near_chunks: true,
                    },
                );
                let far_x: i64 = chunk_origin_of(data.pos.x, chunk_size);
                let far_z: i64 = chunk_origin_of(data.pos.z, chunk_size);
                let mut part: u32 = 0;
                while part < 100
                    invariant
                        part <= 100,
                        1 <= chunk_size <= MAX_CHUNK_SIZE,
                        near_edge == near_size(chunk_size),
                        before.chunks().contains_key(id),
                        before.chunks()[id] == data,
                        data.flagged,
                        far_x == chunk_origin(data.pos.x as int, chunk_size_mm(chunk_size)),
                        far_z == chunk_origin(data.pos.z as int, chunk_size_mm(chunk_size)),
                        prior_jobs.len() % 100 == 0,
                        jobs.len() == prior_jobs.len() + part,
                        forall|m: int| 0 <= m < prior_jobs.len() ==> jobs[m] == prior_jobs[m],
                        forall|m: int|
                            prior_jobs.len() <= m < jobs.len() ==> #[trigger] jobs[m] == near_job(
                                id,
                                data.pos,
                                (m - prior_jobs.len()) / 10,
                                (m - prior_jobs.len()) % 10,
                                chunk_size,
                            ),
                    decreases 100 - part,
                {
                    let column: u32 = part / 10;
                    let row: u32 = part % 10;
                    assert(near_edge <= 100_000);
                    assert(MM_PER_M == 1000);
                    let near_mm: i64 = (near_edge as i64) * 1000;
                    assert(0 <= column * near_mm <= 1_000_000_000 && column * near_mm == column
                        * near_size(chunk_size) * MM_PER_M) by (nonlinear_arith)
                        requires
                            0 <= column < 10,
                            0 <= near_mm <= 100_000_000,
                            near_mm == near_size(chunk_size) * 1000,
                            MM_PER_M == 1000,
                    ;
                    assert(0 <= row * near_mm <= 1_000_000_000 && row * near_mm == row * near_size(
                        chunk_size,
                    ) * MM_PER_M) by (nonlinear_arith)
                        requires
                            0 <= row < 10,
                            0 <= near_mm <= 100_000_000,
                            near_mm == near_size(chunk_size) * 1000,
                            MM_PER_M == 1000,
                    ;
                    jobs.push(
                        ChunkJob {
                            id,
                            kind: GenerateChunkMeshTaskType::NearGrid,
                            chunk: data.pos,
                            world_position: Point2 {
                                x: crate::units::add_saturating(far_x, (column as i64) * near_mm),
                                z: crate::units::add_saturating(far_z, (row as i64) * near_mm),
                            },
                            mesh_size: near_edge + 1,
                            vertex_subdivision: NEAR_GRID_VERTEX_SUBDIVISION,
                        },
                    );
                    part += 1;
                }
                proof {
                    let base = prior_jobs.len() as int;
                    assert forall|m: int| 0 <= m < jobs.len() implies is_near_job(
                        before.chunks(),
                        chunk_size,
                        jobs@,
                        m,
                    ) by {
                        if m < base {
                            assert(jobs[m] == prior_jobs[m]);
                            assert(is_near_job(before.chunks(), chunk_size, prior_jobs, m));
                        } else {
                            assert((m % 100) == m - base);
                        }
                    }
                    assert forall|m: int, n: int|
                        0 <= m < jobs.len() && 0 <= n < jobs.len() && (#[trigger] jobs[m]).id == (
                        #[trigger] jobs[n]).id implies m / 100 == n / 100 by {
                        if m < base {
                            assert(jobs[m] == prior_jobs[m]);
                            assert(visited(ids@, k as int, prior_jobs[m].id));
                        }
                        if n < base {
                            assert(jobs[n] == prior_jobs[n]);
                            assert(visited(ids@, k as int, prior_jobs[n].id));
                        }
                    }
                    assert(jobs[base].id == id && base % 100 == 0);
                    assert(has_near_jobs(jobs@, id));
                }
            }
            proof {
                let next = k + 1;
                assert forall|other: u64| visited(ids@, next, other) <==> visited(
                    ids@,
                    k as int,
                    other,
                ) || other == id by {
                    lemma_visited_step(ids@, k as int, other);
                }
                assert forall|m: int| 0 <= m < jobs.len() implies visited(
                    ids@,
                    next,
                    (#[trigger] jobs[m]).id,
                ) by {
                    if m < prior_jobs.len() {
                        assert(jobs[m] == prior_jobs[m]);
                        assert(visited(ids@, k as int, prior_jobs[m].id));
                    }
                }
                assert forall|other: u64|
                    visited(ids@, next, other) && before.chunks()[other].flagged implies has_near_jobs(
                        jobs@,
                        other,
                    ) by {
                    if other != id {
                        assert(has_near_jobs(prior_jobs, other));
                        let m = choose|m: int|
                            0 <= m < prior_jobs.len() && m % 100 == 0 && prior_jobs[m].id == other;
                        assert(jobs[m] == prior_jobs[m]);
                    }
                }
                assert forall|other: u64| before.chunks().contains_key(other) implies #[trigger] self.chunks()[other]
                    == (if visited(ids@, next, other) {
                    near_grid_started(before.chunks()[other])
                } else {
                    before.chunks()[other]
                }) by {}
            }
            k += 1;
        }
        proof {
            assert forall|id: u64| visited(ids@, k as int, id) <==> before.chunks().contains_key(
                id,
            ) by {
                lemma_visited_all(ids@, id);
            }
            assert(self.chunks() =~= chunks_with_near_grid_started(before.chunks()));
            lemma_update_all_keeps_wf(before, *self);
        }
        jobs
    }
}

/// Whether `point` lies within `settings.load_radius` chunk lengths of the
/// chunk `from`, the bounds included.
pub open spec fn within_render_distance(point: Point2, from: ChunkCoord, settings: TerrainSettings) -> bool {
    let size = chunk_size_mm(settings.chunk_size);
    &&& (from.x - settings.load_radius) * size <= point.x <= (from.x + settings.load_radius) * size
    &&& (from.z - settings.load_radius) * size <= point.z <= (from.z + settings.load_radius) * size
}

/// How `remove_unused_terrain` changes a terrain: `after` keeps exactly the
/// chunks of `before` that lie in the load window around `center`, unchanged,
/// and `evicted` lists the ids of the others, each once.
pub open spec fn evicted_from(
    before: Terrain,
    after: Terrain,
    center: ChunkCoord,
    evicted: Seq<u64>,
) -> bool {
    let radius = before.settings().load_radius;
    &&& after.settings() == before.settings()
    &&& after.next_id() == before.next_id()
    &&& forall|id: u64|
        after.chunks().contains_key(id) <==> before.chunks().contains_key(id) && in_load_window(
            center,
            radius,
            before.chunks()[id].pos,
        )
    &&& forall|id: u64| after.chunks().contains_key(id) ==> after.chunks()[id] == before.chunks()[id]
    &&& evicted.no_duplicates()
    &&& forall|id: u64|
        evicted.contains(id) <==> before.chunks().contains_key(id) && !in_load_window(
            center,
            radius,
            before.chunks()[id].pos,
        )
}

/// Whether `id` stands among the first `k` of `ids`.
pub open spec fn visited(ids: Seq<u64>, k: int, id: u64) -> bool {
    exists|j: int| 0 <= j < k && j < ids.len() && ids[j] == id
}

proof fn lemma_push_fresh(items: Seq<u64>, id: u64)
    requires
        items.no_duplicates(),
        !items.contains(id),
    ensures
        items.push(id).no_duplicates(),
        forall|other: u64| items.push(id).contains(other) <==> items.contains(other) || other == id,
{
    let grown = items.push(id);
    assert forall|other: u64| grown.contains(other) <==> items.contains(other) || other
        == id by {
        if items.contains(other) {
            assert(grown[items.index_of(other)] == other);
        }
        if other == id {
            assert(grown[items.len() as int] == other);
        }
        if grown.contains(other) {
            let i = choose|i: int| 0 <= i < grown.len() && grown[i] == other;
            if i < items.len() {
                assert(items[i] == other);
            }
        }
    }
    assert forall|i: int, j: int| 0 <= i < grown.len() && 0 <= j < grown.len() && i != j implies grown[i]
        != grown[j] by {
        if i < items.len() && j < items.len() {
            assert(items[i] != items[j]);
        } else if i < items.len() {
            assert(items.contains(items[i]));
        } else if j < items.len() {
            assert(items.contains(items[j]));
        }
    }
}

proof fn lemma_visited_step(ids: Seq<u64>, k: int, id: u64)
    requires
        0 <= k < ids.len(),
    ensures
        visited(ids, k + 1, id) <==> visited(ids, k, id) || ids[k] == id,
{
    if visited(ids, k + 1, id) {
        let j = choose|j: int| 0 <= j < k + 1 && j < ids.len() && ids[j] == id;
        if j < k {
            assert(0 <= j < k && j < ids.len() && ids[j] == id);
        }
    }
    if visited(ids, k, id) {
        let j = choose|j: int| 0 <= j < k && j < ids.len() && ids[j] == id;
        assert(0 <= j < k + 1 && j < ids.len() && ids[j] == id);
    }
    if ids[k] == id {
        assert(0 <= k < k + 1 && k < ids.len() && ids[k] == id);
    }
}

proof fn lemma_not_yet_visited(ids: Seq<u64>, k: int)
    requires
        0 <= k < ids.len(),
        ids.no_duplicates(),
    ensures
        !visited(ids, k, ids[k]),
{
}

proof fn lemma_visited_all(ids: Seq<u64>, id: u64)
    ensures
        visited(ids, ids.len() as int, id) <==> ids.contains(id),
{
    if ids.contains(id) {
        let j = choose|j: int| 0 <= j < ids.len() && ids[j] == id;
        assert(0 <= j < ids.len() && j < ids.len() && ids[j] == id);
    }
}

/// A job that has finished: the id of its chunk and the grid it was for.
#[derive(Clone, Copy, Debug, PartialEq, Eq, Structural)]
pub struct FinishedJob {
    pub id: u64,
    pub kind: GenerateChunkMeshTaskType,
}

/// Whether the job of chunk `id` may be started: the chunk is loaded and
/// queued.
pub open spec fn generation_starts(chunks: Map<u64, FarChunkData>, id: u64) -> bool {
    chunks.contains_key(id) && chunks[id].state == ChunkState::Queued
}

/// The loaded chunks after the job of chunk `id` was taken up.
pub open spec fn chunks_after_start(chunks: Map<u64, FarChunkData>, id: u64) -> Map<
    u64,
    FarChunkData,
> {
    if generation_starts(chunks, id) {
        chunks.insert(id, FarChunkData { state: ChunkState::Generating, ..chunks[id] })
    } else {
        chunks
    }
}

/// Whether the mesh of a finished job is published: a far-grid mesh if its
/// chunk is loaded and being generated, a near-grid mesh if its chunk is
/// loaded.
pub open spec fn job_publishes(
    chunks: Map<u64, FarChunkData>,
    id: u64,
    kind: GenerateChunkMeshTaskType,
) -> bool {
    chunks.contains_key(id) && (kind == GenerateChunkMeshTaskType::FarGrid ==> chunks[id].state
        == ChunkState::Generating)
}

/// The loaded chunks after a job has finished. A published far-grid mesh
/// makes its chunk ready; a published near-grid mesh is counted and ends the
/// chunk's near-grid generation. A discarded mesh changes nothing.
pub open spec fn chunks_after_job(
    chunks: Map<u64, FarChunkData>,
    id: u64,
    kind: GenerateChunkMeshTaskType,
) -> Map<u64, FarChunkData> {
    if !job_publishes(chunks, id, kind) {
        chunks
    } else if kind == GenerateChunkMeshTaskType::FarGrid {
        chunks.insert(id, FarChunkData { state: ChunkState::Ready, ..chunks[id] })
    } else {
        chunks.insert(
            id,
            FarChunkData {
                near_meshes: if chunks[id].near_meshes < u32::MAX {
                    (chunks[id].near_meshes + 1) as u32
                } else {
                    u32::MAX
                },
                generating_near_chunks: false,
                ..chunks[id]
            },
        )
    }
}

/// The loaded chunks after a sequence of jobs has finished, one after the
/// other.
pub open spec fn chunks_after_jobs(chunks: Map<u64, FarChunkData>, finished: Seq<FinishedJob>) -> Map<
    u64,
    FarChunkData,
>
    decreases finished.len(),
{
    if finished.len() == 0 {
        chunks
    } else {
        chunks_after_job(
            chunks_after_jobs(chunks, finished.drop_last()),
            finished.last().id,
            finished.last().kind,
        )
    }
}

/// Whether a chunk is the one to be flagged for near-grid generation: it lies
/// at the origin, has no near-grid meshes, is not flagged and has no near-grid
/// jobs in flight.
pub open spec fn wants_origin_flag(data: FarChunkData) -> bool {
    &&& data.pos == (ChunkCoord { x: 0, z: 0 })
    &&& data.near_meshes == 0
    &&& !data.flagged
    &&& !data.generating_near_chunks
}

/// The loaded chunks after the origin chunk was flagged for near-grid
/// generation.
pub open spec fn chunks_with_origin_flagged(chunks: Map<u64, FarChunkData>) -> Map<
    u64,
    FarChunkData,
> {
    chunks.map_values(
        |data: FarChunkData|
            if wants_origin_flag(data) {
                FarChunkData { flagged: true, ..data }
            } else {
                data
            },
    )
}

/// Replacing the data of a loaded chunk by data at the same grid coordinate
/// keeps the terrain's invariant.
proof fn lemma_update_keeps_wf(before: Terrain, after: Terrain, id: u64)
    requires
        before.wf(),
        before.chunks().contains_key(id),
        after.settings() == before.settings(),
        after.next_id() == before.next_id(),
        after.chunks().dom() =~= before.chunks().dom(),
        after.chunks()[id].pos == before.chunks()[id].pos,
        forall|other: u64|
            other != id && before.chunks().contains_key(other) ==> after.chunks()[other]
                == before.chunks()[other],
    ensures
        after.wf(),
{
    assert forall|a: u64| after.chunks().contains_key(a) implies a < after.next_id() by {
        assert(before.chunks().dom().contains(a));
    }
    assert forall|a: u64, b: u64|
        after.chunks().contains_key(a) && after.chunks().contains_key(b) && after.chunks()[a].pos
            == after.chunks()[b].pos implies a == b by {
        assert(before.chunks().dom().contains(a));
        assert(before.chunks().dom().contains(b));
        assert(after.chunks()[a].pos == before.chunks()[a].pos);
        assert(after.chunks()[b].pos == before.chunks()[b].pos);
    }
}

/// A chunk after its near grid is asked for, if it was flagged for that.
pub open spec fn near_grid_started(data: FarChunkData) -> FarChunkData {
    if data.flagged {
        FarChunkData { flagged: false, generating_near_chunks: true, ..data }
    } else {
        data
    }
}

/// The loaded chunks after the near grid of every flagged chunk is asked
/// for.
pub open spec fn chunks_with_near_grid_started(chunks: Map<u64, FarChunkData>) -> Map<
    u64,
    FarChunkData,
> {
    chunks.map_values(|data: FarChunkData| near_grid_started(data))
}

/// Edge length of a near-grid chunk, in metres.
pub open spec fn near_size(chunk_size: u32) -> int {
    chunk_size as int / NEAR_CHUNKS_PER_EDGE as int
}

/// The job that makes the near-grid mesh in column `column` and row `row` of
/// the far-grid chunk `pos`, which is loaded under `id`.
pub open spec fn near_job(id: u64, pos: ChunkCoord, column: int, row: int, chunk_size: u32) -> ChunkJob {
    let size_mm = chunk_size_mm(chunk_size);
    ChunkJob {
        id,
        kind: GenerateChunkMeshTaskType::NearGrid,
        chunk: pos,
        world_position: Point2 {
            x: saturate(chunk_origin(pos.x as int, size_mm) + column * near_size(chunk_size) * MM_PER_M) as i64,
            z: saturate(chunk_origin(pos.z as int, size_mm) + row * near_size(chunk_size) * MM_PER_M) as i64,
        },
        mesh_size: (near_size(chunk_size) + 1) as u32,
        vertex_subdivision: NEAR_GRID_VERTEX_SUBDIVISION,
    }
}

/// Whether the `m`-th job is the near-grid job that its place among the jobs
/// of its chunk asks for, and its chunk was flagged.
pub open spec fn is_near_job(
    chunks: Map<u64, FarChunkData>,
    chunk_size: u32,
    jobs: Seq<ChunkJob>,
    m: int,
) -> bool {
    let id = jobs[m].id;
    &&& chunks.contains_key(id)
    &&& chunks[id].flagged
    &&& jobs[m] == near_job(id, chunks[id].pos, (m % 100) / 10, m % 10, chunk_size)
}

/// Whether the jobs of chunk `id` stand among `jobs`.
pub open spec fn has_near_jobs(jobs: Seq<ChunkJob>, id: u64) -> bool {
    exists|m: int| 0 <= m < jobs.len() && m % 100 == 0 && jobs[m].id == id
}

/// Whether `jobs` are the near-grid jobs of the flagged chunks: a hundred for
/// each of them, standing together and in the order of columns and rows, and
/// none for any other chunk.
pub open spec fn near_jobs_of(chunks: Map<u64, FarChunkData>, chunk_size: u32, jobs: Seq<ChunkJob>) -> bool {
    &&& jobs.len() % 100 == 0
    &&& forall|m: int| 0 <= m < jobs.len() ==> is_near_job(chunks, chunk_size, jobs, m)
    &&& forall|m: int, n: int|
        0 <= m < jobs.len() && 0 <= n < jobs.len() && (#[trigger] jobs[m]).id == (
        #[trigger] jobs[n]).id ==> m / 100 == n / 100
    &&& forall|id: u64| chunks.contains_key(id) && chunks[id].flagged ==> has_near_jobs(jobs, id)
}

/// Replacing the data of loaded chunks by data at the same grid coordinates
/// keeps the terrain's invariant.
proof fn lemma_update_all_keeps_wf(before: Terrain, after: Terrain)
    requires
        before.wf(),
        after.settings() == before.settings(),
        after.next_id() == before.next_id(),
        after.chunks().dom() =~= before.chunks().dom(),
        forall|id: u64|
            before.chunks().contains_key(id) ==> (#[trigger] after.chunks()[id]).pos
                == before.chunks()[id].pos,
    ensures
        after.wf(),
{
    assert forall|a: u64| after.chunks().contains_key(a) implies a < after.next_id() by {
        assert(before.chunks().dom().contains(a));
    }
    assert forall|a: u64, b: u64|
        after.chunks().contains_key(a) && after.chunks().contains_key(b) && after.chunks()[a].pos
            == after.chunks()[b].pos implies a == b by {
        assert(before.chunks().dom().contains(a));
        assert(before.chunks().dom().contains(b));
    }
}

/// What holds of the `i`-th job while the first `done` places of the window
/// have been scanned.
pub open spec fn job_at_place(
    before: Terrain,
    now: Terrain,
    center: ChunkCoord,
    jobs: Seq<ChunkJob>,
    i: int,
    done: int,
) -> bool {
    let radius = before.settings().load_radius;
    &&& jobs[i] == far_job((before.next_id() + i) as u64, jobs[i].chunk, before.settings().chunk_size)
    &&& before.next_id() + i < now.next_id()
    &&& in_load_window(center, radius, jobs[i].chunk)
    &&& scan_rank(center, radius, jobs[i].chunk) < done
    &&& !before.is_tracked(jobs[i].chunk)
    &&& now.chunks().contains_key(jobs[i].id)
    &&& now.chunks()[jobs[i].id] == queued_chunk(jobs[i].chunk)
}

/// The state of a scan of the load window of which the first `done` places
/// are behind: `jobs` holds one job for each of them that was not loaded, in
/// scan order, and `now` is `before` with those chunks added.
pub open spec fn scan_progress(
    before: Terrain,
    now: Terrain,
    center: ChunkCoord,
    jobs: Seq<ChunkJob>,
    done: int,
) -> bool {
    let radius = before.settings().load_radius;
    &&& now.settings() == before.settings()
    &&& now.next_id() == before.next_id() + jobs.len()
    &&& jobs.len() <= done
    &&& forall|id: u64|
        now.chunks().contains_key(id) <==> before.chunks().contains_key(id) || before.next_id()
            <= id < now.next_id()
    &&& forall|id: u64|
        before.chunks().contains_key(id) ==> now.chunks()[id] == before.chunks()[id]
    &&& forall|i: int| 0 <= i < jobs.len() ==> job_at_place(before, now, center, jobs, i, done)
    &&& forall|i: int, j: int|
        0 <= i < j < jobs.len() ==> scan_rank(center, radius, jobs[i].chunk) < scan_rank(
            center,
            radius,
            jobs[j].chunk,
        )
    &&& forall|w: ChunkCoord|
        in_load_window(center, radius, w) && scan_rank(center, radius, w) < done
            && !before.is_tracked(w) ==> exists|i: int| 0 <= i < jobs.len() && jobs[i].chunk == w
}

/// How `generate_far_terrain` changes a terrain: `jobs` holds one far-grid job
/// for each chunk of the load window around `center` that `before` had not
/// loaded, in scan order and with consecutive ids, and `after` is `before`
/// with those chunks added in state `Queued`.
pub open spec fn generated_from(
    before: Terrain,
    after: Terrain,
    center: ChunkCoord,
    jobs: Seq<ChunkJob>,
) -> bool {
    scan_progress(before, after, center, jobs, before.window_area())
}

proof fn lemma_edge_product_bounds(edge: int, size_mm: int)
    requires
        -10_000_000_000_000_000_000 <= edge <= 10_000_000_000_000_000_000,
        1000 <= size_mm <= 1_000_000_000,
    ensures
        -10_000_000_000_000_000_000_000_000_000 <= edge * size_mm
            <= 10_000_000_000_000_000_000_000_000_000,
{
    assert(-10_000_000_000_000_000_000_000_000_000 <= edge * size_mm
        <= 10_000_000_000_000_000_000_000_000_000) by (nonlinear_arith)
        requires
            -10_000_000_000_000_000_000 <= edge <= 10_000_000_000_000_000_000,
            1000 <= size_mm <= 1_000_000_000,
    ;
}

proof fn lemma_rank_bounds(dx: int, dz: int, radius: int)
    requires
        0 <= dx <= 2 * radius,
        0 <= dz <= 2 * radius,
        0 <= radius,
    ensures
        0 <= dx * (2 * radius) + dz,
        dx < 2 * radius && dz < 2 * radius ==> dx * (2 * radius) + dz < (2 * radius) * (2 * radius),
        0 <= (2 * radius) * (2 * radius),
{
    assert(0 <= dx * (2 * radius)) by (nonlinear_arith)
        requires
            0 <= dx,
            0 <= radius,
    ;
    assert(0 <= (2 * radius) * (2 * radius)) by (nonlinear_arith)
        requires
            0 <= radius,
    ;
    if dx < 2 * radius && dz < 2 * radius {
        assert(dx * (2 * radius) + dz < (2 * radius) * (2 * radius)) by (nonlinear_arith)
            requires
                0 <= dx,
                dx + 1 <= 2 * radius,
                dz < 2 * radius,
                0 <= radius,
        ;
    }
}

/// Two chunks of the load window with the same place in the scan are the same
/// chunk.
pub proof fn lemma_rank_injective(center: ChunkCoord, radius: u32, a: ChunkCoord, b: ChunkCoord)
    requires
        in_load_window(center, radius, a),
        in_load_window(center, radius, b),
        scan_rank(center, radius, a) == scan_rank(center, radius, b),
    ensures
        a == b,
{
    let w = 2 * radius as int;
    let ax = a.x - (center.x - radius);
    let bx = b.x - (center.x - radius);
    let az = a.z - (center.z - radius);
    let bz = b.z - (center.z - radius);
    assert(ax == bx) by (nonlinear_arith)
        requires
            ax * w + az == bx * w + bz,
            0 <= az < w,
            0 <= bz < w,
    ;
    assert(az == bz) by (nonlinear_arith)
        requires
            ax * w + az == bx * w + bz,
            ax == bx,
    ;
}

proof fn lemma_scan_complete(before: Terrain, now: Terrain, center: ChunkCoord, jobs: Seq<ChunkJob>)
    requires
        before.wf(),
        before.next_id() + before.window_area() <= u64::MAX,
        scan_progress(
            before,
            now,
            center,
            jobs,
            (2 * before.settings().load_radius) * (2 * before.settings().load_radius),
        ),
    ensures
        generated_from(before, now, center, jobs),
        now.wf(),
{
    let radius = before.settings().load_radius;
    assert forall|a: u64, b: u64|
        now.chunks().contains_key(a) && now.chunks().contains_key(b) && now.chunks()[a].pos
            == now.chunks()[b].pos implies a == b by {
        let a_old = before.chunks().contains_key(a);
        let b_old = before.chunks().contains_key(b);
        if a_old && b_old {
        } else if !a_old && !b_old {
            let i = a - before.next_id();
            let j = b - before.next_id();
            assert(job_at_place(before, now, center, jobs, i, before.window_area()));
            assert(job_at_place(before, now, center, jobs, j, before.window_area()));
            if i < j {
                assert(scan_rank(center, radius, jobs[i].chunk) < scan_rank(
                    center,
                    radius,
                    jobs[j].chunk,
                ));
            } else if j < i {
                assert(scan_rank(center, radius, jobs[j].chunk) < scan_rank(
                    center,
                    radius,
                    jobs[i].chunk,
                ));
            }
        } else if a_old {
            let j = b - before.next_id();
            assert(job_at_place(before, now, center, jobs, j, before.window_area()));
            assert(before.is_tracked(jobs[j].chunk));
        } else {
            let i = a - before.next_id();
            assert(job_at_place(before, now, center, jobs, i, before.window_area()));
            assert(before.is_tracked(jobs[i].chunk));
        }
    }
}

impl Default for Terrain {
    /// A terrain without chunks, with far-grid chunks of 1000 m and a load
    /// radius of 5 chunks.
    fn default() -> (t: Terrain)
        ensures
            t.wf(),
            t.next_id() == 0,
            t.settings().chunk_size == FAR_GRID_CHUNK_SIZE,
            t.settings().load_radius == FAR_GRID_RENDER_DISTANCE,
            t.chunks() == Map::<u64, FarChunkData>::empty(),
    {
        let settings = TerrainSettings {
            chunk_size: FAR_GRID_CHUNK_SIZE,
            load_radius: FAR_GRID_RENDER_DISTANCE,
        };
        let t = Terrain { id_counter: 0, loaded_chunks: ChunkTable::new(), settings };
        assert(t.chunks() =~= Map::<u64, FarChunkData>::empty());
        t
    }
}

/// Once the chunks outside the load window are dropped and the window's
/// missing chunks are asked for, the loaded chunks are exactly those of the
/// window: none is missing and none lies outside.
pub proof fn lemma_window_is_loaded(
    before: Terrain,
    swept: Terrain,
    filled: Terrain,
    center: ChunkCoord,
    evicted: Seq<u64>,
    jobs: Seq<ChunkJob>,
)
    requires
        before.wf(),
        evicted_from(before, swept, center, evicted),
        generated_from(swept, filled, center, jobs),
    ensures
        forall|c: ChunkCoord|
            filled.is_tracked(c) <==> in_load_window(center, filled.settings().load_radius, c),
{
    let radius = before.settings().load_radius;
    let area = swept.window_area();
    assert forall|c: ChunkCoord| filled.is_tracked(c) implies in_load_window(
        center,
        radius,
        c,
    ) by {
        let id = choose|id: u64| filled.chunks().contains_key(id) && filled.chunks()[id].pos == c;
        if swept.chunks().contains_key(id) {
            assert(filled.chunks()[id] == swept.chunks()[id]);
            assert(swept.chunks()[id] == before.chunks()[id]);
        } else {
            let i = id - swept.next_id();
            assert(job_at_place(swept, filled, center, jobs, i, area));
        }
    }
    assert forall|c: ChunkCoord| in_load_window(center, radius, c) implies filled.is_tracked(
        c,
    ) by {
        if swept.is_tracked(c) {
            let id = choose|id: u64| swept.chunks().contains_key(id) && swept.chunks()[id].pos == c;
            assert(filled.chunks().contains_key(id) && filled.chunks()[id].pos == c);
        } else {
            lemma_rank_in_window(center, radius, c);
            let i = choose|i: int| 0 <= i < jobs.len() && jobs[i].chunk == c;
            assert(job_at_place(swept, filled, center, jobs, i, area));
            assert(filled.chunks().contains_key(jobs[i].id) && filled.chunks()[jobs[i].id].pos
                == c);
        }
    }
}

/// Chunk coverage: when the loaded chunks are those of the load window and
/// each of them is ready, the ready chunks are exactly the chunks of the
/// window, and each of them is loaded under one id only.
pub proof fn lemma_chunk_coverage(terrain: Terrain, center: ChunkCoord)
    requires
        terrain.wf(),
        forall|c: ChunkCoord|
            terrain.is_tracked(c) <==> in_load_window(center, terrain.settings().load_radius, c),
        forall|id: u64|
            terrain.chunks().contains_key(id) ==> terrain.chunks()[id].state == ChunkState::Ready,
    ensures
        forall|c: ChunkCoord|
            terrain.is_ready(c) <==> in_load_window(center, terrain.settings().load_radius, c),
        forall|a: u64, b: u64|
            terrain.chunks().contains_key(a) && terrain.chunks().contains_key(b)
                && terrain.chunks()[a].pos == terrain.chunks()[b].pos ==> a == b,
{
    assert forall|c: ChunkCoord| terrain.is_ready(c) <==> terrain.is_tracked(c) by {
        if terrain.is_tracked(c) {
            let id = choose|id: u64|
                terrain.chunks().contains_key(id) && terrain.chunks()[id].pos == c;
            assert(terrain.chunks().contains_key(id) && terrain.chunks()[id].pos == c
                && terrain.chunks()[id].state == ChunkState::Ready);
        }
    }
}

/// A chunk of the load window has its place among the window's
/// `(2 * radius) * (2 * radius)` places.
pub proof fn lemma_rank_in_window(center: ChunkCoord, radius: u32, c: ChunkCoord)
    requires
        in_load_window(center, radius, c),
    ensures
        0 <= scan_rank(center, radius, c) < (2 * radius) * (2 * radius),
{
    lemma_rank_bounds(c.x - (center.x - radius), c.z - (center.z - radius), radius as int);
}

} // verus!
