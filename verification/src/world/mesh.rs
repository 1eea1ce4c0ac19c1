//! Meshes of terrain chunks: a grid of vertices over the height field, two
//! triangles per grid cell, and the sums of face normals from which smooth
//! vertex normals are made.
//!
//! The height field is read elsewhere. A mesh is therefore made in two
//! parts: the places to be read are named first, and given the elevations
//! found there the vertices and indices are made.

use crate::units::{add_saturating, saturate, Point2, Point3, MM_PER_M};
use vstd::arithmetic::div_mod::lemma_fundamental_div_mod_converse;
use vstd::prelude::*;

verus! {

/// Largest number of triangles that `calculate_normals` takes.
pub const MAX_TRIANGLES: u64 = 0x1_0000_0000;

/// Number of vertices along an edge that spans `extent` metres, with
/// `vertex_subdivision` metres between neighbours.
pub open spec fn vertex_count(extent: u32, vertex_subdivision: u32) -> int {
    extent as int / vertex_subdivision as int + 2
}

/// Whether a mesh can be made: the vertices are a positive distance apart
/// and few enough to be numbered in 32 bits.
pub open spec fn grid_fits(mesh_width: u32, mesh_height: u32, vertex_subdivision: u32) -> bool {
    &&& vertex_subdivision >= 1
    &&& vertex_count(mesh_width, vertex_subdivision) * vertex_count(
        mesh_height,
        vertex_subdivision,
    ) <= u32::MAX
}

/// Where the `i`-th vertex stands within its mesh, in millimetres: column
/// `i % count_x`, row `i / count_x`.
pub open spec fn grid_place(i: int, count_x: int, vertex_subdivision: u32) -> Point2 {
    Point2 {
        x: ((i % count_x) * vertex_subdivision * MM_PER_M) as i64,
        z: ((i / count_x) * vertex_subdivision * MM_PER_M) as i64,
    }
}

/// Where in the world the height field is read for the `i`-th vertex of a
/// mesh whose first vertex stands at `offset`.
pub open spec fn sample_point(i: int, count_x: int, vertex_subdivision: u32, offset: Point2) -> Point2 {
    let place = grid_place(i, count_x, vertex_subdivision);
    Point2 { x: saturate(place.x + offset.x) as i64, z: saturate(place.z + offset.z) as i64 }
}

/// The `i`-th vertex, at the elevation read for it.
pub open spec fn grid_vertex(i: int, count_x: int, vertex_subdivision: u32, elevations: Seq<i64>) -> Point3 {
    let place = grid_place(i, count_x, vertex_subdivision);
    Point3 { x: place.x, y: elevations[i], z: place.z }
}

/// The `corner`-th index of the `cell`-th grid cell. A cell with the vertex
/// `v` at its first corner makes the triangles `(v, v + count_x + 1,
/// v + count_x)` and `(v + count_x + 1, v, v + 1)`.
pub open spec fn cell_index(cell: int, corner: int, count_x: int) -> int {
    let first = (cell / (count_x - 1)) * count_x + cell % (count_x - 1);
    if corner == 0 || corner == 4 {
        first
    } else if corner == 1 || corner == 3 {
        first + count_x + 1
    } else if corner == 2 {
        first + count_x
    } else {
        first + 1
    }
}

/// The vertices of a mesh in the order in which they are made: row by row.
pub open spec fn forward_vertices(
    count_x: int,
    count_z: int,
    vertex_subdivision: u32,
    elevations: Seq<i64>,
) -> Seq<Point3> {
    Seq::new(
        (count_x * count_z) as nat,
        |i: int| grid_vertex(i, count_x, vertex_subdivision, elevations),
    )
}

/// The indices of a mesh in the order in which they are made: six for each
/// grid cell, the cells row by row.
pub open spec fn forward_indices(count_x: int, count_z: int) -> Seq<u32> {
    Seq::new(
        (6 * ((count_x - 1) * (count_z - 1))) as nat,
        |m: int| cell_index(m / 6, m % 6, count_x) as u32,
    )
}

/// Vertices and indices of a mesh.
pub struct MeshData {
    pub vertices: Vec<Point3>,
    pub indices: Vec<u32>,
}

/// A copy of `items` in reverse order.
fn reversed_points(items: &Vec<Point3>) -> (r: Vec<Point3>)
    ensures
        r@ == items@.reverse(),
{
    let mut r: Vec<Point3> = Vec::new();
    let n = items.len();
    let mut i: usize = 0;
    while i < n
        invariant
            i <= n,
            n == items.len(),
            r.len() == i,
            forall|j: int| 0 <= j < i ==> r[j] == items[n - 1 - j],
        decreases n - i,
    {
        r.push(items[n - 1 - i]);
        i += 1;
    }
    assert(r@ =~= items@.reverse());
    r
}

/// A copy of `items` in reverse order.
fn reversed_indices(items: &Vec<u32>) -> (r: Vec<u32>)
    ensures
        r@ == items@.reverse(),
{
    let mut r: Vec<u32> = Vec::new();
    let n = items.len();
    let mut i: usize = 0;
    while i < n
        invariant
            i <= n,
            n == items.len(),
            r.len() == i,
            forall|j: int| 0 <= j < i ==> r[j] == items[n - 1 - j],
        decreases n - i,
    {
        r.push(items[n - 1 - i]);
        i += 1;
    }
    assert(r@ =~= items@.reverse());
    r
}

/// Number of vertices along the two edges of a mesh, if the mesh can be made.
pub fn grid_counts(mesh_width: u32, mesh_height: u32, vertex_subdivision: u32) -> (counts: Option<
    (u32, u32),
>)
    ensures
        counts.is_some() == grid_fits(mesh_width, mesh_height, vertex_subdivision),
        counts matches Some(c) ==> c.0 == vertex_count(mesh_width, vertex_subdivision) && c.1
            == vertex_count(mesh_height, vertex_subdivision) && c.0 >= 2 && c.1 >= 2,
{
    if vertex_subdivision == 0 {
        return None;
    }
    let count_x: u64 = (mesh_width / vertex_subdivision) as u64 + 2;
    let count_z: u64 = (mesh_height / vertex_subdivision) as u64 + 2;
    assert(count_x * count_z <= 0x1_0000_0001 * 0x1_0000_0001) by (nonlinear_arith)
        requires
            0 <= count_x <= 0x1_0000_0001,
            0 <= count_z <= 0x1_0000_0001,
    ;
    let total: u128 = (count_x as u128) * (count_z as u128);
    if total > (u32::MAX as u128) {
        return None;
    }
    assert(count_x <= u32::MAX && count_z <= u32::MAX) by (nonlinear_arith)
        requires
            count_x * count_z <= u32::MAX,
            count_x >= 2,
            count_z >= 2,
    ;
    Some((count_x as u32, count_z as u32))
}

/// Place of a grid line within a mesh, in millimetres.
fn grid_line(line: u32, vertex_subdivision: u32) -> (r: i64)
    requires
        line * vertex_subdivision <= 0x2_0000_0000,
    ensures
        r == line * vertex_subdivision * MM_PER_M,
        0 <= r,
{
    assert(0 <= line * vertex_subdivision) by (nonlinear_arith)
        requires
            0 <= line,
            0 <= vertex_subdivision,
    ;
    let units: u64 = (line as u64) * (vertex_subdivision as u64);
    assert(MM_PER_M == 1000);
    (units * 1000) as i64
}

/// A grid line lies within the mesh's extent, or one cell beyond it.
proof fn lemma_line_in_extent(line: int, extent: u32, vertex_subdivision: u32)
    requires
        1 <= vertex_subdivision,
        0 <= line < vertex_count(extent, vertex_subdivision),
    ensures
        line * vertex_subdivision <= 0x2_0000_0000,
{
    let cells = extent as int / vertex_subdivision as int;
    assert(cells * vertex_subdivision <= extent) by (nonlinear_arith)
        requires
            cells == extent as int / vertex_subdivision as int,
            1 <= vertex_subdivision,
            0 <= extent,
    ;
    assert(line * vertex_subdivision <= (cells + 1) * vertex_subdivision) by (nonlinear_arith)
        requires
            0 <= line <= cells + 1,
            1 <= vertex_subdivision,
    ;
    assert((cells + 1) * vertex_subdivision == cells * vertex_subdivision + vertex_subdivision)
        by (nonlinear_arith);
}

/// Row and column of the vertex with a given number.
proof fn lemma_row_column(x: int, z: int, count_x: int)
    requires
        0 <= x < count_x,
        0 <= z,
    ensures
        (z * count_x + x) % count_x == x,
        (z * count_x + x) / count_x == z,
{
    lemma_fundamental_div_mod_converse(z * count_x + x, count_x, z, x);
}

/// The places in the world at which the height field is to be read for a
/// mesh, one for each vertex, row by row. `offset` is the world position of
/// the mesh's first vertex. `None` if the mesh cannot be made.
pub fn mesh_sample_points(
    mesh_width: u32,
    mesh_height: u32,
    vertex_subdivision: u32,
    offset: Point2,
) -> (points: Option<Vec<Point2>>)
    ensures
        points.is_some() == grid_fits(mesh_width, mesh_height, vertex_subdivision),
        points matches Some(p) ==> {
            &&& p.len() == vertex_count(mesh_width, vertex_subdivision) * vertex_count(
                mesh_height,
                vertex_subdivision,
            )
            &&& forall|i: int|
                0 <= i < p.len() ==> #[trigger] p[i] == sample_point(
                    i,
                    vertex_count(mesh_width, vertex_subdivision),
                    vertex_subdivision,
                    offset,
                )
        },
{
    let (count_x, count_z) = match grid_counts(mesh_width, mesh_height, vertex_subdivision) {
        Some(c) => c,
        None => {
            return None;
        },
    };
    let mut points: Vec<Point2> = Vec::new();
    let mut z: u32 = 0;
    while z < count_z
        invariant
            z <= count_z,
            count_x >= 2,
            vertex_subdivision >= 1,
            count_x == vertex_count(mesh_width, vertex_subdivision),
            count_z == vertex_count(mesh_height, vertex_subdivision),
            count_x * count_z <= u32::MAX,
            points.len() == z * count_x,
            forall|i: int|
                0 <= i < points.len() ==> #[trigger] points[i] == sample_point(
                    i,
                    count_x as int,
                    vertex_subdivision,
                    offset,
                ),
        decreases count_z - z,
    {
        proof {
            lemma_line_in_extent(z as int, mesh_height, vertex_subdivision);
        }
        let place_z = grid_line(z, vertex_subdivision);
        let mut x: u32 = 0;
        while x < count_x
            invariant
                x <= count_x,
                z < count_z,
                count_x >= 2,
                vertex_subdivision >= 1,
                count_x == vertex_count(mesh_width, vertex_subdivision),
                count_z == vertex_count(mesh_height, vertex_subdivision),
                count_x * count_z <= u32::MAX,
                place_z == z * vertex_subdivision * MM_PER_M,
                points.len() == z * count_x + x,
                forall|i: int|
                    0 <= i < points.len() ==> #[trigger] points[i] == sample_point(
                        i,
                        count_x as int,
                        vertex_subdivision,
                        offset,
                    ),
            decreases count_x - x,
        {
            proof {
                lemma_line_in_extent(x as int, mesh_width, vertex_subdivision);
            }
            let place_x = grid_line(x, vertex_subdivision);
            proof {
                lemma_row_column(x as int, z as int, count_x as int);
            }
            points.push(
                Point2 { x: add_saturating(place_x, offset.x), z: add_saturating(place_z, offset.z) },
            );
            x += 1;
        }
        proof {
            assert(z * count_x + count_x == (z + 1) * count_x) by (nonlinear_arith);
        }
        z += 1;
    }
    proof {
        assert(count_z * count_x == count_x * count_z) by (nonlinear_arith);
    }
    Some(points)
}

/// The mesh of a chunk: one vertex for each elevation, row by row, and two
/// triangles for each grid cell, both lists turned around at the end so that
/// the triangles wind counterclockwise. `elevations` holds the elevation
/// read at each sample point, in their order.
///
/// `None` if the mesh cannot be made or the number of elevations is not the
/// number of vertices.
pub fn mesh_data_from_noise(
    mesh_width: u32,
    mesh_height: u32,
    vertex_subdivision: u32,
    elevations: &Vec<i64>,
) -> (mesh: Option<MeshData>)
    ensures
        mesh.is_some() == (grid_fits(mesh_width, mesh_height, vertex_subdivision)
            && elevations.len() == vertex_count(mesh_width, vertex_subdivision) * vertex_count(
            mesh_height,
            vertex_subdivision,
        )),
        mesh matches Some(m) ==> {
            &&& m.vertices@ == forward_vertices(
                vertex_count(mesh_width, vertex_subdivision),
                vertex_count(mesh_height, vertex_subdivision),
                vertex_subdivision,
                elevations@,
            ).reverse()
            &&& m.indices@ == forward_indices(
                vertex_count(mesh_width, vertex_subdivision),
                vertex_count(mesh_height, vertex_subdivision),
            ).reverse()
        },
{
    let (count_x, count_z) = match grid_counts(mesh_width, mesh_height, vertex_subdivision) {
        Some(c) => c,
        None => {
            return None;
        },
    };
    assert(count_x * count_z <= u32::MAX);
    let total: u64 = (count_x as u64) * (count_z as u64);
    if (elevations.len() as u64) != total {
        return None;
    }
    let mut vertices: Vec<Point3> = Vec::new();
    let mut z: u32 = 0;
    while z < count_z
        invariant
            z <= count_z,
            count_x >= 2,
            vertex_subdivision >= 1,
            count_x == vertex_count(mesh_width, vertex_subdivision),
            count_z == vertex_count(mesh_height, vertex_subdivision),
            count_x * count_z <= u32::MAX,
            elevations.len() == count_x * count_z,
            vertices.len() == z * count_x,
            forall|i: int|
                0 <= i < vertices.len() ==> #[trigger] vertices[i] == grid_vertex(
                    i,
                    count_x as int,
                    vertex_subdivision,
                    elevations@,
                ),
        decreases count_z - z,
    {
        proof {
            lemma_line_in_extent(z as int, mesh_height, vertex_subdivision);
        }
        let place_z = grid_line(z, vertex_subdivision);
        let mut x: u32 = 0;
        while x < count_x
            invariant
                x <= count_x,
                z < count_z,
                count_x >= 2,
                vertex_subdivision >= 1,
                count_x == vertex_count(mesh_width, vertex_subdivision),
                count_z == vertex_count(mesh_height, vertex_subdivision),
                count_x * count_z <= u32::MAX,
                elevations.len() == count_x * count_z,
                place_z == z * vertex_subdivision * MM_PER_M,
                vertices.len() == z * count_x + x,
                forall|i: int|
                    0 <= i < vertices.len() ==> #[trigger] vertices[i] == grid_vertex(
                        i,
                        count_x as int,
                        vertex_subdivision,
                        elevations@,
                    ),
            decreases count_x - x,
        {
            proof {
                lemma_line_in_extent(x as int, mesh_width, vertex_subdivision);
            }
            let place_x = grid_line(x, vertex_subdivision);
            proof {
                lemma_row_column(x as int, z as int, count_x as int);
                assert(z * count_x + x < count_x * count_z) by (nonlinear_arith)
                    requires
                        0 <= x < count_x,
                        0 <= z < count_z,
                ;
            }
            let vertex_elevation: i64 = elevations[vertices.len()];
            vertices.push(Point3 { x: place_x, y: vertex_elevation, z: place_z });
            x += 1;
        }
        proof {
            assert(z * count_x + count_x == (z + 1) * count_x) by (nonlinear_arith);
        }
        z += 1;
    }
    proof {
        assert(count_z * count_x == count_x * count_z) by (nonlinear_arith);
    }
    let cells_x: u32 = count_x - 1;
    let mut indices: Vec<u32> = Vec::new();
    let mut z: u32 = 0;
    while z < count_z - 1
        invariant
            z <= count_z - 1,
            count_x >= 2,
            count_z >= 2,
            cells_x == count_x - 1,
            count_x * count_z <= u32::MAX,
            indices.len() == 6 * (z * cells_x),
            forall|m: int|
                0 <= m < indices.len() ==> #[trigger] indices[m] == cell_index(
                    m / 6,
                    m % 6,
                    count_x as int,
                ),
        decreases count_z - 1 - z,
    {
        let mut x: u32 = 0;
        while x < cells_x
            invariant
                x <= cells_x,
                z < count_z - 1,
                count_x >= 2,
                count_z >= 2,
                cells_x == count_x - 1,
                count_x * count_z <= u32::MAX,
                indices.len() == 6 * (z * cells_x + x),
                forall|m: int|
                    0 <= m < indices.len() ==> #[trigger] indices[m] == cell_index(
                        m / 6,
                        m % 6,
                        count_x as int,
                    ),
            decreases cells_x - x,
        {
            proof {
                assert((z + 1) * count_x + x + 1 < count_x * count_z) by (nonlinear_arith)
                    requires
                        0 <= x < count_x - 1,
                        0 <= z < count_z - 1,
                ;
                assert(0 <= z * count_x) by (nonlinear_arith)
                    requires
                        0 <= z,
                        0 <= count_x,
                ;
                assert((z + 1) * count_x == z * count_x + count_x) by (nonlinear_arith);
                lemma_row_column(x as int, z as int, cells_x as int);
            }
            let vertex_index: u32 = z * count_x + x;
            let ghost cell = z * cells_x + x;
            let ghost before = indices@;
            indices.push(vertex_index);
            indices.push(vertex_index + count_x + 1);
            indices.push(vertex_index + count_x);
            indices.push(vertex_index + count_x + 1);
            indices.push(vertex_index);
            indices.push(vertex_index + 1);
            proof {
                assert forall|m: int| 0 <= m < indices.len() implies #[trigger] indices[m]
                    == cell_index(m / 6, m % 6, count_x as int) by {
                    if m < before.len() {
                        assert(indices[m] == before[m]);
                    } else {
                        assert(m / 6 == cell);
                    }
                }
            }
            x += 1;
        }
        proof {
            assert(z * cells_x + cells_x == (z + 1) * cells_x) by (nonlinear_arith);
        }
        z += 1;
    }
    proof {
        assert(vertices@ =~= forward_vertices(
            count_x as int,
            count_z as int,
            vertex_subdivision,
            elevations@,
        ));
        assert((count_z - 1) * cells_x == (count_x - 1) * (count_z - 1)) by (nonlinear_arith)
            requires
                cells_x == count_x - 1,
        ;
        assert(indices@ =~= forward_indices(count_x as int, count_z as int));
    }
    // Flip the arrays (because of counterclockwise winding)
    Some(MeshData { vertices: reversed_points(&vertices), indices: reversed_indices(&indices) })
}

/// Mesh consistency: a mesh over a grid of `count_x` by `count_z` vertices
/// has that many vertices and two triangles for each of the grid's cells,
/// and each index names a vertex.
pub proof fn lemma_mesh_consistency(
    count_x: int,
    count_z: int,
    vertex_subdivision: u32,
    elevations: Seq<i64>,
)
    requires
        2 <= count_x,
        2 <= count_z,
        count_x * count_z <= u32::MAX,
    ensures
        forward_vertices(count_x, count_z, vertex_subdivision, elevations).reverse().len()
            == count_x * count_z,
        forward_indices(count_x, count_z).reverse().len() == 3 * (2 * ((count_x - 1) * (count_z
            - 1))),
        forall|m: int|
            0 <= m < forward_indices(count_x, count_z).len() ==> 0 <= #[trigger] forward_indices(
                count_x,
                count_z,
            ).reverse()[m] < count_x * count_z,
{
    let cells = (count_x - 1) * (count_z - 1);
    assert(0 <= cells) by (nonlinear_arith)
        requires
            cells == (count_x - 1) * (count_z - 1),
            2 <= count_x,
            2 <= count_z,
    ;
    assert(0 <= count_x * count_z) by (nonlinear_arith)
        requires
            2 <= count_x,
            2 <= count_z,
    ;
    let forward = forward_indices(count_x, count_z);
    assert forall|m: int| 0 <= m < forward.len() implies 0 <= #[trigger] forward.reverse()[m]
        < count_x * count_z by {
        let k = forward.len() - 1 - m;
        lemma_cell_index_bounds(k / 6, k % 6, count_x, count_z);
    }
}

/// Each index of a grid cell names a vertex of the grid.
proof fn lemma_cell_index_bounds(cell: int, corner: int, count_x: int, count_z: int)
    requires
        2 <= count_x,
        2 <= count_z,
        0 <= cell < (count_x - 1) * (count_z - 1),
        0 <= corner < 6,
    ensures
        0 <= cell_index(cell, corner, count_x) < count_x * count_z,
{
    let w = count_x - 1;
    let z = cell / w;
    let x = cell % w;
    assert(0 <= x < w);
    assert(0 <= z < count_z - 1) by (nonlinear_arith)
        requires
            z == cell / w,
            0 <= cell < w * (count_z - 1),
            1 <= w,
    ;
    assert(0 <= z * count_x && (z + 1) * count_x + x + 1 < count_x * count_z) by (nonlinear_arith)
        requires
            0 <= x < count_x - 1,
            0 <= z < count_z - 1,
    ;
    assert((z + 1) * count_x == z * count_x + count_x) by (nonlinear_arith);
}

/// A sum of face normals. Its direction is what matters: a vertex normal is
/// the sum brought to length one.
#[derive(Clone, Copy, Debug, PartialEq, Eq, Structural)]
pub struct NormalSum {
    pub x: i128,
    pub y: i128,
    pub z: i128,
}

/// The normal of the triangle `a`, `b`, `c`: the cross product of the edge
/// from `a` to `b` with the edge from `a` to `c`. Its length is twice the
/// triangle's area.
pub open spec fn face_normal(a: Point3, b: Point3, c: Point3) -> NormalSum {
    NormalSum {
        x: ((b.y - a.y) * (c.z - a.z) - (b.z - a.z) * (c.y - a.y)) as i128,
        y: ((b.z - a.z) * (c.x - a.x) - (b.x - a.x) * (c.z - a.z)) as i128,
        z: ((b.x - a.x) * (c.y - a.y) - (b.y - a.y) * (c.x - a.x)) as i128,
    }
}

/// `normals` with `normal` added at the vertex `vertex`.
pub open spec fn with_normal_added(normals: Seq<NormalSum>, vertex: int, normal: NormalSum) -> Seq<
    NormalSum,
> {
    normals.update(
        vertex,
        NormalSum {
            x: (normals[vertex].x + normal.x) as i128,
            y: (normals[vertex].y + normal.y) as i128,
            z: (normals[vertex].z + normal.z) as i128,
        },
    )
}

/// The sums of face normals at each vertex after the first `triangles`
/// triangles are taken in: each triangle adds its normal at each of its three
/// corners.
pub open spec fn normals_after(vertices: Seq<Point3>, indices: Seq<u32>, triangles: int) -> Seq<
    NormalSum,
>
    decreases triangles,
{
    if triangles <= 0 {
        Seq::new(vertices.len(), |i: int| NormalSum { x: 0, y: 0, z: 0 })
    } else {
        let a = indices[3 * triangles - 3] as int;
        let b = indices[3 * triangles - 2] as int;
        let c = indices[3 * triangles - 1] as int;
        let normal = face_normal(vertices[a], vertices[b], vertices[c]);
        with_normal_added(
            with_normal_added(
                with_normal_added(normals_after(vertices, indices, triangles - 1), a, normal),
                b,
                normal,
            ),
            c,
            normal,
        )
    }
}

/// Whether normals can be calculated: the indices come in threes, each names
/// a vertex, every vertex lies in the world, and there are no more than
/// `MAX_TRIANGLES` triangles.
pub open spec fn normals_defined(vertices: Seq<Point3>, indices: Seq<u32>) -> bool {
    &&& indices.len() % 3 == 0
    &&& indices.len() / 3 <= MAX_TRIANGLES
    &&& forall|i: int| 0 <= i < vertices.len() ==> (#[trigger] vertices[i]).in_world()
    &&& forall|m: int| 0 <= m < indices.len() ==> (#[trigger] indices[m]) < vertices.len()
}

/// Bound on each part of a face normal between points of the world.
pub open spec fn normal_within(normal: NormalSum, bound: int) -> bool {
    &&& -bound <= normal.x <= bound
    &&& -bound <= normal.y <= bound
    &&& -bound <= normal.z <= bound
}

/// The normal of a triangle.
fn face_normal_of(a: Point3, b: Point3, c: Point3) -> (normal: NormalSum)
    requires
        a.in_world(),
        b.in_world(),
        c.in_world(),
    ensures
        normal == face_normal(a, b, c),
        normal_within(normal, 8_000_000_000_000_000_000_000_000),
{
    let abx: i128 = (b.x - a.x) as i128;
    let aby: i128 = (b.y - a.y) as i128;
    let abz: i128 = (b.z - a.z) as i128;
    let acx: i128 = (c.x - a.x) as i128;
    let acy: i128 = (c.y - a.y) as i128;
    let acz: i128 = (c.z - a.z) as i128;
    proof {
        lemma_edge_product(aby as int, acz as int);
        lemma_edge_product(abz as int, acy as int);
        lemma_edge_product(abz as int, acx as int);
        lemma_edge_product(abx as int, acz as int);
        lemma_edge_product(abx as int, acy as int);
        lemma_edge_product(aby as int, acx as int);
    }
    NormalSum {
        x: aby * acz - abz * acy,
        y: abz * acx - abx * acz,
        z: abx * acy - aby * acx,
    }
}

proof fn lemma_edge_product(p: int, q: int)
    requires
        -2_000_000_000_000 <= p <= 2_000_000_000_000,
        -2_000_000_000_000 <= q <= 2_000_000_000_000,
    ensures
        -4_000_000_000_000_000_000_000_000 <= p * q <= 4_000_000_000_000_000_000_000_000,
{
    assert(-4_000_000_000_000_000_000_000_000 <= p * q <= 4_000_000_000_000_000_000_000_000)
        by (nonlinear_arith)
        requires
            -2_000_000_000_000 <= p <= 2_000_000_000_000,
            -2_000_000_000_000 <= q <= 2_000_000_000_000,
    ;
}

/// Adds a normal at a vertex.
fn add_normal(normals: &mut Vec<NormalSum>, vertex: usize, normal: NormalSum, Ghost(bound): Ghost<int>)
    requires
        vertex < old(normals).len(),
        normal_within(normal, 8_000_000_000_000_000_000_000_000),
        0 <= bound <= 110_000_000_000_000_000_000_000_000_000_000_000,
        forall|i: int| 0 <= i < old(normals).len() ==> normal_within(#[trigger] old(normals)[i], bound),
    ensures
        final(normals)@ == with_normal_added(old(normals)@, vertex as int, normal),
        forall|i: int|
            0 <= i < final(normals).len() ==> normal_within(
                #[trigger] final(normals)[i],
                bound + 8_000_000_000_000_000_000_000_000,
            ),
{
    let current = normals[vertex];
    assert(normal_within(current, bound));
    normals.set(
        vertex,
        NormalSum { x: current.x + normal.x, y: current.y + normal.y, z: current.z + normal.z },
    );
    proof {
        assert forall|i: int| 0 <= i < normals.len() implies normal_within(
            #[trigger] normals[i],
            bound + 8_000_000_000_000_000_000_000_000,
        ) by {
            if i != vertex {
                assert(normal_within(old(normals)[i], bound));
            }
        }
    }
}

/// Calculates the sums from which smooth shading normals are made: for each
/// vertex, the sum of the normals of the triangles that it is a corner of.
/// `None` unless the normals are defined.
pub fn calculate_normals(vertices: &Vec<Point3>, indices: &Vec<u32>) -> (normals: Option<
    Vec<NormalSum>,
>)
    ensures
        normals.is_some() == normals_defined(vertices@, indices@),
        normals matches Some(n) ==> n@ == normals_after(
            vertices@,
            indices@,
            indices.len() as int / 3,
        ),
{
    if indices.len() % 3 != 0 || (indices.len() / 3) as u64 > MAX_TRIANGLES {
        return None;
    }
    let mut i: usize = 0;
    while i < vertices.len()
        invariant
            i <= vertices.len(),
            forall|j: int| 0 <= j < i ==> (#[trigger] vertices[j]).in_world(),
        decreases vertices.len() - i,
    {
        if !vertices[i].is_in_world() {
            return None;
        }
        i += 1;
    }
    let mut m: usize = 0;
    while m < indices.len()
        invariant
            m <= indices.len(),
            forall|j: int| 0 <= j < m ==> (#[trigger] indices[j]) < vertices.len(),
        decreases indices.len() - m,
    {
        if indices[m] as usize >= vertices.len() {
            return None;
        }
        m += 1;
    }
    let mut normals: Vec<NormalSum> = Vec::new();
    let mut v: usize = 0;
    while v < vertices.len()
        invariant
            v <= vertices.len(),
            normals.len() == v,
            forall|j: int| 0 <= j < v ==> #[trigger] normals[j] == (NormalSum { x: 0, y: 0, z: 0 }),
        decreases vertices.len() - v,
    {
        normals.push(NormalSum { x: 0, y: 0, z: 0 });
        v += 1;
    }
    assert(normals@ =~= normals_after(vertices@, indices@, 0));
    let triangles: usize = indices.len() / 3;
    let mut k: usize = 0;
    while k < triangles
        invariant
            k <= triangles,
            triangles == indices.len() / 3,
            indices.len() % 3 == 0,
            triangles <= MAX_TRIANGLES,
            normals.len() == vertices.len(),
            forall|j: int| 0 <= j < vertices.len() ==> (#[trigger] vertices[j]).in_world(),
            forall|j: int| 0 <= j < indices.len() ==> (#[trigger] indices[j]) < vertices.len(),
            normals@ == normals_after(vertices@, indices@, k as int),
            forall|j: int|
                0 <= j < normals.len() ==> normal_within(
                    #[trigger] normals[j],
                    k * 24_000_000_000_000_000_000_000_000,
                ),
        decreases triangles - k,
    {
        let index_a = indices[3 * k] as usize;
        let index_b = indices[3 * k + 1] as usize;
        let index_c = indices[3 * k + 2] as usize;
        let vertex_a = vertices[index_a];
        let vertex_b = vertices[index_b];
        let vertex_c = vertices[index_c];
        // AB cross AC
        let cross = face_normal_of(vertex_a, vertex_b, vertex_c);
        let ghost bound = k * 24_000_000_000_000_000_000_000_000;
        assert(MAX_TRIANGLES == 0x1_0000_0000);
        add_normal(&mut normals, index_a, cross, Ghost(bound));
        add_normal(&mut normals, index_b, cross, Ghost(bound + 8_000_000_000_000_000_000_000_000));
        add_normal(&mut normals, index_c, cross, Ghost(bound + 16_000_000_000_000_000_000_000_000));
        k += 1;
    }
    Some(normals)
}

} // verus!
