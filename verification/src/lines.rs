//! Line strips for showing a polyline.

use crate::units::Point3;
use vstd::prelude::*;

verus! {

/// A list of points that will have a line drawn between each consecutive points.
#[derive(Debug, Clone)]
pub struct LineStrip {
    pub points: Vec<Point3>,
}

/// What a line strip hands to the renderer: a position and a normal for each
/// of its points.
pub struct LineMesh {
    pub vertices: Vec<Point3>,
    /// The renderer asks for normals, though lines have no use for them.
    pub normals: Vec<Point3>,
}

impl LineStrip {
    /// The mesh of the line strip: its points as vertices, in order, each
    /// with a normal of zero.
    pub fn into_mesh(self) -> (mesh: LineMesh)
        ensures
            mesh.vertices@ == self.points@,
            mesh.normals.len() == self.points.len(),
            forall|i: int|
                0 <= i < mesh.normals.len() ==> #[trigger] mesh.normals[i] == (Point3 {
                    x: 0,
                    y: 0,
                    z: 0,
                }),
    {
        let mut normals: Vec<Point3> = Vec::new();
        let mut i: usize = 0;
        while i < self.points.len()
            invariant
                i <= self.points.len(),
                normals.len() == i,
                forall|j: int|
                    0 <= j < i ==> #[trigger] normals[j] == (Point3 { x: 0, y: 0, z: 0 }),
            decreases self.points.len() - i,
        {
            normals.push(Point3 { x: 0, y: 0, z: 0 });
            i += 1;
        }
        LineMesh { vertices: self.points, normals }
    }
}

} // verus!
