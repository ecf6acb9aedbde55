//! Triangulated meshes: ordered vertex positions plus triangle index triples.

use crate::geom::{in_bounds, Point3};
use vstd::prelude::*;

verus! {

/// Indices of one triangle's three corners into a vertex list.
#[derive(Clone, Copy, PartialEq, Eq, Structural, Debug)]
pub struct Triangle {
    pub a: usize,
    pub b: usize,
    pub c: usize,
}

/// Mathematical model of a triangle mesh.
pub struct MeshModel {
    pub vertices: Seq<Point3>,
    pub triangles: Seq<Triangle>,
}

/// Well-formedness of a mesh model: coordinates within bounds, triangle
/// indices within the vertex list.
pub open spec fn mesh_wf(m: MeshModel) -> bool {
    &&& forall|i: int| 0 <= i < m.vertices.len() ==> in_bounds(#[trigger] m.vertices[i])
    &&& forall|i: int|
        0 <= i < m.triangles.len() ==> (#[trigger] m.triangles[i]).a < m.vertices.len()
            && m.triangles[i].b < m.vertices.len() && m.triangles[i].c < m.vertices.len()
}

/// A triangulated mesh, immutable once built. Every value that leaves the
/// constructor is well formed.
pub struct TriangleMesh {
    pub(crate) vertices: Vec<Point3>,
    pub(crate) triangles: Vec<Triangle>,
}

impl View for TriangleMesh {
    type V = MeshModel;

    closed spec fn view(&self) -> MeshModel {
        MeshModel { vertices: self.vertices@, triangles: self.triangles@ }
    }
}

impl TriangleMesh {
    /// Well-formedness carried over to the mesh itself.
    pub open spec fn wf(&self) -> bool {
        mesh_wf(self@)
    }

    /// Builds a mesh after validating it: every coordinate within
    /// `MAX_COORD`, every triangle index within the vertex list. Out-of-range
    /// input is rejected, not clamped.
    pub fn new(vertices: Vec<Point3>, triangles: Vec<Triangle>) -> (r: Option<TriangleMesh>)
        ensures
            match r {
                Some(m) => m@ == (MeshModel { vertices: vertices@, triangles: triangles@ })
                    && m.wf(),
                None => !mesh_wf(MeshModel { vertices: vertices@, triangles: triangles@ }),
            },
    {
        let mut i: usize = 0;
        while i < vertices.len()
            invariant
                0 <= i <= vertices.len(),
                forall|k: int| 0 <= k < i ==> in_bounds(#[trigger] vertices@[k]),
            decreases vertices.len() - i,
        {
            let p = vertices[i];
            if p.x > crate::geom::MAX_COORD || p.x < -crate::geom::MAX_COORD || p.y
                > crate::geom::MAX_COORD || p.y < -crate::geom::MAX_COORD || p.z
                > crate::geom::MAX_COORD || p.z < -crate::geom::MAX_COORD {
                proof {
                    let m = MeshModel { vertices: vertices@, triangles: triangles@ };
                    if mesh_wf(m) {
                        assert(in_bounds(m.vertices[i as int]));
                    }
                }
                return None;
            }
            i += 1;
        }
        let mut j: usize = 0;
        while j < triangles.len()
            invariant
                0 <= j <= triangles.len(),
                forall|k: int|
                    0 <= k < j ==> (#[trigger] triangles@[k]).a < vertices@.len()
                        && triangles@[k].b < vertices@.len() && triangles@[k].c < vertices@.len(),
            decreases triangles.len() - j,
        {
            let t = triangles[j];
            if t.a >= vertices.len() || t.b >= vertices.len() || t.c >= vertices.len() {
                proof {
                    let m = MeshModel { vertices: vertices@, triangles: triangles@ };
                    if mesh_wf(m) {
                        assert(m.triangles[j as int].a < m.vertices.len());
                    }
                }
                return None;
            }
            j += 1;
        }
        Some(TriangleMesh { vertices, triangles })
    }

    /// Number of vertices.
    pub fn vertex_count(&self) -> (n: usize)
        ensures
            n == self@.vertices.len(),
    {
        self.vertices.len()
    }

    /// The vertex at `i`.
    pub fn vertex(&self, i: usize) -> (p: Point3)
        requires
            i < self@.vertices.len(),
        ensures
            p == self@.vertices[i as int],
    {
        self.vertices[i]
    }

    /// Number of triangles.
    pub fn triangle_count(&self) -> (n: usize)
        ensures
            n == self@.triangles.len(),
    {
        self.triangles.len()
    }

    /// The triangle at `i`.
    pub fn triangle(&self, i: usize) -> (t: Triangle)
        requires
            i < self@.triangles.len(),
        ensures
            t == self@.triangles[i as int],
    {
        self.triangles[i]
    }
}

} // verus!
