//! The collider synthesizer: from a triangle mesh to a convex collision
//! volume, or nothing when the mesh's points enclose no volume.

use crate::geom::{
    collinear, cross_of, degenerate, in_bounds, lemma_all_collinear_degenerate,
    lemma_all_coplanar_degenerate, lemma_all_equal_degenerate, lemma_witness_not_degenerate,
    orient, orient_of, Point3,
};
use crate::mesh::TriangleMesh;
use vstd::prelude::*;

verus! {

/// A convex collision volume, described by the point cloud whose convex hull
/// it is. Immutable; only non-degenerate descriptors (points that truly
/// enclose volume) can be produced.
pub struct ConvexCollider {
    points: Vec<Point3>,
}

impl View for ConvexCollider {
    type V = Seq<Point3>;

    closed spec fn view(&self) -> Seq<Point3> {
        self.points@
    }
}

impl ConvexCollider {
    /// A usable collider's points enclose volume and sit within coordinate
    /// bounds.
    pub open spec fn wf(&self) -> bool {
        &&& !degenerate(self@)
        &&& forall|i: int| 0 <= i < self@.len() ==> in_bounds(#[trigger] self@[i])
    }

    /// Number of descriptor points.
    pub fn point_count(&self) -> (n: usize)
        ensures
            n == self@.len(),
    {
        self.points.len()
    }

    /// The descriptor point at `i`.
    pub fn point(&self, i: usize) -> (p: Point3)
        requires
            i < self@.len(),
        ensures
            p == self@[i as int],
    {
        self.points[i]
    }

    /// A second handle to the same immutable geometry, for bodies that share
    /// one collider descriptor.
    pub fn duplicate(&self) -> (r: ConvexCollider)
        ensures
            r@ == self@,
    {
        let mut points: Vec<Point3> = Vec::new();
        let mut i: usize = 0;
        while i < self.points.len()
            invariant
                0 <= i <= self.points.len(),
                points@ == self.points@.subrange(0, i as int),
            decreases self.points.len() - i,
        {
            points.push(self.points[i]);
            proof {
                assert(points@ =~= self.points@.subrange(0, i + 1 as int));
            }
            i += 1;
        }
        proof {
            assert(points@ =~= self.points@);
        }
        ConvexCollider { points }
    }
}

/// Looks for a vertex distinct from vertex 0.
fn find_distinct(mesh: &TriangleMesh) -> (r: Option<usize>)
    requires
        mesh.wf(),
        mesh@.vertices.len() > 0,
    ensures
        match r {
            Some(j) => j < mesh@.vertices.len() && mesh@.vertices[j as int] != mesh@.vertices[0],
            None => forall|i: int|
                0 <= i < mesh@.vertices.len() ==> #[trigger] mesh@.vertices[i]
                    == mesh@.vertices[0],
        },
{
    let a = mesh.vertex(0);
    let n = mesh.vertex_count();
    let mut j: usize = 1;
    while j < n
        invariant
            1 <= j <= n,
            n == mesh@.vertices.len(),
            mesh.wf(),
            a == mesh@.vertices[0],
            forall|i: int| 0 <= i < j ==> #[trigger] mesh@.vertices[i] == mesh@.vertices[0],
        decreases n - j,
    {
        if mesh.vertex(j) != a {
            return Some(j);
        }
        j += 1;
    }
    None
}

/// Looks for a vertex not collinear with vertices 0 and `j`.
fn find_non_collinear(mesh: &TriangleMesh, j: usize) -> (r: Option<usize>)
    requires
        mesh.wf(),
        j < mesh@.vertices.len(),
    ensures
        match r {
            Some(k) => k < mesh@.vertices.len() && !collinear(
                mesh@.vertices[0],
                mesh@.vertices[j as int],
                mesh@.vertices[k as int],
            ),
            None => forall|i: int|
                0 <= i < mesh@.vertices.len() ==> collinear(
                    mesh@.vertices[0],
                    mesh@.vertices[j as int],
                    #[trigger] mesh@.vertices[i],
                ),
        },
{
    let a = mesh.vertex(0);
    let b = mesh.vertex(j);
    let n = mesh.vertex_count();
    let mut k: usize = 0;
    while k < n
        invariant
            0 <= k <= n,
            n == mesh@.vertices.len(),
            mesh.wf(),
            j < mesh@.vertices.len(),
            a == mesh@.vertices[0],
            b == mesh@.vertices[j as int],
            forall|i: int|
                0 <= i < k ==> collinear(
                    mesh@.vertices[0],
                    mesh@.vertices[j as int],
                    #[trigger] mesh@.vertices[i],
                ),
        decreases n - k,
    {
        let c = mesh.vertex(k);
        let (cx, cy, cz) = cross_of(&a, &b, &c);
        if cx != 0 || cy != 0 || cz != 0 {
            return Some(k);
        }
        k += 1;
    }
    None
}

/// Looks for a vertex off the plane of vertices 0, `j` and `k`.
fn find_off_plane(mesh: &TriangleMesh, j: usize, k: usize) -> (r: Option<usize>)
    requires
        mesh.wf(),
        j < mesh@.vertices.len(),
        k < mesh@.vertices.len(),
    ensures
        match r {
            Some(l) => l < mesh@.vertices.len() && orient(
                mesh@.vertices[0],
                mesh@.vertices[j as int],
                mesh@.vertices[k as int],
                mesh@.vertices[l as int],
            ) != 0,
            None => forall|i: int|
                0 <= i < mesh@.vertices.len() ==> orient(
                    mesh@.vertices[0],
                    mesh@.vertices[j as int],
                    mesh@.vertices[k as int],
                    #[trigger] mesh@.vertices[i],
                ) == 0,
        },
{
    let a = mesh.vertex(0);
    let b = mesh.vertex(j);
    let c = mesh.vertex(k);
    let n = mesh.vertex_count();
    let mut l: usize = 0;
    while l < n
        invariant
            0 <= l <= n,
            n == mesh@.vertices.len(),
            mesh.wf(),
            j < mesh@.vertices.len(),
            k < mesh@.vertices.len(),
            a == mesh@.vertices[0],
            b == mesh@.vertices[j as int],
            c == mesh@.vertices[k as int],
            forall|i: int|
                0 <= i < l ==> orient(
                    mesh@.vertices[0],
                    mesh@.vertices[j as int],
                    mesh@.vertices[k as int],
                    #[trigger] mesh@.vertices[i],
                ) == 0,
        decreases n - l,
    {
        let d = mesh.vertex(l);
        if orient_of(&a, &b, &c, &d) != 0 {
            return Some(l);
        }
        l += 1;
    }
    None
}

/// Synthesizes a convex collision volume from a mesh: the convex hull of the
/// mesh's vertex set, described by that set. Succeeds exactly when the
/// vertices are not degenerate — that is, when no single plane holds them
/// all, so the hull encloses positive volume. Degenerate input (too few
/// points, all collinear, all coplanar) yields nothing; it is no error.
pub fn synthesize(mesh: &TriangleMesh) -> (r: Option<ConvexCollider>)
    requires
        mesh.wf(),
    ensures
        match r {
            Some(c) => !degenerate(mesh@.vertices) && c@ == mesh@.vertices && c.wf(),
            None => degenerate(mesh@.vertices),
        },
{
    let n = mesh.vertex_count();
    if n == 0 {
        proof {
            lemma_all_equal_degenerate(mesh@.vertices);
        }
        return None;
    }
    let j = match find_distinct(mesh) {
        Some(j) => j,
        None => {
            proof {
                lemma_all_equal_degenerate(mesh@.vertices);
            }
            return None;
        },
    };
    let k = match find_non_collinear(mesh, j) {
        Some(k) => k,
        None => {
            proof {
                lemma_all_collinear_degenerate(
                    mesh@.vertices,
                    mesh@.vertices[0],
                    mesh@.vertices[j as int],
                );
            }
            return None;
        },
    };
    let l = match find_off_plane(mesh, j, k) {
        Some(l) => l,
        None => {
            proof {
                lemma_all_coplanar_degenerate(
                    mesh@.vertices,
                    mesh@.vertices[0],
                    mesh@.vertices[j as int],
                    mesh@.vertices[k as int],
                );
            }
            return None;
        },
    };
    proof {
        lemma_witness_not_degenerate(mesh@.vertices, 0, j as int, k as int, l as int);
    }
    let mut points: Vec<Point3> = Vec::new();
    let mut i: usize = 0;
    while i < n
        invariant
            0 <= i <= n,
            n == mesh@.vertices.len(),
            mesh.wf(),
            points@ == mesh@.vertices.subrange(0, i as int),
        decreases n - i,
    {
        points.push(mesh.vertex(i));
        proof {
            assert(points@ =~= mesh@.vertices.subrange(0, i + 1 as int));
        }
        i += 1;
    }
    proof {
        assert(points@ =~= mesh@.vertices);
    }
    Some(ConvexCollider { points })
}

} // verus!

