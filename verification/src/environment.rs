//! The static environment builder: one ground slab and three perimeter
//! walls, built once at startup as fixed bodies. The two side walls share
//! one collider descriptor, computed once.

use crate::body::{BodyKind, BodyModel, Color, RigidBody, Transform, World};
use crate::collider::synthesize;
use crate::geom::{degenerate, lemma_witness_not_degenerate, orient, Point3, MAX_COORD};
use crate::mesh::{mesh_wf, MeshModel, Triangle, TriangleMesh};
use vstd::prelude::*;

verus! {

/// A point from mathematical coordinates, for describing geometry in specs.
pub open spec fn pt(x: int, y: int, z: int) -> Point3 {
    Point3 { x: x as i64, y: y as i64, z: z as i64 }
}

/// The eight corners of an axis-aligned box with half-extents `hx, hy, hz`,
/// centered on the origin.
pub open spec fn cuboid_vertices(hx: int, hy: int, hz: int) -> Seq<Point3> {
    seq![
        pt(-hx, -hy, -hz),
        pt(hx, -hy, -hz),
        pt(-hx, hy, -hz),
        pt(hx, hy, -hz),
        pt(-hx, -hy, hz),
        pt(hx, -hy, hz),
        pt(-hx, hy, hz),
        pt(hx, hy, hz),
    ]
}

/// A box with positive extents encloses volume: its corner set is not
/// degenerate.
pub proof fn lemma_cuboid_not_degenerate(hx: int, hy: int, hz: int)
    requires
        1 <= hx <= MAX_COORD,
        1 <= hy <= MAX_COORD,
        1 <= hz <= MAX_COORD,
    ensures
        !degenerate(cuboid_vertices(hx, hy, hz)),
{
    let s = cuboid_vertices(hx, hy, hz);
    let a = s[0];
    let b = s[1];
    let c = s[2];
    let d = s[4];
    assert(b.x - a.x == 2 * hx && b.y - a.y == 0 && b.z - a.z == 0);
    assert(c.x - a.x == 0 && c.y - a.y == 2 * hy && c.z - a.z == 0);
    assert(d.x - a.x == 0 && d.y - a.y == 0 && d.z - a.z == 2 * hz);
    assert(((2 * hx) * (2 * hy)) * (2 * hz) > 0) by (nonlinear_arith)
        requires
            hx >= 1,
            hy >= 1,
            hz >= 1,
    ;
    assert(orient(a, b, c, d) == ((2 * hx) * (2 * hy)) * (2 * hz));
    lemma_witness_not_degenerate(s, 0, 1, 2, 4);
}

/// Builds the triangulated mesh of an axis-aligned box with the given
/// half-extents: eight corners, twelve triangles, two per face.
pub fn box_mesh(hx: i64, hy: i64, hz: i64) -> (m: TriangleMesh)
    requires
        1 <= hx <= MAX_COORD,
        1 <= hy <= MAX_COORD,
        1 <= hz <= MAX_COORD,
    ensures
        m.wf(),
        m@.vertices == cuboid_vertices(hx as int, hy as int, hz as int),
        m@.triangles.len() == 12,
{
    let mut vertices: Vec<Point3> = Vec::new();
    vertices.push(Point3 { x: -hx, y: -hy, z: -hz });
    vertices.push(Point3 { x: hx, y: -hy, z: -hz });
    vertices.push(Point3 { x: -hx, y: hy, z: -hz });
    vertices.push(Point3 { x: hx, y: hy, z: -hz });
    vertices.push(Point3 { x: -hx, y: -hy, z: hz });
    vertices.push(Point3 { x: hx, y: -hy, z: hz });
    vertices.push(Point3 { x: -hx, y: hy, z: hz });
    vertices.push(Point3 { x: hx, y: hy, z: hz });
    let mut triangles: Vec<Triangle> = Vec::new();
    triangles.push(Triangle { a: 0, b: 2, c: 1 });
    triangles.push(Triangle { a: 1, b: 2, c: 3 });
    triangles.push(Triangle { a: 4, b: 5, c: 6 });
    triangles.push(Triangle { a: 5, b: 7, c: 6 });
    triangles.push(Triangle { a: 0, b: 1, c: 4 });
    triangles.push(Triangle { a: 1, b: 5, c: 4 });
    triangles.push(Triangle { a: 2, b: 6, c: 3 });
    triangles.push(Triangle { a: 3, b: 6, c: 7 });
    triangles.push(Triangle { a: 0, b: 4, c: 2 });
    triangles.push(Triangle { a: 2, b: 4, c: 6 });
    triangles.push(Triangle { a: 1, b: 3, c: 5 });
    triangles.push(Triangle { a: 3, b: 7, c: 5 });
    proof {
        assert(vertices@ =~= cuboid_vertices(hx as int, hy as int, hz as int));
        assert(mesh_wf(MeshModel { vertices: vertices@, triangles: triangles@ }));
    }
    match TriangleMesh::new(vertices, triangles) {
        Some(m) => m,
        None => vstd::pervasive::unreached(),
    }
}

/// The translucent gray of the ground slab.
pub open spec fn ground_color() -> Color {
    Color { red: 178, green: 178, blue: 204 }
}

/// The warm yellow of the perimeter walls.
pub open spec fn wall_color() -> Color {
    Color { red: 255, green: 204, blue: 17 }
}

/// A fixed body with the given collider point cloud, translation and color;
/// fixed bodies take no gravity-scale override.
pub open spec fn fixed_body(points: Seq<Point3>, translation: Point3, material: Color) -> BodyModel {
    BodyModel {
        kind: BodyKind::Fixed,
        collider: points,
        transform: Transform { translation },
        material,
        gravity_scale: None,
    }
}

/// The four bodies of the static environment, in build order: the ground
/// slab, the two side walls (one collider descriptor, two poses) and the
/// back wall.
pub open spec fn environment_bodies() -> Seq<BodyModel> {
    seq![
        fixed_body(cuboid_vertices(10000, 1, 10000), pt(0, -4, 0), ground_color()),
        fixed_body(cuboid_vertices(1, 40, 100), pt(-80, 36, 0), wall_color()),
        fixed_body(cuboid_vertices(1, 40, 100), pt(80, 36, 0), wall_color()),
        fixed_body(cuboid_vertices(81, 40, 1), pt(0, 36, -100), wall_color()),
    ]
}

/// Builds the static environment once at startup: exactly four fixed
/// bodies, the two side walls sharing one collider descriptor computed from
/// one box mesh. Box colliders always synthesize — a box encloses volume —
/// so this cannot fail.
pub fn build_static_environment(world: &mut World)
    requires
        old(world).wf(),
    ensures
        final(world)@ == old(world)@ + environment_bodies(),
        final(world).wf(),
{
    let ghost w0 = world@;

    let ground_mesh = box_mesh(10000, 1, 10000);
    proof {
        lemma_cuboid_not_degenerate(10000, 1, 10000);
    }
    let ground_collider = match synthesize(&ground_mesh) {
        Some(c) => c,
        None => vstd::pervasive::unreached(),
    };
    world.insert(
        RigidBody {
            kind: BodyKind::Fixed,
            collider: ground_collider,
            transform: Transform { translation: Point3 { x: 0, y: -4, z: 0 } },
            material: Color { red: 178, green: 178, blue: 204 },
            gravity_scale: None,
        },
    );

    let side_mesh = box_mesh(1, 40, 100);
    proof {
        lemma_cuboid_not_degenerate(1, 40, 100);
    }
    let side_collider = match synthesize(&side_mesh) {
        Some(c) => c,
        None => vstd::pervasive::unreached(),
    };
    let side_collider_again = side_collider.duplicate();
    world.insert(
        RigidBody {
            kind: BodyKind::Fixed,
            collider: side_collider,
            transform: Transform { translation: Point3 { x: -80, y: 36, z: 0 } },
            material: Color { red: 255, green: 204, blue: 17 },
            gravity_scale: None,
        },
    );
    world.insert(
        RigidBody {
            kind: BodyKind::Fixed,
            collider: side_collider_again,
            transform: Transform { translation: Point3 { x: 80, y: 36, z: 0 } },
            material: Color { red: 255, green: 204, blue: 17 },
            gravity_scale: None,
        },
    );

    let back_mesh = box_mesh(81, 40, 1);
    proof {
        lemma_cuboid_not_degenerate(81, 40, 1);
    }
    let back_collider = match synthesize(&back_mesh) {
        Some(c) => c,
        None => vstd::pervasive::unreached(),
    };
    world.insert(
        RigidBody {
            kind: BodyKind::Fixed,
            collider: back_collider,
            transform: Transform { translation: Point3 { x: 0, y: 36, z: -100 } },
            material: Color { red: 255, green: 204, blue: 17 },
            gravity_scale: None,
        },
    );

    proof {
        assert(world@ =~= w0 + environment_bodies());
    }
}

} // verus!
