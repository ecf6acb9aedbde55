use breakage::body::{BodyKind, Color, World};
use breakage::collider::synthesize;
use breakage::environment::build_static_environment;
use breakage::geom::Point3;
use breakage::mesh::{Triangle, TriangleMesh};
use breakage::palette::MaterialPalette;
use breakage::registry::{AssetHandle, AssetRegistry, LoadPhase};
use breakage::spawn::SpawnController;

fn p(x: i64, y: i64, z: i64) -> Point3 {
    Point3 { x, y, z }
}

fn tetrahedron(offset: i64) -> TriangleMesh {
    let vertices = vec![
        p(offset, 0, 0),
        p(offset + 10, 0, 0),
        p(offset, 10, 0),
        p(offset, 0, 10),
    ];
    let triangles = vec![
        Triangle { a: 0, b: 1, c: 2 },
        Triangle { a: 0, b: 1, c: 3 },
        Triangle { a: 0, b: 2, c: 3 },
        Triangle { a: 1, b: 2, c: 3 },
    ];
    TriangleMesh::new(vertices, triangles).unwrap()
}

fn flat_square() -> TriangleMesh {
    let vertices = vec![p(0, 0, 0), p(10, 0, 0), p(0, 10, 0), p(10, 10, 0)];
    let triangles = vec![Triangle { a: 0, b: 1, c: 2 }, Triangle { a: 1, b: 3, c: 2 }];
    TriangleMesh::new(vertices, triangles).unwrap()
}

#[test]
fn synthesize_tetrahedron_succeeds() {
    let mesh = tetrahedron(0);
    let collider = synthesize(&mesh).expect("a tetrahedron encloses volume");
    assert_eq!(collider.point_count(), 4);
    assert_eq!(collider.point(0), p(0, 0, 0));
    assert_eq!(collider.point(1), p(10, 0, 0));
    assert_eq!(collider.point(2), p(0, 10, 0));
    assert_eq!(collider.point(3), p(0, 0, 10));
}

#[test]
fn synthesize_cube_succeeds() {
    let vertices = vec![
        p(-5, -5, -5),
        p(5, -5, -5),
        p(-5, 5, -5),
        p(5, 5, -5),
        p(-5, -5, 5),
        p(5, -5, 5),
        p(-5, 5, 5),
        p(5, 5, 5),
    ];
    let mesh = TriangleMesh::new(vertices, Vec::new()).unwrap();
    let collider = synthesize(&mesh).expect("a cube encloses volume");
    assert_eq!(collider.point_count(), 8);
}

#[test]
fn synthesize_empty_yields_nothing() {
    let mesh = TriangleMesh::new(Vec::new(), Vec::new()).unwrap();
    assert!(synthesize(&mesh).is_none());
}

#[test]
fn synthesize_too_few_points_yields_nothing() {
    let one = TriangleMesh::new(vec![p(1, 2, 3)], Vec::new()).unwrap();
    assert!(synthesize(&one).is_none());
    let two = TriangleMesh::new(vec![p(1, 2, 3), p(4, 5, 6)], Vec::new()).unwrap();
    assert!(synthesize(&two).is_none());
    let three =
        TriangleMesh::new(vec![p(0, 0, 0), p(10, 0, 0), p(0, 10, 0)], Vec::new()).unwrap();
    assert!(synthesize(&three).is_none());
}

#[test]
fn synthesize_collinear_yields_nothing() {
    let vertices = vec![p(0, 0, 0), p(1, 2, 3), p(2, 4, 6), p(3, 6, 9), p(-1, -2, -3)];
    let mesh = TriangleMesh::new(vertices, Vec::new()).unwrap();
    assert!(synthesize(&mesh).is_none());
}

#[test]
fn synthesize_coplanar_yields_nothing() {
    let mesh = flat_square();
    assert!(synthesize(&mesh).is_none());
}

#[test]
fn mesh_rejects_out_of_range_coordinate() {
    let vertices = vec![p(2_000_000, 0, 0)];
    assert!(TriangleMesh::new(vertices, Vec::new()).is_none());
}

#[test]
fn mesh_rejects_out_of_range_triangle_index() {
    let vertices = vec![p(0, 0, 0), p(1, 0, 0), p(0, 1, 0)];
    let triangles = vec![Triangle { a: 0, b: 1, c: 3 }];
    assert!(TriangleMesh::new(vertices, triangles).is_none());
}

#[test]
fn mesh_accessors_report_contents() {
    let mesh = tetrahedron(2);
    assert_eq!(mesh.vertex_count(), 4);
    assert_eq!(mesh.triangle_count(), 4);
    assert_eq!(mesh.vertex(1), p(12, 0, 0));
    assert_eq!(mesh.triangle(3), Triangle { a: 1, b: 2, c: 3 });
}

#[test]
fn registry_request_is_idempotent() {
    let mut registry = AssetRegistry::new(3);
    assert_eq!(registry.asset_count(), 3);
    let h1 = registry.request(1);
    let h2 = registry.request(1);
    assert_eq!(h1, h2);
    assert_eq!(h1.index, 1);
    assert_eq!(registry.asset_count(), 3);
    let h5 = registry.request(5);
    assert_eq!(h5.index, 5);
    assert_eq!(registry.asset_count(), 6);
    assert_eq!(registry.poll(h5), LoadPhase::Pending);
}

#[test]
fn registry_complete_transitions_once() {
    let mut registry = AssetRegistry::new(2);
    let h0 = AssetHandle { index: 0 };
    let h1 = AssetHandle { index: 1 };
    assert_eq!(registry.poll(h0), LoadPhase::Pending);
    assert!(registry.mesh(h0).is_none());
    registry.complete(h0, Some(tetrahedron(0)));
    assert_eq!(registry.poll(h0), LoadPhase::Ready);
    assert_eq!(registry.mesh(h0).unwrap().vertex_count(), 4);
    registry.complete(h0, None);
    assert_eq!(registry.poll(h0), LoadPhase::Ready);
    registry.complete(h1, None);
    assert_eq!(registry.poll(h1), LoadPhase::Failed);
    assert!(registry.mesh(h1).is_none());
}

#[test]
fn environment_builds_four_fixed_bodies() {
    let mut world = World::new();
    build_static_environment(&mut world);
    assert_eq!(world.body_count(), 4);
    for i in 0..4 {
        assert_eq!(world.body(i).kind, BodyKind::Fixed);
        assert_eq!(world.body(i).gravity_scale, None);
    }
    let left = world.body(1);
    let right = world.body(2);
    assert_eq!(left.collider.point_count(), right.collider.point_count());
    for i in 0..left.collider.point_count() {
        assert_eq!(left.collider.point(i), right.collider.point(i));
    }
    assert_ne!(left.transform, right.transform);
    assert_eq!(left.transform.translation, p(-80, 36, 0));
    assert_eq!(right.transform.translation, p(80, 36, 0));
    assert_eq!(world.body(0).transform.translation, p(0, -4, 0));
    assert_eq!(world.body(3).transform.translation, p(0, 36, -100));
    assert_eq!(world.body(0).collider.point_count(), 8);
}

#[test]
fn spawn_with_zero_ready_inserts_zero() {
    let registry = AssetRegistry::new(4);
    let palette = MaterialPalette::standard();
    let mut world = World::new();
    let mut controller = SpawnController::new();
    let spawned = controller.tick(true, &registry, &palette, &mut world);
    assert_eq!(spawned, 0);
    assert_eq!(world.body_count(), 0);
}

#[test]
fn spawn_with_ready_assets_inserts_one_body_each() {
    let mut registry = AssetRegistry::new(3);
    for i in 0..3 {
        registry.complete(AssetHandle { index: i }, Some(tetrahedron(i as i64)));
    }
    let palette = MaterialPalette::standard();
    let mut world = World::new();
    let mut controller = SpawnController::new();
    let spawned = controller.tick(true, &registry, &palette, &mut world);
    assert_eq!(spawned, 3);
    assert_eq!(world.body_count(), 3);
    for i in 0..3 {
        let body = world.body(i);
        assert_eq!(body.kind, BodyKind::Dynamic);
        assert_eq!(body.transform.translation, p(0, 80, 0));
        assert_eq!(body.gravity_scale, Some(20));
        assert_eq!(body.material, palette.color(i % palette.len()));
        assert_eq!(body.collider.point_count(), 4);
        assert_eq!(body.collider.point(0), p(i as i64, 0, 0));
    }
}

#[test]
fn spawn_material_cycles_past_palette_length() {
    let mut registry = AssetRegistry::new(8);
    for i in 0..8 {
        registry.complete(AssetHandle { index: i }, Some(tetrahedron(i as i64)));
    }
    let palette = MaterialPalette::standard();
    let mut world = World::new();
    let mut controller = SpawnController::new();
    controller.tick(true, &registry, &palette, &mut world);
    assert_eq!(world.body_count(), 8);
    assert_eq!(world.body(6).material, palette.color(0));
    assert_eq!(world.body(7).material, palette.color(1));
}

#[test]
fn spawn_twice_accumulates_without_cap() {
    let mut registry = AssetRegistry::new(2);
    for i in 0..2 {
        registry.complete(AssetHandle { index: i }, Some(tetrahedron(i as i64)));
    }
    let palette = MaterialPalette::standard();
    let mut world = World::new();
    let mut controller = SpawnController::new();
    controller.tick(true, &registry, &palette, &mut world);
    controller.tick(false, &registry, &palette, &mut world);
    controller.tick(true, &registry, &palette, &mut world);
    assert_eq!(world.body_count(), 4);
}

#[test]
fn held_trigger_spawns_one_batch_only() {
    let mut registry = AssetRegistry::new(2);
    for i in 0..2 {
        registry.complete(AssetHandle { index: i }, Some(tetrahedron(i as i64)));
    }
    let palette = MaterialPalette::standard();
    let mut world = World::new();
    let mut controller = SpawnController::new();
    controller.tick(true, &registry, &palette, &mut world);
    controller.tick(true, &registry, &palette, &mut world);
    controller.tick(true, &registry, &palette, &mut world);
    assert_eq!(world.body_count(), 2);
    controller.tick(false, &registry, &palette, &mut world);
    assert_eq!(world.body_count(), 2);
    controller.tick(true, &registry, &palette, &mut world);
    assert_eq!(world.body_count(), 4);
}

#[test]
fn spawn_skips_pending_failed_and_degenerate() {
    let mut registry = AssetRegistry::new(4);
    registry.complete(AssetHandle { index: 1 }, Some(tetrahedron(7)));
    registry.complete(AssetHandle { index: 2 }, Some(flat_square()));
    registry.complete(AssetHandle { index: 3 }, None);
    let palette = MaterialPalette::standard();
    let mut world = World::new();
    let mut controller = SpawnController::new();
    let spawned = controller.tick(true, &registry, &palette, &mut world);
    assert_eq!(spawned, 1);
    assert_eq!(world.body_count(), 1);
    let body = world.body(0);
    assert_eq!(body.material, palette.color(1));
    assert_eq!(body.collider.point(0), p(7, 0, 0));
}

#[test]
fn palette_rejects_empty_and_keeps_colors() {
    assert!(MaterialPalette::from_colors(Vec::new()).is_none());
    let colors = vec![
        Color { red: 1, green: 2, blue: 3 },
        Color { red: 4, green: 5, blue: 6 },
    ];
    let palette = MaterialPalette::from_colors(colors).unwrap();
    assert_eq!(palette.len(), 2);
    assert_eq!(palette.color(1), Color { red: 4, green: 5, blue: 6 });
    let standard = MaterialPalette::standard();
    assert_eq!(standard.len(), 6);
    assert_eq!(standard.color(0), Color { red: 255, green: 0, blue: 0 });
}

#[test]
fn collider_duplicate_shares_geometry() {
    let mesh = tetrahedron(0);
    let collider = synthesize(&mesh).unwrap();
    let copy = collider.duplicate();
    assert_eq!(copy.point_count(), collider.point_count());
    for i in 0..collider.point_count() {
        assert_eq!(copy.point(i), collider.point(i));
    }
}
