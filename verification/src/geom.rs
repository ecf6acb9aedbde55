//! Exact integer geometry: points, orientation (signed tetrahedron volume)
//! and degeneracy of point sets.

use vstd::prelude::*;

verus! {

/// Largest magnitude a coordinate may take. Keeping coordinates within this
/// bound lets orientation determinants be evaluated exactly in `i128`.
pub const MAX_COORD: i64 = 1_000_000;

/// A position on the simulation's integer coordinate grid.
#[derive(Clone, Copy, PartialEq, Eq, Structural, Debug)]
pub struct Point3 {
    pub x: i64,
    pub y: i64,
    pub z: i64,
}

/// Whether a point lies within the coordinate bound.
pub open spec fn in_bounds(p: Point3) -> bool {
    &&& -(MAX_COORD as int) <= p.x <= MAX_COORD as int
    &&& -(MAX_COORD as int) <= p.y <= MAX_COORD as int
    &&& -(MAX_COORD as int) <= p.z <= MAX_COORD as int
}

/// x component of the cross product of `b - a` and `c - a`.
pub open spec fn cross_x(a: Point3, b: Point3, c: Point3) -> int {
    (b.y - a.y) * (c.z - a.z) - (b.z - a.z) * (c.y - a.y)
}

/// y component of the cross product of `b - a` and `c - a`.
pub open spec fn cross_y(a: Point3, b: Point3, c: Point3) -> int {
    (b.z - a.z) * (c.x - a.x) - (b.x - a.x) * (c.z - a.z)
}

/// z component of the cross product of `b - a` and `c - a`.
pub open spec fn cross_z(a: Point3, b: Point3, c: Point3) -> int {
    (b.x - a.x) * (c.y - a.y) - (b.y - a.y) * (c.x - a.x)
}

/// Three points lie on one line exactly when the cross product of their
/// difference vectors vanishes.
pub open spec fn collinear(a: Point3, b: Point3, c: Point3) -> bool {
    cross_x(a, b, c) == 0 && cross_y(a, b, c) == 0 && cross_z(a, b, c) == 0
}

/// Six times the signed volume of the tetrahedron `a b c d`.
pub open spec fn orient(a: Point3, b: Point3, c: Point3, d: Point3) -> int {
    cross_x(a, b, c) * (d.x - a.x) + cross_y(a, b, c) * (d.y - a.y) + cross_z(a, b, c) * (d.z
        - a.z)
}

/// Whether the plane with normal `(nx, ny, nz)` and offset `d` passes through
/// `p`.
pub open spec fn on_plane(nx: int, ny: int, nz: int, d: int, p: Point3) -> bool {
    nx * p.x + ny * p.y + nz * p.z == d
}

/// Whether one plane (with a genuine, nonzero normal) holds every point of
/// `s`.
pub open spec fn plane_through_all(nx: int, ny: int, nz: int, d: int, s: Seq<Point3>) -> bool {
    &&& (nx != 0 || ny != 0 || nz != 0)
    &&& forall|i: int| 0 <= i < s.len() ==> on_plane(nx, ny, nz, d, s[i])
}

/// A point set is degenerate when a single plane holds all of its points; the
/// convex hull of such a set encloses zero volume. This covers the empty set,
/// fewer than four points, all-collinear and all-coplanar configurations.
pub open spec fn degenerate(s: Seq<Point3>) -> bool {
    exists|nx: int, ny: int, nz: int, d: int| plane_through_all(nx, ny, nz, d, s)
}

/// Bound on a product from bounds on its factors.
proof fn lemma_mul_bound(a: int, b: int, ma: int, mb: int) by (nonlinear_arith)
    requires
        -ma <= a <= ma,
        -mb <= b <= mb,
        0 <= ma,
        0 <= mb,
    ensures
        -(ma * mb) <= a * b <= ma * mb,
{
}

/// Triple product expansion `(u x v) x n == v (u . n) - u (v . n)`, one
/// ensures clause per component. A pure ring identity, proved by expanding
/// both sides into monomials.
proof fn lemma_triple_product(
    ux: int, uy: int, uz: int,
    vx: int, vy: int, vz: int,
    nx: int, ny: int, nz: int,
)
    ensures
        (uz * vx - ux * vz) * nz - (ux * vy - uy * vx) * ny == vx * (ux * nx + uy * ny + uz * nz)
            - ux * (vx * nx + vy * ny + vz * nz),
        (ux * vy - uy * vx) * nx - (uy * vz - uz * vy) * nz == vy * (ux * nx + uy * ny + uz * nz)
            - uy * (vx * nx + vy * ny + vz * nz),
        (uy * vz - uz * vy) * ny - (uz * vx - ux * vz) * nx == vz * (ux * nx + uy * ny + uz * nz)
            - uz * (vx * nx + vy * ny + vz * nz),
{
    lemma_expand_product(vx, ux, uy, uz, nx, ny, nz);
    lemma_expand_product(ux, vx, vy, vz, nx, ny, nz);
    lemma_expand_product(vy, ux, uy, uz, nx, ny, nz);
    lemma_expand_product(uy, vx, vy, vz, nx, ny, nz);
    lemma_expand_product(vz, ux, uy, uz, nx, ny, nz);
    lemma_expand_product(uz, vx, vy, vz, nx, ny, nz);

    vstd::arithmetic::mul::lemma_mul_is_distributive_sub_other_way(nz, uz * vx, ux * vz);
    vstd::arithmetic::mul::lemma_mul_is_distributive_sub_other_way(ny, ux * vy, uy * vx);
    vstd::arithmetic::mul::lemma_mul_is_distributive_sub_other_way(nx, ux * vy, uy * vx);
    vstd::arithmetic::mul::lemma_mul_is_distributive_sub_other_way(nz, uy * vz, uz * vy);
    vstd::arithmetic::mul::lemma_mul_is_distributive_sub_other_way(ny, uy * vz, uz * vy);
    vstd::arithmetic::mul::lemma_mul_is_distributive_sub_other_way(nx, uz * vx, ux * vz);

    vstd::arithmetic::mul::lemma_mul_is_commutative(ux, vx);
    vstd::arithmetic::mul::lemma_mul_is_commutative(ux, vy);
    vstd::arithmetic::mul::lemma_mul_is_commutative(ux, vz);
    vstd::arithmetic::mul::lemma_mul_is_commutative(uy, vx);
    vstd::arithmetic::mul::lemma_mul_is_commutative(uy, vy);
    vstd::arithmetic::mul::lemma_mul_is_commutative(uy, vz);
    vstd::arithmetic::mul::lemma_mul_is_commutative(uz, vx);
    vstd::arithmetic::mul::lemma_mul_is_commutative(uz, vy);
    vstd::arithmetic::mul::lemma_mul_is_commutative(uz, vz);
}

/// Expands `a * (bx nx + by ny + bz nz)` into reassociated monomials
/// `(bx a) nx`, `(by a) ny`, `(bz a) nz`.
proof fn lemma_expand_product(a: int, bx: int, by: int, bz: int, nx: int, ny: int, nz: int)
    ensures
        a * (bx * nx + by * ny + bz * nz) == (bx * a) * nx + (by * a) * ny + (bz * a) * nz,
{
    vstd::arithmetic::mul::lemma_mul_is_distributive_add(a, bx * nx + by * ny, bz * nz);
    vstd::arithmetic::mul::lemma_mul_is_distributive_add(a, bx * nx, by * ny);
    vstd::arithmetic::mul::lemma_mul_is_associative(a, bx, nx);
    vstd::arithmetic::mul::lemma_mul_is_commutative(a, bx);
    vstd::arithmetic::mul::lemma_mul_is_associative(a, by, ny);
    vstd::arithmetic::mul::lemma_mul_is_commutative(a, by);
    vstd::arithmetic::mul::lemma_mul_is_associative(a, bz, nz);
    vstd::arithmetic::mul::lemma_mul_is_commutative(a, bz);
}

/// Distributing a dot product over a common scale factor.
proof fn lemma_dot_scale(mx: int, my: int, mz: int, wx: int, wy: int, wz: int, k: int)
    ensures
        (mx * wx + my * wy + mz * wz) * k == wx * (mx * k) + wy * (my * k) + wz * (mz * k),
{
    vstd::arithmetic::mul::lemma_mul_is_distributive_add_other_way(k, mx * wx + my * wy, mz * wz);
    vstd::arithmetic::mul::lemma_mul_is_distributive_add_other_way(k, mx * wx, my * wy);
    vstd::arithmetic::mul::lemma_mul_is_commutative(mx, wx);
    vstd::arithmetic::mul::lemma_mul_is_associative(wx, mx, k);
    vstd::arithmetic::mul::lemma_mul_is_commutative(my, wy);
    vstd::arithmetic::mul::lemma_mul_is_associative(wy, my, k);
    vstd::arithmetic::mul::lemma_mul_is_commutative(mz, wz);
    vstd::arithmetic::mul::lemma_mul_is_associative(wz, mz, k);
}

/// Squares sum to something positive unless all components vanish.
proof fn lemma_norm_positive(nx: int, ny: int, nz: int) by (nonlinear_arith)
    requires
        nx != 0 || ny != 0 || nz != 0,
    ensures
        nx * nx + ny * ny + nz * nz > 0,
{
}

/// A product with a positive factor vanishes only when the other factor does.
proof fn lemma_cancel_positive(a: int, b: int) by (nonlinear_arith)
    requires
        a * b == 0,
        b > 0,
    ensures
        a == 0,
{
}

/// Three vectors orthogonal to one and the same nonzero vector span no
/// volume: their determinant is zero.
proof fn lemma_orthogonal_det_zero(
    ux: int, uy: int, uz: int,
    vx: int, vy: int, vz: int,
    wx: int, wy: int, wz: int,
    nx: int, ny: int, nz: int,
)
    requires
        ux * nx + uy * ny + uz * nz == 0,
        vx * nx + vy * ny + vz * nz == 0,
        wx * nx + wy * ny + wz * nz == 0,
        nx != 0 || ny != 0 || nz != 0,
    ensures
        (uy * vz - uz * vy) * wx + (uz * vx - ux * vz) * wy + (ux * vy - uy * vx) * wz == 0,
{
    let mx = uy * vz - uz * vy;
    let my = uz * vx - ux * vz;
    let mz = ux * vy - uy * vx;
    // The cross product of u and v is orthogonal to anything both u and v are
    // orthogonal to: (u x v) x n = v (u . n) - u (v . n) = 0.
    lemma_triple_product(ux, uy, uz, vx, vy, vz, nx, ny, nz);
    vstd::arithmetic::mul::lemma_mul_by_zero_is_zero(ux);
    vstd::arithmetic::mul::lemma_mul_by_zero_is_zero(uy);
    vstd::arithmetic::mul::lemma_mul_by_zero_is_zero(uz);
    vstd::arithmetic::mul::lemma_mul_by_zero_is_zero(vx);
    vstd::arithmetic::mul::lemma_mul_by_zero_is_zero(vy);
    vstd::arithmetic::mul::lemma_mul_by_zero_is_zero(vz);
    assert(my * nz - mz * ny == 0);
    assert(mz * nx - mx * nz == 0);
    assert(mx * ny - my * nx == 0);
    let nn = nx * nx + ny * ny + nz * nz;
    let mn = mx * nx + my * ny + mz * nz;
    // m is parallel to n: apply the triple product once more, with m and n in
    // the leading roles, to scale m by |n|^2.
    lemma_triple_product(mx, my, mz, nx, ny, nz, nx, ny, nz);
    vstd::arithmetic::mul::lemma_mul_by_zero_is_zero(nx);
    vstd::arithmetic::mul::lemma_mul_by_zero_is_zero(ny);
    vstd::arithmetic::mul::lemma_mul_by_zero_is_zero(nz);
    assert(mx * nn == nx * mn);
    assert(my * nn == ny * mn);
    assert(mz * nn == nz * mn);
    // Hence (m . w) |n|^2 equals (m . n) (n . w), and n . w vanishes.
    lemma_dot_scale(mx, my, mz, wx, wy, wz, nn);
    lemma_dot_scale(nx, ny, nz, wx, wy, wz, mn);
    assert((mx * wx + my * wy + mz * wz) * nn == (nx * wx + ny * wy + nz * wz) * mn);
    vstd::arithmetic::mul::lemma_mul_is_commutative(nx, wx);
    vstd::arithmetic::mul::lemma_mul_is_commutative(ny, wy);
    vstd::arithmetic::mul::lemma_mul_is_commutative(nz, wz);
    assert(nx * wx + ny * wy + nz * wz == 0);
    vstd::arithmetic::mul::lemma_mul_by_zero_is_zero(mn);
    assert((nx * wx + ny * wy + nz * wz) * mn == 0);
    lemma_norm_positive(nx, ny, nz);
    lemma_cancel_positive(mx * wx + my * wy + mz * wz, nn);
}

/// In a degenerate point set, every tetrahedron over its points is flat.
pub proof fn lemma_degenerate_orient_zero(s: Seq<Point3>, i0: int, i1: int, i2: int, i3: int)
    requires
        degenerate(s),
        0 <= i0 < s.len(),
        0 <= i1 < s.len(),
        0 <= i2 < s.len(),
        0 <= i3 < s.len(),
    ensures
        orient(s[i0], s[i1], s[i2], s[i3]) == 0,
{
    let (nx, ny, nz, d) = choose|nx: int, ny: int, nz: int, d: int|
        plane_through_all(nx, ny, nz, d, s);
    let a = s[i0];
    let b = s[i1];
    let c = s[i2];
    let e = s[i3];
    assert(on_plane(nx, ny, nz, d, s[i0]));
    assert(on_plane(nx, ny, nz, d, s[i1]));
    assert(on_plane(nx, ny, nz, d, s[i2]));
    assert(on_plane(nx, ny, nz, d, s[i3]));
    assert((b.x - a.x) * nx + (b.y - a.y) * ny + (b.z - a.z) * nz == 0) by (nonlinear_arith)
        requires
            nx * a.x + ny * a.y + nz * a.z == d,
            nx * b.x + ny * b.y + nz * b.z == d,
    ;
    assert((c.x - a.x) * nx + (c.y - a.y) * ny + (c.z - a.z) * nz == 0) by (nonlinear_arith)
        requires
            nx * a.x + ny * a.y + nz * a.z == d,
            nx * c.x + ny * c.y + nz * c.z == d,
    ;
    assert((e.x - a.x) * nx + (e.y - a.y) * ny + (e.z - a.z) * nz == 0) by (nonlinear_arith)
        requires
            nx * a.x + ny * a.y + nz * a.z == d,
            nx * e.x + ny * e.y + nz * e.z == d,
    ;
    lemma_orthogonal_det_zero(
        b.x - a.x, b.y - a.y, b.z - a.z,
        c.x - a.x, c.y - a.y, c.z - a.z,
        e.x - a.x, e.y - a.y, e.z - a.z,
        nx, ny, nz,
    );
}

/// One tetrahedron of nonzero volume rules out any common plane.
pub proof fn lemma_witness_not_degenerate(s: Seq<Point3>, i0: int, i1: int, i2: int, i3: int)
    requires
        0 <= i0 < s.len(),
        0 <= i1 < s.len(),
        0 <= i2 < s.len(),
        0 <= i3 < s.len(),
        orient(s[i0], s[i1], s[i2], s[i3]) != 0,
    ensures
        !degenerate(s),
{
    if degenerate(s) {
        lemma_degenerate_orient_zero(s, i0, i1, i2, i3);
    }
}

/// A set whose points all coincide with its first point lies in a plane.
pub proof fn lemma_all_equal_degenerate(s: Seq<Point3>)
    requires
        forall|i: int| 0 <= i < s.len() ==> #[trigger] s[i] == s[0],
    ensures
        degenerate(s),
{
    if s.len() == 0 {
        assert(plane_through_all(1, 0, 0, 0, s));
    } else {
        let a = s[0];
        assert forall|i: int| 0 <= i < s.len() implies on_plane(1, 0, 0, a.x as int, s[i]) by {
            assert(s[i] == a);
        }
        assert(plane_through_all(1, 0, 0, a.x as int, s));
    }
}

/// A set whose points are all collinear with two distinct anchors lies in a
/// plane.
pub proof fn lemma_all_collinear_degenerate(s: Seq<Point3>, a: Point3, b: Point3)
    requires
        a != b,
        forall|i: int| 0 <= i < s.len() ==> collinear(a, b, s[i]),
    ensures
        degenerate(s),
{
    let ux = b.x - a.x;
    let uy = b.y - a.y;
    let uz = b.z - a.z;
    if ux != 0 || uy != 0 {
        // Normal (uy, -ux, 0) is orthogonal to the line's direction.
        let d = uy * a.x - ux * a.y;
        assert forall|i: int| 0 <= i < s.len() implies on_plane(uy, -ux, 0, d, s[i]) by {
            let p = s[i];
            assert(collinear(a, b, p));
            assert(uy * p.x + (-ux) * p.y + 0 * p.z == d) by (nonlinear_arith)
                requires
                    ux == b.x - a.x,
                    uy == b.y - a.y,
                    d == uy * a.x - ux * a.y,
                    (b.x - a.x) * (p.y - a.y) - (b.y - a.y) * (p.x - a.x) == 0,
            ;
        }
        assert(plane_through_all(uy, -ux, 0, d, s));
    } else {
        // The line is parallel to the z axis; the plane x == a.x holds all
        // points.
        assert(uz != 0);
        assert forall|i: int| 0 <= i < s.len() implies on_plane(1, 0, 0, a.x as int, s[i]) by {
            let p = s[i];
            assert(collinear(a, b, p));
            assert(cross_y(a, b, p) == 0);
            assert(p.x == a.x) by (nonlinear_arith)
                requires
                    uz != 0,
                    ux == 0,
                    ux == b.x - a.x,
                    uz == b.z - a.z,
                    (b.z - a.z) * (p.x - a.x) - (b.x - a.x) * (p.z - a.z) == 0,
            ;
        }
        assert(plane_through_all(1, 0, 0, a.x as int, s));
    }
}

/// A set whose points are all coplanar with three non-collinear anchors lies
/// in a plane.
pub proof fn lemma_all_coplanar_degenerate(s: Seq<Point3>, a: Point3, b: Point3, c: Point3)
    requires
        !collinear(a, b, c),
        forall|i: int| 0 <= i < s.len() ==> orient(a, b, c, s[i]) == 0,
    ensures
        degenerate(s),
{
    let mx = cross_x(a, b, c);
    let my = cross_y(a, b, c);
    let mz = cross_z(a, b, c);
    let d = mx * a.x + my * a.y + mz * a.z;
    assert forall|i: int| 0 <= i < s.len() implies on_plane(mx, my, mz, d, s[i]) by {
        let p = s[i];
        assert(orient(a, b, c, p) == 0);
        assert(mx * (p.x - a.x) + my * (p.y - a.y) + mz * (p.z - a.z) == 0);
        assert(mx * p.x + my * p.y + mz * p.z == d) by (nonlinear_arith)
            requires
                d == mx * a.x + my * a.y + mz * a.z,
                mx * (p.x - a.x) + my * (p.y - a.y) + mz * (p.z - a.z) == 0,
        ;
    }
    assert(plane_through_all(mx, my, mz, d, s));
}

/// Exact cross product of `b - a` and `c - a`, one component per return slot.
pub fn cross_of(a: &Point3, b: &Point3, c: &Point3) -> (r: (i64, i64, i64))
    requires
        in_bounds(*a),
        in_bounds(*b),
        in_bounds(*c),
    ensures
        r.0 == cross_x(*a, *b, *c),
        r.1 == cross_y(*a, *b, *c),
        r.2 == cross_z(*a, *b, *c),
{
    let ux: i64 = b.x - a.x;
    let uy: i64 = b.y - a.y;
    let uz: i64 = b.z - a.z;
    let vx: i64 = c.x - a.x;
    let vy: i64 = c.y - a.y;
    let vz: i64 = c.z - a.z;
    proof {
        lemma_mul_bound(uy as int, vz as int, 2_000_000, 2_000_000);
        lemma_mul_bound(uz as int, vy as int, 2_000_000, 2_000_000);
        lemma_mul_bound(uz as int, vx as int, 2_000_000, 2_000_000);
        lemma_mul_bound(ux as int, vz as int, 2_000_000, 2_000_000);
        lemma_mul_bound(ux as int, vy as int, 2_000_000, 2_000_000);
        lemma_mul_bound(uy as int, vx as int, 2_000_000, 2_000_000);
    }
    (uy * vz - uz * vy, uz * vx - ux * vz, ux * vy - uy * vx)
}

/// Exact signed tetrahedron volume (times six), evaluated in `i128`.
pub fn orient_of(a: &Point3, b: &Point3, c: &Point3, d: &Point3) -> (r: i128)
    requires
        in_bounds(*a),
        in_bounds(*b),
        in_bounds(*c),
        in_bounds(*d),
    ensures
        r == orient(*a, *b, *c, *d),
{
    let (mx, my, mz) = cross_of(a, b, c);
    let wx: i64 = d.x - a.x;
    let wy: i64 = d.y - a.y;
    let wz: i64 = d.z - a.z;
    proof {
        lemma_mul_bound(b.y - a.y, c.z - a.z, 2_000_000, 2_000_000);
        lemma_mul_bound(b.z - a.z, c.y - a.y, 2_000_000, 2_000_000);
        lemma_mul_bound(b.z - a.z, c.x - a.x, 2_000_000, 2_000_000);
        lemma_mul_bound(b.x - a.x, c.z - a.z, 2_000_000, 2_000_000);
        lemma_mul_bound(b.x - a.x, c.y - a.y, 2_000_000, 2_000_000);
        lemma_mul_bound(b.y - a.y, c.x - a.x, 2_000_000, 2_000_000);
        lemma_mul_bound(mx as int, wx as int, 8_000_000_000_000, 2_000_000);
        lemma_mul_bound(my as int, wy as int, 8_000_000_000_000, 2_000_000);
        lemma_mul_bound(mz as int, wz as int, 8_000_000_000_000, 2_000_000);
    }
    (mx as i128) * (wx as i128) + (my as i128) * (wy as i128) + (mz as i128) * (wz as i128)
}

} // verus!
