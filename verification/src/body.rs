//! Rigid bodies and the simulation world's body store.

use crate::collider::ConvexCollider;
use crate::geom::{degenerate, Point3};
use vstd::prelude::*;

verus! {

/// A display color, 8-bit RGB.
#[derive(Clone, Copy, PartialEq, Eq, Structural, Debug)]
pub struct Color {
    pub red: u8,
    pub green: u8,
    pub blue: u8,
}

/// Whether a body is immovable scenery or force-responsive.
#[derive(Clone, Copy, PartialEq, Eq, Structural, Debug)]
pub enum BodyKind {
    Fixed,
    Dynamic,
}

/// A body's pose. Bodies here are placed by translation alone; rotation
/// stays at identity and evolves only inside the physics engine.
#[derive(Clone, Copy, PartialEq, Eq, Structural, Debug)]
pub struct Transform {
    pub translation: Point3,
}

/// Mathematical model of a rigid body: its collider is modelled by the point
/// cloud describing it.
pub struct BodyModel {
    pub kind: BodyKind,
    pub collider: Seq<Point3>,
    pub transform: Transform,
    pub material: Color,
    pub gravity_scale: Option<u32>,
}

/// A simulated physical entity: kind, collision volume, pose, display
/// material and an optional gravity-scale override.
pub struct RigidBody {
    pub kind: BodyKind,
    pub collider: ConvexCollider,
    pub transform: Transform,
    pub material: Color,
    pub gravity_scale: Option<u32>,
}

impl View for RigidBody {
    type V = BodyModel;

    open spec fn view(&self) -> BodyModel {
        BodyModel {
            kind: self.kind,
            collider: self.collider@,
            transform: self.transform,
            material: self.material,
            gravity_scale: self.gravity_scale,
        }
    }
}

/// The invariant every body in the world obeys: a dynamic body always
/// carries a collider that encloses volume. Bodies whose mesh yields a
/// degenerate hull are never created.
pub open spec fn body_wf(b: BodyModel) -> bool {
    b.kind == BodyKind::Dynamic ==> !degenerate(b.collider)
}

/// The simulation world's set of rigid bodies, in insertion order. Bodies
/// are only ever added, never queried back by the core nor removed.
pub struct World {
    bodies: Vec<RigidBody>,
}

impl View for World {
    type V = Seq<BodyModel>;

    closed spec fn view(&self) -> Seq<BodyModel> {
        self.bodies@.map_values(|b: RigidBody| b@)
    }
}

impl World {
    /// Every body of the world satisfies the body invariant.
    pub open spec fn wf(&self) -> bool {
        forall|i: int| 0 <= i < self@.len() ==> body_wf(#[trigger] self@[i])
    }

    /// An empty world.
    pub fn new() -> (w: World)
        ensures
            w@ == Seq::<BodyModel>::empty(),
            w.wf(),
    {
        let w = World { bodies: Vec::new() };
        proof {
            assert(w@ =~= Seq::<BodyModel>::empty());
        }
        w
    }

    /// Inserts a body at the end of the world. The caller vouches for the
    /// body invariant; the world keeps it.
    pub fn insert(&mut self, body: RigidBody)
        requires
            old(self).wf(),
            body_wf(body@),
        ensures
            final(self)@ == old(self)@.push(body@),
            final(self).wf(),
    {
        self.bodies.push(body);
        proof {
            assert(self@ =~= old(self)@.push(self.bodies@.last()@));
        }
    }

    /// Number of bodies inserted so far.
    pub fn body_count(&self) -> (n: usize)
        ensures
            n == self@.len(),
    {
        self.bodies.len()
    }

    /// Read access to the body at `i`.
    pub fn body(&self, i: usize) -> (b: &RigidBody)
        requires
            i < self@.len(),
        ensures
            b@ == self@[i as int],
    {
        &self.bodies[i]
    }
}

} // verus!
