//! The spawn controller: on each rising edge of the trigger input, it walks
//! the asset catalog in index order, synthesizes a collider for every ready
//! mesh and drops one dynamic body per usable asset into the world at a
//! fixed spawn point, cycling display materials.

use crate::body::{BodyKind, BodyModel, Color, RigidBody, Transform, World};
use crate::collider::synthesize;
use crate::geom::{degenerate, Point3};
use crate::mesh::MeshModel;
use crate::palette::MaterialPalette;
use crate::registry::{AssetHandle, AssetRegistry, SlotModel};
use vstd::pervasive::arbitrary;
use vstd::prelude::*;

verus! {

/// Gravity-scale override applied uniformly to every spawned body: debris
/// falls heavier than default.
pub const SPAWN_GRAVITY_SCALE: u32 = 20;

/// The fixed drop point shared by every body of a spawn batch. Bodies stack
/// there and separate under simulation.
pub open spec fn spawn_translation() -> Point3 {
    Point3 { x: 0, y: 80, z: 0 }
}

/// A discrete trigger fires on a rising edge only: pressed now, not pressed
/// on the previous tick. A held trigger never re-fires.
pub open spec fn trigger_fires(was_pressed: bool, pressed: bool) -> bool {
    pressed && !was_pressed
}

/// Whether one catalog slot yields a body this trigger: it is ready and its
/// mesh's vertices enclose volume.
pub open spec fn slot_spawns(s: SlotModel) -> bool {
    match s {
        SlotModel::Ready(m) => !degenerate(m.vertices),
        _ => false,
    }
}

/// The mesh carried by a ready slot.
pub open spec fn slot_mesh(s: SlotModel) -> MeshModel {
    match s {
        SlotModel::Ready(m) => m,
        _ => arbitrary(),
    }
}

/// The body spawned for catalog asset `idx` with mesh `m`: dynamic, its
/// collider the mesh's vertex cloud, posed at the fixed spawn point, colored
/// by catalog index modulo the palette length, with the uniform
/// gravity-scale override.
pub open spec fn spawned_body(m: MeshModel, idx: int, palette: Seq<Color>) -> BodyModel {
    BodyModel {
        kind: BodyKind::Dynamic,
        collider: m.vertices,
        transform: Transform { translation: spawn_translation() },
        material: palette[idx % palette.len() as int],
        gravity_scale: Some(SPAWN_GRAVITY_SCALE),
    }
}

/// The bodies one trigger inserts for the first `n` catalog slots, in
/// catalog index order.
pub open spec fn spawn_batch_prefix(slots: Seq<SlotModel>, palette: Seq<Color>, n: int) -> Seq<
    BodyModel,
>
    decreases n,
{
    if n <= 0 {
        Seq::empty()
    } else {
        spawn_batch_prefix(slots, palette, n - 1) + if slot_spawns(slots[n - 1]) {
            seq![spawned_body(slot_mesh(slots[n - 1]), n - 1, palette)]
        } else {
            Seq::empty()
        }
    }
}

/// The bodies one trigger inserts, over the whole catalog.
pub open spec fn spawn_batch(slots: Seq<SlotModel>, palette: Seq<Color>) -> Seq<BodyModel> {
    spawn_batch_prefix(slots, palette, slots.len() as int)
}

/// The spawn controller: idle between triggers, spawning for one tick on a
/// rising edge. Its only state is the previous tick's trigger level, which
/// makes the input edge-triggered.
pub struct SpawnController {
    was_pressed: bool,
}

impl View for SpawnController {
    type V = bool;

    closed spec fn view(&self) -> bool {
        self.was_pressed
    }
}

impl SpawnController {
    /// A fresh controller that has not seen the trigger pressed.
    pub fn new() -> (c: SpawnController)
        ensures
            c@ == false,
    {
        SpawnController { was_pressed: false }
    }

    /// One simulation tick. On a rising edge of `pressed`, every ready
    /// asset's mesh is synthesized into a collider and one dynamic body per
    /// usable asset is inserted, in catalog order; otherwise the world is
    /// untouched. Pending and failed assets are skipped without error, as
    /// are meshes whose hull is degenerate. Returns how many bodies were
    /// inserted.
    pub fn tick(
        &mut self,
        pressed: bool,
        registry: &AssetRegistry,
        palette: &MaterialPalette,
        world: &mut World,
    ) -> (spawned: usize)
        requires
            registry.wf(),
            palette.wf(),
            old(world).wf(),
        ensures
            final(self)@ == pressed,
            final(world).wf(),
            trigger_fires(old(self)@, pressed) ==> final(world)@ == old(world)@ + spawn_batch(
                registry@,
                palette@,
            ),
            !trigger_fires(old(self)@, pressed) ==> final(world)@ == old(world)@,
            spawned == final(world)@.len() - old(world)@.len(),
    {
        let fires = pressed && !self.was_pressed;
        self.was_pressed = pressed;
        if !fires {
            return 0;
        }
        let ghost w0 = world@;
        let before = world.body_count();
        let n = registry.asset_count();
        let palette_len = palette.len();
        let mut i: usize = 0;
        while i < n
            invariant
                0 <= i <= n,
                n == registry@.len(),
                palette_len == palette@.len(),
                registry.wf(),
                palette.wf(),
                world.wf(),
                world@ == w0 + spawn_batch_prefix(registry@, palette@, i as int),
            decreases n - i,
        {
            let h = AssetHandle { index: i };
            match registry.mesh(h) {
                Some(mesh) => {
                    match synthesize(mesh) {
                        Some(collider) => {
                            let body = RigidBody {
                                kind: BodyKind::Dynamic,
                                collider,
                                transform: Transform {
                                    translation: Point3 { x: 0, y: 80, z: 0 },
                                },
                                material: palette.color(i % palette_len),
                                gravity_scale: Some(SPAWN_GRAVITY_SCALE),
                            };
                            proof {
                                assert(slot_spawns(registry@[i as int]));
                                assert(body@ == spawned_body(
                                    slot_mesh(registry@[i as int]),
                                    i as int,
                                    palette@,
                                ));
                            }
                            world.insert(body);
                            proof {
                                assert(world@ =~= w0 + spawn_batch_prefix(
                                    registry@,
                                    palette@,
                                    i + 1 as int,
                                ));
                            }
                        },
                        None => {
                            proof {
                                assert(!slot_spawns(registry@[i as int]));
                                assert(world@ =~= w0 + spawn_batch_prefix(
                                    registry@,
                                    palette@,
                                    i + 1 as int,
                                ));
                            }
                        },
                    }
                },
                None => {
                    proof {
                        assert(!slot_spawns(registry@[i as int]));
                        assert(world@ =~= w0 + spawn_batch_prefix(
                            registry@,
                            palette@,
                            i + 1 as int,
                        ));
                    }
                },
            }
            i += 1;
        }
        let after = world.body_count();
        after - before
    }
}

/// Whether a slot would answer a poll with something other than ready.
pub open spec fn slot_not_ready(s: SlotModel) -> bool {
    !(s matches SlotModel::Ready(_))
}

/// Law: a trigger with no ready asset inserts no bodies.
pub proof fn lemma_no_ready_no_bodies(slots: Seq<SlotModel>, palette: Seq<Color>)
    requires
        forall|i: int| 0 <= i < slots.len() ==> slot_not_ready(#[trigger] slots[i]),
    ensures
        spawn_batch(slots, palette) == Seq::<BodyModel>::empty(),
{
    lemma_prefix_empty(slots, palette, slots.len() as int);
}

proof fn lemma_prefix_empty(slots: Seq<SlotModel>, palette: Seq<Color>, n: int)
    requires
        n <= slots.len(),
        forall|i: int| 0 <= i < slots.len() ==> slot_not_ready(#[trigger] slots[i]),
    ensures
        spawn_batch_prefix(slots, palette, n) == Seq::<BodyModel>::empty(),
    decreases n,
{
    if n > 0 {
        lemma_prefix_empty(slots, palette, n - 1);
        assert(spawn_batch_prefix(slots, palette, n) =~= Seq::<BodyModel>::empty());
    }
}

/// Law: when every catalog asset is ready with a mesh that encloses volume,
/// one trigger inserts exactly one dynamic body per asset, in catalog order,
/// the body for asset `i` colored with palette entry `i` modulo the palette
/// length.
pub proof fn lemma_all_ready_spawn_shape(slots: Seq<SlotModel>, palette: Seq<Color>)
    requires
        palette.len() > 0,
        forall|i: int| 0 <= i < slots.len() ==> slot_spawns(#[trigger] slots[i]),
    ensures
        spawn_batch(slots, palette).len() == slots.len(),
        forall|i: int|
            0 <= i < slots.len() ==> #[trigger] spawn_batch(slots, palette)[i] == spawned_body(
                slot_mesh(slots[i]),
                i,
                palette,
            ),
{
    lemma_prefix_all_ready(slots, palette, slots.len() as int);
}

proof fn lemma_prefix_all_ready(slots: Seq<SlotModel>, palette: Seq<Color>, n: int)
    requires
        palette.len() > 0,
        n <= slots.len(),
        forall|i: int| 0 <= i < slots.len() ==> slot_spawns(#[trigger] slots[i]),
    ensures
        spawn_batch_prefix(slots, palette, n).len() == if n >= 0 {
            n
        } else {
            0
        },
        forall|i: int|
            0 <= i < n ==> #[trigger] spawn_batch_prefix(slots, palette, n)[i] == spawned_body(
                slot_mesh(slots[i]),
                i,
                palette,
            ),
    decreases n,
{
    if n > 0 {
        lemma_prefix_all_ready(slots, palette, n - 1);
    }
}

/// How many of the first `n` catalog slots yield a body on one trigger.
pub open spec fn spawn_count_prefix(slots: Seq<SlotModel>, n: int) -> int
    decreases n,
{
    if n <= 0 {
        0
    } else {
        spawn_count_prefix(slots, n - 1) + if slot_spawns(slots[n - 1]) {
            1int
        } else {
            0int
        }
    }
}

proof fn lemma_prefix_len_counts(slots: Seq<SlotModel>, palette: Seq<Color>, n: int)
    requires
        n <= slots.len(),
    ensures
        spawn_batch_prefix(slots, palette, n).len() == spawn_count_prefix(slots, n),
    decreases n,
{
    if n > 0 {
        lemma_prefix_len_counts(slots, palette, n - 1);
    }
}

/// Law: one trigger inserts exactly one dynamic body per asset that is
/// ready and whose mesh encloses volume — no more, no fewer.
pub proof fn lemma_batch_len_counts_ready(slots: Seq<SlotModel>, palette: Seq<Color>)
    ensures
        spawn_batch(slots, palette).len() == spawn_count_prefix(slots, slots.len() as int),
{
    lemma_prefix_len_counts(slots, palette, slots.len() as int);
}

proof fn lemma_count_nonneg(slots: Seq<SlotModel>, n: int)
    ensures
        spawn_count_prefix(slots, n) >= 0,
    decreases n,
{
    if n > 0 {
        lemma_count_nonneg(slots, n - 1);
    }
}

proof fn lemma_prefix_spawn_position(slots: Seq<SlotModel>, palette: Seq<Color>, j: int, n: int)
    requires
        0 <= j < n <= slots.len(),
        slot_spawns(slots[j]),
    ensures
        spawn_count_prefix(slots, j) < spawn_batch_prefix(slots, palette, n).len(),
        spawn_batch_prefix(slots, palette, n)[spawn_count_prefix(slots, j)] == spawned_body(
            slot_mesh(slots[j]),
            j,
            palette,
        ),
    decreases n,
{
    lemma_prefix_len_counts(slots, palette, n - 1);
    lemma_count_nonneg(slots, j);
    let body = spawned_body(slot_mesh(slots[j]), j, palette);
    let k = spawn_count_prefix(slots, j);
    if n - 1 == j {
        lemma_prefix_len_counts(slots, palette, j);
        assert(spawn_batch_prefix(slots, palette, n) == spawn_batch_prefix(slots, palette, j)
            + seq![body]);
        assert((spawn_batch_prefix(slots, palette, j) + seq![body])[k] == body);
    } else {
        lemma_prefix_spawn_position(slots, palette, j, n - 1);
        let rest = if slot_spawns(slots[n - 1]) {
            seq![spawned_body(slot_mesh(slots[n - 1]), n - 1, palette)]
        } else {
            Seq::<BodyModel>::empty()
        };
        assert(spawn_batch_prefix(slots, palette, n) == spawn_batch_prefix(slots, palette, n - 1)
            + rest);
        assert((spawn_batch_prefix(slots, palette, n - 1) + rest)[k] == spawn_batch_prefix(
            slots,
            palette,
            n - 1,
        )[k]);
    }
}

/// Law: the batch lists spawned bodies in catalog index order: the body of
/// the ready, usable asset `j` stands at the position given by how many
/// usable assets precede it, and carries palette color `j` modulo the
/// palette length.
pub proof fn lemma_spawn_order_and_materials(slots: Seq<SlotModel>, palette: Seq<Color>, j: int)
    requires
        0 <= j < slots.len(),
        slot_spawns(slots[j]),
    ensures
        spawn_count_prefix(slots, j) < spawn_batch(slots, palette).len(),
        spawn_batch(slots, palette)[spawn_count_prefix(slots, j)] == spawned_body(
            slot_mesh(slots[j]),
            j,
            palette,
        ),
{
    lemma_prefix_spawn_position(slots, palette, j, slots.len() as int);
}

/// Law: spawned bodies accumulate without deduplication or cap: a second
/// trigger on an unchanged registry adds the same batch again, so two
/// triggers insert twice the batch.
pub proof fn lemma_triggers_accumulate(
    w0: Seq<BodyModel>,
    slots: Seq<SlotModel>,
    palette: Seq<Color>,
)
    ensures
        ((w0 + spawn_batch(slots, palette)) + spawn_batch(slots, palette)).len() == w0.len() + 2
            * spawn_batch(slots, palette).len(),
{
}

/// The world after running a sequence of ticks with the given trigger
/// levels, starting from trigger level `was`: each rising edge appends one
/// spawn batch. This is the specification the controller's `tick` steps
/// through, one input per tick.
pub open spec fn run_ticks(
    w: Seq<BodyModel>,
    was: bool,
    inputs: Seq<bool>,
    slots: Seq<SlotModel>,
    palette: Seq<Color>,
) -> Seq<BodyModel>
    decreases inputs.len(),
{
    if inputs.len() == 0 {
        w
    } else {
        run_ticks(
            if trigger_fires(was, inputs[0]) {
                w + spawn_batch(slots, palette)
            } else {
                w
            },
            inputs[0],
            inputs.subrange(1, inputs.len() as int),
            slots,
            palette,
        )
    }
}

/// One tick is one step of `run_ticks`: a rising edge appends one batch,
/// anything else leaves the world alone. This is the shape of `tick`'s
/// contract, so a run of `tick` calls walks `run_ticks` input by input.
pub proof fn lemma_run_ticks_single(
    w: Seq<BodyModel>,
    was: bool,
    pressed: bool,
    slots: Seq<SlotModel>,
    palette: Seq<Color>,
)
    ensures
        run_ticks(w, was, seq![pressed], slots, palette) == if trigger_fires(was, pressed) {
            w + spawn_batch(slots, palette)
        } else {
            w
        },
{
    reveal_with_fuel(run_ticks, 2);
    let inputs = seq![pressed];
    assert(inputs.subrange(1, 1) =~= Seq::<bool>::empty());
}

/// Law: while the trigger stays held, no tick after the first spawns again.
pub proof fn lemma_held_no_refire(
    w: Seq<BodyModel>,
    inputs: Seq<bool>,
    slots: Seq<SlotModel>,
    palette: Seq<Color>,
)
    requires
        forall|i: int| 0 <= i < inputs.len() ==> #[trigger] inputs[i] == true,
    ensures
        run_ticks(w, true, inputs, slots, palette) == w,
    decreases inputs.len(),
{
    if inputs.len() > 0 {
        let rest = inputs.subrange(1, inputs.len() as int);
        assert(forall|i: int| 0 <= i < rest.len() ==> #[trigger] rest[i] == true);
        lemma_held_no_refire(w, rest, slots, palette);
    }
}

/// Law: a trigger held across any number of ticks produces exactly one
/// spawn batch, not one per tick: the input is edge-triggered, not
/// level-triggered.
pub proof fn lemma_held_trigger_single_batch(
    w: Seq<BodyModel>,
    inputs: Seq<bool>,
    slots: Seq<SlotModel>,
    palette: Seq<Color>,
)
    requires
        inputs.len() > 0,
        forall|i: int| 0 <= i < inputs.len() ==> #[trigger] inputs[i] == true,
    ensures
        run_ticks(w, false, inputs, slots, palette) == w + spawn_batch(slots, palette),
{
    let rest = inputs.subrange(1, inputs.len() as int);
    assert(forall|i: int| 0 <= i < rest.len() ==> #[trigger] rest[i] == true);
    lemma_held_no_refire(w + spawn_batch(slots, palette), rest, slots, palette);
}

} // verus!
