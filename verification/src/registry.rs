//! The mesh asset registry: tracks the catalog of mesh assets to stream in
//! and their load completion state. Loading itself is the asynchronous
//! loader's business; the registry only records outcomes and answers
//! non-blocking polls.

use crate::mesh::{mesh_wf, MeshModel, TriangleMesh};
use vstd::prelude::*;

verus! {

/// Load progress of one catalog asset, as reported by a poll.
#[derive(Clone, Copy, PartialEq, Eq, Structural, Debug)]
pub enum LoadPhase {
    Pending,
    Ready,
    Failed,
}

/// Load state of one catalog asset, mesh data included once ready.
pub enum LoadState {
    Pending,
    Ready(TriangleMesh),
    Failed,
}

/// Mathematical model of one registry slot.
pub enum SlotModel {
    Pending,
    Ready(MeshModel),
    Failed,
}

/// The phase a slot model answers to a poll.
pub open spec fn phase_of(s: SlotModel) -> LoadPhase {
    match s {
        SlotModel::Pending => LoadPhase::Pending,
        SlotModel::Ready(_) => LoadPhase::Ready,
        SlotModel::Failed => LoadPhase::Failed,
    }
}

/// Handle to one registered asset. Assets are named by their zero-based
/// catalog index, so the handle is that index.
#[derive(Clone, Copy, PartialEq, Eq, Structural, Debug)]
pub struct AssetHandle {
    pub index: usize,
}

/// The registry: one slot per catalog asset, held for the whole session.
pub struct AssetRegistry {
    slots: Vec<LoadState>,
}

impl View for AssetRegistry {
    type V = Seq<SlotModel>;

    closed spec fn view(&self) -> Seq<SlotModel> {
        self.slots@.map_values(
            |s: LoadState|
                match s {
                    LoadState::Pending => SlotModel::Pending,
                    LoadState::Ready(m) => SlotModel::Ready(m@),
                    LoadState::Failed => SlotModel::Failed,
                },
        )
    }
}

impl AssetRegistry {
    /// Every mesh a slot holds is well formed.
    pub open spec fn wf(&self) -> bool {
        forall|i: int|
            0 <= i < self@.len() ==> match #[trigger] self@[i] {
                SlotModel::Ready(m) => mesh_wf(m),
                _ => true,
            }
    }

    /// A registry populated with the fixed catalog: `catalog_size` assets,
    /// all pending.
    pub fn new(catalog_size: usize) -> (r: AssetRegistry)
        ensures
            r@.len() == catalog_size,
            forall|i: int| 0 <= i < r@.len() ==> #[trigger] r@[i] == SlotModel::Pending,
            r.wf(),
    {
        let mut slots: Vec<LoadState> = Vec::new();
        let mut i: usize = 0;
        while i < catalog_size
            invariant
                0 <= i <= catalog_size,
                slots@.len() == i,
                forall|k: int|
                    0 <= k < slots@.len() ==> #[trigger] slots@[k] == LoadState::Pending,
            decreases catalog_size - i,
        {
            slots.push(LoadState::Pending);
            i += 1;
        }
        AssetRegistry { slots }
    }

    /// Number of assets the registry holds a slot for.
    pub fn asset_count(&self) -> (n: usize)
        ensures
            n == self@.len(),
    {
        self.slots.len()
    }

    /// Issues a load request for the asset with catalog index `name` and
    /// returns its handle at once, in pending state. Re-requesting an
    /// already registered index changes nothing and returns the same handle:
    /// registration is idempotent. Requesting past the current catalog end
    /// extends the catalog with pending slots.
    pub fn request(&mut self, name: usize) -> (h: AssetHandle)
        requires
            old(self).wf(),
            name < usize::MAX,
        ensures
            h.index == name,
            final(self)@.len() == if name < old(self)@.len() {
                old(self)@.len() as int
            } else {
                name + 1
            },
            forall|i: int|
                0 <= i < old(self)@.len() ==> #[trigger] final(self)@[i] == old(self)@[i],
            forall|i: int|
                old(self)@.len() <= i < final(self)@.len() ==> #[trigger] final(self)@[i]
                    == SlotModel::Pending,
            final(self).wf(),
    {
        if name < self.slots.len() {
            return AssetHandle { index: name };
        }
        while self.slots.len() <= name
            invariant
                old(self).wf(),
                name < usize::MAX,
                old(self)@.len() <= self@.len() <= name + 1,
                forall|i: int| 0 <= i < old(self)@.len() ==> #[trigger] self@[i] == old(self)@[i],
                forall|i: int|
                    old(self)@.len() <= i < self@.len() ==> #[trigger] self@[i]
                        == SlotModel::Pending,
            decreases name + 1 - self.slots.len(),
        {
            let ghost before = self@;
            self.slots.push(LoadState::Pending);
            proof {
                assert(self@ =~= before.push(SlotModel::Pending));
            }
        }
        AssetHandle { index: name }
    }

    /// Non-blocking poll of an asset's load progress; safe to call every
    /// tick.
    pub fn poll(&self, h: AssetHandle) -> (p: LoadPhase)
        requires
            h.index < self@.len(),
        ensures
            p == phase_of(self@[h.index as int]),
    {
        match &self.slots[h.index] {
            LoadState::Pending => LoadPhase::Pending,
            LoadState::Ready(_) => LoadPhase::Ready,
            LoadState::Failed => LoadPhase::Failed,
        }
    }

    /// The triangle mesh of a ready asset, or nothing while the asset is
    /// pending or failed.
    pub fn mesh(&self, h: AssetHandle) -> (r: Option<&TriangleMesh>)
        requires
            h.index < self@.len(),
        ensures
            match r {
                Some(m) => self@[h.index as int] == SlotModel::Ready(m@),
                None => phase_of(self@[h.index as int]) != LoadPhase::Ready,
            },
    {
        match &self.slots[h.index] {
            LoadState::Ready(m) => Some(m),
            _ => None,
        }
    }

    /// Records the asynchronous loader's outcome for one asset: a pending
    /// slot becomes ready on a delivered mesh and failed on none. Slots that
    /// already completed stay as they are; only the loader's first answer
    /// counts. Delivered meshes come from the mesh validator, so they are
    /// well formed.
    pub fn complete(&mut self, h: AssetHandle, outcome: Option<TriangleMesh>)
        requires
            old(self).wf(),
            h.index < old(self)@.len(),
            outcome matches Some(m) ==> m.wf(),
        ensures
            final(self)@.len() == old(self)@.len(),
            forall|i: int|
                0 <= i < final(self)@.len() && i != h.index ==> #[trigger] final(self)@[i]
                    == old(self)@[i],
            old(self)@[h.index as int] == SlotModel::Pending ==> final(self)@[h.index as int] == (
            match outcome {
                Some(m) => SlotModel::Ready(m@),
                None => SlotModel::Failed,
            }),
            old(self)@[h.index as int] != SlotModel::Pending ==> final(self)@[h.index as int]
                == old(self)@[h.index as int],
            final(self).wf(),
    {
        let pending = match &self.slots[h.index] {
            LoadState::Pending => true,
            _ => false,
        };
        if !pending {
            return ;
        }
        let ghost before = self@;
        let state = match outcome {
            Some(m) => LoadState::Ready(m),
            None => LoadState::Failed,
        };
        self.slots.set(h.index, state);
        proof {
            assert(forall|i: int|
                0 <= i < self@.len() && i != h.index ==> #[trigger] self@[i] == before[i]);
        }
    }
}

} // verus!
