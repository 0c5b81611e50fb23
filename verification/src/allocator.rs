//! The generational slot allocator.

use vstd::prelude::*;
use crate::handle::Index;
use crate::handle::IndexModel;

verus! {

/// The mathematical state of one slot: its liveness flag and its current
/// generation.
pub struct SlotState {
    pub live: bool,
    pub generation: nat,
}

/// The mathematical state of an [`Allocator`]: one [`SlotState`] per slot
/// ever issued, in a dense, append-only sequence addressed by slot number,
/// plus a free-list (a stack, last-recycled-first) of slot numbers eligible
/// for reuse.
#[verifier::ext_equal]
pub struct AllocatorModel {
    pub slots: Seq<SlotState>,
    pub free: Seq<nat>,
}

impl AllocatorModel {
    /// The state of a freshly constructed allocator.
    pub open spec fn empty() -> AllocatorModel {
        AllocatorModel { slots: Seq::empty(), free: Seq::empty() }
    }

    /// Well-formedness: every free-list entry names an existing, dead slot,
    /// and no slot is on the free-list twice. Constructors establish this and
    /// every operation preserves it.
    pub open spec fn wf(self) -> bool {
        &&& forall|k: int|
            0 <= k < self.free.len() ==> (#[trigger] self.free[k]) < self.slots.len()
                && !self.slots[self.free[k] as int].live
        &&& forall|k: int, l: int|
            0 <= k < l < self.free.len() ==> self.free[k] != self.free[l]
    }

    /// The check [`Allocator::is_live`] performs: the slot's current liveness
    /// flag, `false` for a slot number never issued. Note that this inspects
    /// the slot alone, never `h.generation`.
    pub open spec fn slot_live(self, slot: nat) -> bool {
        slot < self.slots.len() && self.slots[slot as int].live
    }

    /// A handle is live when its slot is live *and* its generation is the
    /// slot's current one: this is the strict notion under which a stale
    /// handle is dead.
    pub open spec fn live(self, h: IndexModel) -> bool {
        self.slot_live(h.slot) && self.slots[h.slot as int].generation == h.generation
    }

    /// What `allocate` does: pop the most recently recycled slot and bump its
    /// generation, or append a brand-new slot at generation 0. Returns the
    /// new state and the issued handle.
    pub open spec fn allocate_step(self) -> (AllocatorModel, IndexModel) {
        if self.free.len() > 0 {
            let slot = self.free.last();
            let g = self.slots[slot as int].generation + 1;
            (
                AllocatorModel {
                    slots: self.slots.update(slot as int, SlotState { live: true, generation: g }),
                    free: self.free.drop_last(),
                },
                IndexModel { slot, generation: g },
            )
        } else {
            (
                AllocatorModel {
                    slots: self.slots.push(SlotState { live: true, generation: 0 }),
                    free: self.free,
                },
                IndexModel { slot: self.slots.len(), generation: 0 },
            )
        }
    }

    /// What `deallocate` does: if the handle's slot is currently live, mark
    /// it dead and push it onto the free-list; otherwise nothing. The check
    /// inspects only the slot's liveness flag — deliberately not
    /// `h.generation` — so a stale handle whose slot has been reallocated
    /// (and is live again) recycles the new occupant's slot.
    pub open spec fn deallocate_step(self, h: IndexModel) -> AllocatorModel {
        if self.slot_live(h.slot) {
            AllocatorModel {
                slots: self.slots.update(
                    h.slot as int,
                    SlotState { live: false, generation: self.slots[h.slot as int].generation },
                ),
                free: self.free.push(h.slot),
            }
        } else {
            self
        }
    }

    /// Machine limit only: the next `allocate` must not push a slot's
    /// generation counter past `usize::MAX`.
    pub open spec fn can_allocate(self) -> bool {
        self.free.len() > 0 ==> self.slots[self.free.last() as int].generation < usize::MAX
    }
}

/// One slot's concrete state.
#[derive(Debug, Clone, Copy)]
pub(crate) struct AllocatorEntry {
    pub(crate) is_live: bool,
    pub(crate) generation: usize,
}

impl AllocatorEntry {
    pub(crate) fn new() -> (r: AllocatorEntry)
        ensures
            r.is_live == true,
            r.generation == 0,
    {
        AllocatorEntry { is_live: true, generation: 0 }
    }

    pub(crate) open spec fn model(self) -> SlotState {
        SlotState { live: self.is_live, generation: self.generation as nat }
    }
}

/// Issues and recycles slot numbers, tagging each with a generation counter,
/// and hands them out as [`Index`] handles.
#[derive(Debug, Clone)]
pub struct Allocator {
    entries: Vec<AllocatorEntry>,
    free: Vec<usize>,
}

impl View for Allocator {
    type V = AllocatorModel;

    closed spec fn view(&self) -> AllocatorModel {
        AllocatorModel {
            slots: self.entries@.map_values(|e: AllocatorEntry| e.model()),
            free: self.free@.map_values(|s: usize| s as nat),
        }
    }
}

impl Allocator {
    /// A fresh allocator: no slots issued, nothing to recycle.
    pub fn new() -> (r: Allocator)
        ensures
            r@ == AllocatorModel::empty(),
            r@.wf(),
    {
        let r = Allocator { entries: Vec::new(), free: Vec::new() };
        proof {
            assert(r@ =~= AllocatorModel::empty());
        }
        r
    }

    /// Issue a handle. If the free-list is non-empty, the most recently
    /// recycled slot is reused with its generation incremented; otherwise a
    /// brand-new slot is appended at generation 0. Always succeeds, and the
    /// returned handle differs from every handle live beforehand.
    pub fn allocate(&mut self) -> (r: Index)
        requires
            old(self)@.wf(),
            old(self)@.can_allocate(),
        ensures
            final(self)@ == old(self)@.allocate_step().0,
            r@ == old(self)@.allocate_step().1,
            final(self)@.wf(),
            final(self)@.live(r@),
            !old(self)@.live(r@),
            forall|h: IndexModel| old(self)@.live(h) ==> final(self)@.live(h) && h != r@,
    {
        match self.free.pop() {
            Some(slot) => {
                let g = self.entries[slot].generation + 1;
                self.entries[slot] = AllocatorEntry { is_live: true, generation: g };
                proof {
                    assert(self@ =~= old(self)@.allocate_step().0);
                }
                Index::new(slot, g)
            },
            None => {
                let slot = self.entries.len();
                self.entries.push(AllocatorEntry::new());
                proof {
                    assert(self@ =~= old(self)@.allocate_step().0);
                }
                Index::new(slot, 0)
            },
        }
    }

    /// Recycle the handle's slot if that slot is currently live; otherwise a
    /// no-op. As spelled out on [`AllocatorModel::deallocate_step`], only the
    /// slot's liveness flag is consulted, never the handle's generation.
    pub fn deallocate(&mut self, index: Index)
        requires
            old(self)@.wf(),
        ensures
            final(self)@ == old(self)@.deallocate_step(index@),
            final(self)@.wf(),
    {
        if self.is_live(index) {
            let slot = index.slot();
            let g = self.entries[slot].generation;
            self.entries[slot] = AllocatorEntry { is_live: false, generation: g };
            self.free.push(slot);
            proof {
                assert(self@ =~= old(self)@.deallocate_step(index@));
            }
        }
    }

    /// The slot's current liveness flag, `false` for a slot number never
    /// issued. Deliberately does not compare the handle's generation against
    /// the slot's.
    pub fn is_live(&self, index: Index) -> (r: bool)
        ensures
            r == self@.slot_live(index@.slot),
    {
        let slot = index.slot();
        if slot < self.entries.len() {
            self.entries[slot].is_live
        } else {
            false
        }
    }
}

impl Default for Allocator {
    /// Same as [`Allocator::new`].
    fn default() -> (r: Allocator)
        ensures
            r@ == AllocatorModel::empty(),
            r@.wf(),
    {
        Allocator::new()
    }
}

} // verus!
