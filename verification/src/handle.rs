//! The opaque handle type issued by the allocator.

use vstd::prelude::*;

verus! {

/// The mathematical value of an [`Index`]: a slot number together with the
/// generation of that slot at the time the handle was issued.
pub struct IndexModel {
    pub slot: nat,
    pub generation: nat,
}

/// A handle identifying one allocation instance: a slot number plus the
/// generation the slot carried when the handle was issued.
///
/// Handles are plain comparable, hashable values, totally ordered
/// lexicographically by `(slot, generation)`; equality requires both fields
/// equal. Client code obtains them only from [`crate::Allocator::allocate`]
/// (or by copying existing handles).
#[derive(Debug, Clone, Copy, PartialEq, Eq, Structural, PartialOrd, Ord, Hash)]
pub struct Index {
    slot: usize,
    generation: usize,
}

impl View for Index {
    type V = IndexModel;

    closed spec fn view(&self) -> IndexModel {
        IndexModel { slot: self.slot as nat, generation: self.generation as nat }
    }
}

impl Index {
    pub(crate) fn new(slot: usize, generation: usize) -> (r: Index)
        ensures
            r@ == (IndexModel { slot: slot as nat, generation: generation as nat }),
    {
        Index { slot, generation }
    }

    /// The slot number this handle refers to.
    pub fn slot(&self) -> (r: usize)
        ensures
            r as nat == self@.slot,
    {
        self.slot
    }

    /// The generation the slot carried when this handle was issued.
    pub fn generation(&self) -> (r: usize)
        ensures
            r as nat == self@.generation,
    {
        self.generation
    }
}

/// Two handles are equal exactly when their models are: the view loses
/// nothing.
pub proof fn lemma_index_view_injective(a: Index, b: Index)
    ensures
        a == b <==> a@ == b@,
{
}

} // verus!
