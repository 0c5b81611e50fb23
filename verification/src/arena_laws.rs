//! Laws that hold over whole sequences of arena operations.
//!
//! Every mutating method of [`crate::Arena`] promises that its effect on the
//! model equals one [`step`]: `set` is an `Assign`, `insert_if_absent` an
//! `InsertIfAbsent`, `remove` a `Remove`, and a successful `get_mut` (or
//! `direct_access_mut`) acts as an `Assign` through the matching handle. So
//! these lemmas apply to any sequence of calls on one arena instance.

use vstd::prelude::*;
use crate::handle::IndexModel;
use crate::allocator::AllocatorModel;
use crate::arena::ArenaModel;

verus! {

/// One arena operation, for stating laws over whole call sequences.
pub enum ArenaOp<E> {
    Assign(IndexModel, E),
    InsertIfAbsent(IndexModel, E),
    Remove(IndexModel),
}

/// The state after one operation.
pub open spec fn step<E>(m: ArenaModel<E>, op: ArenaOp<E>) -> ArenaModel<E> {
    match op {
        ArenaOp::Assign(h, v) => m.assign_step(h, v),
        ArenaOp::InsertIfAbsent(h, v) => m.insert_step(h, v),
        ArenaOp::Remove(h) => m.remove_step(h),
    }
}

/// The state after a sequence of operations, applied left to right.
pub open spec fn run<E>(m: ArenaModel<E>, ops: Seq<ArenaOp<E>>) -> ArenaModel<E>
    decreases ops.len(),
{
    if ops.len() == 0 {
        m
    } else {
        run(step(m, ops[0]), ops.drop_first())
    }
}

/// Whether an operation stores a value through a handle with exactly `h`'s
/// slot and generation — the only kind of operation that can make a lookup
/// through `h` start succeeding.
pub open spec fn stores_for<E>(op: ArenaOp<E>, h: IndexModel) -> bool {
    match op {
        ArenaOp::Assign(k, _) => k.slot == h.slot && k.generation == h.generation,
        ArenaOp::InsertIfAbsent(k, _) => k.slot == h.slot && k.generation == h.generation,
        ArenaOp::Remove(_) => false,
    }
}

/// One step of the permanence half of the stale-handle law: an absent
/// handle stays absent under any single operation that does not store
/// through a handle with its exact slot and generation.
pub proof fn lemma_step_keeps_absent<E>(m: ArenaModel<E>, op: ArenaOp<E>, h: IndexModel)
    requires
        m.lookup(h) is None,
        !stores_for(op, h),
    ensures
        step(m, op).lookup(h) is None,
{
}

/// A handle that reads as absent keeps reading as absent across any
/// sequence of operations none of which stores through a handle with its
/// exact slot and generation. In particular, once a slot has been recycled
/// and reassigned under a newer generation, a lookup through the old handle
/// is absent permanently; and a lookup through a freshly issued handle is
/// absent until something is stored through that very handle.
pub proof fn lemma_absent_stays_absent<E>(m: ArenaModel<E>, ops: Seq<ArenaOp<E>>, h: IndexModel)
    requires
        m.lookup(h) is None,
        forall|k: int| 0 <= k < ops.len() ==> !stores_for(#[trigger] ops[k], h),
    ensures
        run(m, ops).lookup(h) is None,
    decreases ops.len(),
{
    if ops.len() > 0 {
        lemma_step_keeps_absent(m, ops[0], h);
        lemma_absent_stays_absent(step(m, ops[0]), ops.drop_first(), h);
    }
}

/// After `assign` through a handle, a lookup through that same handle
/// yields exactly the assigned value, whatever was there before.
pub proof fn lemma_assign_then_lookup<E>(m: ArenaModel<E>, h: IndexModel, v: E)
    ensures
        m.assign_step(h, v).lookup(h) == Some(v),
{
}

/// `assign` is idempotent: repeating it with the same handle and value
/// leaves the arena in exactly the same state (and so `get` keeps returning
/// that value).
pub proof fn lemma_assign_idempotent<E>(m: ArenaModel<E>, h: IndexModel, v: E)
    ensures
        m.assign_step(h, v).assign_step(h, v) == m.assign_step(h, v),
{
    let m1 = m.assign_step(h, v);
    assert(m1.assign_step(h, v) =~= m1);
}

/// `insert_if_absent` never changes an occupied slot's stored value — nor
/// anything else — even when called again with a different value and the
/// same handle.
pub proof fn lemma_insert_keeps_occupant<E>(m: ArenaModel<E>, h: IndexModel, v: E)
    requires
        m.occupied(h.slot),
    ensures
        m.insert_step(h, v) == m,
{
}

/// `insert_if_absent` into an unoccupied slot stores the value: a lookup
/// through the same handle then yields it.
pub proof fn lemma_insert_when_empty<E>(m: ArenaModel<E>, h: IndexModel, v: E)
    requires
        !m.occupied(h.slot),
    ensures
        m.insert_step(h, v).lookup(h) == Some(v),
{
}

/// Allocator `a` could have issued handle `h` at some point of its history:
/// the handle's slot exists and its generation does not exceed the slot's
/// current one. Every currently live handle qualifies, and so does every
/// stale one.
pub open spec fn may_have_issued(a: AllocatorModel, h: IndexModel) -> bool {
    h.slot < a.slots.len() && h.generation <= a.slots[h.slot as int].generation
}

/// Every live handle is one the allocator may have issued.
pub proof fn lemma_live_may_have_issued(a: AllocatorModel, h: IndexModel)
    requires
        a.live(h),
    ensures
        may_have_issued(a, h),
{
}

/// Allocator `a` bounds arena `m`: every occupied cell sits at a slot the
/// allocator has issued, under a generation not exceeding that slot's
/// current one. This holds whenever the arena has only ever been written
/// through handles the allocator issued, and it is what makes a freshly
/// allocated handle read as absent.
pub open spec fn bounds<E>(a: AllocatorModel, m: ArenaModel<E>) -> bool {
    forall|s: int|
        0 <= s < m.cells.len() ==> ((#[trigger] m.cells[s]) matches Some(c) ==> s
            < a.slots.len() && c.generation <= a.slots[s].generation)
}

/// A freshly allocated handle reads as absent in every arena the allocator
/// bounds: its generation (or its very slot) is new, so no occupied cell can
/// match it until something is stored through the new handle itself.
/// Allocating also keeps the allocator bounding the arena.
pub proof fn lemma_fresh_handle_reads_absent<E>(a: AllocatorModel, m: ArenaModel<E>)
    requires
        a.wf(),
        bounds(a, m),
    ensures
        m.lookup(a.allocate_step().1) is None,
        bounds(a.allocate_step().0, m),
{
}

/// Recycling any handle leaves every bounded arena bounded: generations
/// never move backwards.
pub proof fn lemma_bounds_after_deallocate<E>(a: AllocatorModel, m: ArenaModel<E>, h: IndexModel)
    requires
        bounds(a, m),
    ensures
        bounds(a.deallocate_step(h), m),
{
}

/// An arena operation through a handle the allocator may have issued keeps
/// the allocator bounding the arena; `Remove` needs no condition at all.
pub proof fn lemma_bounds_after_arena_step<E>(
    a: AllocatorModel,
    m: ArenaModel<E>,
    op: ArenaOp<E>,
)
    requires
        bounds(a, m),
        match op {
            ArenaOp::Assign(h, _) => may_have_issued(a, h),
            ArenaOp::InsertIfAbsent(h, _) => may_have_issued(a, h),
            ArenaOp::Remove(_) => true,
        },
    ensures
        bounds(a, step(m, op)),
{
}

/// No single operation shrinks the backing storage.
pub proof fn lemma_step_size<E>(m: ArenaModel<E>, op: ArenaOp<E>)
    ensures
        m.cells.len() <= step(m, op).cells.len(),
{
}

/// The backing storage's size never decreases across any sequence of
/// operations on one arena instance.
pub proof fn lemma_size_never_decreases<E>(m: ArenaModel<E>, ops: Seq<ArenaOp<E>>)
    ensures
        m.cells.len() <= run(m, ops).cells.len(),
    decreases ops.len(),
{
    if ops.len() > 0 {
        lemma_step_size(m, ops[0]);
        lemma_size_never_decreases(step(m, ops[0]), ops.drop_first());
    }
}

} // verus!
