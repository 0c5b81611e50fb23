//! Laws that hold over whole sequences of allocator operations.
//!
//! [`crate::Allocator`]'s methods each promise that their effect on the
//! model equals one [`step`]; these lemmas therefore apply to any sequence
//! of `allocate`/`deallocate` calls on one allocator instance.

use vstd::prelude::*;
use crate::handle::IndexModel;
use crate::allocator::AllocatorModel;

verus! {

/// One allocator operation, for stating laws over whole call sequences.
pub enum AllocatorOp {
    Allocate,
    Deallocate(IndexModel),
}

/// The state after one operation.
pub open spec fn step(m: AllocatorModel, op: AllocatorOp) -> AllocatorModel {
    match op {
        AllocatorOp::Allocate => m.allocate_step().0,
        AllocatorOp::Deallocate(h) => m.deallocate_step(h),
    }
}

/// The state after a sequence of operations, applied left to right.
pub open spec fn run(m: AllocatorModel, ops: Seq<AllocatorOp>) -> AllocatorModel
    decreases ops.len(),
{
    if ops.len() == 0 {
        m
    } else {
        run(step(m, ops[0]), ops.drop_first())
    }
}

/// The handle that an `Allocate` performed at position `i` of `ops` issues.
pub open spec fn issued_at(m0: AllocatorModel, ops: Seq<AllocatorOp>, i: int) -> IndexModel {
    run(m0, ops.take(i)).allocate_step().1
}

/// `m2` is reachable from `m1`: the slot sequence only grows, and no slot's
/// generation ever decreases.
pub open spec fn extends(m1: AllocatorModel, m2: AllocatorModel) -> bool {
    &&& m1.slots.len() <= m2.slots.len()
    &&& forall|s: int|
        0 <= s < m1.slots.len() ==> m1.slots[s].generation <= (
        #[trigger] m2.slots[s]).generation
}

/// Every operation preserves well-formedness, never shrinks the slot
/// sequence, and never decreases a slot's generation.
pub proof fn lemma_step_preserves_wf(m: AllocatorModel, op: AllocatorOp)
    requires
        m.wf(),
    ensures
        step(m, op).wf(),
        extends(m, step(m, op)),
{
    match op {
        AllocatorOp::Allocate => {
            if m.free.len() > 0 {
                let slot = m.free.last();
                let m1 = m.allocate_step().0;
                assert forall|k: int| 0 <= k < m1.free.len() implies (#[trigger] m1.free[k])
                    < m1.slots.len() && !m1.slots[m1.free[k] as int].live by {
                    assert(m1.free[k] == m.free[k]);
                    assert(m.free[k] != slot);
                }
            }
        },
        AllocatorOp::Deallocate(h) => {
            if m.slot_live(h.slot) {
                let m1 = m.deallocate_step(h);
                assert forall|k: int| 0 <= k < m.free.len() implies m.free[k] != h.slot by {
                    assert(!m.slots[m.free[k] as int].live);
                }
                assert forall|k: int, l: int| 0 <= k < l < m1.free.len() implies m1.free[k]
                    != m1.free[l] by {
                    if l == m1.free.len() - 1 {
                        assert(m1.free[k] == m.free[k]);
                        assert(m1.free[l] == h.slot);
                    }
                }
            }
        },
    }
}

/// [`lemma_step_preserves_wf`], extended over a whole sequence.
pub proof fn lemma_run_preserves_wf(m: AllocatorModel, ops: Seq<AllocatorOp>)
    requires
        m.wf(),
    ensures
        run(m, ops).wf(),
        extends(m, run(m, ops)),
    decreases ops.len(),
{
    if ops.len() > 0 {
        lemma_step_preserves_wf(m, ops[0]);
        lemma_run_preserves_wf(step(m, ops[0]), ops.drop_first());
    }
}

/// Running a concatenation is running one part after the other.
pub proof fn lemma_run_append(m: AllocatorModel, a: Seq<AllocatorOp>, b: Seq<AllocatorOp>)
    ensures
        run(m, a + b) == run(run(m, a), b),
    decreases a.len(),
{
    if a.len() == 0 {
        assert(a + b =~= b);
    } else {
        assert((a + b).drop_first() =~= a.drop_first() + b);
        lemma_run_append(step(m, a[0]), a.drop_first(), b);
    }
}

/// Running one more operation after a prefix is one [`step`] on the prefix's
/// state.
pub proof fn lemma_run_snoc(m: AllocatorModel, a: Seq<AllocatorOp>, op: AllocatorOp)
    ensures
        run(m, a.push(op)) == step(run(m, a), op),
{
    reveal_with_fuel(run, 2);
    lemma_run_append(m, a, seq![op]);
    assert(a + seq![op] =~= a.push(op));
    assert(seq![op].drop_first() =~= Seq::<AllocatorOp>::empty());
}

/// Immediately after an `Allocate`, the issued handle's slot exists and
/// carries exactly the issued generation.
pub proof fn lemma_allocate_records_handle(m: AllocatorModel)
    requires
        m.wf(),
    ensures
        m.allocate_step().1.slot < m.allocate_step().0.slots.len(),
        m.allocate_step().0.slots[m.allocate_step().1.slot as int].generation
            == m.allocate_step().1.generation,
{
}

/// No two allocations ever issue the same handle: over any run of allocator
/// operations, the handles issued by two distinct `Allocate` operations
/// differ. In particular, no two simultaneously-live handles are equal —
/// each `allocate` call returns a handle distinct from every handle issued
/// before it, live or stale.
pub proof fn lemma_issued_handles_distinct(
    m0: AllocatorModel,
    ops: Seq<AllocatorOp>,
    i: int,
    j: int,
)
    requires
        m0.wf(),
        0 <= i < j <= ops.len(),
        ops[i] is Allocate,
    ensures
        issued_at(m0, ops, i) != issued_at(m0, ops, j),
{
    let si = run(m0, ops.take(i));
    let hi = si.allocate_step().1;
    let si1 = run(m0, ops.take(i + 1));
    let sj = run(m0, ops.take(j));
    let hj = sj.allocate_step().1;

    lemma_run_preserves_wf(m0, ops.take(i));
    assert(ops.take(i + 1) =~= ops.take(i).push(ops[i]));
    lemma_run_snoc(m0, ops.take(i), ops[i]);
    assert(si1 == si.allocate_step().0);
    lemma_allocate_records_handle(si);

    assert(ops.take(j) =~= ops.take(i + 1) + ops.subrange(i + 1, j));
    lemma_run_append(m0, ops.take(i + 1), ops.subrange(i + 1, j));
    assert(sj == run(si1, ops.subrange(i + 1, j)));
    lemma_run_preserves_wf(m0, ops.take(i + 1));
    lemma_run_preserves_wf(si1, ops.subrange(i + 1, j));
    assert(extends(si1, sj));

    if sj.free.len() > 0 {
        // Reuse: the issued generation strictly exceeds the slot's current
        // one, which never sank below what it was when `hi` was issued.
        if hj.slot == hi.slot {
            assert(si1.slots[hi.slot as int].generation <= sj.slots[hi.slot as int].generation);
            assert(hj.generation > hi.generation);
        }
    } else {
        // Fresh slot: its number lies beyond every slot that existed right
        // after `hi` was issued.
        assert(hj.slot >= si1.slots.len());
        assert(hi.slot < si1.slots.len());
    }
}

/// After `deallocate(h)` on a live handle, the next `allocate` reuses
/// `h.slot` under a strictly advanced generation: the new handle shares the
/// slot, differs in generation, and so differs from `h` itself.
pub proof fn lemma_reuse_advances_generation(m: AllocatorModel, h: IndexModel)
    requires
        m.wf(),
        m.live(h),
    ensures
        ({
            let h2 = m.deallocate_step(h).allocate_step().1;
            h2.slot == h.slot && h2.generation == h.generation + 1 && h2 != h
        }),
{
    let m1 = m.deallocate_step(h);
    assert(m1.free.last() == h.slot);
}

} // verus!
