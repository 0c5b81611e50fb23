//! The generation-checked sparse container.

use vstd::prelude::*;
use vstd::pervasive::unreached;
use crate::handle::Index;
use crate::handle::IndexModel;

verus! {

/// The mathematical value of one occupied arena cell: the stored value
/// together with the generation it was stored under.
pub struct CellModel<E> {
    pub generation: nat,
    pub value: E,
}

/// The mathematical state of an [`Arena`]: a sequence of optional cells,
/// addressed by slot number. The sequence's length is the backing storage's
/// high-water mark, not a count of occupied cells.
#[verifier::ext_equal]
pub struct ArenaModel<E> {
    pub cells: Seq<Option<CellModel<E>>>,
}

impl<E> ArenaModel<E> {
    /// The state of a freshly constructed arena.
    pub open spec fn empty() -> ArenaModel<E> {
        ArenaModel { cells: Seq::empty() }
    }

    /// Whether the cell at `slot` is occupied (by any generation).
    pub open spec fn occupied(self, slot: nat) -> bool {
        slot < self.cells.len() && self.cells[slot as int] is Some
    }

    /// What a lookup through handle `h` yields: the stored value if the cell
    /// at `h.slot` is occupied *and* its stored generation equals
    /// `h.generation`; absence on any mismatch, so a stale handle never sees
    /// another lifetime's data.
    pub open spec fn lookup(self, h: IndexModel) -> Option<E> {
        if h.slot < self.cells.len() {
            match self.cells[h.slot as int] {
                Some(c) => if c.generation == h.generation {
                    Some(c.value)
                } else {
                    None
                },
                None => None,
            }
        } else {
            None
        }
    }

    /// Backing storage grown (with empty cells) to hold at least `n` slots;
    /// unchanged if it already does.
    pub open spec fn grow_to(self, n: nat) -> ArenaModel<E> {
        if n <= self.cells.len() {
            self
        } else {
            ArenaModel {
                cells: self.cells + Seq::new((n - self.cells.len()) as nat, |k: int| None),
            }
        }
    }

    /// What `set` does: grow so slot `h.slot` exists, then unconditionally
    /// overwrite that cell with `v` tagged with `h.generation`, regardless of
    /// prior occupancy or generation.
    pub open spec fn assign_step(self, h: IndexModel, v: E) -> ArenaModel<E> {
        let grown = self.grow_to(h.slot + 1);
        ArenaModel {
            cells: grown.cells.update(
                h.slot as int,
                Some(CellModel { generation: h.generation, value: v }),
            ),
        }
    }

    /// What `insert_if_absent` does: grow so slot `h.slot` exists, then store
    /// `v` tagged with `h.generation` only if that cell is empty; an occupied
    /// cell is left exactly as it was.
    pub open spec fn insert_step(self, h: IndexModel, v: E) -> ArenaModel<E> {
        let grown = self.grow_to(h.slot + 1);
        if grown.cells[h.slot as int] is Some {
            grown
        } else {
            ArenaModel {
                cells: grown.cells.update(
                    h.slot as int,
                    Some(CellModel { generation: h.generation, value: v }),
                ),
            }
        }
    }

    /// What `remove` does: clear the cell at `h.slot` if it is occupied —
    /// occupancy alone gates this, regardless of generation, mirroring the
    /// allocator's liveness-only check — and nothing otherwise. Storage never
    /// shrinks.
    pub open spec fn remove_step(self, h: IndexModel) -> ArenaModel<E> {
        if self.occupied(h.slot) {
            ArenaModel { cells: self.cells.update(h.slot as int, None) }
        } else {
            self
        }
    }
}

/// One concrete cell: a stored value tagged with the generation it was
/// stored under.
#[derive(Debug, Clone)]
pub(crate) struct ArrayEntry<E> {
    pub(crate) value: E,
    pub(crate) generation: usize,
}

impl<E> ArrayEntry<E> {
    pub(crate) open spec fn model(self) -> CellModel<E> {
        CellModel { generation: self.generation as nat, value: self.value }
    }

    /// The stored value, if this cell's generation matches the handle's.
    pub(crate) fn value(&self, index: Index) -> (r: Option<&E>)
        ensures
            self.generation as nat == index@.generation ==> (r matches Some(v) && *v
                == self.value),
            self.generation as nat != index@.generation ==> r is None,
    {
        if self.generation == index.generation() {
            Some(&self.value)
        } else {
            None
        }
    }

    /// Mutable access to the stored value, if this cell's generation matches
    /// the handle's.
    pub(crate) fn value_mut(&mut self, index: Index) -> (r: Option<&mut E>)
        ensures
            old(self).generation as nat == index@.generation ==> r.is_some() && *r.unwrap()
                == old(self).value && final(self).generation == old(self).generation
                && final(self).value == *final(r.unwrap()),
            old(self).generation as nat != index@.generation ==> r.is_none() && *final(self)
                == *old(self),
    {
        if self.generation == index.generation() {
            Some(&mut self.value)
        } else {
            None
        }
    }
}

/// The model of one concrete cell, with an empty cell mapped to `None`.
pub(crate) open spec fn cell_model<E>(c: Option<ArrayEntry<E>>) -> Option<CellModel<E>> {
    match c {
        Some(e) => Some(e.model()),
        None => None,
    }
}

/// The model of a whole backing store: each cell's model, in order.
pub(crate) open spec fn cells_view<E>(s: Seq<Option<ArrayEntry<E>>>) -> Seq<Option<CellModel<E>>> {
    Seq::new(s.len(), |i: int| cell_model(s[i]))
}

/// Taking the model commutes with updating one cell.
pub(crate) broadcast proof fn lemma_cells_view_update<E>(
    s: Seq<Option<ArrayEntry<E>>>,
    i: int,
    c: Option<ArrayEntry<E>>,
)
    requires
        0 <= i < s.len(),
    ensures
        #[trigger] cells_view(s.update(i, c)) == cells_view(s).update(i, cell_model(c)),
{
    assert(cells_view(s.update(i, c)) =~= cells_view(s).update(i, cell_model(c)));
}

/// A growable, sparse mapping from [`Index`] to a value of type `E`, where a
/// lookup succeeds only if the stored generation at the handle's slot matches
/// the handle's generation.
///
/// An arena does not track any particular [`crate::Allocator`]: any
/// slot/generation pair works as a key, and several arenas may share one
/// allocator's handle space.
#[derive(Debug, Clone)]
pub struct Arena<E> {
    values: Vec<Option<ArrayEntry<E>>>,
}

impl<E> View for Arena<E> {
    type V = ArenaModel<E>;

    closed spec fn view(&self) -> ArenaModel<E> {
        ArenaModel { cells: cells_view(self.values@) }
    }
}

impl<E> Arena<E> {
    /// A fresh arena with no backing storage.
    pub fn new() -> (r: Arena<E>)
        ensures
            r@ == ArenaModel::<E>::empty(),
    {
        let r = Arena { values: Vec::new() };
        proof {
            assert(r@ =~= ArenaModel::<E>::empty());
        }
        r
    }

    /// Grow the backing storage (with empty cells) until the cell at `slot`
    /// exists.
    fn grow_for(&mut self, slot: usize)
        ensures
            final(self)@ == old(self)@.grow_to(slot as nat + 1),
            final(self)@.cells.len() > slot,
    {
        while self.values.len() <= slot
            invariant
                old(self).values@.len() <= self.values@.len(),
                self.values@.len() <= vstd::math::max(
                    old(self).values@.len() as int,
                    slot as int + 1,
                ),
                forall|k: int|
                    0 <= k < old(self).values@.len() ==> self.values@[k] == old(self).values@[k],
                forall|k: int|
                    old(self).values@.len() <= k < self.values@.len() ==> self.values@[k] is None,
            decreases slot + 1 - self.values.len(),
        {
            self.values.push(None);
        }
        proof {
            assert(self@ =~= old(self)@.grow_to(slot as nat + 1));
        }
    }

    /// Unconditionally store `elem` at the handle's slot, tagged with the
    /// handle's generation, growing the backing storage as needed. Any prior
    /// occupant of the slot — whatever its generation — is replaced.
    pub fn set(&mut self, index: Index, elem: E)
        ensures
            final(self)@ == old(self)@.assign_step(index@, elem),
    {
        let slot = index.slot();
        self.grow_for(slot);
        self.values[slot] = Some(ArrayEntry { value: elem, generation: index.generation() });
        proof {
            assert(self@ =~= old(self)@.assign_step(index@, elem));
        }
    }

    /// Store `elem` at the handle's slot, tagged with the handle's
    /// generation, only if that slot is currently empty; an occupied slot is
    /// left unchanged, whatever its value or generation. Backing storage
    /// still grows so the slot exists.
    pub fn insert_if_absent(&mut self, index: Index, elem: E)
        ensures
            final(self)@ == old(self)@.insert_step(index@, elem),
    {
        let slot = index.slot();
        self.grow_for(slot);
        if self.values[slot].is_none() {
            self.values[slot] = Some(
                ArrayEntry { value: elem, generation: index.generation() },
            );
        }
        proof {
            assert(self@ =~= old(self)@.insert_step(index@, elem));
        }
    }

    /// Clear the handle's slot if it is occupied — occupancy alone gates
    /// this, regardless of any generation match — and do nothing otherwise.
    /// The backing storage keeps its size.
    pub fn remove(&mut self, index: Index)
        ensures
            final(self)@ == old(self)@.remove_step(index@),
    {
        let slot = index.slot();
        if slot < self.values.len() {
            if self.values[slot].is_some() {
                self.values[slot] = None;
            }
        }
        proof {
            assert(self@ =~= old(self)@.remove_step(index@));
        }
    }

    /// Look up the value stored for this handle: present only if the
    /// handle's slot is occupied and the stored generation equals the
    /// handle's, so a stale handle sees absence once its slot is reused.
    pub fn get(&self, index: Index) -> (r: Option<&E>)
        ensures
            match (r, self@.lookup(index@)) {
                (Some(v), Some(m)) => *v == m,
                (None, None) => true,
                _ => false,
            },
    {
        let slot = index.slot();
        if slot < self.values.len() {
            match &self.values[slot] {
                Some(entry) => entry.value(index),
                None => None,
            }
        } else {
            None
        }
    }

    /// Mutable counterpart of [`Arena::get`]: hands out a mutable reference
    /// under the same strict generation check. Writing through the reference
    /// replaces the stored value, leaving slot, generation and everything
    /// else unchanged.
    pub fn get_mut(&mut self, index: Index) -> (r: Option<&mut E>)
        ensures
            old(self)@.lookup(index@) is None ==> r.is_none() && final(self)@ == old(self)@,
            old(self)@.lookup(index@) matches Some(m) ==> r.is_some() && *r.unwrap() == m
                && final(self)@ == old(self)@.assign_step(index@, *final(r.unwrap())),
    {
        proof {
            broadcast use lemma_cells_view_update;
        }
        let slot = index.slot();
        if slot >= self.values.len() {
            return None;
        }
        let gen_ok: bool = match &self.values[slot] {
            Some(entry) => entry.generation == index.generation(),
            None => false,
        };
        if !gen_ok {
            return None;
        }
        match &mut self.values[slot] {
            Some(entry) => entry.value_mut(index),
            None => unreached(),
        }
    }

    /// Like [`Arena::get`], for call sites that have already established
    /// that the handle must be valid: the lookup is required to succeed, so
    /// absence is a caller error ruled out up front rather than a
    /// recoverable condition.
    pub fn direct_access(&self, index: Index) -> (r: &E)
        requires
            self@.lookup(index@) is Some,
        ensures
            *r == self@.lookup(index@).unwrap(),
    {
        match self.get(index) {
            Some(v) => v,
            None => unreached(),
        }
    }

    /// Mutable counterpart of [`Arena::direct_access`]: the lookup is
    /// required to succeed. Writing through the reference replaces the
    /// stored value, leaving its slot and generation unchanged.
    pub fn direct_access_mut(&mut self, index: Index) -> (r: &mut E)
        requires
            old(self)@.lookup(index@) is Some,
        ensures
            *r == old(self)@.lookup(index@).unwrap(),
            final(self)@ == old(self)@.assign_step(index@, *final(r)),
    {
        match self.get_mut(index) {
            Some(v) => v,
            None => unreached(),
        }
    }

    /// The backing storage's size: the high-water mark of slot numbers ever
    /// addressed, not the count of occupied cells. It never decreases.
    pub fn len(&self) -> (r: usize)
        ensures
            r as nat == self@.cells.len(),
    {
        self.values.len()
    }

    /// Whether no backing storage has been addressed yet.
    pub fn is_empty(&self) -> (r: bool)
        ensures
            r == (self@.cells.len() == 0),
    {
        self.values.len() == 0
    }
}

impl<E> Default for Arena<E> {
    /// Same as [`Arena::new`].
    fn default() -> (r: Arena<E>)
        ensures
            r@ == ArenaModel::<E>::empty(),
    {
        Arena::new()
    }
}

} // verus!
