use gen_arena::Allocator;
use gen_arena::Arena;
use gen_arena::Index;

#[test]
fn allocation_test() {
    let mut allocator = Allocator::new();
    let id1 = allocator.allocate();
    let id2 = allocator.allocate();
    assert_ne!(id1, id2);
    allocator.deallocate(id1);
    let idp = allocator.allocate();
    assert_ne!(id1.generation(), idp.generation());
    assert_eq!(id1.slot(), idp.slot());
    assert_ne!(id1, idp);
}

#[test]
fn array_test() {
    let mut allocator = Allocator::new();
    let mut arr1 = Arena::new();
    let id1 = allocator.allocate();
    let id2 = allocator.allocate();
    arr1.set(id1, 0usize);
    arr1.set(id2, 0usize);
    assert_eq!(*arr1.direct_access(id1), 0);
    assert_eq!(*arr1.direct_access(id2), 0);
    allocator.deallocate(id1);
    let idp = allocator.allocate();
    assert_eq!(id1.slot(), idp.slot());
    assert_eq!(arr1.get(idp), None);
    arr1.set(idp, 12);
    assert_eq!(*arr1.direct_access(idp), 12);
    assert_eq!(arr1.get(id1), None);
}

// No two simultaneously-live handles are ever equal, across a mixed
// sequence of allocations and deallocations.
#[test]
fn live_handles_are_pairwise_distinct() {
    let mut allocator = Allocator::new();
    let mut live: Vec<Index> = Vec::new();
    for _ in 0..4 {
        live.push(allocator.allocate());
    }
    let recycled = live.remove(1);
    allocator.deallocate(recycled);
    live.push(allocator.allocate());
    live.push(allocator.allocate());
    for i in 0..live.len() {
        assert!(allocator.is_live(live[i]));
        for j in 0..live.len() {
            if i != j {
                assert_ne!(live[i], live[j]);
            }
        }
    }
    assert!(!live.contains(&recycled));
}

// Reusing a slot advances its generation: the new handle shares the slot
// number, never the generation.
#[test]
fn reuse_advances_generation() {
    let mut allocator = Allocator::new();
    let a = allocator.allocate();
    allocator.deallocate(a);
    let b = allocator.allocate();
    assert_eq!(b.slot(), a.slot());
    assert_eq!(a.generation(), 0);
    assert_eq!(b.generation(), 1);
    assert_ne!(a, b);
    allocator.deallocate(b);
    let c = allocator.allocate();
    assert_eq!(c.slot(), a.slot());
    assert_eq!(c.generation(), 2);
}

// The free-list is a stack: the most recently recycled slot is reused first.
#[test]
fn free_list_is_last_recycled_first() {
    let mut allocator = Allocator::new();
    let a = allocator.allocate();
    let b = allocator.allocate();
    allocator.deallocate(a);
    allocator.deallocate(b);
    let c = allocator.allocate();
    let d = allocator.allocate();
    assert_eq!(c.slot(), b.slot());
    assert_eq!(d.slot(), a.slot());
}

#[test]
fn is_live_checks_slot_flag_only() {
    let mut allocator = Allocator::new();
    let a = allocator.allocate();
    assert!(allocator.is_live(a));
    allocator.deallocate(a);
    assert!(!allocator.is_live(a));
    let b = allocator.allocate();
    // The stale handle's slot is live again, and `is_live` looks no further
    // than the slot's flag.
    assert!(allocator.is_live(a));
    assert!(allocator.is_live(b));
}

// Deallocating a handle whose slot was never issued is a no-op.
#[test]
fn deallocate_unknown_slot_is_noop() {
    let mut allocator = Allocator::new();
    let mut other = Allocator::new();
    let far = {
        other.allocate();
        other.allocate();
        other.allocate()
    };
    assert!(!allocator.is_live(far));
    allocator.deallocate(far);
    // Nothing was recycled, so the next allocation opens slot 0 afresh.
    let a = allocator.allocate();
    assert_eq!(a.slot(), 0);
    assert_eq!(a.generation(), 0);
}

// Deallocating an already-dead slot is a no-op: the slot is not pushed onto
// the free-list twice.
#[test]
fn double_deallocate_is_noop() {
    let mut allocator = Allocator::new();
    let a = allocator.allocate();
    let b = allocator.allocate();
    allocator.deallocate(b);
    allocator.deallocate(b);
    let c = allocator.allocate();
    let d = allocator.allocate();
    assert_eq!(c.slot(), b.slot());
    assert_ne!(d.slot(), b.slot());
    assert_ne!(d.slot(), a.slot());
}

// Allocator and arena used together: stores through two handles, slot
// reuse, and the strict generation check on lookups.
#[test]
fn reuse_masks_old_entries() {
    let mut allocator = Allocator::new();
    let mut arena = Arena::new();
    let a = allocator.allocate();
    let b = allocator.allocate();
    assert_eq!((a.slot(), a.generation()), (0, 0));
    assert_eq!((b.slot(), b.generation()), (1, 0));
    arena.set(a, 10);
    arena.set(b, 20);
    assert_eq!(arena.get(a), Some(&10));
    assert_eq!(arena.get(b), Some(&20));
    allocator.deallocate(a);
    let c = allocator.allocate();
    assert_eq!((c.slot(), c.generation()), (0, 1));
    assert_eq!(arena.get(c), None);
    arena.set(c, 99);
    assert_eq!(arena.get(c), Some(&99));
    assert_eq!(arena.get(a), None);
}

// The allocator's documented gap: `deallocate` checks only the slot's
// liveness flag, so a stale handle recycles the slot out from under the new
// live occupant.
#[test]
fn stale_deallocate_recycles_new_occupant() {
    let mut allocator = Allocator::new();
    allocator.allocate();
    allocator.allocate();
    let d = allocator.allocate();
    assert_eq!((d.slot(), d.generation()), (2, 0));
    allocator.deallocate(d);
    let e = allocator.allocate();
    assert_eq!((e.slot(), e.generation()), (2, 1));
    assert!(allocator.is_live(e));
    allocator.deallocate(d);
    // Under the literal contract this marked slot 2 dead again, even though
    // `e` is the current occupant.
    assert!(!allocator.is_live(e));
}

// A fresh handle reads as absent until something is stored through it.
#[test]
fn fresh_handle_reads_absent_until_stored() {
    let mut allocator = Allocator::new();
    let mut arena: Arena<i32> = Arena::new();
    let a = allocator.allocate();
    assert_eq!(arena.get(a), None);
    arena.insert_if_absent(a, 7);
    assert_eq!(arena.get(a), Some(&7));
}

#[test]
fn assign_is_idempotent() {
    let mut allocator = Allocator::new();
    let mut arena = Arena::new();
    let a = allocator.allocate();
    arena.set(a, 5);
    arena.set(a, 5);
    arena.set(a, 5);
    assert_eq!(arena.get(a), Some(&5));
    assert_eq!(arena.len(), 1);
}

#[test]
fn insert_if_absent_keeps_occupant() {
    let mut allocator = Allocator::new();
    let mut arena = Arena::new();
    let a = allocator.allocate();
    arena.insert_if_absent(a, 1);
    arena.insert_if_absent(a, 2);
    assert_eq!(arena.get(a), Some(&1));
    // Even a later generation of the same slot cannot displace the occupant
    // through `insert_if_absent`.
    allocator.deallocate(a);
    let b = allocator.allocate();
    arena.insert_if_absent(b, 3);
    assert_eq!(arena.get(b), None);
    assert_eq!(arena.get(a), Some(&1));
}

// `remove` is gated by occupancy alone: a stale handle clears the slot.
#[test]
fn remove_ignores_generation() {
    let mut allocator = Allocator::new();
    let mut arena = Arena::new();
    let a = allocator.allocate();
    allocator.deallocate(a);
    let b = allocator.allocate();
    arena.set(b, 42);
    let before = arena.len();
    arena.remove(a);
    assert_eq!(arena.get(b), None);
    assert_eq!(arena.len(), before);
    // Removing from an already-empty slot is a no-op.
    arena.remove(a);
    assert_eq!(arena.get(b), None);
}

// The backing storage's size is a high-water mark: it grows to the largest
// slot addressed and never decreases afterwards.
#[test]
fn len_never_decreases() {
    let mut allocator = Allocator::new();
    let mut arena = Arena::new();
    let mut handles: Vec<Index> = Vec::new();
    for _ in 0..6 {
        handles.push(allocator.allocate());
    }
    assert_eq!(arena.len(), 0);
    assert!(arena.is_empty());
    arena.set(handles[5], 50);
    assert_eq!(arena.len(), 6);
    assert!(!arena.is_empty());
    arena.set(handles[2], 20);
    assert_eq!(arena.len(), 6);
    arena.remove(handles[5]);
    assert_eq!(arena.len(), 6);
    arena.remove(handles[2]);
    assert_eq!(arena.len(), 6);
    arena.insert_if_absent(handles[0], 1);
    assert_eq!(arena.len(), 6);
    assert!(arena.get_mut(handles[0]).is_some());
    assert_eq!(arena.len(), 6);
}

#[test]
fn get_mut_respects_generation() {
    let mut allocator = Allocator::new();
    let mut arena = Arena::new();
    let a = allocator.allocate();
    let never_stored = allocator.allocate();
    arena.set(a, 8);
    if let Some(v) = arena.get_mut(a) {
        *v = 9;
    } else {
        panic!("live handle must reach its value");
    }
    assert_eq!(arena.get(a), Some(&9));
    assert_eq!(arena.get_mut(never_stored), None);
    allocator.deallocate(a);
    let b = allocator.allocate();
    assert_eq!(arena.get_mut(b), None);
    assert_eq!(arena.get(a), Some(&9));
}

#[test]
fn direct_access_mut_writes_through() {
    let mut allocator = Allocator::new();
    let mut arena = Arena::new();
    let a = allocator.allocate();
    arena.set(a, String::from("first"));
    *arena.direct_access_mut(a) = String::from("second");
    assert_eq!(arena.get(a).map(|s| s.as_str()), Some("second"));
}

// Handles are ordered lexicographically by slot, then generation, and are
// hashable values.
#[test]
fn handles_are_ordered_and_hashable() {
    let mut allocator = Allocator::new();
    let a = allocator.allocate();
    let b = allocator.allocate();
    allocator.deallocate(a);
    let a2 = allocator.allocate();
    assert!(a < b);
    assert!(a < a2);
    assert!(a2 < b);
    let copied = a;
    assert_eq!(copied.cmp(&a), std::cmp::Ordering::Equal);
    let mut set = std::collections::HashSet::new();
    set.insert(a);
    set.insert(b);
    set.insert(a2);
    set.insert(copied);
    assert_eq!(set.len(), 3);
}

// Arenas are independent of any particular allocator: two arenas share one
// handle space without interfering.
#[test]
fn arenas_share_one_handle_space() {
    let mut allocator = Allocator::new();
    let mut names: Arena<&str> = Arena::new();
    let mut sizes: Arena<u64> = Arena::new();
    let a = allocator.allocate();
    names.set(a, "alpha");
    sizes.set(a, 17);
    assert_eq!(names.get(a), Some(&"alpha"));
    assert_eq!(sizes.get(a), Some(&17));
    names.remove(a);
    assert_eq!(names.get(a), None);
    assert_eq!(sizes.get(a), Some(&17));
}
