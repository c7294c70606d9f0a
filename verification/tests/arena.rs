use librarian::arena::Arena;
use librarian::arena::ArenaId;
use std::collections::HashSet;
use std::rc::Rc;

fn collect_values(arena: &Arena<&'static str>) -> Vec<&'static str> {
    let mut out = Vec::new();
    let mut it = arena.iter();
    while let Some(entry) = it.next() {
        out.push(*entry.value);
    }
    out
}

fn collect_ids(arena: &Arena<&'static str>) -> Vec<ArenaId<&'static str>> {
    let mut out = Vec::new();
    let mut it = arena.iter_ids();
    while let Some(id) = it.next() {
        out.push(id);
    }
    out
}

#[test]
fn add_then_get_returns_the_value() {
    let mut arena: Arena<String> = Arena::new();
    let id = arena.add(String::from("alpha"));
    assert_eq!(arena.try_entry(id).map(|e| e.value.clone()), Some(String::from("alpha")));
    assert_eq!(arena.entry(id).value, "alpha");
    assert_eq!(arena.entry(id).generation, 1);
    assert_eq!(id.id(), 0);
}

#[test]
fn remove_then_get_is_absent() {
    let mut arena: Arena<u64> = Arena::new();
    let a = arena.add(10);
    let b = arena.add(20);
    arena.remove(a);
    assert!(arena.try_entry(a).is_none());
    assert_eq!(*arena.entry(b).value, 20);
}

#[test]
fn removing_twice_changes_nothing_the_second_time() {
    let mut arena: Arena<u64> = Arena::new();
    let a = arena.add(10);
    let b = arena.add(20);
    arena.remove(a);
    assert_eq!(arena.count(), 1);
    assert_eq!(arena.len(), 2);
    arena.remove(a);
    assert_eq!(arena.count(), 1);
    assert_eq!(arena.len(), 2);
    assert_eq!(*arena.entry(b).value, 20);
    // The slot is on the free stack once: two allocations use two slots.
    let c = arena.add(30);
    let d = arena.add(40);
    assert_eq!(c.id(), 0);
    assert_eq!(d.id(), 2);
    assert_eq!(arena.len(), 3);
}

#[test]
fn stale_removal_does_not_free_the_new_occupant() {
    let mut arena: Arena<u64> = Arena::new();
    let a = arena.add(10);
    arena.remove(a);
    let b = arena.add(20);
    assert_eq!(b.id(), a.id());
    arena.remove(a);
    assert_eq!(arena.count(), 1);
    assert_eq!(*arena.entry(b).value, 20);
}

#[test]
fn values_are_dropped_exactly_once() {
    let probe = Rc::new(());
    let mut arena: Arena<Rc<()>> = Arena::new();
    let a = arena.add(probe.clone());
    let _b = arena.add(probe.clone());
    assert_eq!(Rc::strong_count(&probe), 3);
    arena.remove(a);
    assert_eq!(Rc::strong_count(&probe), 2);
    arena.remove(a);
    assert_eq!(Rc::strong_count(&probe), 2);
    drop(arena);
    assert_eq!(Rc::strong_count(&probe), 1);
}

#[test]
fn freed_slot_is_reused_with_greater_generation() {
    let mut arena: Arena<&'static str> = Arena::new();
    let a = arena.add("first");
    let gen_a = arena.entry(a).generation;
    arena.remove(a);
    let b = arena.add("second");
    assert_eq!(b.id(), a.id());
    assert!(arena.entry(b).generation > gen_a);
    assert_eq!(arena.entry(b).generation, gen_a + 1);
    assert!(arena.try_entry(a).is_none());
    assert_eq!(*arena.entry(b).value, "second");
    assert_ne!(a, b);
}

#[test]
fn reuse_is_last_freed_first() {
    let mut arena: Arena<u64> = Arena::new();
    let a = arena.add(1);
    let b = arena.add(2);
    let c = arena.add(3);
    arena.remove(a);
    arena.remove(c);
    arena.remove(b);
    assert_eq!(arena.add(4).id(), b.id());
    assert_eq!(arena.add(5).id(), c.id());
    assert_eq!(arena.add(6).id(), a.id());
    assert_eq!(arena.add(7).id(), 3);
}

#[test]
fn count_follows_adds_and_successful_removes() {
    let mut arena: Arena<u64> = Arena::with_capacity(4);
    assert_eq!(arena.count(), 0);
    assert_eq!(arena.len(), 0);
    let mut ids = Vec::new();
    let mut last_len = 0;
    for v in 0..10u64 {
        ids.push(arena.add(v));
        assert!(arena.len() >= last_len);
        last_len = arena.len();
    }
    assert_eq!(arena.count(), 10);
    for id in ids.iter().take(4) {
        arena.remove(*id);
        assert!(arena.len() >= last_len);
    }
    // Stale removals are not counted.
    for id in ids.iter().take(4) {
        arena.remove(*id);
    }
    assert_eq!(arena.count(), 6);
    assert_eq!(arena.len(), 10);
    arena.add(100);
    assert_eq!(arena.count(), 7);
    assert_eq!(arena.len(), 10);
}

#[test]
fn iteration_skips_freed_slots() {
    let mut arena: Arena<&'static str> = Arena::new();
    let a = arena.add("a");
    let _b = arena.add("b");
    let c = arena.add("c");
    let _d = arena.add("d");
    arena.remove(a);
    arena.remove(c);
    assert_eq!(collect_values(&arena), vec!["b", "d"]);
    assert_eq!(collect_values(&arena).len(), arena.count());
    let ids = collect_ids(&arena);
    assert_eq!(ids.len(), arena.count());
    for id in ids {
        assert!(arena.try_entry(id).is_some());
    }
    // A traversal is restartable.
    assert_eq!(collect_values(&arena), vec!["b", "d"]);
}

#[test]
fn iteration_of_empty_arena_yields_nothing() {
    let arena: Arena<&'static str> = Arena::default();
    assert!(collect_values(&arena).is_empty());
    assert!(arena.iter_ids().next().is_none());
}

#[test]
fn scenario_add_add_remove_add() {
    let mut arena: Arena<&'static str> = Arena::new();
    let id0 = arena.add("A");
    assert_eq!(id0.id(), 0);
    assert_eq!(arena.entry(id0).generation, 1);
    let id1 = arena.add("B");
    assert_eq!(id1.id(), 1);
    assert_eq!(arena.entry(id1).generation, 1);
    arena.remove(id0);
    let id2 = arena.add("C");
    assert_eq!(id2.id(), 0);
    assert_eq!(arena.entry(id2).generation, 2);
    assert!(arena.try_entry(id0).is_none());
    assert_eq!(arena.try_entry(id2).map(|e| *e.value), Some("C"));
    // Storage order: the reused slot 0 comes before slot 1.
    assert_eq!(collect_values(&arena), vec!["C", "B"]);
    let ids: Vec<u32> = collect_ids(&arena).iter().map(|id| id.id()).collect();
    assert_eq!(ids, vec![0, 1]);
    assert_eq!(arena.count(), 2);
    assert_eq!(arena.len(), 2);
}

#[test]
fn lookup_of_unallocated_slot_is_absent() {
    let mut arena: Arena<u64> = Arena::new();
    let mut other: Arena<u64> = Arena::new();
    let _ = other.add(1);
    let far = other.add(2);
    assert!(arena.try_entry(far).is_none());
    assert!(arena.try_entry_mut(far).is_none());
    let dangling: ArenaId<u64> = ArenaId::new();
    assert!(arena.try_entry(dangling).is_none());
    let first = arena.add(5);
    assert!(arena.try_entry(dangling).is_none());
    assert_ne!(first, dangling);
}

#[test]
fn entry_mut_writes_through() {
    let mut arena: Arena<u64> = Arena::new();
    let a = arena.add(1);
    let b = arena.add(2);
    *arena.entry_mut(a).value = 11;
    if let Some(e) = arena.try_entry_mut(b) {
        assert_eq!(e.generation, 1);
        *e.value += 20;
    }
    assert_eq!(*arena.entry(a).value, 11);
    assert_eq!(*arena.entry(b).value, 22);
    assert_eq!(arena.count(), 2);
    arena.remove(a);
    assert!(arena.try_entry_mut(a).is_none());
}

#[test]
fn can_add_on_fresh_arena() {
    let mut arena: Arena<u64> = Arena::new();
    assert!(arena.can_add());
    let a = arena.add(1);
    arena.remove(a);
    assert!(arena.can_add());
}

#[test]
fn handle_equality_and_order() {
    let mut arena: Arena<u64> = Arena::new();
    let a = arena.add(1);
    let b = arena.add(2);
    arena.remove(a);
    let a2 = arena.add(3);
    let copy = a;
    assert_eq!(a, copy);
    assert_ne!(a, a2);
    assert!(a < b);
    assert!(a2 < b);
    // Order looks at the slot position only.
    assert_eq!(a.partial_cmp(&a2), Some(std::cmp::Ordering::Equal));
    assert_eq!(b.partial_cmp(&a), Some(std::cmp::Ordering::Greater));
    let placeholder: ArenaId<u64> = ArenaId::default();
    assert_eq!(placeholder, ArenaId::new());
    assert_eq!(placeholder.id(), 0);
}

#[test]
fn handles_hash_by_position_and_generation() {
    let mut arena: Arena<u64> = Arena::new();
    let a = arena.add(1);
    arena.remove(a);
    let a2 = arena.add(2);
    let mut set = HashSet::new();
    set.insert(a);
    set.insert(a);
    set.insert(a2);
    assert_eq!(set.len(), 2);
}

#[test]
fn exclusive_traversal_writes_every_live_value() {
    let mut arena: Arena<u64> = Arena::new();
    let a = arena.add(1);
    let b = arena.add(2);
    let c = arena.add(3);
    arena.remove(b);
    let mut seen = 0;
    {
        let mut it = arena.iter_mut();
        while let Some(entry) = it.next() {
            *entry.value *= 10;
            seen += 1;
        }
    }
    assert_eq!(seen, arena.count());
    assert_eq!(*arena.entry(a).value, 10);
    assert_eq!(*arena.entry(c).value, 30);
    assert!(arena.try_entry(b).is_none());
    assert_eq!(arena.count(), 2);
    assert_eq!(arena.len(), 3);
}

#[test]
fn contains_tells_live_from_stale() {
    let mut arena: Arena<u64> = Arena::new();
    let a = arena.add(1);
    assert!(arena.contains(a));
    arena.remove(a);
    assert!(!arena.contains(a));
    let b = arena.add(2);
    assert!(arena.contains(b));
    assert!(!arena.contains(a));
}
