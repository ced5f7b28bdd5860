use dedup_numbers::store::{BTreeSetStore, HasInsert, HashSetStore, Store, VecStore};
use std::collections::{BTreeSet, HashSet};
use std::sync::atomic::Ordering;

#[test]
fn hash_set_store_saves_values() {
    let s = HashSetStore::new();
    let mut engine = s.start_processing();
    assert_eq!(Some(String::from("000000009")), engine.process(9));

    assert_eq!(1, s.unique_counter().load(Ordering::Acquire));
    assert_eq!(0, s.duplicate_counter().load(Ordering::Acquire));

    assert!(engine.process(9).is_none());

    assert_eq!(1, s.unique_counter().load(Ordering::Acquire));
    assert_eq!(1, s.duplicate_counter().load(Ordering::Acquire));
}

#[test]
fn btree_set_store_saves_values() {
    let s = BTreeSetStore::new();
    let mut engine = s.start_processing();
    assert_eq!(Some(String::from("000000009")), engine.process(9));

    assert_eq!(1, s.unique_counter().load(Ordering::Acquire));
    assert_eq!(0, s.duplicate_counter().load(Ordering::Acquire));

    assert!(engine.process(9).is_none());

    assert_eq!(1, s.unique_counter().load(Ordering::Acquire));
    assert_eq!(1, s.duplicate_counter().load(Ordering::Acquire));
}

#[test]
fn vec_store_saves_values() {
    let s = VecStore::new();
    let mut engine = s.start_processing();
    assert_eq!(Some(String::from("000000009")), engine.process(9));

    assert_eq!(1, s.unique_counter().load(Ordering::Acquire));
    assert_eq!(0, s.duplicate_counter().load(Ordering::Acquire));

    assert!(engine.process(9).is_none());

    assert_eq!(1, s.unique_counter().load(Ordering::Acquire));
    assert_eq!(1, s.duplicate_counter().load(Ordering::Acquire));
}

#[test]
fn hash_set_insert_reports_first_sight_only() {
    let mut set: HashSet<u32> = HashSet::new();
    assert!(HasInsert::insert(&mut set, 7));
    assert!(!HasInsert::insert(&mut set, 7));
    assert!(HasInsert::insert(&mut set, 8));
    assert_eq!(2, set.len());
}

#[test]
fn btree_set_insert_reports_first_sight_only() {
    let mut set: BTreeSet<u32> = BTreeSet::new();
    assert!(HasInsert::insert(&mut set, 7));
    assert!(!HasInsert::insert(&mut set, 7));
    assert!(HasInsert::insert(&mut set, 3));
    let in_order: Vec<u32> = set.iter().copied().collect();
    assert_eq!(vec![3, 7], in_order);
}

#[test]
fn bitmap_insert_reports_first_sight_only() {
    let mut flags: Vec<bool> = vec![false; 16];
    assert!(HasInsert::insert(&mut flags, 7));
    assert!(!HasInsert::insert(&mut flags, 7));
    assert!(HasInsert::insert(&mut flags, 0));
    assert!(HasInsert::insert(&mut flags, 15));
    assert_eq!(3, flags.iter().filter(|f| **f).count());
}

#[test]
fn fresh_bitmap_store_is_empty_and_spans_the_domain() {
    let s = VecStore::new();
    let mut flags = s.get_store();
    assert_eq!(1_000_000_000, flags.len());
    assert!(HasInsert::insert(&mut flags, 0));
    assert!(HasInsert::insert(&mut flags, 999_999_999));
    assert!(HasInsert::insert(&mut flags, 5));
    assert!(!HasInsert::insert(&mut flags, 5));
}

#[test]
fn fresh_hash_and_tree_stores_are_empty() {
    let h = HashSetStore::new();
    assert!(h.get_store().is_empty());
    let t = BTreeSetStore::new();
    assert!(t.get_store().is_empty());
}

#[test]
fn counters_are_shared_with_the_engine() {
    let s = BTreeSetStore::new();
    let unique = s.unique_counter();
    let duplicate = s.duplicate_counter();
    let mut engine = s.start_processing();
    engine.process(1);
    engine.process(2);
    engine.process(1);
    assert_eq!(2, unique.load(Ordering::SeqCst));
    assert_eq!(1, duplicate.load(Ordering::SeqCst));
    assert_eq!(2, engine.unique_count());
    assert_eq!(1, engine.duplicate_count());
}
