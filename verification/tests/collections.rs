use squad_stats::player::{bump, Tally};
use squad_stats::stats::{add_tallies, union};
use squad_stats::strmap::{Snapshot, StrMap};
use squad_stats::strset::StrSet;

fn tally_of(pairs: &[(&str, u32)]) -> Tally {
    let mut t: Tally = StrMap::new();
    for (k, v) in pairs {
        t = t.with(k.to_string(), *v);
    }
    t
}

fn set_of(items: &[&str]) -> StrSet {
    let mut s = StrSet::new();
    for i in items {
        s = s.with(i.to_string());
    }
    s
}

#[test]
fn a_new_map_is_empty() {
    let m: StrMap<u32> = StrMap::new();
    assert_eq!(m.len(), 0);
    assert_eq!(m.get("a"), None);
    assert!(!m.contains_key("a"));
}

#[test]
fn a_map_holds_the_latest_value_of_each_key_once() {
    let m = tally_of(&[("a", 1), ("b", 2), ("a", 3)]);
    assert_eq!(m.len(), 2);
    assert_eq!(m.get("a"), Some(&3));
    assert_eq!(m.get("b"), Some(&2));
    assert_eq!(m.get("c"), None);
    assert!(m.contains_key("b"));
    assert_eq!(m.key_at(0), "a");
    assert_eq!(*m.value_at(0), 3);
    assert_eq!(m.key_at(1), "b");
    assert_eq!(*m.value_at(1), 2);
}

#[test]
fn a_snapshot_of_a_map_holds_the_same() {
    let m = tally_of(&[("a", 1), ("b", 2)]);
    let copy = m.snapshot();
    let changed = m.with("a".to_string(), 9);
    assert_eq!(copy.len(), 2);
    assert_eq!(copy.get("a"), Some(&1));
    assert_eq!(copy.get("b"), Some(&2));
    assert_eq!(changed.get("a"), Some(&9));
}

#[test]
fn a_set_holds_each_member_once() {
    let s = set_of(&["Rifleman", "Medic", "Rifleman"]);
    assert_eq!(s.len(), 2);
    assert!(s.contains("Rifleman"));
    assert!(s.contains("Medic"));
    assert!(!s.contains("medic"));
    assert_eq!(s.item_at(0), "Rifleman");
    assert_eq!(s.item_at(1), "Medic");
    assert_eq!(StrSet::new().len(), 0);
}

#[test]
fn a_snapshot_of_a_set_holds_the_same() {
    let s = set_of(&["Rifleman", "Medic"]);
    let copy = s.snapshot();
    assert_eq!(copy.len(), 2);
    assert!(copy.contains("Rifleman"));
    assert!(copy.contains("Medic"));
}

#[test]
fn a_union_holds_the_members_of_both() {
    let u = union(&set_of(&["a", "b"]), &set_of(&["b", "c"]));
    assert_eq!(u.len(), 3);
    assert!(u.contains("a") && u.contains("b") && u.contains("c"));
    assert_eq!(union(&StrSet::new(), &StrSet::new()).len(), 0);
}

#[test]
fn bumping_counts_from_zero() {
    let t = bump(&tally_of(&[]), "Alice").unwrap();
    assert_eq!(t.get("Alice"), Some(&1));
    let t = bump(&t, "Alice").unwrap();
    assert_eq!(t.get("Alice"), Some(&2));
    let t = bump(&t, "Bob").unwrap();
    assert_eq!(t.get("Alice"), Some(&2));
    assert_eq!(t.get("Bob"), Some(&1));
    assert_eq!(t.len(), 2);
}

#[test]
fn bumping_a_full_counter_gives_nothing() {
    let t = tally_of(&[("Alice", u32::MAX)]);
    assert!(bump(&t, "Alice").is_none());
    assert!(bump(&t, "Bob").is_some());
    let t = tally_of(&[("Alice", u32::MAX - 1)]);
    assert_eq!(bump(&t, "Alice").unwrap().get("Alice"), Some(&u32::MAX));
}

#[test]
fn tallies_add_key_by_key() {
    let sum = add_tallies(&tally_of(&[("a", 1), ("b", 2)]), &tally_of(&[("b", 5), ("c", 0)])).unwrap();
    assert_eq!(sum.len(), 3);
    assert_eq!(sum.get("a"), Some(&1));
    assert_eq!(sum.get("b"), Some(&7));
    assert_eq!(sum.get("c"), Some(&0));
}

#[test]
fn tallies_that_pass_the_largest_count_do_not_add() {
    assert!(add_tallies(&tally_of(&[("a", u32::MAX)]), &tally_of(&[("a", 1)])).is_none());
    let sum = add_tallies(&tally_of(&[("a", u32::MAX - 1)]), &tally_of(&[("a", 1)])).unwrap();
    assert_eq!(sum.get("a"), Some(&u32::MAX));
    let sum = add_tallies(&tally_of(&[("a", u32::MAX)]), &tally_of(&[("b", u32::MAX)])).unwrap();
    assert_eq!(sum.len(), 2);
}
