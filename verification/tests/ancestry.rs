use sample_tree::ancestry::is_descendant_of;
use sample_tree::snapshot::Snapshot;

#[test]
fn reflexive_for_recorded_process() {
    let mut s = Snapshot::new();
    s.add(5, 0, String::from("p"));
    assert!(is_descendant_of(&s, 5, 5));
}

#[test]
fn reflexive_even_when_absent_from_snapshot() {
    let s = Snapshot::new();
    assert!(is_descendant_of(&s, 7, 7));
}

#[test]
fn chain_forward_true_and_reverse_false() {
    // A(300) -> B(200) -> C(100), C has no real parent.
    let mut s = Snapshot::new();
    s.add(300, 200, String::from("a"));
    s.add(200, 100, String::from("b"));
    s.add(100, 0, String::from("c"));
    assert!(is_descendant_of(&s, 300, 100));
    assert!(is_descendant_of(&s, 200, 100));
    assert!(!is_descendant_of(&s, 100, 300));
    assert!(!is_descendant_of(&s, 100, 200));
}

#[test]
fn zero_parent_never_descends_from_unrelated_root() {
    let mut s = Snapshot::new();
    s.add(50, 0, String::from("orphan"));
    s.add(60, 1, String::from("root"));
    assert!(!is_descendant_of(&s, 50, 60));
}

#[test]
fn self_parented_never_descends_from_unrelated_root() {
    let mut s = Snapshot::new();
    s.add(42, 42, String::from("init"));
    s.add(9, 1, String::from("root"));
    assert!(!is_descendant_of(&s, 42, 9));
}

#[test]
fn missing_process_resolves_to_false() {
    // 77 has already exited: the snapshot has no record of it.
    let mut s = Snapshot::new();
    s.add(10, 1, String::from("root"));
    assert!(!is_descendant_of(&s, 77, 10));
}

#[test]
fn chain_broken_by_missing_link_resolves_to_false() {
    // 30's parent 20 is not in the snapshot, so the walk stops short of 10.
    let mut s = Snapshot::new();
    s.add(10, 1, String::from("root"));
    s.add(30, 20, String::from("grandchild"));
    assert!(!is_descendant_of(&s, 30, 10));
}

#[test]
fn deep_chain_resolves() {
    let mut s = Snapshot::new();
    let mut pid = 2u32;
    while pid <= 100 {
        s.add(pid, pid - 1, String::from("link"));
        pid += 1;
    }
    assert!(is_descendant_of(&s, 100, 1));
    assert!(!is_descendant_of(&s, 1, 100));
}

#[test]
fn duplicate_identifier_keeps_first_record() {
    let mut s = Snapshot::new();
    assert!(s.add(20, 10, String::from("first")));
    assert!(!s.add(20, 99, String::from("second")));
    let rec = s.lookup(20).expect("record for 20");
    assert_eq!(rec.ppid, 10);
    assert_eq!(rec.name, "first");
}

#[test]
fn lookup_missing_returns_none() {
    let mut s = Snapshot::new();
    s.add(1, 0, String::from("only"));
    assert!(s.lookup(2).is_none());
    assert_eq!(s.record_count(), 1);
}
