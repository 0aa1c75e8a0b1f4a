use sample_tree::dispatch::file_name;
use sample_tree::monitor::Monitor;
use sample_tree::snapshot::Snapshot;

fn tree_snapshot(entries: &[(u32, u32, &str)]) -> Snapshot {
    let mut s = Snapshot::new();
    for &(pid, ppid, name) in entries {
        s.add(pid, ppid, String::from(name));
    }
    s
}

#[test]
fn new_monitor_dispatches_root_immediately() {
    let (mon, d) = Monitor::new(10, String::from("root"));
    assert_eq!(d.pid, 10);
    assert_eq!(d.name, "root");
    assert!(mon.is_monitored(10));
    assert!(mon.should_poll());
}

#[test]
fn poll_dispatches_each_descendant_at_most_once() {
    let (mut mon, _root) = Monitor::new(10, String::from("root"));
    let snap = tree_snapshot(&[(10, 1, "root"), (20, 10, "child")]);

    let first = mon.poll(&snap);
    assert_eq!(first.len(), 1);
    assert_eq!(first[0].pid, 20);
    assert_eq!(first[0].name, "child");

    // The same descendant keeps appearing in later snapshots.
    let second = mon.poll(&snap);
    assert!(second.is_empty());
    let third = mon.poll(&snap);
    assert!(third.is_empty());
}

#[test]
fn poll_skips_processes_outside_the_tree() {
    let (mut mon, _root) = Monitor::new(10, String::from("root"));
    let snap = tree_snapshot(&[(10, 1, "root"), (99, 1, "stranger"), (50, 0, "orphan")]);
    let dispatched = mon.poll(&snap);
    assert!(dispatched.is_empty());
}

#[test]
fn no_polls_after_root_exit() {
    let (mut mon, _root) = Monitor::new(10, String::from("root"));
    mon.observe_root(true);
    assert!(mon.should_poll());
    mon.observe_root(false);
    assert!(!mon.should_poll());
    // Even a snapshot full of new descendants yields nothing once the root
    // has been seen dead, and a later "running" observation cannot revive it.
    mon.observe_root(true);
    assert!(!mon.should_poll());
    let snap = tree_snapshot(&[(10, 1, "root"), (20, 10, "child")]);
    assert!(mon.poll(&snap).is_empty());
    assert!(!mon.is_monitored(20));
}

#[test]
fn three_cycle_tree_discovery() {
    // Root P spawns C1, which spawns C2; C1 appears in cycle 1, C2 in
    // cycle 2. Exactly three dispatches happen in all, one per process,
    // each with a distinct output file name.
    let (mut mon, root_dispatch) = Monitor::new(10, String::from("p"));
    let mut all = vec![(root_dispatch.pid, root_dispatch.name.clone())];

    let cycle1 = tree_snapshot(&[(10, 1, "p"), (20, 10, "c1")]);
    for d in mon.poll(&cycle1) {
        all.push((d.pid, d.name.clone()));
    }
    assert_eq!(all.len(), 2);

    let cycle2 = tree_snapshot(&[(10, 1, "p"), (20, 10, "c1"), (30, 20, "c2")]);
    for d in mon.poll(&cycle2) {
        all.push((d.pid, d.name.clone()));
    }
    assert_eq!(all.len(), 3);

    let cycle3 = tree_snapshot(&[(10, 1, "p"), (20, 10, "c1"), (30, 20, "c2")]);
    assert!(mon.poll(&cycle3).is_empty());

    let mut names: Vec<String> = all
        .iter()
        .map(|(pid, name)| file_name(name, *pid))
        .collect();
    assert_eq!(names, vec!["p-10.txt", "c1-20.txt", "c2-30.txt"]);
    names.sort();
    names.dedup();
    assert_eq!(names.len(), 3, "no dispatch repeats");
}

#[test]
fn late_reparented_process_is_picked_up_next_poll() {
    let (mut mon, _root) = Monitor::new(10, String::from("root"));
    let before = tree_snapshot(&[(10, 1, "root"), (40, 1, "loose")]);
    assert!(mon.poll(&before).is_empty());
    let after = tree_snapshot(&[(10, 1, "root"), (40, 10, "loose")]);
    let dispatched = mon.poll(&after);
    assert_eq!(dispatched.len(), 1);
    assert_eq!(dispatched[0].pid, 40);
}
