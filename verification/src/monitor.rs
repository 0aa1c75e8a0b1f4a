//! The monitoring state machine: poll-diff-dispatch gated on root liveness.
//!
//! A [`Monitor`] remembers which process identifiers have already had a
//! sampling capture dispatched. Each poll cycle compares a fresh snapshot
//! against that set, returns a dispatch request for every newly discovered
//! descendant of the root, and records it — before the caller launches the
//! capture — so that no identifier is ever dispatched twice. Once the root
//! is observed to have exited, the monitor goes inactive for good and polls
//! return nothing.
use crate::ancestry::{descends, is_descendant_of, snapshot_fuel};
use crate::snapshot::Snapshot;
use vstd::prelude::*;

verus! {

/// A request to launch one sampling capture: the target process and the
/// display name under which its output file is named.
pub struct Dispatch {
    pub pid: u32,
    pub name: String,
}

/// The monitoring loop's persistent state: the root's identifier, whether
/// the root has been observed alive so far, and the set of identifiers
/// already dispatched for sampling.
pub struct Monitor {
    root_pid: u32,
    active: bool,
    monitored: Vec<u32>,
}

/// Whether `pid` must be dispatched in a poll cycle: it is recorded in the
/// snapshot, descends from the root there, and has not been dispatched yet.
pub open spec fn new_descendant(
    m: Map<u32, u32>,
    monitored: Set<u32>,
    root: u32,
    pid: u32,
    fuel: nat,
) -> bool {
    &&& m.dom().contains(pid)
    &&& !monitored.contains(pid)
    &&& descends(m, pid, root, fuel)
}

/// What one poll cycle does, as a relation between the monitored set before
/// (`monitored`), the snapshot's parent links and fuel, the identifiers
/// dispatched (`picked`), and the monitored set after (`monitored2`): every
/// picked identifier is a newly discovered descendant, each is picked once,
/// every newly discovered descendant is picked, and the monitored set grows
/// by exactly the picked identifiers.
pub open spec fn poll_step(
    monitored: Set<u32>,
    root: u32,
    m: Map<u32, u32>,
    fuel: nat,
    picked: Seq<u32>,
    monitored2: Set<u32>,
) -> bool {
    &&& forall|i: int|
        0 <= i < picked.len() ==> new_descendant(m, monitored, root, #[trigger] picked[i], fuel)
    &&& forall|i: int, j: int| 0 <= i < j < picked.len() ==> picked[i] != picked[j]
    &&& forall|p: u32| new_descendant(m, monitored, root, p, fuel) ==> picked.contains(p)
    &&& monitored2 == monitored.union(picked.to_set())
}

impl Monitor {
    /// No identifier is recorded as monitored twice.
    pub closed spec fn wf(&self) -> bool {
        forall|i: int, j: int|
            0 <= i < j < self.monitored@.len() ==> self.monitored@[i] != self.monitored@[j]
    }

    /// The identifier of the monitored root process.
    pub closed spec fn root(&self) -> u32 {
        self.root_pid
    }

    /// Whether the root has been observed alive at every liveness check so
    /// far.
    pub closed spec fn is_active(&self) -> bool {
        self.active
    }

    /// The identifiers already dispatched for sampling.
    pub closed spec fn monitored_set(&self) -> Set<u32> {
        self.monitored@.to_set()
    }

    /// Start monitoring a freshly spawned root. The root itself is sampled
    /// immediately — it is trivially a descendant of itself — so it is the
    /// one dispatch returned, and its identifier is recorded as monitored.
    pub fn new(root_pid: u32, root_name: String) -> (r: (Monitor, Dispatch))
        ensures
            r.0.wf(),
            r.0.root() == root_pid,
            r.0.is_active(),
            r.0.monitored_set() == Set::empty().insert(root_pid),
            r.1.pid == root_pid,
            r.1.name == root_name,
    {
        let mut monitored: Vec<u32> = Vec::new();
        monitored.push(root_pid);
        proof {
            assert(monitored@ =~= Seq::<u32>::empty().push(root_pid));
            Seq::<u32>::empty().lemma_push_to_set_commute(root_pid);
            assert(Seq::<u32>::empty().to_set() =~= Set::<u32>::empty());
            assert(monitored@.to_set() =~= Set::empty().insert(root_pid));
        }
        (
            Monitor { root_pid, active: true, monitored },
            Dispatch { pid: root_pid, name: root_name },
        )
    }

    /// Record a root liveness check. Once the root has been seen not
    /// running the monitor stays inactive forever.
    pub fn observe_root(&mut self, running: bool)
        requires
            old(self).wf(),
        ensures
            final(self).wf(),
            final(self).root() == old(self).root(),
            final(self).monitored_set() == old(self).monitored_set(),
            final(self).is_active() == (old(self).is_active() && running),
    {
        self.active = self.active && running;
    }

    /// Whether the monitoring loop should keep polling.
    pub fn should_poll(&self) -> (r: bool)
        ensures
            r == self.is_active(),
    {
        self.active
    }

    pub fn is_monitored(&self, pid: u32) -> (r: bool)
        ensures
            r == self.monitored_set().contains(pid),
    {
        let n = self.monitored.len();
        let mut i: usize = 0;
        while i < n
            invariant
                n == self.monitored@.len(),
                i <= n,
                forall|j: int| 0 <= j < i ==> self.monitored@[j] != pid,
            decreases n - i,
        {
            if self.monitored[i] == pid {
                return true;
            }
            i += 1;
        }
        return false;
    }

    /// One poll cycle. While the monitor is active, returns one dispatch
    /// request for every process in the snapshot that descends from the root
    /// and has not been dispatched before, records those identifiers as
    /// monitored, and pairs each with its snapshot name. After the root has
    /// exited, polls return nothing and change nothing.
    pub fn poll(&mut self, snap: &Snapshot) -> (d: Vec<Dispatch>)
        requires
            old(self).wf(),
            snap.wf(),
        ensures
            final(self).wf(),
            final(self).root() == old(self).root(),
            final(self).is_active() == old(self).is_active(),
            !old(self).is_active() ==> {
                &&& d@.len() == 0
                &&& final(self).monitored_set() == old(self).monitored_set()
            },
            old(self).is_active() ==> poll_step(
                old(self).monitored_set(),
                old(self).root(),
                snap.parents(),
                snapshot_fuel(snap),
                d@.map(|i: int, x: Dispatch| x.pid),
                final(self).monitored_set(),
            ),
            forall|i: int|
                0 <= i < d@.len() ==> (#[trigger] d@[i]).name@ == snap.names()[d@[i].pid],
    {
        let ghost m = snap.parents();
        let ghost fuel = snapshot_fuel(snap);
        let ghost mon0 = self.monitored_set();
        let ghost root = self.root();
        let mut out: Vec<Dispatch> = Vec::new();
        if !self.active {
            return out;
        }
        let n = snap.record_count();
        let mut i: usize = 0;
        while i < n
            invariant
                self.wf(),
                snap.wf(),
                n == snap@.len(),
                i <= n,
                m == snap.parents(),
                fuel == snapshot_fuel(snap),
                root == self.root(),
                self.is_active(),
                mon0.subset_of(self.monitored_set()),
                self.monitored_set() == mon0.union(
                    out@.map(|k: int, x: Dispatch| x.pid).to_set(),
                ),
                forall|k: int|
                    0 <= k < out@.len() ==> new_descendant(
                        m,
                        mon0,
                        root,
                        (#[trigger] out@[k]).pid,
                        fuel,
                    ),
                forall|k: int, l: int|
                    0 <= k < l < out@.len() ==> out@[k].pid != out@[l].pid,
                forall|j: int|
                    0 <= j < i ==> (new_descendant(m, mon0, root, #[trigger] snap@[j].pid, fuel)
                        ==> out@.map(|k: int, x: Dispatch| x.pid).contains(snap@[j].pid)),
                forall|k: int|
                    0 <= k < out@.len() ==> (#[trigger] out@[k]).name@ == snap.names()[out@[
                        k
                    ].pid],
            decreases n - i,
        {
            let ghost out_pre = out@;
            let ghost mon_pre = self.monitored_set();
            let ghost mon_seq_pre = self.monitored@;
            let rec = snap.record_at(i);
            let pid = rec.pid;
            proof {
                snap.lemma_record_maps(i as int);
            }
            if !self.is_monitored(pid) && is_descendant_of(snap, pid, self.root_pid) {
                out.push(Dispatch { pid, name: rec.name.clone() });
                self.monitored.push(pid);
                proof {
                    let f = |k: int, x: Dispatch| x.pid;
                    assert(out@.map(f) =~= out_pre.map(f).push(pid));
                    out_pre.map(f).lemma_push_to_set_commute(pid);
                    mon_seq_pre.lemma_push_to_set_commute(pid);
                    assert(out@.map(f).to_set() =~= out_pre.map(f).to_set().insert(pid));
                    assert(self.monitored@.to_set() =~= mon_pre.insert(pid));
                    assert(self.monitored_set() =~= mon0.union(out@.map(f).to_set()));
                    assert forall|k: int, l: int|
                        0 <= k < l < out@.len() implies out@[k].pid != out@[l].pid by {
                        if l == out@.len() - 1 {
                            assert(new_descendant(m, mon0, root, out_pre[k].pid, fuel));
                            assert(!mon_pre.contains(pid));
                            assert(out_pre.map(f).to_set().contains(out_pre.map(f)[k]));
                            assert(mon_pre.contains(out_pre[k].pid));
                        }
                    }
                    assert(out@.map(f)[out@.len() - 1] == pid);
                    assert(out@.map(f).contains(pid));
                    assert forall|j: int|
                        0 <= j < i && new_descendant(
                            m,
                            mon0,
                            root,
                            snap@[j].pid,
                            fuel,
                        ) implies out@.map(f).contains(snap@[j].pid) by {
                        let idx = choose|idx: int|
                            0 <= idx < out_pre.map(f).len() && out_pre.map(f)[idx] == snap@[
                                j
                            ].pid;
                        assert(out@.map(f)[idx] == snap@[j].pid);
                    }
                }
            } else {
                proof {
                    let f = |k: int, x: Dispatch| x.pid;
                    if new_descendant(m, mon0, root, pid, fuel) {
                        assert(self.monitored_set().contains(pid) || !descends(
                            m,
                            pid,
                            root,
                            fuel,
                        ));
                        assert(self.monitored_set().contains(pid));
                        assert(!mon0.contains(pid));
                        assert(out@.map(f).to_set().contains(pid));
                        assert(out@.map(f).contains(pid));
                    }
                }
            }
            i += 1;
        }
        proof {
            let f = |k: int, x: Dispatch| x.pid;
            assert forall|p: u32| new_descendant(m, mon0, root, p, fuel) implies out@.map(
                f,
            ).contains(p) by {
                let j = snap.lemma_dom_record(p);
            }
        }
        return out;
    }
}

/// At-most-once dispatch: across two consecutive poll cycles — whatever the
/// two snapshots — an identifier dispatched in the first is not dispatched
/// again in the second.
pub proof fn lemma_at_most_once(
    mon0: Set<u32>,
    root: u32,
    m1: Map<u32, u32>,
    fuel1: nat,
    picked1: Seq<u32>,
    mon1: Set<u32>,
    m2: Map<u32, u32>,
    fuel2: nat,
    picked2: Seq<u32>,
    mon2: Set<u32>,
    pid: u32,
)
    requires
        poll_step(mon0, root, m1, fuel1, picked1, mon1),
        poll_step(mon1, root, m2, fuel2, picked2, mon2),
        picked1.contains(pid),
    ensures
        !picked2.contains(pid),
{
    assert(picked1.to_set().contains(pid));
    assert(mon1.contains(pid));
    if picked2.contains(pid) {
        let i = choose|i: int| 0 <= i < picked2.len() && picked2[i] == pid;
        assert(new_descendant(m2, mon1, root, picked2[i], fuel2));
    }
}

/// Once dispatched, always monitored: a poll cycle never removes an
/// identifier from the monitored set.
pub proof fn lemma_monitored_monotone(
    mon0: Set<u32>,
    root: u32,
    m: Map<u32, u32>,
    fuel: nat,
    picked: Seq<u32>,
    mon1: Set<u32>,
)
    requires
        poll_step(mon0, root, m, fuel, picked, mon1),
    ensures
        mon0.subset_of(mon1),
        forall|i: int| 0 <= i < picked.len() ==> mon1.contains(#[trigger] picked[i]),
{
    assert forall|i: int| 0 <= i < picked.len() implies mon1.contains(#[trigger] picked[i]) by {
        assert(picked.to_set().contains(picked[i]));
    }
}

} // verus!
