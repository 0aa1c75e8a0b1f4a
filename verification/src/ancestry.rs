//! Ancestry resolution: deciding whether a process is the monitored root or
//! was transitively spawned by it, by chasing parent links in a snapshot.
//!
//! The walk is depth-bounded: a snapshot of `n` records admits no acyclic
//! parent chain longer than `n` links, so the walk carries `n` steps of fuel
//! and treats exhaustion (possible only on a malformed, cyclic snapshot) as
//! "not a descendant".
use crate::snapshot::Snapshot;
use vstd::prelude::*;

verus! {

/// The depth-bounded ancestry relation over a parent-link map.
///
/// `descends(m, pid, root, fuel)` holds when `pid` reaches `root` by
/// following at most `fuel` parent links in `m`, where a link to 0 or to the
/// process itself is the "no real parent" sentinel and a missing entry means
/// the process has already exited; both end the chain without reaching root.
pub open spec fn descends(m: Map<u32, u32>, pid: u32, root: u32, fuel: nat) -> bool
    decreases fuel,
{
    if pid == root {
        true
    } else if fuel == 0 {
        false
    } else if !m.dom().contains(pid) {
        false
    } else {
        let p = m[pid];
        if p == 0 || p == pid {
            false
        } else {
            descends(m, p, root, (fuel - 1) as nat)
        }
    }
}

/// The fuel with which a snapshot's ancestry queries are answered: one step
/// per record, enough for any acyclic chain within the snapshot.
pub open spec fn snapshot_fuel(s: &Snapshot) -> nat {
    s@.len()
}

/// Whether `pid` is `root` itself or a transitive child of it, according to
/// the snapshot's parent links.
pub fn is_descendant_of(s: &Snapshot, pid: u32, root: u32) -> (r: bool)
    requires
        s.wf(),
    ensures
        r == descends(s.parents(), pid, root, snapshot_fuel(s)),
{
    let ghost m = s.parents();
    let mut cur: u32 = pid;
    let mut fuel: usize = s.record_count();
    loop
        invariant
            s.wf(),
            m == s.parents(),
            fuel <= s@.len(),
            descends(m, pid, root, snapshot_fuel(s)) == descends(m, cur, root, fuel as nat),
        decreases fuel,
    {
        if cur == root {
            return true;
        }
        if fuel == 0 {
            return false;
        }
        match s.lookup(cur) {
            None => {
                return false;
            },
            Some(rec) => {
                if rec.ppid == 0 || rec.ppid == cur {
                    return false;
                }
                fuel = fuel - 1;
                cur = rec.ppid;
            },
        }
    }
}

/// Every process is a descendant of itself, whatever the snapshot and the
/// fuel: the relation is reflexive.
pub proof fn lemma_descends_reflexive(m: Map<u32, u32>, pid: u32, fuel: nat)
    ensures
        descends(m, pid, pid, fuel),
{
}

/// More fuel never turns a descendant into a non-descendant: the relation is
/// monotone in the depth bound.
pub proof fn lemma_descends_fuel_mono(m: Map<u32, u32>, pid: u32, root: u32, f1: nat, f2: nat)
    requires
        f1 <= f2,
        descends(m, pid, root, f1),
    ensures
        descends(m, pid, root, f2),
    decreases f1,
{
    if pid != root {
        lemma_descends_fuel_mono(m, m[pid], root, (f1 - 1) as nat, (f2 - 1) as nat);
    }
}

/// Chain property: when `a`'s parent is `b` and `b`'s parent is `c`, and
/// `c` ends the chain (absent, or carrying a "no real parent" sentinel),
/// `a` descends from `c` under any fuel that admits the two links, while `c`
/// does not descend from `a`.
pub proof fn lemma_descends_chain(m: Map<u32, u32>, a: u32, b: u32, c: u32, fuel: nat)
    requires
        m.dom().contains(a),
        m[a] == b,
        m.dom().contains(b),
        m[b] == c,
        a != b,
        b != c,
        a != c,
        b != 0,
        c != 0,
        !m.dom().contains(c) || m[c] == 0 || m[c] == c,
        fuel >= 2,
    ensures
        descends(m, a, c, fuel),
        !descends(m, c, a, fuel),
{
    assert(descends(m, c, c, (fuel - 2) as nat));
    assert(descends(m, b, c, (fuel - 1) as nat));
}

/// Termination at the root sentinel: a process whose parent identifier is 0,
/// or its own identifier, descends from no root but itself.
pub proof fn lemma_sentinel_not_descendant(m: Map<u32, u32>, pid: u32, root: u32, fuel: nat)
    requires
        pid != root,
        m.dom().contains(pid),
        m[pid] == 0 || m[pid] == pid,
    ensures
        !descends(m, pid, root, fuel),
{
}

/// Missing-process safety: a process the snapshot no longer holds (it has
/// already exited) descends from no root but itself.
pub proof fn lemma_missing_not_descendant(m: Map<u32, u32>, pid: u32, root: u32, fuel: nat)
    requires
        pid != root,
        !m.dom().contains(pid),
    ensures
        !descends(m, pid, root, fuel),
{
}

} // verus!
