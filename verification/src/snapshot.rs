//! Point-in-time model of the OS process table.
//!
//! A [`Snapshot`] holds one record per live process: its identifier, its
//! parent's identifier and a best-effort display name. It is rebuilt from a
//! fresh read of the process table on every poll and never mutated in place.
use vstd::prelude::*;

verus! {

/// One live process as reported by the process table: its identifier, the
/// identifier of the process that spawned it (0 or the process's own
/// identifier mean "no real parent"), and a best-effort display name.
pub struct ProcessRecord {
    pub pid: u32,
    pub ppid: u32,
    pub name: String,
}

/// A point-in-time set of process records, at most one per identifier.
pub struct Snapshot {
    records: Vec<ProcessRecord>,
}

impl Snapshot {
    /// The records as a sequence, in insertion order.
    pub closed spec fn view(&self) -> Seq<ProcessRecord> {
        self.records@
    }

    /// Each process identifier occurs at most once.
    pub open spec fn wf(&self) -> bool {
        forall|i: int, j: int|
            0 <= i < j < self@.len() ==> self@[i].pid != self@[j].pid
    }

    /// The parent link of each recorded process.
    pub open spec fn parents(&self) -> Map<u32, u32> {
        Map::new(
            |p: u32| exists|i: int| 0 <= i < self@.len() && self@[i].pid == p,
            |p: u32|
                {
                    let i = choose|i: int| 0 <= i < self@.len() && self@[i].pid == p;
                    self@[i].ppid
                },
        )
    }

    /// The display name of each recorded process.
    pub open spec fn names(&self) -> Map<u32, Seq<char>> {
        Map::new(
            |p: u32| exists|i: int| 0 <= i < self@.len() && self@[i].pid == p,
            |p: u32|
                {
                    let i = choose|i: int| 0 <= i < self@.len() && self@[i].pid == p;
                    self@[i].name@
                },
        )
    }

    /// In a well-formed snapshot the record at index `i` is the one the
    /// parent and name maps describe for its identifier.
    pub proof fn lemma_record_maps(&self, i: int)
        requires
            self.wf(),
            0 <= i < self@.len(),
        ensures
            self.parents().dom().contains(self@[i].pid),
            self.parents()[self@[i].pid] == self@[i].ppid,
            self.names().dom().contains(self@[i].pid),
            self.names()[self@[i].pid] == self@[i].name@,
    {
        let p = self@[i].pid;
        let j = choose|j: int| 0 <= j < self@.len() && self@[j].pid == p;
        assert(j == i);
    }

    /// Every identifier the parent map knows belongs to some record.
    pub proof fn lemma_dom_record(&self, p: u32) -> (i: int)
        requires
            self.parents().dom().contains(p),
        ensures
            0 <= i < self@.len(),
            self@[i].pid == p,
    {
        choose|i: int| 0 <= i < self@.len() && self@[i].pid == p
    }

    pub fn new() -> (s: Snapshot)
        ensures
            s.wf(),
            s@ == Seq::<ProcessRecord>::empty(),
    {
        Snapshot { records: Vec::new() }
    }

    pub fn record_count(&self) -> (n: usize)
        ensures
            n == self@.len(),
    {
        self.records.len()
    }

    pub fn record_at(&self, i: usize) -> (r: &ProcessRecord)
        requires
            i < self@.len(),
        ensures
            *r == self@[i as int],
    {
        &self.records[i]
    }

    /// Find the record for an identifier, if the snapshot holds one.
    pub fn lookup(&self, pid: u32) -> (r: Option<&ProcessRecord>)
        requires
            self.wf(),
        ensures
            match r {
                Some(rec) => {
                    &&& rec.pid == pid
                    &&& self.parents().dom().contains(pid)
                    &&& rec.ppid == self.parents()[pid]
                    &&& rec.name@ == self.names()[pid]
                },
                None => !self.parents().dom().contains(pid),
            },
    {
        let n = self.records.len();
        let mut i: usize = 0;
        while i < n
            invariant
                n == self@.len(),
                i <= n,
                self.wf(),
                forall|j: int| 0 <= j < i ==> self@[j].pid != pid,
            decreases n - i,
        {
            if self.records[i].pid == pid {
                proof {
                    self.lemma_record_maps(i as int);
                }
                return Some(&self.records[i]);
            }
            i += 1;
        }
        return None;
    }

    /// Record one process. An identifier already present is left as it was:
    /// the first record for an identifier wins, and well-formedness is kept.
    /// Returns whether the record was added.
    pub fn add(&mut self, pid: u32, ppid: u32, name: String) -> (added: bool)
        requires
            old(self).wf(),
        ensures
            final(self).wf(),
            added == !old(self).parents().dom().contains(pid),
            added ==> final(self)@ == old(self)@.push(
                ProcessRecord { pid, ppid, name },
            ),
            !added ==> final(self)@ == old(self)@,
    {
        if self.lookup(pid).is_some() {
            return false;
        }
        proof {
            if exists|i: int| 0 <= i < self@.len() && self@[i].pid == pid {
                let i = choose|i: int| 0 <= i < self@.len() && self@[i].pid == pid;
                self.lemma_record_maps(i);
                assert(false);
            }
        }
        self.records.push(ProcessRecord { pid, ppid, name });
        return true;
    }
}

} // verus!
