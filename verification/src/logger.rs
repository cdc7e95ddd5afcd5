//! A bounded, deduplicating store for severe log lines, served by the
//! administrative surface. The hook that feeds it from the logging facade
//! lives outside the verified core.

use vstd::prelude::*;

verus! {

/// One severe log line with the moment it was last seen, in seconds.
#[derive(Debug, Clone)]
pub struct SevereLog {
    pub log: String,
    pub time: u64,
}

/// A ring of recent severe log lines: a repeated message only refreshes
/// its timestamp; once the buffer is full, new messages overwrite the
/// oldest slots in rotation.
#[derive(Debug)]
pub struct SevereLogStore {
    logs: Vec<SevereLog>,
    log_buffer_size: usize,
    log_buffer_idx: usize,
}

/// The marker type for the logging hook; its facade implementation lives
/// outside the verified core.
#[derive(Debug)]
pub struct HubRouterLogger;

impl SevereLogStore {
    /// The stored lines.
    pub closed spec fn spec_logs(&self) -> Seq<SevereLog> {
        self.logs@
    }

    /// The capacity of the ring.
    pub closed spec fn spec_size(&self) -> nat {
        self.log_buffer_size as nat
    }

    /// The slot the next overwrite will take.
    pub closed spec fn spec_idx(&self) -> nat {
        self.log_buffer_idx as nat
    }

    /// The store never holds more lines than its capacity, and the
    /// overwrite position stays inside the capacity.
    pub open spec fn wf(&self) -> bool {
        &&& self.spec_size() > 0
        &&& self.spec_logs().len() <= self.spec_size()
        &&& self.spec_idx() < self.spec_size()
    }

    /// An empty store with the given positive capacity.
    pub fn new(size: usize) -> (r: SevereLogStore)
        requires
            size > 0,
        ensures
            r.wf(),
            r.spec_logs().len() == 0,
            r.spec_size() == size,
    {
        SevereLogStore { logs: Vec::new(), log_buffer_size: size, log_buffer_idx: 0 }
    }

    /// A copy of the stored lines.
    pub fn entries(&self) -> (r: Vec<SevereLog>)
        ensures
            r@.len() == self.spec_logs().len(),
            forall|i: int|
                0 <= i < r@.len() ==> (#[trigger] r@[i]).log@ == self.spec_logs()[i].log@
                    && r@[i].time == self.spec_logs()[i].time,
    {
        let mut out: Vec<SevereLog> = Vec::new();
        let n = self.logs.len();
        for i in 0..n
            invariant
                n == self.logs.len(),
                out@.len() == i,
                forall|q: int|
                    0 <= q < i ==> (#[trigger] out@[q]).log@ == self.logs@[q].log@
                        && out@[q].time == self.logs@[q].time,
        {
            out.push(SevereLog { log: self.logs[i].log.clone(), time: self.logs[i].time });
        }
        out
    }

    /// Save one severe line. A line equal to a stored one only refreshes
    /// that entry's timestamp; otherwise the line is appended while the
    /// ring has room, and overwrites the slot at the rotation index once
    /// it is full.
    #[verifier::loop_isolation(false)]
    pub fn save_log(&mut self, log: SevereLog)
        requires
            old(self).wf(),
        ensures
            final(self).wf(),
            final(self).spec_size() == old(self).spec_size(),
            (exists|i: int|
                0 <= i < old(self).spec_logs().len() && (#[trigger] old(self).spec_logs()[i]).log@
                    == log.log@) ==> ({
                let i = choose|i: int|
                    0 <= i < old(self).spec_logs().len() && (#[trigger] old(
                        self,
                    ).spec_logs()[i]).log@ == log.log@;
                final(self).spec_logs() == old(self).spec_logs().update(
                    first_same_log(old(self).spec_logs(), log.log@, 0),
                    SevereLog { log: old(self).spec_logs()[first_same_log(old(self).spec_logs(), log.log@, 0)].log, time: log.time },
                ) && final(self).spec_idx() == old(self).spec_idx()
            }),
            (forall|i: int|
                0 <= i < old(self).spec_logs().len() ==> (#[trigger] old(
                    self,
                ).spec_logs()[i]).log@ != log.log@) ==> (if old(self).spec_logs().len() < old(
                self,
            ).spec_size() {
                final(self).spec_logs() == old(self).spec_logs().push(log) && final(self).spec_idx()
                    == (old(self).spec_idx() + 1) % old(self).spec_size()
            } else {
                final(self).spec_logs() == old(self).spec_logs().update(
                    old(self).spec_idx() as int,
                    log,
                ) && final(self).spec_idx() == (old(self).spec_idx() + 1) % old(self).spec_size()
            }),
    {
        let n = self.logs.len();
        let mut i: usize = 0;
        while i < n
            invariant
                self.logs@ == old(self).logs@,
                self.log_buffer_size == old(self).log_buffer_size,
                self.log_buffer_idx == old(self).log_buffer_idx,
                n == self.logs.len(),
                i <= n,
                forall|q: int| 0 <= q < i ==> (#[trigger] self.logs@[q]).log@ != log.log@,
            decreases n - i,
        {
            if crate::strutil::str_eq(self.logs[i].log.as_str(), log.log.as_str()) {
                proof {
                    lemma_first_same_log(self.logs@, log.log@, i as int);
                }
                let kept = self.logs[i].log.clone();
                self.logs[i] = SevereLog { log: kept, time: log.time };
                return ;
            }
            i = i + 1;
        }
        if self.logs.len() < self.log_buffer_size {
            self.logs.push(log);
        } else {
            let idx = self.log_buffer_idx;
            self.logs[idx] = log;
        }
        self.log_buffer_idx = (self.log_buffer_idx + 1) % self.log_buffer_size;
    }
}

/// The first position at or after `i` whose line reads as `l`; the length
/// if there is none.
pub open spec fn first_same_log(logs: Seq<SevereLog>, l: Seq<char>, i: int) -> int
    decreases logs.len() - i,
{
    if !(0 <= i && i < logs.len()) {
        logs.len() as int
    } else if logs[i].log@ == l {
        i
    } else {
        first_same_log(logs, l, i + 1)
    }
}

proof fn lemma_first_same_log(logs: Seq<SevereLog>, l: Seq<char>, i: int)
    requires
        0 <= i <= logs.len(),
        forall|q: int| 0 <= q < i ==> (#[trigger] logs[q]).log@ != l,
        i < logs.len() && logs[i].log@ == l,
    ensures
        first_same_log(logs, l, 0) == i,
{
    lemma_first_same_log_from(logs, l, 0, i);
}

proof fn lemma_first_same_log_from(logs: Seq<SevereLog>, l: Seq<char>, k: int, i: int)
    requires
        0 <= k <= i < logs.len(),
        forall|q: int| k <= q < i ==> (#[trigger] logs[q]).log@ != l,
        logs[i].log@ == l,
    ensures
        first_same_log(logs, l, k) == i,
    decreases i - k,
{
    if k < i {
        lemma_first_same_log_from(logs, l, k + 1, i);
    }
}

} // verus!
