//! Keeps one dispatch worker per led group: starts the missing ones and stops
//! those whose group is gone.
use vstd::prelude::*;

use crate::share::ack::AckTracker;

verus! {

pub open spec fn names_contain(v: Seq<String>, k: Seq<char>) -> bool {
    exists|i: int| 0 <= i < v.len() && (#[trigger] v[i])@ == k
}

/// Whether `v` names `k`.
pub fn contains_name(v: &Vec<String>, k: &String) -> (r: bool)
    ensures
        r == names_contain(v@, k@),
{
    let mut i: usize = 0;
    while i < v.len()
        invariant
            i <= v@.len(),
            forall|t: int| 0 <= t < i ==> (#[trigger] v@[t])@ != k@,
        decreases v@.len() - i,
    {
        if v[i] == *k {
            return true;
        }
        i += 1;
    }
    false
}

/// No name occurs twice.
pub open spec fn names_unique(v: Seq<String>) -> bool {
    forall|i: int, j: int| 0 <= i < j < v.len() ==> (#[trigger] v[i])@ != (#[trigger] v[j])@
}

/// The names of `a` that `b` lacks, each once, in the order of `a`.
pub fn names_missing(a: &Vec<String>, b: &Vec<String>) -> (r: Vec<String>)
    ensures
        forall|k: Seq<char>| #[trigger] names_contain(r@, k) <==> names_contain(a@, k) && !names_contain(b@, k),
        names_unique(r@),
{
    let mut r: Vec<String> = Vec::new();
    let mut i: usize = 0;
    while i < a.len()
        invariant
            i <= a@.len(),
            forall|k: Seq<char>| #[trigger] names_contain(r@, k) <==> names_contain(a@.subrange(0, i as int), k) && !names_contain(b@, k),
            names_unique(r@),
        decreases a@.len() - i,
    {
        let ghost before = r@;
        let ghost prefix = a@.subrange(0, i as int);
        let ghost next = a@.subrange(0, i + 1);
        if !contains_name(b, &a[i]) && !contains_name(&r, &a[i]) {
            r.push(a[i].clone());
            proof {
                assert forall|x: int, y: int| 0 <= x < y < r@.len() implies (#[trigger] r@[x])@ != (#[trigger] r@[y])@ by {
                    if y < before.len() {
                        assert(r@[x] == before[x] && r@[y] == before[y]);
                    } else {
                        assert(r@[x] == before[x]);
                        assert(r@[y]@ == a@[i as int]@);
                    }
                }
            }
        }
        proof {
            assert forall|k: Seq<char>| #[trigger] names_contain(r@, k) <==> names_contain(next, k) && !names_contain(b@, k) by {
                if names_contain(next, k) {
                    let t = choose|t: int| 0 <= t < next.len() && (#[trigger] next[t])@ == k;
                    if t < i {
                        assert(prefix[t] == next[t]);
                        assert(names_contain(prefix, k));
                    }
                }
                if names_contain(prefix, k) {
                    let t = choose|t: int| 0 <= t < prefix.len() && (#[trigger] prefix[t])@ == k;
                    assert(next[t] == prefix[t]);
                }
                if names_contain(r@, k) {
                    let t = choose|t: int| 0 <= t < r@.len() && (#[trigger] r@[t])@ == k;
                    if t < before.len() {
                        assert(before[t] == r@[t]);
                        assert(names_contain(before, k));
                    } else {
                        assert(next[i as int] == a@[i as int]);
                    }
                }
                if names_contain(before, k) {
                    let t = choose|t: int| 0 <= t < before.len() && (#[trigger] before[t])@ == k;
                    assert(r@[t] == before[t]);
                }
                if names_contain(next, k) && !names_contain(b@, k) && !names_contain(prefix, k) {
                    assert(next[i as int] == a@[i as int]);
                    assert(r@[r@.len() - 1] == a@[i as int]);
                }
            }
        }
        i += 1;
    }
    assert(a@.subrange(0, a@.len() as int) =~= a@);
    r
}

/// Which workers to start and which to stop.
pub struct WorkerPlan {
    pub start: Vec<String>,
    pub stop: Vec<String>,
}

/// Start a worker for each led key without one; stop each worker whose key is
/// no longer led.
pub fn plan_workers(running: &Vec<String>, led: &Vec<String>) -> (r: WorkerPlan)
    ensures
        forall|k: Seq<char>| #[trigger] names_contain(r.start@, k) <==> names_contain(led@, k) && !names_contain(running@, k),
        forall|k: Seq<char>| #[trigger] names_contain(r.stop@, k) <==> names_contain(running@, k) && !names_contain(led@, k),
        names_unique(r.start@),
        names_unique(r.stop@),
{
    WorkerPlan { start: names_missing(led, running), stop: names_missing(running, led) }
}

/// How many of `ws` serve a key that `led` does not name.
pub open spec fn gone_count(ws: Seq<RunningWorker>, led: Seq<String>) -> nat
    decreases ws.len(),
{
    if ws.len() == 0 {
        0
    } else {
        gone_count(ws.drop_last(), led) + if names_contain(led, ws.last().key@) { 0nat } else { 1nat }
    }
}

/// `v + n`, stopping at `u64::MAX`.
pub open spec fn sat_add(v: u64, n: nat) -> u64 {
    if v as nat + n > u64::MAX as nat {
        u64::MAX
    } else {
        (v as nat + n) as u64
    }
}

/// A worker that runs: the key it serves and the id under which it registers
/// pending acknowledgements.
pub struct RunningWorker {
    pub key: String,
    pub id: u64,
}

pub open spec fn workers_have(ws: Seq<RunningWorker>, k: Seq<char>) -> bool {
    exists|i: int| 0 <= i < ws.len() && (#[trigger] ws[i]).key@ == k
}

/// The set of running workers.
pub struct Supervisor {
    pub workers: Vec<RunningWorker>,
    pub next_id: u64,
    pub worker_starts: u64,
    pub worker_stops: u64,
}

impl Supervisor {
    pub open spec fn is_running(&self, k: Seq<char>) -> bool {
        workers_have(self.workers@, k)
    }

    /// At most one worker per key.
    pub open spec fn wf(&self) -> bool {
        forall|i: int, j: int|
            0 <= i < j < self.workers@.len() ==> (#[trigger] self.workers@[i]).key@ != (#[trigger] self.workers@[j]).key@
    }

    pub fn new() -> (r: Supervisor)
        ensures
            r.wf(),
            r.workers@.len() == 0,
            r.worker_starts == 0,
            r.worker_stops == 0,
    {
        Supervisor { workers: Vec::new(), next_id: 0, worker_starts: 0, worker_stops: 0 }
    }

    /// The keys of the running workers.
    pub fn running_keys(&self) -> (r: Vec<String>)
        ensures
            r@.len() == self.workers@.len(),
            forall|i: int| 0 <= i < r@.len() ==> #[trigger] r@[i] == self.workers@[i].key,
            forall|k: Seq<char>| #[trigger] names_contain(r@, k) <==> self.is_running(k),
    {
        let mut r: Vec<String> = Vec::new();
        let mut i: usize = 0;
        while i < self.workers.len()
            invariant
                i <= self.workers@.len(),
                r@.len() == i,
                forall|t: int| 0 <= t < i ==> #[trigger] r@[t] == self.workers@[t].key,
            decreases self.workers@.len() - i,
        {
            r.push(self.workers[i].key.clone());
            i += 1;
        }
        proof {
            assert forall|k: Seq<char>| #[trigger] names_contain(r@, k) <==> self.is_running(k) by {
                if names_contain(r@, k) {
                    let t = choose|t: int| 0 <= t < r@.len() && (#[trigger] r@[t])@ == k;
                    assert(self.workers@[t].key@ == k);
                }
                if self.is_running(k) {
                    let t = choose|t: int| 0 <= t < self.workers@.len() && (#[trigger] self.workers@[t]).key@ == k;
                    assert(r@[t]@ == k);
                }
            }
        }
        r
    }

    /// One round of the supervisor: stops the workers whose key is not among
    /// `led`, drops every pending acknowledgement they registered, and starts a
    /// worker for each led key that has none. Returns the plan it carried out.
    pub fn gc_round(&mut self, led: &Vec<String>, tracker: &mut AckTracker) -> (r: WorkerPlan)
        requires
            old(tracker).wf(),
            old(self).wf(),
        ensures
            final(tracker).wf(),
            final(self).wf(),
            names_unique(r.start@),
            final(self).worker_stops == sat_add(old(self).worker_stops, gone_count(old(self).workers@, led@)),
            final(self).worker_starts == sat_add(old(self).worker_starts, r.start@.len()),
            forall|k: Seq<char>| #[trigger] names_contain(r.start@, k) <==> names_contain(led@, k) && !old(self).is_running(k),
            forall|k: Seq<char>| #[trigger] names_contain(r.stop@, k) <==> old(self).is_running(k) && !names_contain(led@, k),
            forall|k: Seq<char>| #[trigger] final(self).is_running(k) <==> names_contain(led@, k),
            forall|i: int| 0 <= i < old(self).workers@.len() && !names_contain(led@, (#[trigger] old(self).workers@[i]).key@)
                ==> !final(tracker).owns_any(old(self).workers@[i].id),
    {
        let running = self.running_keys();
        let plan = plan_workers(&running, led);
        let mut kept: Vec<RunningWorker> = Vec::new();
        let mut i: usize = 0;
        let ghost old_workers = self.workers@;
        while i < self.workers.len()
            invariant
                self.workers@ == old_workers,
                i <= old_workers.len(),
                tracker.wf(),
                forall|t: int| 0 <= t < i && !names_contain(led@, (#[trigger] old_workers[t]).key@) ==> !tracker.owns_any(old_workers[t].id),
                forall|t: int| 0 <= t < kept@.len() ==> names_contain(led@, (#[trigger] kept@[t]).key@),
                forall|t: int| 0 <= t < i && names_contain(led@, (#[trigger] old_workers[t]).key@) ==> workers_have(kept@, old_workers[t].key@),
                forall|x: int, y: int| 0 <= x < y < old_workers.len() ==> (#[trigger] old_workers[x]).key@ != (#[trigger] old_workers[y]).key@,
                forall|u: int| 0 <= u < kept@.len() ==> workers_have(old_workers.subrange(0, i as int), (#[trigger] kept@[u]).key@),
                forall|x: int, y: int| 0 <= x < y < kept@.len() ==> (#[trigger] kept@[x]).key@ != (#[trigger] kept@[y]).key@,
                self.worker_stops == sat_add(old(self).worker_stops, gone_count(old_workers.subrange(0, i as int), led@)),
                self.worker_starts == old(self).worker_starts,
            decreases old_workers.len() - i,
        {
            let ghost kept_before = kept@;
            let ghost tracker_before = *tracker;
            if contains_name(led, &self.workers[i].key) {
                kept.push(RunningWorker { key: self.workers[i].key.clone(), id: self.workers[i].id });
            } else {
                tracker.remove_owner(self.workers[i].id);
                self.worker_stops = self.worker_stops.saturating_add(1);
            }
            proof {
                let pre = old_workers.subrange(0, i as int);
                let nxt = old_workers.subrange(0, i + 1);
                assert(nxt.drop_last() =~= pre);
                assert(nxt.last() == old_workers[i as int]);
                assert forall|u: int| 0 <= u < kept@.len() implies workers_have(nxt, (#[trigger] kept@[u]).key@) by {
                    if u < kept_before.len() {
                        assert(kept@[u] == kept_before[u]);
                        let t = choose|t: int| 0 <= t < pre.len() && (#[trigger] pre[t]).key@ == kept_before[u].key@;
                        assert(nxt[t] == pre[t]);
                    } else {
                        assert(nxt[i as int].key@ == kept@[u].key@);
                    }
                }
                assert forall|x: int, y: int| 0 <= x < y < kept@.len() implies (#[trigger] kept@[x]).key@ != (#[trigger] kept@[y]).key@ by {
                    if y < kept_before.len() {
                        assert(kept@[x] == kept_before[x] && kept@[y] == kept_before[y]);
                    } else {
                        assert(kept@[x] == kept_before[x]);
                        let t = choose|t: int| 0 <= t < pre.len() && (#[trigger] pre[t]).key@ == kept_before[x].key@;
                        assert(pre[t] == old_workers[t]);
                        assert(old_workers[t].key@ != old_workers[i as int].key@);
                    }
                }
                assert forall|t: int| 0 <= t < i + 1 && !names_contain(led@, (#[trigger] old_workers[t]).key@) implies !tracker.owns_any(old_workers[t].id) by {
                    if t < i && tracker.owns_any(old_workers[t].id) {
                        let j = choose|j: int| 0 <= j < tracker@.len() && (#[trigger] tracker@[j]).owner == old_workers[t].id;
                        assert(tracker@.contains(tracker@[j]));
                        assert(tracker_before@.contains(tracker@[j]));
                        let j0 = choose|j0: int| 0 <= j0 < tracker_before@.len() && tracker_before@[j0] == tracker@[j];
                        assert(tracker_before@[j0].owner == old_workers[t].id);
                    }
                }
                assert forall|t: int| 0 <= t < kept@.len() implies names_contain(led@, (#[trigger] kept@[t]).key@) by {
                    if t < kept_before.len() {
                        assert(kept@[t] == kept_before[t]);
                    }
                }
                assert forall|t: int| 0 <= t < i + 1 && names_contain(led@, (#[trigger] old_workers[t]).key@) implies workers_have(kept@, old_workers[t].key@) by {
                    if t < i {
                        let u = choose|u: int| 0 <= u < kept_before.len() && (#[trigger] kept_before[u]).key@ == old_workers[t].key@;
                        assert(kept@[u] == kept_before[u]);
                    } else {
                        assert(kept@[kept@.len() - 1].key@ == old_workers[t].key@);
                    }
                }
            }
            i += 1;
        }
        let mut j: usize = 0;
        assert(old_workers.subrange(0, old_workers.len() as int) =~= old_workers);
        while j < plan.start.len()
            invariant
                j <= plan.start@.len(),
                forall|t: int| 0 <= t < kept@.len() ==> names_contain(led@, (#[trigger] kept@[t]).key@),
                forall|k: Seq<char>| workers_have(old_workers, k) && names_contain(led@, k) ==> #[trigger] workers_have(kept@, k),
                forall|t: int| 0 <= t < j ==> #[trigger] workers_have(kept@, plan.start@[t]@),
                forall|k: Seq<char>| #[trigger] names_contain(plan.start@, k) <==> names_contain(led@, k) && !workers_have(old_workers, k),
                names_unique(plan.start@),
                forall|u: int| 0 <= u < kept@.len() ==> workers_have(old_workers, (#[trigger] kept@[u]).key@) || names_contain(plan.start@.subrange(0, j as int), kept@[u].key@),
                forall|x: int, y: int| 0 <= x < y < kept@.len() ==> (#[trigger] kept@[x]).key@ != (#[trigger] kept@[y]).key@,
                self.worker_stops == sat_add(old(self).worker_stops, gone_count(old_workers, led@)),
                self.worker_starts == sat_add(old(self).worker_starts, j as nat),
            decreases plan.start@.len() - j,
        {
            let ghost kept_before = kept@;
            let id = self.next_id;
            self.next_id = self.next_id.wrapping_add(1);
            self.worker_starts = self.worker_starts.saturating_add(1);
            kept.push(RunningWorker { key: plan.start[j].clone(), id });
            proof {
                assert(names_contain(plan.start@, plan.start@[j as int]@));
                assert forall|t: int| 0 <= t < kept@.len() implies names_contain(led@, (#[trigger] kept@[t]).key@) by {
                    if t < kept_before.len() {
                        assert(kept@[t] == kept_before[t]);
                    }
                }
                assert forall|k: Seq<char>| workers_have(kept_before, k) implies #[trigger] workers_have(kept@, k) by {
                    let u = choose|u: int| 0 <= u < kept_before.len() && (#[trigger] kept_before[u]).key@ == k;
                    assert(kept@[u] == kept_before[u]);
                }
                assert(kept@[kept@.len() - 1].key@ == plan.start@[j as int]@);
                let spre = plan.start@.subrange(0, j as int);
                let snxt = plan.start@.subrange(0, j + 1);
                assert forall|u: int| 0 <= u < kept@.len() implies workers_have(old_workers, (#[trigger] kept@[u]).key@) || names_contain(snxt, kept@[u].key@) by {
                    if u < kept_before.len() {
                        assert(kept@[u] == kept_before[u]);
                        if names_contain(spre, kept_before[u].key@) {
                            let t = choose|t: int| 0 <= t < spre.len() && (#[trigger] spre[t])@ == kept_before[u].key@;
                            assert(snxt[t] == spre[t]);
                        }
                    } else {
                        assert(snxt[j as int] == plan.start@[j as int]);
                    }
                }
                assert forall|x: int, y: int| 0 <= x < y < kept@.len() implies (#[trigger] kept@[x]).key@ != (#[trigger] kept@[y]).key@ by {
                    if y < kept_before.len() {
                        assert(kept@[x] == kept_before[x] && kept@[y] == kept_before[y]);
                    } else {
                        assert(kept@[x] == kept_before[x]);
                        let k = plan.start@[j as int]@;
                        assert(!workers_have(old_workers, k));
                        if names_contain(spre, kept_before[x].key@) {
                            let t = choose|t: int| 0 <= t < spre.len() && (#[trigger] spre[t])@ == kept_before[x].key@;
                            assert(spre[t] == plan.start@[t]);
                            assert(plan.start@[t]@ != plan.start@[j as int]@);
                        }
                    }
                }
            }
            j += 1;
        }
        self.workers = kept;
        proof {
            assert(old_workers.subrange(0, old_workers.len() as int) =~= old_workers);
            assert(plan.start@.subrange(0, plan.start@.len() as int) =~= plan.start@);
            assert forall|k: Seq<char>| workers_have(old_workers, k) && names_contain(led@, k) implies #[trigger] workers_have(self.workers@, k) by {
                let t = choose|t: int| 0 <= t < old_workers.len() && (#[trigger] old_workers[t]).key@ == k;
            }
            assert forall|k: Seq<char>| #[trigger] self.is_running(k) <==> names_contain(led@, k) by {
                if self.is_running(k) {
                    let t = choose|t: int| 0 <= t < self.workers@.len() && (#[trigger] self.workers@[t]).key@ == k;
                    assert(names_contain(led@, self.workers@[t].key@));
                }
                if names_contain(led@, k) && !workers_have(old_workers, k) {
                    assert(names_contain(plan.start@, k));
                    let t = choose|t: int| 0 <= t < plan.start@.len() && (#[trigger] plan.start@[t])@ == k;
                    assert(workers_have(self.workers@, plan.start@[t]@));
                }
            }
            assert forall|t: int| 0 <= t < old(self).workers@.len() && !names_contain(led@, (#[trigger] old(self).workers@[t]).key@)
                implies !tracker.owns_any(old(self).workers@[t].id) by {
                assert(old_workers[t] == old(self).workers@[t]);
            }
        }
        plan
    }
}

/// Counters of one led group.
#[derive(Debug, Clone, Copy, PartialEq, Eq, Structural)]
pub struct ShareMetrics {
    pub records_read: u64,
    pub records_committed: u64,
    pub publishes_sent: u64,
    pub acks_matched: u64,
    pub ack_timeouts: u64,
    pub worker_starts: u64,
    pub worker_stops: u64,
}

/// Which counter an event bumps.
#[derive(Debug, Clone, Copy, PartialEq, Eq, Structural)]
pub enum MetricKind {
    RecordsRead,
    RecordsCommitted,
    PublishesSent,
    AcksMatched,
    AckTimeouts,
    WorkerStarts,
    WorkerStops,
}

pub open spec fn bumped(v: u64, by: u64) -> u64 {
    if v as int + by as int > u64::MAX as int {
        u64::MAX
    } else {
        (v + by) as u64
    }
}

impl ShareMetrics {
    pub fn new() -> (r: ShareMetrics)
        ensures
            r == (ShareMetrics {
                records_read: 0,
                records_committed: 0,
                publishes_sent: 0,
                acks_matched: 0,
                ack_timeouts: 0,
                worker_starts: 0,
                worker_stops: 0,
            }),
    {
        ShareMetrics {
            records_read: 0,
            records_committed: 0,
            publishes_sent: 0,
            acks_matched: 0,
            ack_timeouts: 0,
            worker_starts: 0,
            worker_stops: 0,
        }
    }

    /// Adds `by` to one counter, saturating; the others stay.
    pub fn count(&mut self, kind: MetricKind, by: u64)
        ensures
            *final(self) == (match kind {
                MetricKind::RecordsRead => ShareMetrics { records_read: bumped(old(self).records_read, by), ..*old(self) },
                MetricKind::RecordsCommitted => ShareMetrics { records_committed: bumped(old(self).records_committed, by), ..*old(self) },
                MetricKind::PublishesSent => ShareMetrics { publishes_sent: bumped(old(self).publishes_sent, by), ..*old(self) },
                MetricKind::AcksMatched => ShareMetrics { acks_matched: bumped(old(self).acks_matched, by), ..*old(self) },
                MetricKind::AckTimeouts => ShareMetrics { ack_timeouts: bumped(old(self).ack_timeouts, by), ..*old(self) },
                MetricKind::WorkerStarts => ShareMetrics { worker_starts: bumped(old(self).worker_starts, by), ..*old(self) },
                MetricKind::WorkerStops => ShareMetrics { worker_stops: bumped(old(self).worker_stops, by), ..*old(self) },
            }),
    {
        match kind {
            MetricKind::RecordsRead => self.records_read = self.records_read.saturating_add(by),
            MetricKind::RecordsCommitted => self.records_committed = self.records_committed.saturating_add(by),
            MetricKind::PublishesSent => self.publishes_sent = self.publishes_sent.saturating_add(by),
            MetricKind::AcksMatched => self.acks_matched = self.acks_matched.saturating_add(by),
            MetricKind::AckTimeouts => self.ack_timeouts = self.ack_timeouts.saturating_add(by),
            MetricKind::WorkerStarts => self.worker_starts = self.worker_starts.saturating_add(by),
            MetricKind::WorkerStops => self.worker_stops = self.worker_stops.saturating_add(by),
        }
    }
}

} // verus!
