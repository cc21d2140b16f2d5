//! Records of a topic log and the committed cursor of one consumer group.
use vstd::prelude::*;

verus! {

/// One entry of a topic log.
#[derive(Debug, Clone, PartialEq, Eq)]
pub struct Record {
    pub offset: u64,
    pub payload: Vec<u8>,
    pub produced_at: u64,
}

/// The committed cursor of `(topic_id, group_id)`: `None` before the first commit.
pub struct GroupOffset {
    pub topic_id: String,
    pub group_id: String,
    pub committed: Option<u64>,
}

/// A record at `offset` is still to be delivered when the cursor is below it.
pub open spec fn is_pending(committed: Option<u64>, offset: u64) -> bool {
    match committed {
        None => true,
        Some(c) => offset > c,
    }
}

/// The cursor after committing `offset`: it moves forward only.
pub open spec fn committed_after(committed: Option<u64>, offset: u64) -> Option<u64> {
    match committed {
        None => Some(offset),
        Some(c) => if offset > c {
            Some(offset)
        } else {
            Some(c)
        },
    }
}

/// The position where the run of pending records at the end of `log` starts.
pub open spec fn pending_start(log: Seq<Record>, committed: Option<u64>) -> int
    decreases log.len(),
{
    if log.len() == 0 {
        0
    } else if is_pending(committed, log.last().offset) {
        pending_start(log.drop_last(), committed)
    } else {
        log.len() as int
    }
}

/// What a read of at most `max` records returns: the pending records at the
/// end of the log, oldest first.
pub open spec fn unread(log: Seq<Record>, committed: Option<u64>, max: nat) -> Seq<Record> {
    let k = pending_start(log, committed);
    let e = if k + max < log.len() {
        k + max
    } else {
        log.len() as int
    };
    log.subrange(k, e)
}

/// Offsets strictly increase along the log.
pub open spec fn offsets_increase(log: Seq<Record>) -> bool {
    forall|i: int, j: int| 0 <= i < j < log.len() ==> (#[trigger] log[i]).offset < (#[trigger] log[j]).offset
}

fn copy_bytes(v: &Vec<u8>) -> (r: Vec<u8>)
    ensures
        r@ == v@,
{
    let mut r: Vec<u8> = Vec::with_capacity(v.len());
    let mut i: usize = 0;
    while i < v.len()
        invariant
            i <= v@.len(),
            r@ == v@.subrange(0, i as int),
        decreases v@.len() - i,
    {
        r.push(v[i]);
        i += 1;
        assert(r@ =~= v@.subrange(0, i as int));
    }
    assert(v@.subrange(0, v@.len() as int) =~= v@);
    r
}

/// Two records with the same offset, payload and production time.
pub open spec fn same_record(a: Record, b: Record) -> bool {
    a.offset == b.offset && a.payload@ == b.payload@ && a.produced_at == b.produced_at
}

/// A field-by-field copy of a record.
pub fn copy_record(r: &Record) -> (c: Record)
    ensures
        same_record(c, *r),
{
    Record { offset: r.offset, payload: copy_bytes(&r.payload), produced_at: r.produced_at }
}

proof fn lemma_pending_start_bounds(log: Seq<Record>, committed: Option<u64>)
    ensures
        0 <= pending_start(log, committed) <= log.len(),
        forall|j: int| pending_start(log, committed) <= j < log.len() ==> is_pending(committed, #[trigger] log[j].offset),
    decreases log.len(),
{
    if log.len() > 0 && is_pending(committed, log.last().offset) {
        lemma_pending_start_bounds(log.drop_last(), committed);
        assert forall|j: int| pending_start(log, committed) <= j < log.len() implies is_pending(committed, #[trigger] log[j].offset) by {
            if j < log.len() - 1 {
                assert(log[j] == log.drop_last()[j]);
            }
        }
    }
}

impl GroupOffset {
    pub fn new(topic_id: String, group_id: String) -> (r: GroupOffset)
        ensures
            r.topic_id == topic_id,
            r.group_id == group_id,
            r.committed is None,
    {
        GroupOffset { topic_id, group_id, committed: None }
    }

    /// Whether the record at `offset` is past the cursor.
    pub fn pending(&self, offset: u64) -> (r: bool)
        ensures
            r == is_pending(self.committed, offset),
    {
        match self.committed {
            None => true,
            Some(c) => offset > c,
        }
    }

    /// Advances the cursor to `offset`; a smaller or equal offset leaves it as it is.
    pub fn commit(&mut self, offset: u64)
        ensures
            final(self).committed == committed_after(old(self).committed, offset),
            final(self).topic_id == old(self).topic_id,
            final(self).group_id == old(self).group_id,
            old(self).committed matches Some(c) ==> final(self).committed matches Some(d) && c <= d,
    {
        match self.committed {
            None => self.committed = Some(offset),
            Some(c) => if offset > c {
                self.committed = Some(offset);
            },
        }
    }

    /// Reads at most `max` records of `log` that lie past the cursor: the run of
    /// pending records at its end, oldest first.
    pub fn read(&self, log: &Vec<Record>, max: usize) -> (r: Vec<Record>)
        ensures
            r@.len() == unread(log@, self.committed, max as nat).len(),
            forall|j: int| 0 <= j < r@.len() ==> same_record(#[trigger] r@[j], unread(log@, self.committed, max as nat)[j]),
    {
        let mut k: usize = log.len();
        assert(log@.subrange(0, log@.len() as int) =~= log@);
        while k > 0 && self.pending(log[k - 1].offset)
            invariant
                k <= log@.len(),
                pending_start(log@, self.committed) == pending_start(log@.subrange(0, k as int), self.committed),
            decreases k,
        {
            assert(log@.subrange(0, k as int).drop_last() =~= log@.subrange(0, k - 1));
            k -= 1;
        }
        if k > 0 {
            assert(log@.subrange(0, k as int).last() == log@[k - 1]);
        }
        let end = if max < log.len() - k {
            k + max
        } else {
            log.len()
        };
        let mut out: Vec<Record> = Vec::new();
        let mut i: usize = k;
        while i < end
            invariant
                k <= i <= end <= log@.len(),
                out@.len() == i - k,
                forall|j: int| 0 <= j < out@.len() ==> same_record(#[trigger] out@[j], log@[k + j]),
            decreases end - i,
        {
            out.push(copy_record(&log[i]));
            i += 1;
        }
        out
    }
}

/// The committed cursor never moves back.
pub proof fn lemma_commit_monotonic(committed: Option<u64>, offset: u64)
    ensures
        committed matches Some(c) ==> committed_after(committed, offset) matches Some(d) && c <= d,
        committed_after(committed, offset) matches Some(d) && offset <= d,
{
}

/// Committing the same offset twice leaves the cursor as one commit left it.
pub proof fn lemma_commit_idempotent(committed: Option<u64>, offset: u64)
    ensures
        committed_after(committed_after(committed, offset), offset) == committed_after(committed, offset),
{
}

/// Replay: while the cursor stands (no commit happened, as when the process
/// died between an acknowledgement and the commit), the record that a read
/// returned at position `j` is returned at position `j` again by every later
/// read of more than `j` records; the first one by every read at all.
pub proof fn lemma_replay_safety(log: Seq<Record>, committed: Option<u64>, max: nat, j: int, later_max: nat)
    requires
        0 <= j < unread(log, committed, max).len(),
        later_max > j,
    ensures
        j < unread(log, committed, later_max).len(),
        unread(log, committed, later_max)[j] == unread(log, committed, max)[j],
{
    lemma_pending_start_bounds(log, committed);
}

/// A record past the cursor is returned by a read whose size reaches it from the
/// start of the pending run (offsets increasing, the run is every record past
/// the cursor).
pub proof fn lemma_pending_record_is_read(log: Seq<Record>, committed: Option<u64>, i: int, max: nat)
    requires
        offsets_increase(log),
        0 <= i < log.len(),
        is_pending(committed, log[i].offset),
        max > i - pending_start(log, committed),
    ensures
        pending_start(log, committed) <= i,
        unread(log, committed, max).contains(log[i]),
{
    lemma_pending_start_bounds(log, committed);
    let k = pending_start(log, committed);
    if i < k {
        lemma_pending_start_not_pending(log, committed);
        assert(log[i].offset <= log[k - 1].offset);
        assert(false);
    }
    let u = unread(log, committed, max);
    assert(u[i - k] == log[i]);
}

proof fn lemma_pending_start_not_pending(log: Seq<Record>, committed: Option<u64>)
    requires
        pending_start(log, committed) > 0,
    ensures
        !is_pending(committed, log[pending_start(log, committed) - 1].offset),
    decreases log.len(),
{
    if log.len() > 0 && is_pending(committed, log.last().offset) {
        lemma_pending_start_not_pending(log.drop_last(), committed);
        lemma_pending_start_bounds(log.drop_last(), committed);
        assert(log.drop_last()[pending_start(log, committed) - 1] == log[pending_start(log, committed) - 1]);
    }
}

} // verus!
