//! Pending acknowledgements, keyed by client and packet id.
use vstd::prelude::*;

use crate::share::delivery::AckKind;

verus! {

/// One acknowledgement that a worker waits for.
#[derive(Debug, Clone, PartialEq, Eq)]
pub struct PendingAck {
    pub client_id: String,
    pub pkid: u16,
    pub expected: AckKind,
    pub created_at: u64,
    pub deadline: u64,
    /// The worker that registered it.
    pub owner: u64,
    /// The acknowledgement that arrived, if any.
    pub received: Option<AckKind>,
}

/// Why a registration was refused.
#[derive(Debug, Clone, Copy, PartialEq, Eq, Structural)]
pub enum AckError {
    PkidBusy,
}

/// What a waiting worker learns when it looks at its entry.
#[derive(Debug, Clone, Copy, PartialEq, Eq, Structural)]
pub enum AwaitStatus {
    Acked(AckKind),
    TimedOut,
    Pending,
    Missing,
}

/// The pending acknowledgements of all clients; at most one per `(client, pkid)`.
pub struct AckTracker {
    pub entries: Vec<PendingAck>,
}

pub open spec fn same_key(e: PendingAck, c: Seq<char>, p: u16) -> bool {
    e.client_id@ == c && e.pkid == p
}

impl AckTracker {
    pub open spec fn view(&self) -> Seq<PendingAck> {
        self.entries@
    }

    /// No two entries share a `(client, pkid)`.
    pub open spec fn wf(&self) -> bool {
        forall|i: int, j: int|
            0 <= i < j < self.entries@.len() ==> !same_key(
                #[trigger] self.entries@[i],
                (#[trigger] self.entries@[j]).client_id@,
                self.entries@[j].pkid,
            )
    }

    pub open spec fn has(&self, c: Seq<char>, p: u16) -> bool {
        exists|i: int| 0 <= i < self.entries@.len() && same_key(#[trigger] self.entries@[i], c, p)
    }

    pub open spec fn owns_any(&self, owner: u64) -> bool {
        exists|i: int| 0 <= i < self.entries@.len() && (#[trigger] self.entries@[i]).owner == owner
    }

    pub fn new() -> (r: AckTracker)
        ensures
            r.wf(),
            r@.len() == 0,
    {
        AckTracker { entries: Vec::new() }
    }

    /// The position of the entry for `(client_id, pkid)`.
    pub fn find(&self, client_id: &String, pkid: u16) -> (r: Option<usize>)
        ensures
            match r {
                Some(i) => i < self@.len() && same_key(self@[i as int], client_id@, pkid),
                None => !self.has(client_id@, pkid),
            },
    {
        let mut i: usize = 0;
        while i < self.entries.len()
            invariant
                i <= self.entries@.len(),
                forall|k: int| 0 <= k < i ==> !same_key(#[trigger] self.entries@[k], client_id@, pkid),
            decreases self.entries@.len() - i,
        {
            if self.entries[i].pkid == pkid && self.entries[i].client_id == *client_id {
                return Some(i);
            }
            i += 1;
        }
        None
    }

    /// Registers a pending acknowledgement; refused with `PkidBusy` when one for
    /// the same `(client_id, pkid)` is already there.
    pub fn register(
        &mut self,
        client_id: &String,
        pkid: u16,
        expected: AckKind,
        now: u64,
        timeout: u64,
        owner: u64,
    ) -> (r: Result<(), AckError>)
        requires
            old(self).wf(),
        ensures
            final(self).wf(),
            old(self).has(client_id@, pkid) <==> r == Err::<(), AckError>(AckError::PkidBusy),
            r is Err ==> final(self)@ == old(self)@,
            r is Ok ==> final(self)@ == old(self)@.push(
                PendingAck {
                    client_id: final(self)@.last().client_id,
                    pkid,
                    expected,
                    created_at: now,
                    deadline: if now as int + timeout as int > u64::MAX as int {
                        u64::MAX
                    } else {
                        (now + timeout) as u64
                    },
                    owner,
                    received: None,
                },
            ) && final(self)@.last().client_id@ == client_id@,
    {
        match self.find(client_id, pkid) {
            Some(_) => Err(AckError::PkidBusy),
            None => {
                let deadline = now.saturating_add(timeout);
                let entry = PendingAck {
                    client_id: client_id.clone(),
                    pkid,
                    expected,
                    created_at: now,
                    deadline,
                    owner,
                    received: None,
                };
                self.entries.push(entry);
                Ok(())
            },
        }
    }

    /// Hands an arriving acknowledgement to its waiter; false when nobody waits
    /// for `(client_id, pkid)`.
    pub fn deliver(&mut self, client_id: &String, pkid: u16, kind: AckKind) -> (r: bool)
        requires
            old(self).wf(),
        ensures
            final(self).wf(),
            r == old(self).has(client_id@, pkid),
            final(self)@.len() == old(self)@.len(),
            forall|i: int|
                0 <= i < old(self)@.len() ==> #[trigger] final(self)@[i] == (if same_key(
                    old(self)@[i],
                    client_id@,
                    pkid,
                ) {
                    PendingAck { received: Some(kind), ..old(self)@[i] }
                } else {
                    old(self)@[i]
                }),
    {
        match self.find(client_id, pkid) {
            Some(i) => {
                let mut e = copy_entry(&self.entries[i]);
                e.received = Some(kind);
                self.entries.set(i, e);
                proof {
                    assert forall|k: int| 0 <= k < old(self)@.len() && k != i implies !same_key(
                        #[trigger] old(self)@[k],
                        client_id@,
                        pkid,
                    ) by {
                        if k < i {
                            assert(!same_key(old(self)@[k], old(self)@[i as int].client_id@, old(self)@[i as int].pkid));
                        } else {
                            assert(!same_key(old(self)@[i as int], old(self)@[k].client_id@, old(self)@[k].pkid));
                        }
                    }
                }
                true
            },
            None => false,
        }
    }

    /// Looks at the entry of `(client_id, pkid)` at time `now`. An entry whose
    /// acknowledgement has not come by its deadline is removed and reported as
    /// timed out.
    pub fn poll(&mut self, client_id: &String, pkid: u16, now: u64) -> (r: AwaitStatus)
        requires
            old(self).wf(),
        ensures
            final(self).wf(),
            !old(self).has(client_id@, pkid) ==> r == AwaitStatus::Missing && final(self)@ == old(self)@,
            forall|i: int| 0 <= i < old(self)@.len() && same_key(#[trigger] old(self)@[i], client_id@, pkid) ==> {
                let e = old(self)@[i];
                &&& e.received is Some ==> r == AwaitStatus::Acked(e.received->0) && final(self)@ == old(self)@
                &&& e.received is None && now < e.deadline ==> r == AwaitStatus::Pending && final(self)@ == old(self)@
                &&& e.received is None && now >= e.deadline ==> r == AwaitStatus::TimedOut && final(self)@ == old(self)@.remove(i)
            },
    {
        match self.find(client_id, pkid) {
            None => AwaitStatus::Missing,
            Some(i) => {
                proof {
                    self.lemma_key_unique(i as int, client_id@, pkid);
                }
                match self.entries[i].received {
                    Some(k) => AwaitStatus::Acked(k),
                    None => if now < self.entries[i].deadline {
                        AwaitStatus::Pending
                    } else {
                        self.remove_at(i);
                        AwaitStatus::TimedOut
                    },
                }
            },
        }
    }

    proof fn lemma_key_unique(&self, i: int, c: Seq<char>, p: u16)
        requires
            self.wf(),
            0 <= i < self@.len(),
            same_key(self@[i], c, p),
        ensures
            forall|k: int| 0 <= k < self@.len() && same_key(#[trigger] self@[k], c, p) ==> k == i,
    {
        assert forall|k: int| 0 <= k < self@.len() && same_key(#[trigger] self@[k], c, p) implies k == i by {
            if k < i {
                assert(!same_key(self@[k], self@[i].client_id@, self@[i].pkid));
            } else if k > i {
                assert(!same_key(self@[i], self@[k].client_id@, self@[k].pkid));
            }
        }
    }

    fn remove_at(&mut self, i: usize)
        requires
            old(self).wf(),
            i < old(self)@.len(),
        ensures
            final(self).wf(),
            final(self)@ == old(self)@.remove(i as int),
    {
        self.entries.remove(i);
        proof {
            assert forall|a: int, b: int| 0 <= a < b < self.entries@.len() implies !same_key(
                #[trigger] self.entries@[a],
                (#[trigger] self.entries@[b]).client_id@,
                self.entries@[b].pkid,
            ) by {
                let oa = if a < i { a } else { a + 1 };
                let ob = if b < i { b } else { b + 1 };
                assert(self.entries@[a] == old(self)@[oa]);
                assert(self.entries@[b] == old(self)@[ob]);
                assert(!same_key(old(self).entries@[oa], old(self).entries@[ob].client_id@, old(self).entries@[ob].pkid));
            }
        }
    }

    /// Drops the entry of `(client_id, pkid)`, if there is one.
    pub fn remove(&mut self, client_id: &String, pkid: u16) -> (r: bool)
        requires
            old(self).wf(),
        ensures
            final(self).wf(),
            r == old(self).has(client_id@, pkid),
            !final(self).has(client_id@, pkid),
            forall|e: PendingAck| #[trigger] final(self)@.contains(e) <==> old(self)@.contains(e) && !same_key(e, client_id@, pkid),
    {
        match self.find(client_id, pkid) {
            None => {
                proof {
                    assert forall|e: PendingAck| #[trigger] final(self)@.contains(e) implies !same_key(e, client_id@, pkid) by {
                        let k = choose|k: int| 0 <= k < self@.len() && self@[k] == e;
                        assert(!same_key(self@[k], client_id@, pkid));
                    }
                }
                false
            },
            Some(i) => {
                proof {
                    self.lemma_key_unique(i as int, client_id@, pkid);
                }
                let ghost before = self@;
                self.remove_at(i);
                proof {
                    assert forall|e: PendingAck| #[trigger] self@.contains(e) <==> before.contains(e) && !same_key(e, client_id@, pkid) by {
                        if self@.contains(e) {
                            let k = choose|k: int| 0 <= k < self@.len() && self@[k] == e;
                            let ok = if k < i { k } else { k + 1 };
                            assert(before[ok] == e);
                        }
                        if before.contains(e) && !same_key(e, client_id@, pkid) {
                            let k = choose|k: int| 0 <= k < before.len() && before[k] == e;
                            assert(k != i);
                            let nk = if k < i { k } else { k - 1 };
                            assert(self@[nk] == e);
                        }
                    }
                    assert forall|k: int| 0 <= k < self@.len() implies !same_key(#[trigger] self@[k], client_id@, pkid) by {
                        let ok = if k < i { k } else { k + 1 };
                        assert(self@[k] == before[ok]);
                    }
                }
                true
            },
        }
    }

    /// Drops every entry that `owner` registered: what a cancelled worker leaves
    /// behind.
    pub fn remove_owner(&mut self, owner: u64) -> (removed: usize)
        requires
            old(self).wf(),
        ensures
            final(self).wf(),
            !final(self).owns_any(owner),
            forall|e: PendingAck| #[trigger] final(self)@.contains(e) <==> old(self)@.contains(e) && e.owner != owner,
            removed == old(self)@.len() - final(self)@.len(),
    {
        let mut kept: Vec<PendingAck> = Vec::new();
        let ghost idx: Seq<int> = Seq::empty();
        let mut i: usize = 0;
        while i < self.entries.len()
            invariant
                self.wf(),
                i <= self.entries@.len(),
                kept@.len() == idx.len(),
                kept@.len() <= i,
                forall|k: int| 0 <= k < idx.len() ==> 0 <= #[trigger] idx[k] < i && kept@[k] == self.entries@[idx[k]],
                forall|a: int, b: int| 0 <= a < b < idx.len() ==> #[trigger] idx[a] < #[trigger] idx[b],
                forall|k: int| 0 <= k < kept@.len() ==> (#[trigger] kept@[k]).owner != owner,
                forall|t: int| 0 <= t < i && (#[trigger] self.entries@[t]).owner != owner ==> kept@.contains(self.entries@[t]),
            decreases self.entries@.len() - i,
        {
            if self.entries[i].owner != owner {
                let e = copy_entry(&self.entries[i]);
                let ghost kept_before = kept@;
                proof {
                    idx = idx.push(i as int);
                }
                kept.push(e);
                proof {
                    assert(kept@[kept@.len() - 1] == self.entries@[i as int]);
                    assert forall|t: int| 0 <= t < i + 1 && (#[trigger] self.entries@[t]).owner != owner implies kept@.contains(self.entries@[t]) by {
                        if t < i {
                            assert(kept_before.contains(self.entries@[t]));
                            let k = choose|k: int| 0 <= k < kept_before.len() && kept_before[k] == self.entries@[t];
                            assert(kept@[k] == self.entries@[t]);
                        } else {
                            assert(kept@[kept@.len() - 1] == self.entries@[t]);
                        }
                    }
                }
            }
            i += 1;
        }
        let removed = self.entries.len() - kept.len();
        let ghost before = self@;
        proof {
            assert forall|a: int, b: int| 0 <= a < b < kept@.len() implies !same_key(
                #[trigger] kept@[a],
                (#[trigger] kept@[b]).client_id@,
                kept@[b].pkid,
            ) by {
                assert(idx[a] < idx[b]);
                assert(!same_key(before[idx[a]], before[idx[b]].client_id@, before[idx[b]].pkid));
            }
            assert forall|e: PendingAck| #[trigger] kept@.contains(e) implies before.contains(e) && e.owner != owner by {
                let k = choose|k: int| 0 <= k < kept@.len() && kept@[k] == e;
                assert(before[idx[k]] == e);
            }
            assert forall|e: PendingAck| before.contains(e) && e.owner != owner implies #[trigger] kept@.contains(e) by {
                let t = choose|t: int| 0 <= t < before.len() && before[t] == e;
                assert(before[t].owner != owner);
            }
        }
        self.entries = kept;
        proof {
            assert forall|k: int| 0 <= k < self@.len() implies (#[trigger] self@[k]).owner != owner by {}
        }
        removed
    }
}

/// A well-formed tracker holds at most one pending acknowledgement per
/// `(client, pkid)`, so at most one delivery attempt waits on it.
pub proof fn lemma_one_entry_per_key(tracker: AckTracker, c: Seq<char>, p: u16, i: int, j: int)
    requires
        tracker.wf(),
        0 <= i < tracker@.len(),
        0 <= j < tracker@.len(),
        same_key(tracker@[i], c, p),
        same_key(tracker@[j], c, p),
    ensures
        i == j,
{
    tracker.lemma_key_unique(i, c, p);
}

/// A field-by-field copy of an entry.
fn copy_entry(e: &PendingAck) -> (r: PendingAck)
    ensures
        r == *e,
{
    PendingAck {
        client_id: e.client_id.clone(),
        pkid: e.pkid,
        expected: e.expected,
        created_at: e.created_at,
        deadline: e.deadline,
        owner: e.owner,
        received: e.received,
    }
}

} // verus!
