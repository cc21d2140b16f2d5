//! Packet identifiers per client: `1..=65535`, handed out in rising order and
//! wrapping round, never one that is still in use.
use vstd::prelude::*;

verus! {

pub const MAX_PKID: u16 = 65535;

/// The packet ids in use and, per client, the last one handed out.
pub struct PkidAllocator {
    pub in_use: Vec<(String, u16)>,
    pub cursors: Vec<(String, u16)>,
}

impl PkidAllocator {
    pub open spec fn holds(&self, c: Seq<char>, p: u16) -> bool {
        exists|i: int| 0 <= i < self.in_use@.len() && (#[trigger] self.in_use@[i]).0@ == c && self.in_use@[i].1 == p
    }

    pub open spec fn has_cursor(&self, c: Seq<char>) -> bool {
        exists|i: int| 0 <= i < self.cursors@.len() && (#[trigger] self.cursors@[i]).0@ == c
    }

    /// The last id handed out to `c`; 0 before the first.
    pub open spec fn last_of(&self, c: Seq<char>) -> u16 {
        if self.has_cursor(c) {
            self.cursors@[choose|i: int| 0 <= i < self.cursors@.len() && (#[trigger] self.cursors@[i]).0@ == c].1
        } else {
            0
        }
    }

    /// One cursor per client.
    pub open spec fn wf(&self) -> bool {
        forall|i: int, j: int|
            0 <= i < j < self.cursors@.len() ==> (#[trigger] self.cursors@[i]).0@ != (#[trigger] self.cursors@[j]).0@
    }

    /// Every id of `1..=65535` is in use by `c`.
    pub open spec fn exhausted(&self, c: Seq<char>) -> bool {
        forall|p: u16| 1 <= p ==> #[trigger] self.holds(c, p)
    }

    pub fn new() -> (r: PkidAllocator)
        ensures
            r.wf(),
            forall|c: Seq<char>, p: u16| !r.holds(c, p),
            forall|c: Seq<char>| r.last_of(c) == 0,
    {
        PkidAllocator { in_use: Vec::new(), cursors: Vec::new() }
    }

    /// Whether `p` is in use by `client_id`.
    pub fn is_held(&self, client_id: &String, p: u16) -> (r: bool)
        ensures
            r == self.holds(client_id@, p),
    {
        let mut i: usize = 0;
        while i < self.in_use.len()
            invariant
                i <= self.in_use@.len(),
                forall|k: int| 0 <= k < i ==> !((#[trigger] self.in_use@[k]).0@ == client_id@ && self.in_use@[k].1 == p),
            decreases self.in_use@.len() - i,
        {
            if self.in_use[i].1 == p && self.in_use[i].0 == *client_id {
                return true;
            }
            i += 1;
        }
        false
    }

    fn cursor_index(&self, client_id: &String) -> (r: Option<usize>)
        requires
            self.wf(),
        ensures
            match r {
                Some(i) => i < self.cursors@.len() && self.cursors@[i as int].0@ == client_id@
                    && self.has_cursor(client_id@) && self.last_of(client_id@) == self.cursors@[i as int].1,
                None => !self.has_cursor(client_id@) && self.last_of(client_id@) == 0,
            },
    {
        let mut i: usize = 0;
        while i < self.cursors.len()
            invariant
                self.wf(),
                i <= self.cursors@.len(),
                forall|k: int| 0 <= k < i ==> (#[trigger] self.cursors@[k]).0@ != client_id@,
            decreases self.cursors@.len() - i,
        {
            if self.cursors[i].0 == *client_id {
                proof {
                    let j = choose|j: int| 0 <= j < self.cursors@.len() && (#[trigger] self.cursors@[j]).0@ == client_id@;
                    if j != i as int {
                        if j < i {
                            assert(self.cursors@[j].0@ != self.cursors@[i as int].0@);
                        } else {
                            assert(self.cursors@[i as int].0@ != self.cursors@[j].0@);
                        }
                    }
                }
                return Some(i);
            }
            i += 1;
        }
        None
    }

    /// The last id handed out to `client_id`; 0 before the first.
    pub fn last_pkid(&self, client_id: &String) -> (r: u16)
        requires
            self.wf(),
        ensures
            r == self.last_of(client_id@),
    {
        match self.cursor_index(client_id) {
            Some(i) => self.cursors[i].1,
            None => 0,
        }
    }

    fn set_cursor(&mut self, client_id: &String, p: u16)
        requires
            old(self).wf(),
        ensures
            final(self).wf(),
            final(self).in_use == old(self).in_use,
            final(self).last_of(client_id@) == p,
            forall|c: Seq<char>| c != client_id@ ==> final(self).last_of(c) == old(self).last_of(c),
    {
        let ghost c0 = client_id@;
        match self.cursor_index(client_id) {
            Some(i) => {
                let name = client_id.clone();
                self.cursors.set(i, (name, p));
                proof {
                    assert(self.cursors@[i as int].0@ == c0);
                    assert forall|a: int, b: int| 0 <= a < b < self.cursors@.len() implies (#[trigger] self.cursors@[a]).0@ != (#[trigger] self.cursors@[b]).0@ by {
                        assert(old(self).cursors@[a].0@ != old(self).cursors@[b].0@);
                    }
                    self.lemma_last_at(i as int);
                    assert forall|c: Seq<char>| c != c0 implies self.last_of(c) == old(self).last_of(c) by {
                        if old(self).has_cursor(c) {
                            let j = choose|j: int| 0 <= j < old(self).cursors@.len() && (#[trigger] old(self).cursors@[j]).0@ == c;
                            old(self).lemma_last_at(j);
                            assert(self.cursors@[j] == old(self).cursors@[j]);
                            self.lemma_last_at(j);
                        } else {
                            assert(!self.has_cursor(c));
                        }
                    }
                }
            },
            None => {
                let name = client_id.clone();
                self.cursors.push((name, p));
                proof {
                    let n = self.cursors@.len() - 1;
                    assert forall|a: int, b: int| 0 <= a < b < self.cursors@.len() implies (#[trigger] self.cursors@[a]).0@ != (#[trigger] self.cursors@[b]).0@ by {
                        if b < n {
                            assert(old(self).cursors@[a].0@ != old(self).cursors@[b].0@);
                        } else {
                            assert(self.cursors@[a] == old(self).cursors@[a]);
                        }
                    }
                    self.lemma_last_at(n);
                    assert forall|c: Seq<char>| c != c0 implies self.last_of(c) == old(self).last_of(c) by {
                        if old(self).has_cursor(c) {
                            let j = choose|j: int| 0 <= j < old(self).cursors@.len() && (#[trigger] old(self).cursors@[j]).0@ == c;
                            old(self).lemma_last_at(j);
                            assert(self.cursors@[j] == old(self).cursors@[j]);
                            self.lemma_last_at(j);
                        } else {
                            assert forall|k: int| 0 <= k < self.cursors@.len() implies (#[trigger] self.cursors@[k]).0@ != c by {
                                if k < n {
                                    assert(self.cursors@[k] == old(self).cursors@[k]);
                                }
                            }
                        }
                    }
                }
            },
        }
    }

    proof fn lemma_last_at(&self, i: int)
        requires
            self.wf(),
            0 <= i < self.cursors@.len(),
        ensures
            self.has_cursor(self.cursors@[i].0@),
            self.last_of(self.cursors@[i].0@) == self.cursors@[i].1,
    {
        let c = self.cursors@[i].0@;
        assert(self.has_cursor(c));
        let j = choose|j: int| 0 <= j < self.cursors@.len() && (#[trigger] self.cursors@[j]).0@ == c;
        if j < i {
            assert(self.cursors@[j].0@ != self.cursors@[i].0@);
        } else if j > i {
            assert(self.cursors@[i].0@ != self.cursors@[j].0@);
        }
    }

    /// Hands out the first id after the client's last one, in the cyclic order of
    /// `1..=65535`, that it does not hold; `None` when it holds them all.
    pub fn acquire(&mut self, client_id: &String) -> (r: Option<u16>)
        requires
            old(self).wf(),
        ensures
            final(self).wf(),
            r is None <==> old(self).exhausted(client_id@),
            r is None ==> *final(self) == *old(self),
            r matches Some(p) ==> {
                &&& 1 <= p
                &&& !old(self).holds(client_id@, p)
                &&& forall|c: Seq<char>, q: u16| #[trigger] final(self).holds(c, q) <==> old(self).holds(c, q) || (c == client_id@ && q == p)
                &&& final(self).last_of(client_id@) == p
                &&& forall|c: Seq<char>| c != client_id@ ==> final(self).last_of(c) == old(self).last_of(c)
                &&& p > old(self).last_of(client_id@) ==> forall|q: u16| old(self).last_of(client_id@) < q < p ==> old(self).holds(client_id@, q)
                &&& p <= old(self).last_of(client_id@) ==> forall|q: u16| (old(self).last_of(client_id@) < q || (1 <= q < p)) ==> old(self).holds(client_id@, q)
            },
    {
        let start = self.last_pkid(client_id);
        let mut p: u16 = start;
        // ids above the last one handed out
        while p < MAX_PKID
            invariant
                self.wf(),
                *self == *old(self),
                start == self.last_of(client_id@),
                start <= p,
                forall|q: u16| start < q <= p ==> self.holds(client_id@, q),
            decreases MAX_PKID - p,
        {
            p = p + 1;
            if !self.is_held(client_id, p) {
                self.take(client_id, p);
                return Some(p);
            }
        }
        // then from the bottom up to the last one
        let mut q: u16 = 0;
        while q < start
            invariant
                self.wf(),
                *self == *old(self),
                start == self.last_of(client_id@),
                q <= start,
                forall|x: u16| start < x ==> self.holds(client_id@, x),
                forall|x: u16| 1 <= x <= q ==> self.holds(client_id@, x),
            decreases start - q,
        {
            q = q + 1;
            if !self.is_held(client_id, q) {
                self.take(client_id, q);
                return Some(q);
            }
        }
        proof {
            assert forall|x: u16| 1 <= x implies #[trigger] self.holds(client_id@, x) by {
                if x > start {
                } else {
                }
            }
        }
        None
    }

    fn take(&mut self, client_id: &String, p: u16)
        requires
            old(self).wf(),
        ensures
            final(self).wf(),
            forall|c: Seq<char>, q: u16| #[trigger] final(self).holds(c, q) <==> old(self).holds(c, q) || (c == client_id@ && q == p),
            final(self).last_of(client_id@) == p,
            forall|c: Seq<char>| c != client_id@ ==> final(self).last_of(c) == old(self).last_of(c),
    {
        self.set_cursor(client_id, p);
        let ghost mid = *self;
        let name = client_id.clone();
        self.in_use.push((name, p));
        proof {
            assert(self.cursors == mid.cursors);
            assert forall|c: Seq<char>| #[trigger] self.last_of(c) == mid.last_of(c) by {
                assert(self.has_cursor(c) == mid.has_cursor(c));
            }
            let n = self.in_use@.len() - 1;
            assert forall|c: Seq<char>, q: u16| #[trigger] self.holds(c, q) <==> old(self).holds(c, q) || (c == client_id@ && q == p) by {
                if old(self).holds(c, q) {
                    let k = choose|k: int| 0 <= k < old(self).in_use@.len() && (#[trigger] old(self).in_use@[k]).0@ == c && old(self).in_use@[k].1 == q;
                    assert(self.in_use@[k] == old(self).in_use@[k]);
                }
                if c == client_id@ && q == p {
                    assert(self.in_use@[n].0@ == c);
                }
                if self.holds(c, q) {
                    let k = choose|k: int| 0 <= k < self.in_use@.len() && (#[trigger] self.in_use@[k]).0@ == c && self.in_use@[k].1 == q;
                    if k < n {
                        assert(self.in_use@[k] == old(self).in_use@[k]);
                    }
                }
            }
        }
    }

    /// Gives `p` back; afterwards `client_id` no longer holds it.
    pub fn release(&mut self, client_id: &String, p: u16)
        requires
            old(self).wf(),
        ensures
            final(self).wf(),
            final(self).cursors == old(self).cursors,
            forall|c: Seq<char>, q: u16| #[trigger] final(self).holds(c, q) <==> old(self).holds(c, q) && !(c == client_id@ && q == p),
    {
        let mut kept: Vec<(String, u16)> = Vec::new();
        let mut i: usize = 0;
        while i < self.in_use.len()
            invariant
                i <= self.in_use@.len(),
                forall|k: int| 0 <= k < kept@.len() ==> !((#[trigger] kept@[k]).0@ == client_id@ && kept@[k].1 == p),
                forall|k: int| #![trigger kept@[k]] 0 <= k < kept@.len() ==> exists|t: int| 0 <= t < i && #[trigger] self.in_use@[t] == kept@[k],
                forall|t: int| 0 <= t < i && !((#[trigger] self.in_use@[t]).0@ == client_id@ && self.in_use@[t].1 == p) ==> kept@.contains(self.in_use@[t]),
            decreases self.in_use@.len() - i,
        {
            let same = self.in_use[i].1 == p && self.in_use[i].0 == *client_id;
            if !same {
                let name = self.in_use[i].0.clone();
                let entry = (name, self.in_use[i].1);
                let ghost kept_before = kept@;
                kept.push(entry);
                proof {
                    assert(kept@[kept@.len() - 1] == self.in_use@[i as int]);
                    assert forall|k: int| #![trigger kept@[k]] 0 <= k < kept@.len() implies exists|t: int| 0 <= t < i + 1 && #[trigger] self.in_use@[t] == kept@[k] by {
                        if k < kept@.len() - 1 {
                            assert(kept_before[k] == kept@[k]);
                        } else {
                            assert(self.in_use@[i as int] == kept@[k]);
                        }
                    }
                    assert forall|t: int| 0 <= t < i + 1 && !((#[trigger] self.in_use@[t]).0@ == client_id@ && self.in_use@[t].1 == p) implies kept@.contains(self.in_use@[t]) by {
                        if t < i {
                            assert(kept_before.contains(self.in_use@[t]));
                            let k = choose|k: int| 0 <= k < kept_before.len() && kept_before[k] == self.in_use@[t];
                            assert(kept@[k] == self.in_use@[t]);
                        } else {
                            assert(kept@[kept@.len() - 1] == self.in_use@[t]);
                        }
                    }
                }
            }
            i += 1;
        }
        let ghost before = self.in_use@;
        self.in_use = kept;
        proof {
            assert forall|c: Seq<char>, q: u16| #[trigger] self.holds(c, q) <==> old(self).holds(c, q) && !(c == client_id@ && q == p) by {
                if self.holds(c, q) {
                    let k = choose|k: int| 0 <= k < self.in_use@.len() && (#[trigger] self.in_use@[k]).0@ == c && self.in_use@[k].1 == q;
                    let t = choose|t: int| 0 <= t < before.len() && #[trigger] before[t] == self.in_use@[k];
                    assert(before[t].0@ == c);
                }
                if old(self).holds(c, q) && !(c == client_id@ && q == p) {
                    let t = choose|t: int| 0 <= t < before.len() && (#[trigger] before[t]).0@ == c && before[t].1 == q;
                    assert(self.in_use@.contains(before[t]));
                    let k = choose|k: int| 0 <= k < self.in_use@.len() && self.in_use@[k] == before[t];
                    assert(self.in_use@[k].0@ == c);
                }
            }
        }
    }
}

} // verus!
