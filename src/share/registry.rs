//! Members of the shared-subscription groups that this node leads.
use vstd::prelude::*;

use crate::protocol::QoS;

verus! {

/// The protocol version that a connection declared.
#[derive(Debug, Clone, Copy, PartialEq, Eq, Structural)]
pub enum MqttProtocol {
    Mqtt4,
    Mqtt5,
}

/// A member of a shared-subscription group.
#[derive(Debug, Clone, PartialEq, Eq)]
pub struct Subscriber {
    pub client_id: String,
    pub group_name: String,
    pub topic_filter: String,
    pub topic_id: String,
    /// The highest QoS the member subscribed with.
    pub qos: QoS,
    pub protocol: MqttProtocol,
    pub subscription_identifier: Option<usize>,
    /// Adds a user property naming the group to each forwarded PUBLISH.
    pub is_contain_rewrite_flag: bool,
    /// When a record was last delivered to it.
    pub last_delivery: u64,
}

/// A field-by-field copy of a subscriber.
pub fn copy_subscriber(s: &Subscriber) -> (r: Subscriber)
    ensures
        r == *s,
{
    Subscriber {
        client_id: s.client_id.clone(),
        group_name: s.group_name.clone(),
        topic_filter: s.topic_filter.clone(),
        topic_id: s.topic_id.clone(),
        qos: s.qos,
        protocol: s.protocol,
        subscription_identifier: s.subscription_identifier,
        is_contain_rewrite_flag: s.is_contain_rewrite_flag,
        last_delivery: s.last_delivery,
    }
}

/// A copy of a list of subscribers.
pub fn copy_subscribers(v: &Vec<Subscriber>) -> (r: Vec<Subscriber>)
    ensures
        r@ == v@,
{
    let mut r: Vec<Subscriber> = Vec::new();
    let mut i: usize = 0;
    while i < v.len()
        invariant
            i <= v@.len(),
            r@ == v@.subrange(0, i as int),
        decreases v@.len() - i,
    {
        r.push(copy_subscriber(&v[i]));
        i += 1;
        assert(r@ =~= v@.subrange(0, i as int));
    }
    assert(v@.subrange(0, v@.len() as int) =~= v@);
    r
}

/// Keeps the members whose client id is not `c`.
pub open spec fn other_clients(c: Seq<char>) -> spec_fn(Subscriber) -> bool {
    |s: Subscriber| s.client_id@ != c
}

/// The members without those of client `c`, in the same order.
pub open spec fn without_client(members: Seq<Subscriber>, c: Seq<char>) -> Seq<Subscriber> {
    members.filter(other_clients(c))
}

/// A copy of `v` without the members of client `client_id`.
pub fn members_without(v: &Vec<Subscriber>, client_id: &String) -> (r: Vec<Subscriber>)
    ensures
        r@ == without_client(v@, client_id@),
{
    let mut r: Vec<Subscriber> = Vec::new();
    let mut i: usize = 0;
    while i < v.len()
        invariant
            i <= v@.len(),
            r@ == without_client(v@.subrange(0, i as int), client_id@),
        decreases v@.len() - i,
    {
        proof {
            reveal(Seq::filter);
            assert(v@.subrange(0, i + 1).drop_last() =~= v@.subrange(0, i as int));
            assert(v@.subrange(0, i + 1).last() == v@[i as int]);
        }
        if v[i].client_id != *client_id {
            r.push(copy_subscriber(&v[i]));
        }
        i += 1;
    }
    assert(v@.subrange(0, v@.len() as int) =~= v@);
    r
}

/// One led group: its key, what it subscribes to, and its members in the order
/// they joined.
#[derive(Debug)]
pub struct ShareGroup {
    pub key: String,
    pub group_name: String,
    pub topic_id: String,
    pub topic_name: String,
    pub sub_list: Vec<Subscriber>,
}

/// The led groups; one group per key.
pub struct SubscriberRegistry {
    pub groups: Vec<ShareGroup>,
}

impl SubscriberRegistry {
    pub open spec fn wf(&self) -> bool {
        forall|i: int, j: int|
            0 <= i < j < self.groups@.len() ==> (#[trigger] self.groups@[i]).key@ != (#[trigger] self.groups@[j]).key@
    }

    pub open spec fn has_key(&self, key: Seq<char>) -> bool {
        exists|i: int| 0 <= i < self.groups@.len() && (#[trigger] self.groups@[i]).key@ == key
    }

    /// The members of the group with `key`; none when no such group is led.
    pub open spec fn members_of(&self, key: Seq<char>) -> Seq<Subscriber> {
        if self.has_key(key) {
            self.groups@[choose|i: int| 0 <= i < self.groups@.len() && (#[trigger] self.groups@[i]).key@ == key].sub_list@
        } else {
            Seq::empty()
        }
    }

    proof fn lemma_members_at(&self, i: int)
        requires
            self.wf(),
            0 <= i < self.groups@.len(),
        ensures
            self.has_key(self.groups@[i].key@),
            self.members_of(self.groups@[i].key@) == self.groups@[i].sub_list@,
    {
        let key = self.groups@[i].key@;
        assert(self.has_key(key));
        let j = choose|j: int| 0 <= j < self.groups@.len() && (#[trigger] self.groups@[j]).key@ == key;
        if j < i {
            assert(self.groups@[j].key@ != self.groups@[i].key@);
        } else if j > i {
            assert(self.groups@[i].key@ != self.groups@[j].key@);
        }
    }

    pub fn new() -> (r: SubscriberRegistry)
        ensures
            r.wf(),
            forall|k: Seq<char>| !r.has_key(k),
    {
        SubscriberRegistry { groups: Vec::new() }
    }

    fn find(&self, key: &String) -> (r: Option<usize>)
        requires
            self.wf(),
        ensures
            match r {
                Some(i) => i < self.groups@.len() && self.groups@[i as int].key@ == key@,
                None => !self.has_key(key@),
            },
    {
        let mut i: usize = 0;
        while i < self.groups.len()
            invariant
                i <= self.groups@.len(),
                forall|k: int| 0 <= k < i ==> (#[trigger] self.groups@[k]).key@ != key@,
            decreases self.groups@.len() - i,
        {
            if self.groups[i].key == *key {
                return Some(i);
            }
            i += 1;
        }
        None
    }

    /// The keys of all led groups.
    pub fn keys(&self) -> (r: Vec<String>)
        ensures
            r@.len() == self.groups@.len(),
            forall|i: int| 0 <= i < r@.len() ==> (#[trigger] r@[i])@ == self.groups@[i].key@,
    {
        let mut r: Vec<String> = Vec::new();
        let mut i: usize = 0;
        while i < self.groups.len()
            invariant
                i <= self.groups@.len(),
                r@.len() == i,
                forall|k: int| 0 <= k < i ==> (#[trigger] r@[k])@ == self.groups@[k].key@,
            decreases self.groups@.len() - i,
        {
            r.push(self.groups[i].key.clone());
            i += 1;
        }
        r
    }

    /// Adds a group with no members, unless one with `key` is already led.
    pub fn add_group(&mut self, key: String, group_name: String, topic_id: String, topic_name: String)
        requires
            old(self).wf(),
        ensures
            final(self).wf(),
            final(self).has_key(key@),
            forall|k: Seq<char>| #[trigger] final(self).has_key(k) <==> old(self).has_key(k) || k == key@,
            old(self).has_key(key@) ==> final(self).groups@ == old(self).groups@,
            !old(self).has_key(key@) ==> final(self).members_of(key@).len() == 0,
            forall|k: Seq<char>| k != key@ ==> #[trigger] final(self).members_of(k) == old(self).members_of(k),
    {
        match self.find(&key) {
            Some(_) => {},
            None => {
                let ghost k0 = key@;
                self.groups.push(ShareGroup { key, group_name, topic_id, topic_name, sub_list: Vec::new() });
                proof {
                    let n = self.groups@.len() - 1;
                    assert forall|a: int, b: int| 0 <= a < b < self.groups@.len() implies (#[trigger] self.groups@[a]).key@ != (#[trigger] self.groups@[b]).key@ by {
                        if b < n {
                            assert(old(self).groups@[a].key@ != old(self).groups@[b].key@);
                        } else {
                            assert(self.groups@[a] == old(self).groups@[a]);
                        }
                    }
                    self.lemma_members_at(n);
                    assert forall|k: Seq<char>| #[trigger] self.has_key(k) <==> old(self).has_key(k) || k == k0 by {
                        if old(self).has_key(k) {
                            let j = choose|j: int| 0 <= j < old(self).groups@.len() && (#[trigger] old(self).groups@[j]).key@ == k;
                            assert(self.groups@[j] == old(self).groups@[j]);
                        }
                        if self.has_key(k) && k != k0 {
                            let j = choose|j: int| 0 <= j < self.groups@.len() && (#[trigger] self.groups@[j]).key@ == k;
                            assert(j < n);
                            assert(self.groups@[j] == old(self).groups@[j]);
                        }
                    }
                    assert forall|k: Seq<char>| k != k0 implies #[trigger] self.members_of(k) == old(self).members_of(k) by {
                        if old(self).has_key(k) {
                            let j = choose|j: int| 0 <= j < old(self).groups@.len() && (#[trigger] old(self).groups@[j]).key@ == k;
                            old(self).lemma_members_at(j);
                            assert(self.groups@[j] == old(self).groups@[j]);
                            self.lemma_members_at(j);
                        }
                    }
                }
            },
        }
    }

    /// Appends `sub` to the members of the group with `key`; false (and nothing
    /// changes) when no such group is led.
    pub fn add_member(&mut self, key: &String, sub: Subscriber) -> (r: bool)
        requires
            old(self).wf(),
        ensures
            final(self).wf(),
            r == old(self).has_key(key@),
            !r ==> final(self).groups@ == old(self).groups@,
            forall|k: Seq<char>| #[trigger] final(self).has_key(k) == old(self).has_key(k),
            r ==> final(self).members_of(key@) == old(self).members_of(key@).push(sub),
            forall|k: Seq<char>| k != key@ ==> #[trigger] final(self).members_of(k) == old(self).members_of(k),
    {
        match self.find(key) {
            None => false,
            Some(i) => {
                let ghost s0 = sub;
                let mut members = copy_subscribers(&self.groups[i].sub_list);
                members.push(sub);
                let g = ShareGroup {
                    key: self.groups[i].key.clone(),
                    group_name: self.groups[i].group_name.clone(),
                    topic_id: self.groups[i].topic_id.clone(),
                    topic_name: self.groups[i].topic_name.clone(),
                    sub_list: members,
                };
                self.groups.set(i, g);
                proof {
                    old(self).lemma_members_at(i as int);
                    self.lemma_sets_preserved(old(self), i as int);
                    self.lemma_members_at(i as int);
                }
                true
            },
        }
    }

    /// Drops the members of client `client_id` from the group with `key`; false
    /// (and nothing changes) when no such group is led.
    pub fn remove_member(&mut self, key: &String, client_id: &String) -> (r: bool)
        requires
            old(self).wf(),
        ensures
            final(self).wf(),
            r == old(self).has_key(key@),
            !r ==> final(self).groups@ == old(self).groups@,
            forall|k: Seq<char>| #[trigger] final(self).has_key(k) == old(self).has_key(k),
            r ==> final(self).members_of(key@) == without_client(old(self).members_of(key@), client_id@),
            forall|k: Seq<char>| k != key@ ==> #[trigger] final(self).members_of(k) == old(self).members_of(k),
    {
        match self.find(key) {
            None => false,
            Some(i) => {
                let members = members_without(&self.groups[i].sub_list, client_id);
                let g = ShareGroup {
                    key: self.groups[i].key.clone(),
                    group_name: self.groups[i].group_name.clone(),
                    topic_id: self.groups[i].topic_id.clone(),
                    topic_name: self.groups[i].topic_name.clone(),
                    sub_list: members,
                };
                self.groups.set(i, g);
                proof {
                    old(self).lemma_members_at(i as int);
                    self.lemma_sets_preserved(old(self), i as int);
                    self.lemma_members_at(i as int);
                }
                true
            },
        }
    }

    proof fn lemma_sets_preserved(&self, before: &SubscriberRegistry, i: int)
        requires
            before.wf(),
            0 <= i < before.groups@.len(),
            self.groups@.len() == before.groups@.len(),
            self.groups@[i].key@ == before.groups@[i].key@,
            forall|j: int| 0 <= j < self.groups@.len() && j != i ==> #[trigger] self.groups@[j] == before.groups@[j],
        ensures
            self.wf(),
            forall|k: Seq<char>| #[trigger] self.has_key(k) == before.has_key(k),
            forall|k: Seq<char>| k != before.groups@[i].key@ ==> #[trigger] self.members_of(k) == before.members_of(k),
    {
        assert forall|a: int, b: int| 0 <= a < b < self.groups@.len() implies (#[trigger] self.groups@[a]).key@ != (#[trigger] self.groups@[b]).key@ by {
            assert(before.groups@[a].key@ != before.groups@[b].key@);
            if a != i {
                assert(self.groups@[a] == before.groups@[a]);
            }
            if b != i {
                assert(self.groups@[b] == before.groups@[b]);
            }
        }
        assert forall|k: Seq<char>| #[trigger] self.has_key(k) == before.has_key(k) by {
            if before.has_key(k) {
                let j = choose|j: int| 0 <= j < before.groups@.len() && (#[trigger] before.groups@[j]).key@ == k;
                if j != i {
                    assert(self.groups@[j] == before.groups@[j]);
                }
            }
            if self.has_key(k) {
                let j = choose|j: int| 0 <= j < self.groups@.len() && (#[trigger] self.groups@[j]).key@ == k;
                if j != i {
                    assert(self.groups@[j] == before.groups@[j]);
                }
            }
        }
        assert forall|k: Seq<char>| k != before.groups@[i].key@ implies #[trigger] self.members_of(k) == before.members_of(k) by {
            if before.has_key(k) {
                let j = choose|j: int| 0 <= j < before.groups@.len() && (#[trigger] before.groups@[j]).key@ == k;
                before.lemma_members_at(j);
                assert(j != i);
                assert(self.groups@[j] == before.groups@[j]);
                self.lemma_members_at(j);
            }
        }
    }

    /// Stops leading the group with `key`.
    pub fn remove_group(&mut self, key: &String)
        requires
            old(self).wf(),
        ensures
            final(self).wf(),
            forall|k: Seq<char>| #[trigger] final(self).has_key(k) <==> old(self).has_key(k) && k != key@,
            forall|k: Seq<char>| k != key@ ==> #[trigger] final(self).members_of(k) == old(self).members_of(k),
    {
        match self.find(key) {
            None => {
                assert forall|k: Seq<char>| #[trigger] self.has_key(k) implies k != key@ by {}
            },
            Some(i) => {
                self.groups.remove(i);
                proof {
                    let ii = i as int;
                    assert forall|a: int, b: int| 0 <= a < b < self.groups@.len() implies (#[trigger] self.groups@[a]).key@ != (#[trigger] self.groups@[b]).key@ by {
                        let oa = if a < ii { a } else { a + 1 };
                        let ob = if b < ii { b } else { b + 1 };
                        assert(self.groups@[a] == old(self).groups@[oa]);
                        assert(self.groups@[b] == old(self).groups@[ob]);
                        assert(old(self).groups@[oa].key@ != old(self).groups@[ob].key@);
                    }
                    assert forall|k: Seq<char>| #[trigger] self.has_key(k) <==> old(self).has_key(k) && k != key@ by {
                        if self.has_key(k) {
                            let j = choose|j: int| 0 <= j < self.groups@.len() && (#[trigger] self.groups@[j]).key@ == k;
                            let oj = if j < ii { j } else { j + 1 };
                            assert(self.groups@[j] == old(self).groups@[oj]);
                            if k == key@ {
                                if oj < ii {
                                    assert(old(self).groups@[oj].key@ != old(self).groups@[ii].key@);
                                } else {
                                    assert(old(self).groups@[ii].key@ != old(self).groups@[oj].key@);
                                }
                            }
                        }
                        if old(self).has_key(k) && k != key@ {
                            let j = choose|j: int| 0 <= j < old(self).groups@.len() && (#[trigger] old(self).groups@[j]).key@ == k;
                            let nj = if j < ii { j } else { j - 1 };
                            assert(j != ii);
                            assert(self.groups@[nj] == old(self).groups@[j]);
                        }
                    }
                    assert forall|k: Seq<char>| k != key@ implies #[trigger] self.members_of(k) == old(self).members_of(k) by {
                        if old(self).has_key(k) {
                            let j = choose|j: int| 0 <= j < old(self).groups@.len() && (#[trigger] old(self).groups@[j]).key@ == k;
                            old(self).lemma_members_at(j);
                            let nj = if j < ii { j } else { j - 1 };
                            assert(j != ii);
                            assert(self.groups@[nj] == old(self).groups@[j]);
                            self.lemma_members_at(nj);
                        }
                    }
                }
            },
        }
    }
}

/// A snapshot of the members of the group with `key`, in the order they joined;
/// empty when no such group is led.
pub fn build_share_leader_sub_list(registry: &SubscriberRegistry, key: &String) -> (r: Vec<Subscriber>)
    requires
        registry.wf(),
    ensures
        r@ == registry.members_of(key@),
{
    match registry.find(key) {
        Some(i) => {
            proof {
                registry.lemma_members_at(i as int);
            }
            copy_subscribers(&registry.groups[i].sub_list)
        },
        None => Vec::new(),
    }
}

} // verus!
