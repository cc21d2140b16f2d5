//! The decisions of the dispatch worker of one led group: how many records to
//! read, whom to send each one to, what the PUBLISH holds, and what to do when a
//! delivery ends.
use vstd::prelude::*;
use vstd::string::StringExecFns;
use vstd::utf8::encode_utf8;

use bytes::Bytes;

use crate::buffer::{bytes_content, bytes_from_vec, bytes_to_vec};
use crate::protocol::{min_qos, qos_level, Publish, PublishProperties, QoS};
use crate::share::delivery::{
    fresh_attempt, is_terminal, next_attempt, AckKind, DeliveryAction, DeliveryAttempt, DeliveryEvent, Phase,
};
use crate::share::registry::{copy_subscribers, Subscriber};
use crate::share::strategy::{
    fnv1a, index_from_draw, local_choice, local_pick, share_digest, round_robin_pick, sticky_pick, ShareStrategy,
};

verus! {

/// A record's payload, decoded.
#[derive(Debug, Clone, PartialEq, Eq)]
pub struct Message {
    pub payload: Bytes,
    /// The QoS it was published with.
    pub qos: QoS,
    pub content_type: Option<String>,
    pub response_topic: Option<String>,
    pub correlation_data: Option<Bytes>,
    pub message_expiry: Option<u32>,
    pub user_properties: Vec<(String, String)>,
}

/// The tunables of dispatching.
#[derive(Debug, Clone, Copy, PartialEq, Eq, Structural)]
pub struct DispatchConfig {
    pub strategy: ShareStrategy,
    pub ack_timeout_ms: u64,
    pub idle_backoff_ms: u64,
    pub membership_refresh_ms: u64,
    pub gc_interval_ms: u64,
    pub max_attempts: u32,
    pub batch_size_multiplier: usize,
    pub max_qos: QoS,
    /// Failures after which a sticky member is given up.
    pub sticky_failure_threshold: u32,
}

pub const SHARE_USER_PROPERTY_KEY: &'static str = "Forwarded-From-Shared";

impl DispatchConfig {
    /// Round robin, 30 s ack window, 500 ms idle backoff, 5 s membership refresh,
    /// 1 s supervisor period, 8 attempts, batches of 5 records per member, QoS 2.
    pub fn standard() -> (r: DispatchConfig)
        ensures
            r.strategy == ShareStrategy::RoundRobin,
            r.ack_timeout_ms == 30_000,
            r.idle_backoff_ms == 500,
            r.membership_refresh_ms == 5_000,
            r.gc_interval_ms == 1_000,
            r.max_attempts == 8,
            r.batch_size_multiplier == 5,
            r.max_qos == QoS::ExactlyOnce,
            r.sticky_failure_threshold == 3,
    {
        DispatchConfig {
            strategy: ShareStrategy::RoundRobin,
            ack_timeout_ms: 30_000,
            idle_backoff_ms: 500,
            membership_refresh_ms: 5_000,
            gc_interval_ms: 1_000,
            max_attempts: 8,
            batch_size_multiplier: 5,
            max_qos: QoS::ExactlyOnce,
            sticky_failure_threshold: 3,
        }
    }
}

/// How many records one read asks for: `multiplier` per member, at least one.
pub open spec fn batch_size(members: nat, multiplier: nat) -> nat {
    let n = members * multiplier;
    if n == 0 {
        1
    } else if n > usize::MAX {
        usize::MAX as nat
    } else {
        n
    }
}

/// Batch size for a group of `sub_len` members, at five records per member.
pub fn calc_record_num(sub_len: usize) -> (r: usize)
    ensures
        r == batch_size(sub_len as nat, 5),
{
    batch_size_for(sub_len, 5)
}

/// Batch size for `sub_len` members at `multiplier` records each; at least one,
/// and no more than `usize::MAX`.
pub fn batch_size_for(sub_len: usize, multiplier: usize) -> (r: usize)
    ensures
        r == batch_size(sub_len as nat, multiplier as nat),
{
    let n = sub_len.checked_mul(multiplier);
    match n {
        Some(0) => 1,
        Some(n) => n,
        None => usize::MAX,
    }
}

/// The consumer group under which the leader reads a shared topic.
pub open spec fn group_id_of(group_name: Seq<char>, topic_id: Seq<char>) -> Seq<char> {
    "system_sub_"@ + group_name + "_"@ + topic_id
}

/// `system_sub_{group_name}_{topic_id}`.
pub fn share_group_id(group_name: &String, topic_id: &String) -> (r: String)
    ensures
        r@ == group_id_of(group_name@, topic_id@),
{
    let mut r = String::from_str("system_sub_");
    r.append(group_name.as_str());
    r.append("_");
    r.append(topic_id.as_str());
    r
}

/// The QoS of a forwarded PUBLISH: the lowest of the message's, the member's and
/// the cluster's.
pub open spec fn forwarded_qos(msg: QoS, member: QoS, cluster: QoS) -> nat {
    let a = qos_level(msg) as nat;
    let b = qos_level(member) as nat;
    let c = qos_level(cluster) as nat;
    let ab = if a <= b {
        a
    } else {
        b
    };
    if ab <= c {
        ab
    } else {
        c
    }
}

fn copy_opt_string(s: &Option<String>) -> (r: Option<String>)
    ensures
        r == *s,
{
    match s {
        Some(v) => Some(v.clone()),
        None => None,
    }
}

fn copy_pairs(v: &Vec<(String, String)>) -> (r: Vec<(String, String)>)
    ensures
        r@ == v@,
{
    let mut r: Vec<(String, String)> = Vec::new();
    let mut i: usize = 0;
    while i < v.len()
        invariant
            i <= v@.len(),
            r@ == v@.subrange(0, i as int),
        decreases v@.len() - i,
    {
        let p = (v[i].0.clone(), v[i].1.clone());
        r.push(p);
        i += 1;
        assert(r@ =~= v@.subrange(0, i as int));
    }
    assert(v@.subrange(0, v@.len() as int) =~= v@);
    r
}

/// The PUBLISH (and its MQTT 5 properties) that forwards `msg` on `topic_name`
/// to the member `subscribe`. The packet id is 0: one is set when the QoS asks
/// for it.
pub fn build_publish(cluster_qos: QoS, subscribe: &Subscriber, topic_name: &String, msg: &Message) -> (r:
    (Publish, PublishProperties))
    ensures
        qos_level(r.0.qos) == forwarded_qos(msg.qos, subscribe.qos, cluster_qos),
        !r.0.dup,
        !r.0.retain,
        r.0.pkid == 0,
        bytes_content(r.0.topic) == encode_utf8(topic_name@),
        bytes_content(r.0.payload) == bytes_content(msg.payload),
        r.1.subscription_identifiers@ == match subscribe.subscription_identifier {
            Some(id) => seq![id],
            None => Seq::<usize>::empty(),
        },
        r.1.content_type == msg.content_type,
        r.1.response_topic == msg.response_topic,
        r.1.message_expiry_interval == msg.message_expiry,
        msg.correlation_data is None ==> r.1.correlation_data is None,
        msg.correlation_data matches Some(c) ==> (r.1.correlation_data matches Some(d) && bytes_content(d) == bytes_content(c)),
        r.1.payload_format_indicator is None,
        r.1.topic_alias is None,
        r.1.user_properties@.len() == msg.user_properties@.len() + if subscribe.is_contain_rewrite_flag { 1int } else { 0int },
        forall|i: int| 0 <= i < msg.user_properties@.len() ==> #[trigger] r.1.user_properties@[i] == msg.user_properties@[i],
        subscribe.is_contain_rewrite_flag ==> r.1.user_properties@.last().0@ == SHARE_USER_PROPERTY_KEY@
            && r.1.user_properties@.last().1@ == subscribe.group_name@,
{
    let mut sub_id: Vec<usize> = Vec::new();
    if let Some(id) = subscribe.subscription_identifier {
        sub_id.push(id);
    }
    let qos = min_qos(min_qos(msg.qos, subscribe.qos), cluster_qos);
    let topic = bytes_from_vec(topic_name.as_str().as_bytes_vec());
    let publish = Publish {
        dup: false,
        qos,
        pkid: 0,
        retain: false,
        topic,
        payload: msg.payload.clone(),
    };
    let mut user_properties = copy_pairs(&msg.user_properties);
    if subscribe.is_contain_rewrite_flag {
        let key = String::from_str(SHARE_USER_PROPERTY_KEY);
        user_properties.push((key, subscribe.group_name.clone()));
    }
    let correlation_data = match &msg.correlation_data {
        Some(c) => Some(c.clone()),
        None => None,
    };
    let properties = PublishProperties {
        payload_format_indicator: None,
        message_expiry_interval: msg.message_expiry,
        topic_alias: None,
        response_topic: copy_opt_string(&msg.response_topic),
        correlation_data,
        user_properties,
        subscription_identifiers: sub_id,
        content_type: copy_opt_string(&msg.content_type),
    };
    (publish, properties)
}

/// The bytes that hash selection keys a message by: its correlation data when
/// it has some, else its payload.
pub open spec fn hash_key(msg: Message) -> Seq<u8> {
    match msg.correlation_data {
        Some(c) => bytes_content(c),
        None => bytes_content(msg.payload),
    }
}

/// The digest that hash selection uses for `msg` on `topic_name`: FNV-1a over
/// the topic's bytes followed by the message's key.
pub fn message_digest(topic_name: &String, msg: &Message) -> (r: u64)
    ensures
        r == fnv1a(encode_utf8(topic_name@) + hash_key(*msg)),
{
    let key = match &msg.correlation_data {
        Some(c) => bytes_to_vec(c),
        None => bytes_to_vec(&msg.payload),
    };
    let topic = topic_name.as_str().as_bytes_vec();
    share_digest(&topic, &key)
}

/// How the delivery of one record to one member ended.
#[derive(Debug, Clone, Copy, PartialEq, Eq, Structural)]
pub enum RecordOutcome {
    /// The QoS-specific terminal state was reached.
    Delivered,
    /// The record's payload could not be decoded.
    DecodeFailed,
    /// The acknowledgement did not come in time.
    TimedOut,
    /// The member had no connection.
    NoConnection,
    /// The worker was cancelled.
    Cancelled,
}

/// What the worker does with the record next.
#[derive(Debug, Clone, Copy, PartialEq, Eq, Structural)]
pub enum RecordStep {
    /// Commit the record's offset and move to the next record.
    Commit,
    /// Try the same record again (after picking a recipient).
    Retry,
    /// Leave without committing.
    Exit,
}

/// The step after an outcome, given the attempts already spent on the record:
/// success and undecodable records commit; failures retry until `max_attempts`
/// attempts were made, then commit; cancellation exits.
pub open spec fn step_after(outcome: RecordOutcome, attempts: nat, max_attempts: nat) -> RecordStep {
    match outcome {
        RecordOutcome::Delivered => RecordStep::Commit,
        RecordOutcome::DecodeFailed => RecordStep::Commit,
        RecordOutcome::Cancelled => RecordStep::Exit,
        _ => if attempts + 1 >= max_attempts {
            RecordStep::Commit
        } else {
            RecordStep::Retry
        },
    }
}

/// Milliseconds to wait before the `retry`-th repeated commit: 10 ms doubling,
/// capped at one second.
pub open spec fn commit_backoff(retry: nat) -> nat
    decreases retry,
{
    if retry == 0 {
        10
    } else {
        let prev = commit_backoff((retry - 1) as nat);
        if prev * 2 >= 1000 {
            1000
        } else {
            prev * 2
        }
    }
}

pub fn commit_backoff_ms(retry: u32) -> (r: u64)
    ensures
        r == commit_backoff(retry as nat),
        10 <= r <= 1000,
{
    let mut d: u64 = 10;
    let mut i: u32 = 0;
    while i < retry
        invariant
            i <= retry,
            d == commit_backoff(i as nat),
            10 <= d <= 1000,
        decreases retry - i,
    {
        d = if d * 2 >= 1000 {
            1000
        } else {
            d * 2
        };
        i += 1;
    }
    d
}

/// Position `i` holds the first member with client id `c`.
pub open spec fn is_first_member(members: Seq<Subscriber>, c: Seq<char>, i: int) -> bool {
    0 <= i < members.len() && members[i].client_id@ == c && forall|k: int|
        0 <= k < i ==> (#[trigger] members[k]).client_id@ != c
}

/// The position of the first member with client id `c`, if any.
pub open spec fn first_member(members: Seq<Subscriber>, c: Seq<char>) -> Option<int> {
    if exists|i: int| is_first_member(members, c, i) {
        Some(choose|i: int| is_first_member(members, c, i))
    } else {
        None
    }
}

proof fn lemma_first_member_unique(members: Seq<Subscriber>, c: Seq<char>, i: int)
    requires
        is_first_member(members, c, i),
    ensures
        first_member(members, c) == Some(i),
{
    let j = choose|j: int| is_first_member(members, c, j);
    if j < i {
        assert(members[j].client_id@ != c);
    } else if j > i {
        assert(members[i].client_id@ != c);
    }
}

/// The member that the configured strategy picks, for a non-empty snapshot:
/// round robin `cursor mod n`; random `draw mod n`; hash `digest mod n`;
/// sticky the kept member while it is in the snapshot and has failed fewer
/// times than the threshold, else `draw mod n`; local the first local member
/// in round-robin order (round robin when the flags do not cover the snapshot).
pub open spec fn strategy_pick(w: ShareWorker, draw: u64, digest: u64, is_local: Seq<bool>, i: int) -> bool {
    let n = w.members@.len() as int;
    match w.config.strategy {
        ShareStrategy::RoundRobin => i == w.cursor as int % n,
        ShareStrategy::Random => i == draw as int % n,
        ShareStrategy::Hash => i == digest as int % n,
        ShareStrategy::Sticky => {
            let kept = match w.sticky {
                Some(c) => first_member(w.members@, c@),
                None => None,
            };
            if kept is Some && w.sticky_failures < w.config.sticky_failure_threshold {
                Some(i) == kept
            } else {
                i == draw as int % n
            }
        },
        ShareStrategy::Local => if is_local.len() == n {
            local_choice(w.cursor as int, is_local, i)
        } else {
            i == w.cursor as int % n
        },
    }
}

/// The cursor after a pick of `i`: round robin and local move past it.
pub open spec fn cursor_after(w: ShareWorker, i: int) -> usize {
    match w.config.strategy {
        ShareStrategy::RoundRobin | ShareStrategy::Local => (i + 1) as usize,
        _ => w.cursor,
    }
}

/// Whether a worker in phase `p` acts on `ev` (cancellation aside).
pub open spec fn awaited(p: WorkerPhase, ev: WorkerEvent) -> bool {
    match ev {
        WorkerEvent::Tick(_) => p == WorkerPhase::Idle,
        WorkerEvent::MembersLoaded(_, _) => p == WorkerPhase::Loading,
        WorkerEvent::ReadDone(_) | WorkerEvent::ReadFailed => p == WorkerPhase::Reading,
        WorkerEvent::Decoded { .. } | WorkerEvent::DecodeFailed => p == WorkerPhase::Decoding,
        WorkerEvent::PkidAcquired(_) | WorkerEvent::NoPkid => p == WorkerPhase::AcquiringPkid,
        WorkerEvent::Delivery(_) => p == WorkerPhase::Delivering,
        WorkerEvent::CommitDone | WorkerEvent::CommitFailed => p == WorkerPhase::Committing,
        WorkerEvent::Cancel => true,
    }
}

/// The state that the dispatch worker of one led group carries between records.
pub struct ShareWorker {
    pub key: String,
    pub group_name: String,
    pub topic_id: String,
    pub topic_name: String,
    pub group_id: String,
    pub config: DispatchConfig,
    pub members: Vec<Subscriber>,
    pub refreshed_at: u64,
    pub batch_size: usize,
    /// Round-robin position.
    pub cursor: usize,
    /// The member that sticky selection keeps, by client id.
    pub sticky: Option<String>,
    pub sticky_failures: u32,
    /// Attempts spent on the current record.
    pub attempts: u32,
    /// Where the worker's loop stands.
    pub phase: WorkerPhase,
    /// Offsets of the batch being dispatched, oldest first.
    pub batch: Vec<u64>,
    /// Position of the current record in `batch`.
    pub pos: usize,
    /// The member picked for the current record.
    pub recipient: usize,
    /// QoS of the PUBLISH for the current record.
    pub publish_qos: QoS,
    /// The delivery of the current record.
    pub attempt: DeliveryAttempt,
    /// Failed commits of the current record so far.
    pub commit_retries: u32,
}

/// Where a worker's loop stands.
#[derive(Debug, Clone, Copy, PartialEq, Eq, Structural)]
pub enum WorkerPhase {
    /// Between batches.
    Idle,
    /// Waiting for a member snapshot.
    Loading,
    /// Waiting for records.
    Reading,
    /// Waiting for the current record to be decoded.
    Decoding,
    /// Waiting for a packet id for the current record.
    AcquiringPkid,
    /// Delivering the current record.
    Delivering,
    /// Committing the current record's offset.
    Committing,
    /// Stopped.
    Exited,
}

/// What the runtime around a worker reports.
#[derive(Debug, Clone, PartialEq, Eq)]
pub enum WorkerEvent {
    /// Time to go on (after start or a sleep), at `now` milliseconds.
    Tick(u64),
    /// A fresh member snapshot, taken at `now`.
    MembersLoaded(Vec<Subscriber>, u64),
    /// Records past the committed offset, by offset, oldest first.
    ReadDone(Vec<u64>),
    ReadFailed,
    /// The current record decoded; with a random draw, the message's digest and
    /// which members are on this node, for the pick.
    Decoded { qos: QoS, draw: u64, digest: u64, is_local: Vec<bool> },
    DecodeFailed,
    PkidAcquired(u16),
    NoPkid,
    /// Something happened to the delivery in flight.
    Delivery(DeliveryEvent),
    CommitDone,
    CommitFailed,
    /// The supervisor cancelled the worker.
    Cancel,
}

/// What the runtime does next for a worker.
#[derive(Debug, Clone, Copy, PartialEq, Eq, Structural)]
pub enum WorkerAction {
    /// Nothing until the next event.
    Wait,
    /// Take a member snapshot.
    LoadMembers,
    /// Read at most `max` records.
    Read { max: usize },
    /// Sleep, then tick.
    Sleep { ms: u64 },
    /// Decode the record at `offset`.
    Decode { offset: u64 },
    /// Get a packet id for the member's client.
    AcquirePkid { member: usize },
    /// Build the PUBLISH for the member with this packet id and QoS; register a
    /// pending ack of kind `expect` if there is one; send.
    Send { member: usize, pkid: u16, qos: QoS, expect: Option<AckKind> },
    /// Register a pending PUBCOMP and send PUBREL.
    SendPubRel { member: usize, pkid: u16 },
    /// Release the packet id (when not 0) and drop its pending ack, then decode
    /// the current record again for a new pick.
    Redeliver { member: usize, pkid: u16, offset: u64 },
    /// Release the packet id (when not 0) and drop its pending ack, then commit.
    Commit { offset: u64, member: usize, pkid: u16 },
    /// Commit again after `ms` milliseconds.
    CommitAfter { offset: u64, ms: u64 },
    /// Drop every pending ack of this worker, release its packet id (when not 0),
    /// and stop.
    Exit { member: usize, pkid: u16 },
}

impl ShareWorker {
    pub open spec fn wf(&self) -> bool {
        &&& self.group_id@ == group_id_of(self.group_name@, self.topic_id@)
        &&& self.batch_size == batch_size(self.members@.len(), self.config.batch_size_multiplier as nat)
        &&& self.in_record() ==> self.pos < self.batch@.len()
        &&& (self.phase == WorkerPhase::AcquiringPkid || self.phase == WorkerPhase::Delivering) ==> self.recipient
            < self.members@.len()
        &&& self.phase == WorkerPhase::AcquiringPkid ==> self.publish_qos != QoS::AtMostOnce
        &&& self.phase == WorkerPhase::Delivering ==> !crate::share::delivery::is_terminal(self.attempt.phase)
    }

    /// A record of the batch is being worked on.
    pub open spec fn in_record(&self) -> bool {
        self.phase == WorkerPhase::Decoding || self.phase == WorkerPhase::AcquiringPkid || self.phase
            == WorkerPhase::Delivering || self.phase == WorkerPhase::Committing
    }

    /// The offset of the record being worked on.
    pub open spec fn current_offset(&self) -> u64 {
        self.batch@[self.pos as int]
    }

    pub fn new(
        key: String,
        group_name: String,
        topic_id: String,
        topic_name: String,
        config: DispatchConfig,
        members: Vec<Subscriber>,
        now: u64,
    ) -> (r: ShareWorker)
        ensures
            r.wf(),
            r.key == key,
            r.group_name == group_name,
            r.topic_id == topic_id,
            r.topic_name == topic_name,
            r.config == config,
            r.members == members,
            r.refreshed_at == now,
            r.cursor == 0,
            r.sticky is None,
            r.attempts == 0,
            r.phase == WorkerPhase::Idle,
    {
        let group_id = share_group_id(&group_name, &topic_id);
        let batch_size = batch_size_for(members.len(), config.batch_size_multiplier);
        ShareWorker {
            key,
            group_name,
            topic_id,
            topic_name,
            group_id,
            config,
            members,
            refreshed_at: now,
            batch_size,
            cursor: 0,
            sticky: None,
            sticky_failures: 0,
            attempts: 0,
            phase: WorkerPhase::Idle,
            batch: Vec::new(),
            pos: 0,
            recipient: 0,
            publish_qos: QoS::AtMostOnce,
            attempt: DeliveryAttempt { qos: QoS::AtMostOnce, pkid: 0, phase: Phase::Start },
            commit_retries: 0,
        }
    }

    pub open spec fn needs_refresh_spec(&self, now: u64) -> bool {
        now >= self.refreshed_at && now - self.refreshed_at >= self.config.membership_refresh_ms
    }

    /// Whether the member snapshot is due for a reload at `now`.
    pub fn needs_refresh(&self, now: u64) -> (r: bool)
        ensures
            r == self.needs_refresh_spec(now),
    {
        now >= self.refreshed_at && now - self.refreshed_at >= self.config.membership_refresh_ms
    }

    /// Takes a fresh member snapshot and sizes the batches to it.
    pub fn refresh(&mut self, members: &Vec<Subscriber>, now: u64)
        requires
            old(self).wf(),
            old(self).phase != WorkerPhase::AcquiringPkid,
            old(self).phase != WorkerPhase::Delivering,
        ensures
            final(self).phase == old(self).phase,
            final(self).batch@ == old(self).batch@,
            final(self).pos == old(self).pos,
            final(self).wf(),
            final(self).members@ == members@,
            final(self).refreshed_at == now,
            final(self).batch_size == batch_size(members@.len(), old(self).config.batch_size_multiplier as nat),
            final(self).config == old(self).config,
            final(self).cursor == old(self).cursor,
            final(self).attempts == old(self).attempts,
    {
        self.members = copy_subscribers(members);
        self.batch_size = batch_size_for(self.members.len(), self.config.batch_size_multiplier);
        self.refreshed_at = now;
    }

    fn member_index(&self, client_id: &String) -> (r: Option<usize>)
        ensures
            match r {
                Some(i) => first_member(self.members@, client_id@) == Some(i as int),
                None => first_member(self.members@, client_id@) is None,
            },
            r matches Some(i) ==> i < self.members@.len(),
    {
        let mut i: usize = 0;
        while i < self.members.len()
            invariant
                i <= self.members@.len(),
                forall|k: int| 0 <= k < i ==> (#[trigger] self.members@[k]).client_id@ != client_id@,
            decreases self.members@.len() - i,
        {
            if self.members[i].client_id == *client_id {
                proof {
                    lemma_first_member_unique(self.members@, client_id@, i as int);
                }
                return Some(i);
            }
            i += 1;
        }
        None
    }

    /// Picks the member that receives the current record, by the configured
    /// strategy; `None` when the snapshot is empty. `draw` is a random number,
    /// `digest` the message's hash, and `is_local` tells per member whether its
    /// connection is on this node.
    pub fn pick(&mut self, draw: u64, digest: u64, is_local: &Vec<bool>) -> (r: Option<usize>)
        requires
            old(self).wf(),
        ensures
            final(self).wf(),
            final(self).members == old(self).members,
            final(self).config == old(self).config,
            final(self).attempts == old(self).attempts,
            r is None <==> old(self).members@.len() == 0,
            r matches Some(i) ==> i < old(self).members@.len(),
            final(self).phase == old(self).phase,
            final(self).batch@ == old(self).batch@,
            final(self).pos == old(self).pos,
            final(self).recipient == old(self).recipient,
            final(self).attempt == old(self).attempt,
            final(self).batch_size == old(self).batch_size,
            r matches Some(i) ==> strategy_pick(*old(self), draw, digest, is_local@, i as int) && final(self).cursor
                == cursor_after(*old(self), i as int),
            old(self).members@.len() > 0 && old(self).config.strategy == ShareStrategy::Sticky ==> (final(self).sticky
                matches Some(s) && s@ == old(self).members@[r->0 as int].client_id@),
    {
        let n = self.members.len();
        if n == 0 {
            return None;
        }
        match self.config.strategy {
            ShareStrategy::RoundRobin => {
                let (i, next) = round_robin_pick(self.cursor, n);
                self.cursor = next;
                Some(i)
            },
            ShareStrategy::Random => Some(index_from_draw(draw, n)),
            ShareStrategy::Hash => Some(index_from_draw(digest, n)),
            ShareStrategy::Sticky => {
                let current = match &self.sticky {
                    Some(c) => self.member_index(c),
                    None => None,
                };
                let i = sticky_pick(current, self.sticky_failures, self.config.sticky_failure_threshold, draw, n);
                if current != Some(i) {
                    self.sticky_failures = 0;
                }
                self.sticky = Some(self.members[i].client_id.clone());
                Some(i)
            },
            ShareStrategy::Local => {
                if is_local.len() == n {
                    let (i, next) = local_pick(self.cursor, is_local);
                    self.cursor = next;
                    Some(i)
                } else {
                    let (i, next) = round_robin_pick(self.cursor, n);
                    self.cursor = next;
                    Some(i)
                }
            },
        }
    }

    /// One step of the worker's loop: takes what the runtime reports and says
    /// what it does next. A snapshot is reloaded between batches once it is
    /// `membership_refresh_ms` old; an empty read, a failed read, an empty
    /// snapshot or a missing packet id sleep `idle_backoff_ms` and read again
    /// (the records are not committed, so they come back); each record is
    /// decoded, given to a member picked by the strategy and delivered by the
    /// QoS state machine; a record is committed only when its delivery is done,
    /// it cannot be decoded, or its attempts are spent; a failed commit is
    /// repeated with growing pauses; cancellation stops without committing.
    pub fn on_event(&mut self, ev: WorkerEvent) -> (r: WorkerAction)
        requires
            old(self).wf(),
        ensures
            final(self).wf(),
            final(self).config == old(self).config,
            old(self).phase == WorkerPhase::Exited ==> final(self).phase == WorkerPhase::Exited && r == WorkerAction::Wait,
            ev == WorkerEvent::Cancel && old(self).phase != WorkerPhase::Exited ==> final(self).phase == WorkerPhase::Exited
                && r == (WorkerAction::Exit {
                    member: old(self).recipient,
                    pkid: if old(self).phase == WorkerPhase::Delivering { old(self).attempt.pkid } else { 0 },
                }),
            r is Exit ==> ev == WorkerEvent::Cancel || ev == WorkerEvent::Delivery(DeliveryEvent::Cancel),
            // an event that the current phase does not wait for changes nothing
            old(self).phase != WorkerPhase::Exited && ev != WorkerEvent::Cancel && !awaited(old(self).phase, ev) ==> r
                == WorkerAction::Wait && final(self).phase == old(self).phase && final(self).pos == old(self).pos
                && final(self).attempt == old(self).attempt && final(self).members == old(self).members,
            // between batches
            ev matches WorkerEvent::Tick(now) ==> (old(self).phase == WorkerPhase::Idle ==> (if old(self).needs_refresh_spec(now) {
                r == WorkerAction::LoadMembers && final(self).phase == WorkerPhase::Loading
            } else {
                r == (WorkerAction::Read { max: old(self).batch_size }) && final(self).phase == WorkerPhase::Reading
            })),
            ev matches WorkerEvent::MembersLoaded(m, now) ==> (old(self).phase == WorkerPhase::Loading ==> final(self).members@
                == m@ && final(self).refreshed_at == now && final(self).batch_size == batch_size(
                m@.len(),
                old(self).config.batch_size_multiplier as nat,
            ) && r == (WorkerAction::Read { max: final(self).batch_size }) && final(self).phase == WorkerPhase::Reading),
            ev matches WorkerEvent::ReadDone(o) ==> (old(self).phase == WorkerPhase::Reading ==> (if o@.len() == 0 {
                r == (WorkerAction::Sleep { ms: old(self).config.idle_backoff_ms }) && final(self).phase == WorkerPhase::Idle
            } else {
                r == (WorkerAction::Decode { offset: o@[0] }) && final(self).batch@ == o@ && final(self).pos == 0
                    && final(self).phase == WorkerPhase::Decoding
            })),
            old(self).phase == WorkerPhase::Reading && ev == WorkerEvent::ReadFailed ==> r == (WorkerAction::Sleep {
                ms: old(self).config.idle_backoff_ms,
            }) && final(self).phase == WorkerPhase::Idle,
            // one record
            old(self).phase == WorkerPhase::Decoding && ev == WorkerEvent::DecodeFailed ==> r == (WorkerAction::Commit {
                offset: old(self).current_offset(),
                member: old(self).recipient,
                pkid: 0,
            }) && final(self).phase == WorkerPhase::Committing,
            ev matches WorkerEvent::Decoded { qos, draw, digest, is_local } ==> (old(self).phase == WorkerPhase::Decoding ==> (
            if old(self).members@.len() == 0 {
                r == (WorkerAction::Sleep { ms: old(self).config.idle_backoff_ms }) && final(self).phase == WorkerPhase::Idle
            } else {
                let i = final(self).recipient;
                let q = forwarded_qos(qos, old(self).members@[i as int].qos, old(self).config.max_qos);
                &&& i < old(self).members@.len()
                &&& strategy_pick(*old(self), draw, digest, is_local@, i as int)
                &&& final(self).cursor == cursor_after(*old(self), i as int)
                &&& final(self).members == old(self).members
                &&& q == 0 ==> r == (WorkerAction::Send { member: i, pkid: 0, qos: QoS::AtMostOnce, expect: None })
                    && final(self).phase == WorkerPhase::Delivering && final(self).attempt == fresh_attempt(QoS::AtMostOnce, 0)
                &&& q != 0 ==> r == (WorkerAction::AcquirePkid { member: i }) && final(self).phase
                    == WorkerPhase::AcquiringPkid && qos_level(final(self).publish_qos) == q
            })),
            ev matches WorkerEvent::PkidAcquired(p) ==> (old(self).phase == WorkerPhase::AcquiringPkid ==> r == (WorkerAction::Send {
                member: old(self).recipient,
                pkid: p,
                qos: old(self).publish_qos,
                expect: if old(self).publish_qos == QoS::AtLeastOnce { Some(AckKind::PubAck) } else { Some(AckKind::PubRec) },
            }) && final(self).phase == WorkerPhase::Delivering && final(self).attempt == fresh_attempt(old(self).publish_qos, p)),
            old(self).phase == WorkerPhase::AcquiringPkid && ev == WorkerEvent::NoPkid ==> r == (WorkerAction::Sleep {
                ms: old(self).config.idle_backoff_ms,
            }) && final(self).phase == WorkerPhase::Idle,
            ev matches WorkerEvent::Delivery(e) ==> (old(self).phase == WorkerPhase::Delivering ==> {
                let n = next_attempt(old(self).attempt, e);
                let member = old(self).recipient;
                let pkid = old(self).attempt.pkid;
                let offset = old(self).current_offset();
                &&& final(self).attempt == n
                &&& old(self).attempt.phase == Phase::AwaitPubRec && n.phase == Phase::AwaitPubComp ==> r
                    == (WorkerAction::SendPubRel { member, pkid }) && final(self).phase == WorkerPhase::Delivering
                &&& n.phase == Phase::Done ==> r == (WorkerAction::Commit { offset, member, pkid }) && final(self).phase
                    == WorkerPhase::Committing
                &&& n.phase == Phase::Failed ==> if old(self).attempts as int + 1 >= old(self).config.max_attempts as int {
                    r == (WorkerAction::Commit { offset, member, pkid }) && final(self).phase == WorkerPhase::Committing
                } else {
                    r == (WorkerAction::Redeliver { member, pkid, offset }) && final(self).phase == WorkerPhase::Decoding
                        && final(self).attempts == old(self).attempts + 1 && final(self).pos == old(self).pos
                }
                &&& n.phase == Phase::Cancelled ==> r == (WorkerAction::Exit { member, pkid }) && final(self).phase
                    == WorkerPhase::Exited
                &&& !is_terminal(n.phase) && !(old(self).attempt.phase == Phase::AwaitPubRec && n.phase
                    == Phase::AwaitPubComp) ==> r == WorkerAction::Wait && final(self).phase == WorkerPhase::Delivering
            }),
            old(self).phase == WorkerPhase::Committing && ev == WorkerEvent::CommitDone ==> final(self).attempts == 0 && (
            if old(self).pos + 1 < old(self).batch@.len() {
                final(self).phase == WorkerPhase::Decoding && final(self).pos == old(self).pos + 1 && final(self).batch@
                    == old(self).batch@ && r == (WorkerAction::Decode { offset: old(self).batch@[old(self).pos + 1] })
            } else {
                final(self).phase == WorkerPhase::Idle && r == WorkerAction::Wait
            }),
            old(self).phase == WorkerPhase::Committing && ev == WorkerEvent::CommitFailed ==> final(self).phase
                == WorkerPhase::Committing && final(self).pos == old(self).pos && final(self).batch@ == old(self).batch@
                && final(self).commit_retries as int == if old(self).commit_retries == u32::MAX {
                u32::MAX as int
            } else {
                old(self).commit_retries + 1
            } && r == (WorkerAction::CommitAfter {
                offset: old(self).current_offset(),
                ms: commit_backoff(final(self).commit_retries as nat) as u64,
            }),
            // a commit is owed only by a finished delivery, an undecodable record or spent attempts
            r matches WorkerAction::Commit { offset, .. } ==> old(self).in_record() && offset == old(self).current_offset()
                && ((old(self).phase == WorkerPhase::Decoding && ev == WorkerEvent::DecodeFailed) || (old(self).phase
                == WorkerPhase::Delivering && (final(self).attempt.phase == Phase::Done || old(self).attempts as int + 1
                >= old(self).config.max_attempts as int))),
            r matches WorkerAction::Send { member, .. } ==> member < final(self).members@.len() && final(self).members
                == old(self).members,
            final(self).phase != WorkerPhase::Exited && old(self).phase != WorkerPhase::Idle && old(self).phase
                != WorkerPhase::Loading ==> final(self).members == old(self).members,
    {
        if self.phase == WorkerPhase::Exited {
            return WorkerAction::Wait;
        }
        match ev {
            WorkerEvent::Cancel => {
                let member = self.recipient;
                let pkid = if self.phase == WorkerPhase::Delivering {
                    self.attempt.pkid
                } else {
                    0
                };
                self.phase = WorkerPhase::Exited;
                WorkerAction::Exit { member, pkid }
            },
            WorkerEvent::Tick(now) => {
                if self.phase != WorkerPhase::Idle {
                    return WorkerAction::Wait;
                }
                if self.needs_refresh(now) {
                    self.phase = WorkerPhase::Loading;
                    WorkerAction::LoadMembers
                } else {
                    self.phase = WorkerPhase::Reading;
                    WorkerAction::Read { max: self.batch_size }
                }
            },
            WorkerEvent::MembersLoaded(members, now) => {
                if self.phase != WorkerPhase::Loading {
                    return WorkerAction::Wait;
                }
                self.refresh(&members, now);
                self.phase = WorkerPhase::Reading;
                WorkerAction::Read { max: self.batch_size }
            },
            WorkerEvent::ReadDone(offsets) => {
                if self.phase != WorkerPhase::Reading {
                    return WorkerAction::Wait;
                }
                if offsets.len() == 0 {
                    self.phase = WorkerPhase::Idle;
                    WorkerAction::Sleep { ms: self.config.idle_backoff_ms }
                } else {
                    let first = offsets[0];
                    self.batch = offsets;
                    self.pos = 0;
                    self.phase = WorkerPhase::Decoding;
                    WorkerAction::Decode { offset: first }
                }
            },
            WorkerEvent::ReadFailed => {
                if self.phase != WorkerPhase::Reading {
                    return WorkerAction::Wait;
                }
                self.phase = WorkerPhase::Idle;
                WorkerAction::Sleep { ms: self.config.idle_backoff_ms }
            },
            WorkerEvent::DecodeFailed => {
                if self.phase != WorkerPhase::Decoding {
                    return WorkerAction::Wait;
                }
                self.phase = WorkerPhase::Committing;
                self.commit_retries = 0;
                self.attempts = 0;
                WorkerAction::Commit { offset: self.batch[self.pos], member: self.recipient, pkid: 0 }
            },
            WorkerEvent::Decoded { qos, draw, digest, is_local } => {
                if self.phase != WorkerPhase::Decoding {
                    return WorkerAction::Wait;
                }
                match self.pick(draw, digest, &is_local) {
                    None => {
                        self.phase = WorkerPhase::Idle;
                        WorkerAction::Sleep { ms: self.config.idle_backoff_ms }
                    },
                    Some(i) => {
                        self.recipient = i;
                        let q = min_qos(min_qos(qos, self.members[i].qos), self.config.max_qos);
                        self.publish_qos = q;
                        if q == QoS::AtMostOnce {
                            let (a, _) = DeliveryAttempt::begin(q, 0);
                            self.attempt = a;
                            self.phase = WorkerPhase::Delivering;
                            WorkerAction::Send { member: i, pkid: 0, qos: q, expect: None }
                        } else {
                            self.phase = WorkerPhase::AcquiringPkid;
                            WorkerAction::AcquirePkid { member: i }
                        }
                    },
                }
            },
            WorkerEvent::PkidAcquired(p) => {
                if self.phase != WorkerPhase::AcquiringPkid {
                    return WorkerAction::Wait;
                }
                let q = self.publish_qos;
                let (a, _) = DeliveryAttempt::begin(q, p);
                self.attempt = a;
                self.phase = WorkerPhase::Delivering;
                let expect = match q {
                    QoS::AtMostOnce => None,
                    QoS::AtLeastOnce => Some(AckKind::PubAck),
                    QoS::ExactlyOnce => Some(AckKind::PubRec),
                };
                WorkerAction::Send { member: self.recipient, pkid: a.pkid, qos: q, expect }
            },
            WorkerEvent::NoPkid => {
                if self.phase != WorkerPhase::AcquiringPkid {
                    return WorkerAction::Wait;
                }
                self.phase = WorkerPhase::Idle;
                WorkerAction::Sleep { ms: self.config.idle_backoff_ms }
            },
            WorkerEvent::Delivery(e) => {
                if self.phase != WorkerPhase::Delivering {
                    return WorkerAction::Wait;
                }
                let member = self.recipient;
                let pkid = self.attempt.pkid;
                let offset = self.batch[self.pos];
                match self.attempt.step(e) {
                    DeliveryAction::RegisterAndSendPubRel => WorkerAction::SendPubRel { member, pkid },
                    DeliveryAction::Finish(Phase::Done) => {
                        self.phase = WorkerPhase::Committing;
                        self.on_outcome(RecordOutcome::Delivered);
                        self.commit_retries = 0;
                        WorkerAction::Commit { offset, member, pkid }
                    },
                    DeliveryAction::Finish(Phase::Cancelled) => {
                        self.phase = WorkerPhase::Exited;
                        WorkerAction::Exit { member, pkid }
                    },
                    DeliveryAction::Finish(_) => {
                        self.phase = WorkerPhase::Decoding;
                        let outcome = if e == DeliveryEvent::SendFailed {
                            RecordOutcome::NoConnection
                        } else {
                            RecordOutcome::TimedOut
                        };
                        match self.on_outcome(outcome) {
                            RecordStep::Commit => {
                                self.phase = WorkerPhase::Committing;
                                self.commit_retries = 0;
                                WorkerAction::Commit { offset, member, pkid }
                            },
                            _ => {
                                self.phase = WorkerPhase::Decoding;
                                WorkerAction::Redeliver { member, pkid, offset }
                            },
                        }
                    },
                    _ => WorkerAction::Wait,
                }
            },
            WorkerEvent::CommitDone => {
                if self.phase != WorkerPhase::Committing {
                    return WorkerAction::Wait;
                }
                self.attempts = 0;
                self.commit_retries = 0;
                if self.pos < self.batch.len() - 1 {
                    self.pos = self.pos + 1;
                    self.phase = WorkerPhase::Decoding;
                    WorkerAction::Decode { offset: self.batch[self.pos] }
                } else {
                    self.phase = WorkerPhase::Idle;
                    WorkerAction::Wait
                }
            },
            WorkerEvent::CommitFailed => {
                if self.phase != WorkerPhase::Committing {
                    return WorkerAction::Wait;
                }
                if self.commit_retries < u32::MAX {
                    self.commit_retries = self.commit_retries + 1;
                }
                WorkerAction::CommitAfter { offset: self.batch[self.pos], ms: commit_backoff_ms(self.commit_retries) }
            },
        }
    }

    /// Records how the delivery of the current record ended and says what comes
    /// next; the attempt count starts over when the record is left.
    pub fn on_outcome(&mut self, outcome: RecordOutcome) -> (r: RecordStep)
        requires
            old(self).wf(),
        ensures
            final(self).wf(),
            r == step_after(outcome, old(self).attempts as nat, old(self).config.max_attempts as nat),
            r == RecordStep::Retry ==> final(self).attempts == old(self).attempts + 1,
            r != RecordStep::Retry ==> final(self).attempts == 0,
            final(self).members == old(self).members,
            final(self).config == old(self).config,
            final(self).cursor == old(self).cursor,
            final(self).phase == old(self).phase,
            final(self).batch@ == old(self).batch@,
            final(self).pos == old(self).pos,
            final(self).recipient == old(self).recipient,
            final(self).attempt == old(self).attempt,
            final(self).batch_size == old(self).batch_size,
    {
        match outcome {
            RecordOutcome::Delivered | RecordOutcome::DecodeFailed => {
                self.attempts = 0;
                RecordStep::Commit
            },
            RecordOutcome::Cancelled => {
                self.attempts = 0;
                RecordStep::Exit
            },
            RecordOutcome::TimedOut | RecordOutcome::NoConnection => {
                if self.sticky_failures < u32::MAX {
                    self.sticky_failures = self.sticky_failures + 1;
                }
                if self.attempts as u64 + 1 >= self.config.max_attempts as u64 {
                    self.attempts = 0;
                    RecordStep::Commit
                } else {
                    self.attempts = self.attempts + 1;
                    RecordStep::Retry
                }
            },
        }
    }
}

} // verus!
