use bytes::Bytes;
use robustmq::protocol::QoS;
use robustmq::share::ack::{AckError, AckTracker, AwaitStatus};
use robustmq::share::delivery::{AckKind, DeliveryAction, DeliveryAttempt, DeliveryEvent, Phase};
use robustmq::share::log::{GroupOffset, Record};
use robustmq::share::pkid::PkidAllocator;
use robustmq::share::registry::{build_share_leader_sub_list, MqttProtocol, Subscriber, SubscriberRegistry};
use robustmq::share::strategy::{
    index_from_draw, local_pick, parse_strategy, round_robin_pick, share_digest, sticky_pick, ShareStrategy,
};
use robustmq::share::supervisor::{plan_workers, MetricKind, ShareMetrics, Supervisor};
use robustmq::share::worker::{
    build_publish, calc_record_num, commit_backoff_ms, message_digest, share_group_id, DispatchConfig, Message, RecordOutcome,
    RecordStep, ShareWorker, WorkerAction, WorkerEvent, WorkerPhase,
};

fn sub(id: &str, qos: QoS) -> Subscriber {
    Subscriber {
        client_id: id.to_string(),
        group_name: "grp".to_string(),
        topic_filter: "T".to_string(),
        topic_id: "T".to_string(),
        qos,
        protocol: MqttProtocol::Mqtt5,
        subscription_identifier: None,
        is_contain_rewrite_flag: false,
        last_delivery: 0,
    }
}

fn record(offset: u64) -> Record {
    Record { offset, payload: vec![offset as u8], produced_at: 0 }
}

fn message(qos: QoS) -> Message {
    Message {
        payload: Bytes::from(vec![1, 2, 3]),
        qos,
        content_type: None,
        response_topic: None,
        correlation_data: None,
        message_expiry: None,
        user_properties: Vec::new(),
    }
}

fn worker(members: Vec<Subscriber>) -> ShareWorker {
    ShareWorker::new(
        "grp_T".to_string(),
        "grp".to_string(),
        "T".to_string(),
        "T".to_string(),
        DispatchConfig::standard(),
        members,
        0,
    )
}

#[test]
fn round_robin_fan_out_qos0() {
    let mut w = worker(vec![sub("c1", QoS::AtMostOnce), sub("c2", QoS::AtMostOnce), sub("c3", QoS::AtMostOnce)]);
    let log = vec![record(10), record(11), record(12), record(13)];
    let mut cursor = GroupOffset::new("T".to_string(), w.group_id.clone());
    let batch = cursor.read(&log, w.batch_size);
    assert_eq!(batch.len(), 4);
    let mut receivers = Vec::new();
    for r in &batch {
        let i = w.pick(0, 0, &Vec::new()).unwrap();
        receivers.push((w.members[i].client_id.clone(), r.offset));
        let (mut attempt, action) = DeliveryAttempt::begin(QoS::AtMostOnce, 0);
        assert_eq!(action, DeliveryAction::Wait);
        assert_eq!(attempt.step(DeliveryEvent::Sent), DeliveryAction::Finish(Phase::Done));
        assert_eq!(w.on_outcome(RecordOutcome::Delivered), RecordStep::Commit);
        cursor.commit(r.offset);
    }
    let expected: Vec<(String, u64)> =
        vec![("c1".into(), 10), ("c2".into(), 11), ("c3".into(), 12), ("c1".into(), 13)];
    assert_eq!(receivers, expected);
    assert_eq!(cursor.committed, Some(13));
    assert!(cursor.read(&log, 10).is_empty());
}

#[test]
fn qos1_success() {
    let mut pkids = PkidAllocator::new();
    let mut tracker = AckTracker::new();
    let client = "cA".to_string();
    let x = pkids.acquire(&client).unwrap();
    assert_eq!(x, 1);
    let (mut attempt, action) = DeliveryAttempt::begin(QoS::AtLeastOnce, x);
    assert_eq!(action, DeliveryAction::RegisterAndSend(AckKind::PubAck));
    assert_eq!(tracker.register(&client, x, AckKind::PubAck, 0, 30_000, 1), Ok(()));
    assert_eq!(attempt.step(DeliveryEvent::Sent), DeliveryAction::Wait);
    assert!(tracker.deliver(&client, x, AckKind::PubAck));
    assert_eq!(tracker.poll(&client, x, 10), AwaitStatus::Acked(AckKind::PubAck));
    assert_eq!(attempt.step(DeliveryEvent::Acked(AckKind::PubAck, x)), DeliveryAction::Finish(Phase::Done));
    let mut cursor = GroupOffset::new("T".to_string(), "g".to_string());
    cursor.commit(5);
    assert!(tracker.remove(&client, x));
    pkids.release(&client, x);
    assert_eq!(cursor.committed, Some(5));
    assert!(!pkids.is_held(&client, x));
    assert_eq!(tracker.entries.len(), 0);
}

#[test]
fn qos1_timeout_then_retry() {
    let mut w = worker(vec![sub("cA", QoS::AtLeastOnce), sub("cB", QoS::AtLeastOnce)]);
    let mut tracker = AckTracker::new();
    let first = w.pick(0, 0, &Vec::new()).unwrap();
    assert_eq!(w.members[first].client_id, "cA");
    let a = w.members[first].client_id.clone();
    tracker.register(&a, 1, AckKind::PubAck, 0, 50, 1).unwrap();
    let (mut attempt, _) = DeliveryAttempt::begin(QoS::AtLeastOnce, 1);
    attempt.step(DeliveryEvent::Sent);
    assert_eq!(tracker.poll(&a, 1, 49), AwaitStatus::Pending);
    assert_eq!(tracker.poll(&a, 1, 50), AwaitStatus::TimedOut);
    assert_eq!(tracker.poll(&a, 1, 51), AwaitStatus::Missing);
    assert_eq!(attempt.step(DeliveryEvent::TimedOut), DeliveryAction::Finish(Phase::Failed));
    assert_eq!(w.on_outcome(RecordOutcome::TimedOut), RecordStep::Retry);
    assert_eq!(w.attempts, 1);
    let second = w.pick(0, 0, &Vec::new()).unwrap();
    assert_eq!(w.members[second].client_id, "cB");
    let (mut attempt, _) = DeliveryAttempt::begin(QoS::AtLeastOnce, 1);
    attempt.step(DeliveryEvent::Sent);
    assert_eq!(attempt.step(DeliveryEvent::Acked(AckKind::PubAck, 1)), DeliveryAction::Finish(Phase::Done));
    assert_eq!(w.on_outcome(RecordOutcome::Delivered), RecordStep::Commit);
    let mut cursor = GroupOffset::new("T".to_string(), "g".to_string());
    cursor.commit(7);
    assert_eq!(cursor.committed, Some(7));
    assert_eq!(w.attempts, 0);
}

#[test]
fn qos2_full_handshake() {
    let (mut attempt, action) = DeliveryAttempt::begin(QoS::ExactlyOnce, 9);
    assert_eq!(action, DeliveryAction::RegisterAndSend(AckKind::PubRec));
    assert_eq!(attempt.step(DeliveryEvent::Sent), DeliveryAction::Wait);
    assert_eq!(attempt.step(DeliveryEvent::Acked(AckKind::PubComp, 9)), DeliveryAction::Wait);
    assert_eq!(attempt.step(DeliveryEvent::Acked(AckKind::PubRec, 8)), DeliveryAction::Wait);
    assert_eq!(attempt.step(DeliveryEvent::Acked(AckKind::PubRec, 9)), DeliveryAction::RegisterAndSendPubRel);
    assert_eq!(attempt.phase, Phase::AwaitPubComp);
    assert_eq!(attempt.step(DeliveryEvent::Acked(AckKind::PubComp, 9)), DeliveryAction::Finish(Phase::Done));
    assert_eq!(attempt.step(DeliveryEvent::TimedOut), DeliveryAction::Wait);
    assert_eq!(attempt.phase, Phase::Done);
}

#[test]
fn qos1_wrong_ack_does_not_complete() {
    let (mut attempt, _) = DeliveryAttempt::begin(QoS::AtLeastOnce, 4);
    attempt.step(DeliveryEvent::Sent);
    assert_eq!(attempt.step(DeliveryEvent::Acked(AckKind::PubAck, 5)), DeliveryAction::Wait);
    assert_eq!(attempt.step(DeliveryEvent::Acked(AckKind::PubRec, 4)), DeliveryAction::Wait);
    assert_eq!(attempt.step(DeliveryEvent::Cancel), DeliveryAction::Finish(Phase::Cancelled));
}

#[test]
fn membership_shrink_mid_flight() {
    let mut w = worker(vec![sub("c1", QoS::AtLeastOnce), sub("c2", QoS::AtLeastOnce)]);
    let mut tracker = AckTracker::new();
    let i = w.pick(0, 0, &Vec::new()).unwrap();
    assert_eq!(w.members[i].client_id, "c1");
    let c1 = "c1".to_string();
    tracker.register(&c1, 1, AckKind::PubAck, 0, 30_000, 1).unwrap();
    assert!(w.needs_refresh(5_000));
    w.refresh(&vec![sub("c2", QoS::AtLeastOnce)], 5_000);
    assert_eq!(w.batch_size, 5);
    assert!(tracker.deliver(&c1, 1, AckKind::PubAck));
    assert_eq!(tracker.poll(&c1, 1, 6_000), AwaitStatus::Acked(AckKind::PubAck));
    let j = w.pick(0, 0, &Vec::new()).unwrap();
    assert_eq!(w.members[j].client_id, "c2");
}

#[test]
fn supervisor_reclaims_stale_worker() {
    let mut sup = Supervisor::new();
    let mut tracker = AckTracker::new();
    let led = vec!["k".to_string()];
    let plan = sup.gc_round(&led, &mut tracker);
    assert_eq!(plan.start, vec!["k".to_string()]);
    assert!(plan.stop.is_empty());
    assert_eq!(sup.worker_starts, 1);
    let id = sup.workers[0].id;
    let c = "c".to_string();
    tracker.register(&c, 3, AckKind::PubAck, 0, 30_000, id).unwrap();
    tracker.register(&c, 4, AckKind::PubAck, 0, 30_000, id + 100).unwrap();
    let plan = sup.gc_round(&Vec::new(), &mut tracker);
    assert_eq!(plan.stop, vec!["k".to_string()]);
    assert!(sup.workers.is_empty());
    assert_eq!(sup.worker_stops, 1);
    assert_eq!(tracker.entries.len(), 1);
    assert_eq!(tracker.entries[0].pkid, 4);
}

#[test]
fn plan_starts_missing_and_stops_gone() {
    let running = vec!["a".to_string(), "b".to_string()];
    let led = vec!["b".to_string(), "c".to_string()];
    let plan = plan_workers(&running, &led);
    assert_eq!(plan.start, vec!["c".to_string()]);
    assert_eq!(plan.stop, vec!["a".to_string()]);
}

#[test]
fn round_robin_covers_each_member_once() {
    let n = 3usize;
    let mut cursor = 7usize;
    let mut seen = vec![false; n];
    for _ in 0..n {
        let (i, next) = round_robin_pick(cursor, n);
        assert!(!seen[i]);
        seen[i] = true;
        cursor = next;
    }
    assert!(seen.iter().all(|s| *s));
}

#[test]
fn commit_is_idempotent_and_monotonic() {
    let mut cursor = GroupOffset::new("T".to_string(), "g".to_string());
    cursor.commit(8);
    cursor.commit(8);
    assert_eq!(cursor.committed, Some(8));
    cursor.commit(3);
    assert_eq!(cursor.committed, Some(8));
    assert!(!cursor.pending(8));
    assert!(cursor.pending(9));
}

#[test]
fn uncommitted_record_is_read_again() {
    let log = vec![record(1), record(2), record(3)];
    let mut cursor = GroupOffset::new("T".to_string(), "g".to_string());
    cursor.commit(1);
    let first = cursor.read(&log, 2);
    assert_eq!(first.iter().map(|r| r.offset).collect::<Vec<_>>(), vec![2, 3]);
    let again = cursor.read(&log, 1);
    assert_eq!(again[0].offset, 2);
    assert_eq!(again[0].payload, vec![2]);
}

#[test]
fn pending_ack_is_unique_per_client_and_pkid() {
    let mut tracker = AckTracker::new();
    let c = "c".to_string();
    assert_eq!(tracker.register(&c, 1, AckKind::PubAck, 0, 10, 1), Ok(()));
    assert_eq!(tracker.register(&c, 1, AckKind::PubRec, 0, 10, 2), Err(AckError::PkidBusy));
    assert_eq!(tracker.register(&"d".to_string(), 1, AckKind::PubAck, 0, 10, 2), Ok(()));
    assert!(!tracker.deliver(&c, 2, AckKind::PubAck));
    assert_eq!(tracker.remove_owner(1), 1);
    assert_eq!(tracker.entries.len(), 1);
    assert!(!tracker.remove(&c, 1));
}

#[test]
fn pkids_skip_those_in_use_and_wrap() {
    let mut pkids = PkidAllocator::new();
    let c = "c".to_string();
    assert_eq!(pkids.acquire(&c), Some(1));
    assert_eq!(pkids.acquire(&c), Some(2));
    assert_eq!(pkids.acquire(&c), Some(3));
    pkids.release(&c, 2);
    assert_eq!(pkids.acquire(&c), Some(4));
    assert_eq!(pkids.acquire(&"d".to_string()), Some(1));
    assert_eq!(pkids.last_pkid(&c), 4);
}

#[test]
fn pkids_exhausted() {
    let mut pkids = PkidAllocator::new();
    let c = "c".to_string();
    for p in 1..=65535u32 {
        assert_eq!(pkids.acquire(&c), Some(p as u16));
    }
    assert_eq!(pkids.acquire(&c), None);
    pkids.release(&c, 300);
    assert_eq!(pkids.acquire(&c), Some(300));
}

#[test]
fn publish_for_a_member() {
    let mut s = sub("c1", QoS::AtLeastOnce);
    s.subscription_identifier = Some(42);
    s.is_contain_rewrite_flag = true;
    let mut m = message(QoS::ExactlyOnce);
    m.user_properties.push(("k".to_string(), "v".to_string()));
    m.content_type = Some("text/plain".to_string());
    m.correlation_data = Some(Bytes::from(vec![9]));
    let (p, props) = build_publish(QoS::ExactlyOnce, &s, &"sensors/a".to_string(), &m);
    assert_eq!(p.qos, QoS::AtLeastOnce);
    assert_eq!(p.pkid, 0);
    assert!(!p.dup && !p.retain);
    assert_eq!(&p.topic[..], b"sensors/a");
    assert_eq!(&p.payload[..], &[1, 2, 3]);
    assert_eq!(props.subscription_identifiers, vec![42]);
    assert_eq!(
        props.user_properties,
        vec![
            ("k".to_string(), "v".to_string()),
            ("Forwarded-From-Shared".to_string(), "grp".to_string())
        ]
    );
    assert_eq!(props.content_type, Some("text/plain".to_string()));
    assert_eq!(props.correlation_data, Some(Bytes::from(vec![9])));
    let (p0, _) = build_publish(QoS::AtMostOnce, &s, &"t".to_string(), &m);
    assert_eq!(p0.qos, QoS::AtMostOnce);
    assert_eq!(p.len(), 2 + 9 + 3 + 2);
}

#[test]
fn group_id_and_batch_size() {
    assert_eq!(share_group_id(&"grp".to_string(), &"T".to_string()), "system_sub_grp_T");
    assert_eq!(calc_record_num(0), 1);
    assert_eq!(calc_record_num(3), 15);
    assert_eq!(calc_record_num(usize::MAX), usize::MAX);
    assert_eq!(commit_backoff_ms(0), 10);
    assert_eq!(commit_backoff_ms(1), 20);
    assert_eq!(commit_backoff_ms(6), 640);
    assert_eq!(commit_backoff_ms(7), 1000);
    assert_eq!(commit_backoff_ms(40), 1000);
}

#[test]
fn attempts_are_bounded() {
    let mut w = worker(vec![sub("c1", QoS::AtLeastOnce)]);
    for _ in 0..7 {
        assert_eq!(w.on_outcome(RecordOutcome::NoConnection), RecordStep::Retry);
    }
    assert_eq!(w.on_outcome(RecordOutcome::TimedOut), RecordStep::Commit);
    assert_eq!(w.attempts, 0);
    assert_eq!(w.on_outcome(RecordOutcome::DecodeFailed), RecordStep::Commit);
    assert_eq!(w.on_outcome(RecordOutcome::Cancelled), RecordStep::Exit);
}

#[test]
fn strategies_pick_members() {
    assert_eq!(parse_strategy("round_robin"), Some(ShareStrategy::RoundRobin));
    assert_eq!(parse_strategy("local"), Some(ShareStrategy::Local));
    assert_eq!(parse_strategy("fastest"), None);
    assert_eq!(index_from_draw(10, 4), 2);
    assert_eq!(sticky_pick(Some(1), 0, 3, 10, 4), 1);
    assert_eq!(sticky_pick(Some(1), 3, 3, 10, 4), 2);
    assert_eq!(sticky_pick(Some(9), 0, 3, 11, 4), 3);
    assert_eq!(local_pick(2, &vec![true, false, false, true]), (3, 4));
    assert_eq!(local_pick(2, &vec![false, false, false, false]), (2, 3));
    assert_eq!(share_digest(&vec![], &vec![]), 0xcbf29ce484222325);
    assert_eq!(share_digest(&b"a".to_vec(), &vec![]), 0xaf63dc4c8601ec8c);
    assert_eq!(share_digest(&b"ab".to_vec(), &vec![]), share_digest(&b"a".to_vec(), &b"b".to_vec()));
}

#[test]
fn worker_strategies() {
    let members = vec![sub("c1", QoS::AtMostOnce), sub("c2", QoS::AtMostOnce), sub("c3", QoS::AtMostOnce)];
    let mut w = worker(members.clone());
    w.config.strategy = ShareStrategy::Hash;
    assert_eq!(w.pick(0, 7, &Vec::new()), Some(1));
    w.config.strategy = ShareStrategy::Random;
    assert_eq!(w.pick(5, 0, &Vec::new()), Some(2));
    w.config.strategy = ShareStrategy::Sticky;
    assert_eq!(w.pick(4, 0, &Vec::new()), Some(1));
    assert_eq!(w.pick(0, 0, &Vec::new()), Some(1));
    w.config.strategy = ShareStrategy::Local;
    assert_eq!(w.pick(0, 0, &vec![false, false, true]), Some(2));
    let mut empty = worker(Vec::new());
    assert_eq!(empty.pick(0, 0, &Vec::new()), None);
    assert_eq!(empty.batch_size, 1);
}

#[test]
fn registry_snapshots_in_join_order() {
    let mut reg = SubscriberRegistry::new();
    reg.add_group("k".to_string(), "grp".to_string(), "T".to_string(), "T".to_string());
    assert!(reg.add_member(&"k".to_string(), sub("c1", QoS::AtMostOnce)));
    assert!(reg.add_member(&"k".to_string(), sub("c2", QoS::AtMostOnce)));
    assert!(!reg.add_member(&"x".to_string(), sub("c3", QoS::AtMostOnce)));
    let list = build_share_leader_sub_list(&reg, &"k".to_string());
    assert_eq!(list.iter().map(|s| s.client_id.clone()).collect::<Vec<_>>(), vec!["c1", "c2"]);
    assert_eq!(reg.keys(), vec!["k".to_string()]);
    reg.remove_group(&"k".to_string());
    assert!(build_share_leader_sub_list(&reg, &"k".to_string()).is_empty());
}

#[test]
fn metrics_count_and_saturate() {
    let mut m = ShareMetrics::new();
    m.count(MetricKind::RecordsRead, 4);
    m.count(MetricKind::WorkerStops, u64::MAX);
    m.count(MetricKind::WorkerStops, 1);
    assert_eq!(m.records_read, 4);
    assert_eq!(m.worker_stops, u64::MAX);
    assert_eq!(m.acks_matched, 0);
}

fn decoded(qos: QoS) -> WorkerEvent {
    WorkerEvent::Decoded { qos, draw: 0, digest: 0, is_local: Vec::new() }
}

#[test]
fn worker_loop_delivers_qos0_round_robin() {
    let mut w = worker(vec![sub("c1", QoS::AtMostOnce), sub("c2", QoS::AtMostOnce), sub("c3", QoS::AtMostOnce)]);
    assert_eq!(w.on_event(WorkerEvent::Tick(0)), WorkerAction::Read { max: 15 });
    assert_eq!(w.on_event(WorkerEvent::ReadDone(vec![10, 11, 12, 13])), WorkerAction::Decode { offset: 10 });
    let mut sent = Vec::new();
    let mut commits = Vec::new();
    for _ in 0..4 {
        match w.on_event(decoded(QoS::AtMostOnce)) {
            WorkerAction::Send { member, pkid, qos, expect } => {
                assert_eq!((pkid, qos, expect), (0, QoS::AtMostOnce, None));
                sent.push(w.members[member].client_id.clone());
            }
            other => panic!("unexpected {:?}", other),
        }
        match w.on_event(WorkerEvent::Delivery(DeliveryEvent::Sent)) {
            WorkerAction::Commit { offset, .. } => commits.push(offset),
            other => panic!("unexpected {:?}", other),
        }
        w.on_event(WorkerEvent::CommitDone);
    }
    assert_eq!(sent, vec!["c1", "c2", "c3", "c1"]);
    assert_eq!(commits, vec![10, 11, 12, 13]);
    assert_eq!(w.phase, WorkerPhase::Idle);
    assert_eq!(w.on_event(WorkerEvent::Tick(1)), WorkerAction::Read { max: 15 });
    assert_eq!(w.on_event(WorkerEvent::ReadDone(Vec::new())), WorkerAction::Sleep { ms: 500 });
}

#[test]
fn worker_loop_qos1_timeout_then_retry() {
    let mut w = worker(vec![sub("cA", QoS::AtLeastOnce), sub("cB", QoS::AtLeastOnce)]);
    w.on_event(WorkerEvent::Tick(0));
    assert_eq!(w.on_event(WorkerEvent::ReadDone(vec![7])), WorkerAction::Decode { offset: 7 });
    assert_eq!(w.on_event(decoded(QoS::AtLeastOnce)), WorkerAction::AcquirePkid { member: 0 });
    assert_eq!(
        w.on_event(WorkerEvent::PkidAcquired(1)),
        WorkerAction::Send { member: 0, pkid: 1, qos: QoS::AtLeastOnce, expect: Some(AckKind::PubAck) }
    );
    assert_eq!(w.on_event(WorkerEvent::Delivery(DeliveryEvent::Sent)), WorkerAction::Wait);
    assert_eq!(
        w.on_event(WorkerEvent::Delivery(DeliveryEvent::TimedOut)),
        WorkerAction::Redeliver { member: 0, pkid: 1, offset: 7 }
    );
    assert_eq!(w.attempts, 1);
    assert_eq!(w.on_event(decoded(QoS::AtLeastOnce)), WorkerAction::AcquirePkid { member: 1 });
    w.on_event(WorkerEvent::PkidAcquired(1));
    w.on_event(WorkerEvent::Delivery(DeliveryEvent::Sent));
    assert_eq!(
        w.on_event(WorkerEvent::Delivery(DeliveryEvent::Acked(AckKind::PubAck, 1))),
        WorkerAction::Commit { offset: 7, member: 1, pkid: 1 }
    );
    assert_eq!(w.on_event(WorkerEvent::CommitFailed), WorkerAction::CommitAfter { offset: 7, ms: 20 });
    assert_eq!(w.on_event(WorkerEvent::CommitDone), WorkerAction::Wait);
    assert_eq!(w.phase, WorkerPhase::Idle);
}

#[test]
fn worker_loop_qos2_and_cancel() {
    let mut w = worker(vec![sub("c", QoS::ExactlyOnce)]);
    w.on_event(WorkerEvent::Tick(0));
    w.on_event(WorkerEvent::ReadDone(vec![2, 3]));
    w.on_event(decoded(QoS::ExactlyOnce));
    assert_eq!(
        w.on_event(WorkerEvent::PkidAcquired(5)),
        WorkerAction::Send { member: 0, pkid: 5, qos: QoS::ExactlyOnce, expect: Some(AckKind::PubRec) }
    );
    w.on_event(WorkerEvent::Delivery(DeliveryEvent::Sent));
    assert_eq!(
        w.on_event(WorkerEvent::Delivery(DeliveryEvent::Acked(AckKind::PubRec, 5))),
        WorkerAction::SendPubRel { member: 0, pkid: 5 }
    );
    assert_eq!(
        w.on_event(WorkerEvent::Delivery(DeliveryEvent::Acked(AckKind::PubComp, 5))),
        WorkerAction::Commit { offset: 2, member: 0, pkid: 5 }
    );
    assert_eq!(w.on_event(WorkerEvent::CommitDone), WorkerAction::Decode { offset: 3 });
    w.on_event(decoded(QoS::ExactlyOnce));
    w.on_event(WorkerEvent::PkidAcquired(6));
    assert_eq!(w.on_event(WorkerEvent::Cancel), WorkerAction::Exit { member: 0, pkid: 6 });
    assert_eq!(w.on_event(WorkerEvent::CommitDone), WorkerAction::Wait);
    assert_eq!(w.phase, WorkerPhase::Exited);
}

#[test]
fn worker_loop_refreshes_members_and_waits_without_members() {
    let mut w = worker(Vec::new());
    assert_eq!(w.on_event(WorkerEvent::Tick(0)), WorkerAction::Read { max: 1 });
    w.on_event(WorkerEvent::ReadDone(vec![20]));
    assert_eq!(w.on_event(decoded(QoS::AtMostOnce)), WorkerAction::Sleep { ms: 500 });
    assert_eq!(w.on_event(WorkerEvent::Tick(6_000)), WorkerAction::LoadMembers);
    assert_eq!(
        w.on_event(WorkerEvent::MembersLoaded(vec![sub("c2", QoS::AtLeastOnce)], 6_000)),
        WorkerAction::Read { max: 5 }
    );
    w.on_event(WorkerEvent::ReadDone(vec![20, 21]));
    assert_eq!(w.on_event(decoded(QoS::AtMostOnce)), WorkerAction::Send { member: 0, pkid: 0, qos: QoS::AtMostOnce, expect: None });
    assert_eq!(w.on_event(WorkerEvent::DecodeFailed), WorkerAction::Wait);
}

#[test]
fn worker_commits_undecodable_records() {
    let mut w = worker(vec![sub("c", QoS::AtMostOnce)]);
    w.on_event(WorkerEvent::Tick(0));
    w.on_event(WorkerEvent::ReadDone(vec![4]));
    assert_eq!(w.on_event(WorkerEvent::DecodeFailed), WorkerAction::Commit { offset: 4, member: 0, pkid: 0 });
}

#[test]
fn publish_new_is_qos0() {
    let p = robustmq::protocol::Publish::new("a", "bc", true);
    assert_eq!(p.qos, QoS::AtMostOnce);
    assert_eq!(p.pkid, 0);
    assert!(p.retain && !p.dup);
    assert_eq!(p.len(), 5);
    assert!(!p.is_empty());
}

#[test]
fn worker_loop_qos1_success_commits_after_puback() {
    let mut w = worker(vec![sub("cA", QoS::AtLeastOnce)]);
    let mut pkids = PkidAllocator::new();
    let mut tracker = AckTracker::new();
    w.on_event(WorkerEvent::Tick(0));
    assert_eq!(w.on_event(WorkerEvent::ReadDone(vec![5])), WorkerAction::Decode { offset: 5 });
    assert_eq!(w.on_event(decoded(QoS::AtLeastOnce)), WorkerAction::AcquirePkid { member: 0 });
    let client = "cA".to_string();
    let x = pkids.acquire(&client).unwrap();
    assert_eq!(
        w.on_event(WorkerEvent::PkidAcquired(x)),
        WorkerAction::Send { member: 0, pkid: x, qos: QoS::AtLeastOnce, expect: Some(AckKind::PubAck) }
    );
    tracker.register(&client, x, AckKind::PubAck, 0, 30_000, 1).unwrap();
    assert_eq!(w.on_event(WorkerEvent::Delivery(DeliveryEvent::Sent)), WorkerAction::Wait);
    assert!(tracker.deliver(&client, x, AckKind::PubAck));
    let kind = match tracker.poll(&client, x, 5) {
        AwaitStatus::Acked(k) => k,
        other => panic!("unexpected {:?}", other),
    };
    assert_eq!(
        w.on_event(WorkerEvent::Delivery(DeliveryEvent::Acked(kind, x))),
        WorkerAction::Commit { offset: 5, member: 0, pkid: x }
    );
    tracker.remove(&client, x);
    pkids.release(&client, x);
    assert_eq!(w.on_event(WorkerEvent::CommitDone), WorkerAction::Wait);
    assert!(!pkids.is_held(&client, x));
    assert!(tracker.entries.is_empty());
}

#[test]
fn worker_loop_membership_shrink() {
    let mut w = worker(vec![sub("c1", QoS::AtLeastOnce), sub("c2", QoS::AtLeastOnce)]);
    let mut reg = SubscriberRegistry::new();
    reg.add_group("grp_T".to_string(), "grp".to_string(), "T".to_string(), "T".to_string());
    reg.add_member(&"grp_T".to_string(), sub("c1", QoS::AtLeastOnce));
    reg.add_member(&"grp_T".to_string(), sub("c2", QoS::AtLeastOnce));
    w.on_event(WorkerEvent::Tick(0));
    w.on_event(WorkerEvent::ReadDone(vec![20]));
    assert_eq!(w.on_event(decoded(QoS::AtLeastOnce)), WorkerAction::AcquirePkid { member: 0 });
    w.on_event(WorkerEvent::PkidAcquired(1));
    w.on_event(WorkerEvent::Delivery(DeliveryEvent::Sent));
    assert!(reg.remove_member(&"grp_T".to_string(), &"c1".to_string()));
    assert_eq!(
        w.on_event(WorkerEvent::Delivery(DeliveryEvent::Acked(AckKind::PubAck, 1))),
        WorkerAction::Commit { offset: 20, member: 0, pkid: 1 }
    );
    assert_eq!(w.on_event(WorkerEvent::CommitDone), WorkerAction::Wait);
    assert_eq!(w.on_event(WorkerEvent::Tick(6_000)), WorkerAction::LoadMembers);
    let snapshot = build_share_leader_sub_list(&reg, &"grp_T".to_string());
    w.on_event(WorkerEvent::MembersLoaded(snapshot, 6_000));
    w.on_event(WorkerEvent::ReadDone(vec![21]));
    assert_eq!(w.on_event(decoded(QoS::AtLeastOnce)), WorkerAction::AcquirePkid { member: 0 });
    assert_eq!(w.members[0].client_id, "c2");
}

#[test]
fn worker_cancel_while_acquiring_carries_no_pkid() {
    let mut w = worker(vec![sub("c", QoS::AtLeastOnce)]);
    w.on_event(WorkerEvent::Tick(0));
    w.on_event(WorkerEvent::ReadDone(vec![1]));
    w.on_event(decoded(QoS::AtLeastOnce));
    assert_eq!(w.on_event(WorkerEvent::Cancel), WorkerAction::Exit { member: 0, pkid: 0 });
}

#[test]
fn worker_ignores_events_it_does_not_wait_for() {
    let mut w = worker(vec![sub("c", QoS::AtLeastOnce)]);
    assert_eq!(w.on_event(WorkerEvent::CommitDone), WorkerAction::Wait);
    assert_eq!(w.on_event(WorkerEvent::PkidAcquired(3)), WorkerAction::Wait);
    assert_eq!(w.phase, WorkerPhase::Idle);
}

#[test]
fn supervisor_counts_and_one_worker_per_key() {
    let mut sup = Supervisor::new();
    let mut tracker = AckTracker::new();
    let led = vec!["a".to_string(), "b".to_string(), "a".to_string()];
    let plan = sup.gc_round(&led, &mut tracker);
    assert_eq!(plan.start, vec!["a".to_string(), "b".to_string()]);
    assert_eq!(sup.workers.len(), 2);
    assert_eq!(sup.worker_starts, 2);
    sup.gc_round(&led, &mut tracker);
    assert_eq!(sup.workers.len(), 2);
    assert_eq!(sup.worker_starts, 2);
    sup.gc_round(&vec!["b".to_string()], &mut tracker);
    assert_eq!(sup.worker_stops, 1);
    assert_eq!(sup.workers.len(), 1);
}

#[test]
fn registry_removes_one_member() {
    let mut reg = SubscriberRegistry::new();
    let k = "k".to_string();
    reg.add_group(k.clone(), "grp".to_string(), "T".to_string(), "T".to_string());
    reg.add_member(&k, sub("c1", QoS::AtMostOnce));
    reg.add_member(&k, sub("c2", QoS::AtMostOnce));
    reg.add_member(&k, sub("c3", QoS::AtMostOnce));
    assert!(reg.remove_member(&k, &"c2".to_string()));
    let list = build_share_leader_sub_list(&reg, &k);
    assert_eq!(list.iter().map(|s| s.client_id.clone()).collect::<Vec<_>>(), vec!["c1", "c3"]);
    assert!(!reg.remove_member(&"x".to_string(), &"c1".to_string()));
}

#[test]
fn digest_keys_by_correlation_data_else_payload() {
    let mut m = message(QoS::AtMostOnce);
    let topic = "t".to_string();
    assert_eq!(message_digest(&topic, &m), share_digest(&b"t".to_vec(), &vec![1, 2, 3]));
    m.correlation_data = Some(Bytes::from(vec![7]));
    assert_eq!(message_digest(&topic, &m), share_digest(&b"t".to_vec(), &vec![7]));
}

#[test]
fn sticky_keeps_member_until_threshold() {
    let mut w = worker(vec![sub("c1", QoS::AtMostOnce), sub("c2", QoS::AtMostOnce), sub("c3", QoS::AtMostOnce)]);
    w.config.strategy = ShareStrategy::Sticky;
    assert_eq!(w.pick(1, 0, &Vec::new()), Some(1));
    for _ in 0..3 {
        assert_eq!(w.pick(2, 0, &Vec::new()), Some(1));
        w.on_outcome(RecordOutcome::NoConnection);
    }
    assert_eq!(w.pick(2, 0, &Vec::new()), Some(2));
    w.config.strategy = ShareStrategy::Local;
    w.cursor = 1;
    assert_eq!(w.pick(0, 0, &vec![true, false, false]), Some(0));
    assert_eq!(w.cursor, 1);
}
