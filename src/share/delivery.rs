//! The per-record QoS state machine that a dispatch worker runs against the
//! recipient it picked.
use vstd::prelude::*;

use crate::protocol::QoS;

verus! {

/// The kind of acknowledgement that a recipient sends back.
#[derive(Debug, Clone, Copy, PartialEq, Eq, Structural)]
pub enum AckKind {
    PubAck,
    PubRec,
    PubComp,
}

/// Where a delivery stands.
#[derive(Debug, Clone, Copy, PartialEq, Eq, Structural)]
pub enum Phase {
    Start,
    AwaitPubAck,
    AwaitPubRec,
    AwaitPubComp,
    Done,
    Failed,
    Cancelled,
}

/// What the worker observed while delivering.
#[derive(Debug, Clone, Copy, PartialEq, Eq, Structural)]
pub enum DeliveryEvent {
    /// The PUBLISH was handed to the recipient's connection.
    Sent,
    /// The recipient had no connection.
    SendFailed,
    /// An acknowledgement of the given kind and packet id arrived.
    Acked(AckKind, u16),
    /// The acknowledgement window closed.
    TimedOut,
    /// The supervisor cancelled the worker.
    Cancel,
}

/// What the worker does next on behalf of the delivery.
#[derive(Debug, Clone, Copy, PartialEq, Eq, Structural)]
pub enum DeliveryAction {
    /// Nothing: keep waiting.
    Wait,
    /// Register a pending ack of the given kind and then send the PUBLISH.
    RegisterAndSend(AckKind),
    /// Register a pending PUBCOMP and send PUBREL.
    RegisterAndSendPubRel,
    /// The delivery reached its terminal state; release the packet id (if any).
    Finish(Phase),
}

/// One delivery of one record to one recipient.
#[derive(Debug, Clone, Copy, PartialEq, Eq, Structural)]
pub struct DeliveryAttempt {
    pub qos: QoS,
    pub pkid: u16,
    pub phase: Phase,
}

pub open spec fn is_terminal(p: Phase) -> bool {
    p == Phase::Done || p == Phase::Failed || p == Phase::Cancelled
}

/// The next state of a delivery after one event.
pub open spec fn next_attempt(a: DeliveryAttempt, ev: DeliveryEvent) -> DeliveryAttempt {
    if is_terminal(a.phase) {
        a
    } else {
        match ev {
            DeliveryEvent::Cancel => DeliveryAttempt { phase: Phase::Cancelled, ..a },
            DeliveryEvent::Sent => if a.phase == Phase::Start {
                match a.qos {
                    QoS::AtMostOnce => DeliveryAttempt { phase: Phase::Done, ..a },
                    QoS::AtLeastOnce => DeliveryAttempt { phase: Phase::AwaitPubAck, ..a },
                    QoS::ExactlyOnce => DeliveryAttempt { phase: Phase::AwaitPubRec, ..a },
                }
            } else {
                a
            },
            DeliveryEvent::SendFailed => if a.phase == Phase::Start {
                DeliveryAttempt { phase: Phase::Failed, ..a }
            } else {
                a
            },
            DeliveryEvent::TimedOut => if a.phase == Phase::Start {
                a
            } else {
                DeliveryAttempt { phase: Phase::Failed, ..a }
            },
            DeliveryEvent::Acked(kind, p) => if p != a.pkid {
                a
            } else if a.phase == Phase::AwaitPubAck && kind == AckKind::PubAck {
                DeliveryAttempt { phase: Phase::Done, ..a }
            } else if a.phase == Phase::AwaitPubRec && kind == AckKind::PubRec {
                DeliveryAttempt { phase: Phase::AwaitPubComp, ..a }
            } else if a.phase == Phase::AwaitPubComp && kind == AckKind::PubComp {
                DeliveryAttempt { phase: Phase::Done, ..a }
            } else {
                a
            },
        }
    }
}

/// The state after a whole sequence of events, oldest first.
pub open spec fn run_attempt(a: DeliveryAttempt, evs: Seq<DeliveryEvent>) -> DeliveryAttempt
    decreases evs.len(),
{
    if evs.len() == 0 {
        a
    } else {
        next_attempt(run_attempt(a, evs.drop_last()), evs.last())
    }
}

/// A fresh delivery: QoS 0 carries packet id 0.
pub open spec fn fresh_attempt(qos: QoS, pkid: u16) -> DeliveryAttempt {
    DeliveryAttempt { qos, pkid: if qos == QoS::AtMostOnce { 0 } else { pkid }, phase: Phase::Start }
}

impl DeliveryAttempt {
    /// Starts a delivery; the action says what to register before the PUBLISH goes out.
    pub fn begin(qos: QoS, pkid: u16) -> (r: (DeliveryAttempt, DeliveryAction))
        ensures
            r.0 == fresh_attempt(qos, pkid),
            qos == QoS::AtMostOnce ==> r.1 == DeliveryAction::Wait,
            qos == QoS::AtLeastOnce ==> r.1 == DeliveryAction::RegisterAndSend(AckKind::PubAck),
            qos == QoS::ExactlyOnce ==> r.1 == DeliveryAction::RegisterAndSend(AckKind::PubRec),
    {
        match qos {
            QoS::AtMostOnce => (
                DeliveryAttempt { qos, pkid: 0, phase: Phase::Start },
                DeliveryAction::Wait,
            ),
            QoS::AtLeastOnce => (
                DeliveryAttempt { qos, pkid, phase: Phase::Start },
                DeliveryAction::RegisterAndSend(AckKind::PubAck),
            ),
            QoS::ExactlyOnce => (
                DeliveryAttempt { qos, pkid, phase: Phase::Start },
                DeliveryAction::RegisterAndSend(AckKind::PubRec),
            ),
        }
    }

    /// Feeds one event to the delivery.
    pub fn step(&mut self, ev: DeliveryEvent) -> (r: DeliveryAction)
        ensures
            *final(self) == next_attempt(*old(self), ev),
            is_terminal(final(self).phase) && !is_terminal(old(self).phase) ==> r
                == DeliveryAction::Finish(final(self).phase),
            old(self).phase == Phase::AwaitPubRec && final(self).phase == Phase::AwaitPubComp ==> r
                == DeliveryAction::RegisterAndSendPubRel,
            !(is_terminal(final(self).phase) && !is_terminal(old(self).phase)) && !(old(self).phase
                == Phase::AwaitPubRec && final(self).phase == Phase::AwaitPubComp) ==> r
                == DeliveryAction::Wait,
    {
        let before = self.phase;
        if matches!(before, Phase::Done | Phase::Failed | Phase::Cancelled) {
            return DeliveryAction::Wait;
        }
        let next = match ev {
            DeliveryEvent::Cancel => Phase::Cancelled,
            DeliveryEvent::Sent => if before == Phase::Start {
                match self.qos {
                    QoS::AtMostOnce => Phase::Done,
                    QoS::AtLeastOnce => Phase::AwaitPubAck,
                    QoS::ExactlyOnce => Phase::AwaitPubRec,
                }
            } else {
                before
            },
            DeliveryEvent::SendFailed => if before == Phase::Start {
                Phase::Failed
            } else {
                before
            },
            DeliveryEvent::TimedOut => if before == Phase::Start {
                before
            } else {
                Phase::Failed
            },
            DeliveryEvent::Acked(kind, p) => if p != self.pkid {
                before
            } else if before == Phase::AwaitPubAck && kind == AckKind::PubAck {
                Phase::Done
            } else if before == Phase::AwaitPubRec && kind == AckKind::PubRec {
                Phase::AwaitPubComp
            } else if before == Phase::AwaitPubComp && kind == AckKind::PubComp {
                Phase::Done
            } else {
                before
            },
        };
        self.phase = next;
        if matches!(next, Phase::Done | Phase::Failed | Phase::Cancelled) {
            DeliveryAction::Finish(next)
        } else if before == Phase::AwaitPubRec && next == Phase::AwaitPubComp {
            DeliveryAction::RegisterAndSendPubRel
        } else {
            DeliveryAction::Wait
        }
    }
}

/// A QoS 1 delivery completes only after a PUBACK that carries its own packet id
/// was observed.
pub proof fn lemma_qos1_done_needs_puback(pkid: u16, evs: Seq<DeliveryEvent>)
    requires
        run_attempt(fresh_attempt(QoS::AtLeastOnce, pkid), evs).phase == Phase::Done,
    ensures
        exists|i: int| 0 <= i < evs.len() && evs[i] == DeliveryEvent::Acked(AckKind::PubAck, pkid),
    decreases evs.len(),
{
    let a0 = fresh_attempt(QoS::AtLeastOnce, pkid);
    lemma_run_keeps_identity(a0, evs);
    let prev = run_attempt(a0, evs.drop_last());
    lemma_run_keeps_identity(a0, evs.drop_last());
    if prev.phase == Phase::Done {
        lemma_qos1_done_needs_puback(pkid, evs.drop_last());
        let i = choose|i: int| 0 <= i < evs.drop_last().len() && evs.drop_last()[i]
            == DeliveryEvent::Acked(AckKind::PubAck, pkid);
        assert(evs[i] == evs.drop_last()[i]);
    } else {
        assert(evs[evs.len() - 1] == evs.last());
    }
}

/// Running a delivery never changes its QoS or packet id, and a QoS 1 delivery
/// never enters the QoS 2 phases (and the other way round).
pub proof fn lemma_run_keeps_identity(a: DeliveryAttempt, evs: Seq<DeliveryEvent>)
    requires
        a.phase == Phase::Start,
    ensures
        run_attempt(a, evs).qos == a.qos,
        run_attempt(a, evs).pkid == a.pkid,
        a.qos == QoS::AtLeastOnce ==> run_attempt(a, evs).phase != Phase::AwaitPubRec
            && run_attempt(a, evs).phase != Phase::AwaitPubComp,
        a.qos == QoS::ExactlyOnce ==> run_attempt(a, evs).phase != Phase::AwaitPubAck,
        a.qos == QoS::AtMostOnce ==> run_attempt(a, evs).phase != Phase::AwaitPubAck
            && run_attempt(a, evs).phase != Phase::AwaitPubRec
            && run_attempt(a, evs).phase != Phase::AwaitPubComp,
    decreases evs.len(),
{
    if evs.len() > 0 {
        lemma_run_keeps_identity(a, evs.drop_last());
    }
}

/// A QoS 2 delivery completes only after a PUBREC and then a PUBCOMP, both with
/// its own packet id, were observed in that order.
pub proof fn lemma_qos2_done_needs_pubrec_then_pubcomp(pkid: u16, evs: Seq<DeliveryEvent>)
    requires
        run_attempt(fresh_attempt(QoS::ExactlyOnce, pkid), evs).phase == Phase::Done,
    ensures
        exists|i: int, j: int|
            0 <= i < j < evs.len() && evs[i] == DeliveryEvent::Acked(AckKind::PubRec, pkid)
                && evs[j] == DeliveryEvent::Acked(AckKind::PubComp, pkid),
    decreases evs.len(),
{
    let a0 = fresh_attempt(QoS::ExactlyOnce, pkid);
    lemma_run_keeps_identity(a0, evs);
    lemma_run_keeps_identity(a0, evs.drop_last());
    let prev = run_attempt(a0, evs.drop_last());
    if prev.phase == Phase::Done {
        lemma_qos2_done_needs_pubrec_then_pubcomp(pkid, evs.drop_last());
        let (i, j) = choose|i: int, j: int|
            0 <= i < j < evs.drop_last().len() && evs.drop_last()[i] == DeliveryEvent::Acked(
                AckKind::PubRec,
                pkid,
            ) && evs.drop_last()[j] == DeliveryEvent::Acked(AckKind::PubComp, pkid);
        assert(evs[i] == evs.drop_last()[i]);
        assert(evs[j] == evs.drop_last()[j]);
    } else {
        assert(prev.phase == Phase::AwaitPubComp);
        lemma_qos2_pubcomp_wait_needs_pubrec(pkid, evs.drop_last());
        let i = choose|i: int| 0 <= i < evs.drop_last().len() && evs.drop_last()[i]
            == DeliveryEvent::Acked(AckKind::PubRec, pkid);
        assert(evs[i] == evs.drop_last()[i]);
        assert(evs[evs.len() - 1] == evs.last());
    }
}

/// A QoS 2 delivery waits for PUBCOMP only after a PUBREC with its packet id.
pub proof fn lemma_qos2_pubcomp_wait_needs_pubrec(pkid: u16, evs: Seq<DeliveryEvent>)
    requires
        run_attempt(fresh_attempt(QoS::ExactlyOnce, pkid), evs).phase == Phase::AwaitPubComp,
    ensures
        exists|i: int| 0 <= i < evs.len() && evs[i] == DeliveryEvent::Acked(AckKind::PubRec, pkid),
    decreases evs.len(),
{
    let a0 = fresh_attempt(QoS::ExactlyOnce, pkid);
    lemma_run_keeps_identity(a0, evs);
    lemma_run_keeps_identity(a0, evs.drop_last());
    let prev = run_attempt(a0, evs.drop_last());
    if prev.phase == Phase::AwaitPubComp {
        lemma_qos2_pubcomp_wait_needs_pubrec(pkid, evs.drop_last());
        let i = choose|i: int| 0 <= i < evs.drop_last().len() && evs.drop_last()[i]
            == DeliveryEvent::Acked(AckKind::PubRec, pkid);
        assert(evs[i] == evs.drop_last()[i]);
    } else {
        assert(evs[evs.len() - 1] == evs.last());
    }
}

} // verus!
