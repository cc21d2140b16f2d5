//! SUBACK of MQTT 3.1.1: packet id and one return code per subscription.
use vstd::prelude::*;

use bytes::{Bytes, BytesMut};

use crate::buffer::{bytes_content, bytes_mut_content, bytes_mut_extend, bytes_to_vec};
use crate::protocol::fixed_header::{remaining_length_bytes, write_remaining_length, FixedHeader, MAX_REMAINING_LENGTH};
use crate::protocol::{qos_level, qos_number, Error, QoS};

verus! {

/// What the broker answers for one subscription.
#[derive(Debug, Clone, Copy, PartialEq, Eq, Structural)]
pub enum SubscribeReasonCode {
    Success(QoS),
    Failure,
    QoS0,
    QoS1,
    QoS2,
    Unspecified,
    ImplementationSpecific,
    NotAuthorized,
    TopicFilterInvalid,
    PkidInUse,
    QuotaExceeded,
    SharedSubscriptionsNotSupported,
    SubscriptionIdNotSupported,
    WildcardSubscriptionsNotSupported,
    ExclusiveSubscriptionDisabled,
    TopicSubscribed,
}

/// Acknowledgement to SUBSCRIBE.
#[derive(Debug, Clone, PartialEq, Eq)]
pub struct SubAck {
    pub pkid: u16,
    pub return_codes: Vec<SubscribeReasonCode>,
}

impl SubAck {
    /// Length of what follows the fixed header: two bytes of packet id and one
    /// per return code.
    pub fn len(&self) -> (r: usize)
        requires
            self.return_codes@.len() + 2 <= usize::MAX,
        ensures
            r == 2 + self.return_codes@.len(),
    {
        2 + self.return_codes.len()
    }
}

/// The byte that stands for a return code.
pub open spec fn code_of(reason: SubscribeReasonCode) -> u8 {
    match reason {
        SubscribeReasonCode::Success(qos) => qos_level(qos),
        SubscribeReasonCode::Failure => 0x80,
        SubscribeReasonCode::QoS0 => 0,
        SubscribeReasonCode::QoS1 => 1,
        SubscribeReasonCode::QoS2 => 2,
        SubscribeReasonCode::Unspecified => 128,
        SubscribeReasonCode::ImplementationSpecific => 131,
        SubscribeReasonCode::NotAuthorized => 135,
        SubscribeReasonCode::TopicFilterInvalid => 143,
        SubscribeReasonCode::PkidInUse => 145,
        SubscribeReasonCode::QuotaExceeded => 151,
        SubscribeReasonCode::SharedSubscriptionsNotSupported => 158,
        SubscribeReasonCode::SubscriptionIdNotSupported => 161,
        SubscribeReasonCode::WildcardSubscriptionsNotSupported => 162,
        SubscribeReasonCode::ExclusiveSubscriptionDisabled => 143,
        SubscribeReasonCode::TopicSubscribed => 151,
    }
}

/// The return code that a byte of an MQTT 3.1.1 SUBACK stands for.
pub open spec fn reason_of(code: u8) -> Result<SubscribeReasonCode, Error> {
    if code == 0 {
        Ok(SubscribeReasonCode::Success(QoS::AtMostOnce))
    } else if code == 1 {
        Ok(SubscribeReasonCode::Success(QoS::AtLeastOnce))
    } else if code == 2 {
        Ok(SubscribeReasonCode::Success(QoS::ExactlyOnce))
    } else if code == 128 {
        Ok(SubscribeReasonCode::Failure)
    } else {
        Err(Error::InvalidSubscribeReasonCode(code))
    }
}

pub fn reason(code: u8) -> (r: Result<SubscribeReasonCode, Error>)
    ensures
        r == reason_of(code),
{
    match code {
        0 => Ok(SubscribeReasonCode::Success(QoS::AtMostOnce)),
        1 => Ok(SubscribeReasonCode::Success(QoS::AtLeastOnce)),
        2 => Ok(SubscribeReasonCode::Success(QoS::ExactlyOnce)),
        128 => Ok(SubscribeReasonCode::Failure),
        v => Err(Error::InvalidSubscribeReasonCode(v)),
    }
}

pub fn code(reason: SubscribeReasonCode) -> (r: u8)
    ensures
        r == code_of(reason),
{
    match reason {
        SubscribeReasonCode::Success(qos) => qos_number(qos),
        SubscribeReasonCode::Failure => 0x80,
        SubscribeReasonCode::QoS0 => 0,
        SubscribeReasonCode::QoS1 => 1,
        SubscribeReasonCode::QoS2 => 2,
        SubscribeReasonCode::Unspecified => 128,
        SubscribeReasonCode::ImplementationSpecific => 131,
        SubscribeReasonCode::NotAuthorized => 135,
        SubscribeReasonCode::TopicFilterInvalid => 143,
        SubscribeReasonCode::PkidInUse => 145,
        SubscribeReasonCode::QuotaExceeded => 151,
        SubscribeReasonCode::SharedSubscriptionsNotSupported => 158,
        SubscribeReasonCode::SubscriptionIdNotSupported => 161,
        SubscribeReasonCode::WildcardSubscriptionsNotSupported => 162,
        SubscribeReasonCode::ExclusiveSubscriptionDisabled => 143,
        SubscribeReasonCode::TopicSubscribed => 151,
    }
}

/// The bytes of a SUBACK: type byte `0x90`, remaining length, packet id (high
/// byte first), then the return codes.
pub open spec fn suback_bytes(pkid: u16, codes: Seq<SubscribeReasonCode>) -> Seq<u8> {
    seq![0x90u8] + remaining_length_bytes((2 + codes.len()) as nat) + seq![(pkid / 256) as u8, (pkid % 256) as u8]
        + codes.map_values(|c: SubscribeReasonCode| code_of(c))
}

/// Appends the SUBACK to `buffer` and returns how many bytes it wrote; refused
/// when its remaining length does not fit in four bytes.
pub fn write(suback: &SubAck, buffer: &mut BytesMut) -> (r: Result<usize, Error>)
    ensures
        suback.return_codes@.len() + 2 > MAX_REMAINING_LENGTH ==> r == Err::<usize, Error>(Error::PayloadTooLong)
            && bytes_mut_content(*final(buffer)) == bytes_mut_content(*old(buffer)),
        suback.return_codes@.len() + 2 <= MAX_REMAINING_LENGTH ==> bytes_mut_content(*final(buffer))
            == bytes_mut_content(*old(buffer)) + suback_bytes(suback.pkid, suback.return_codes@)
            && r == Ok::<usize, Error>(suback_bytes(suback.pkid, suback.return_codes@).len() as usize),
{
    if suback.return_codes.len() > MAX_REMAINING_LENGTH - 2 {
        return Err(Error::PayloadTooLong);
    }
    let remaining_len = suback.len();
    let mut out: Vec<u8> = Vec::new();
    out.push(0x90);
    let n = match write_remaining_length(&mut out, remaining_len) {
        Ok(n) => n,
        Err(e) => return Err(e),
    };
    out.push((suback.pkid / 256) as u8);
    out.push((suback.pkid % 256) as u8);
    let ghost head = out@;
    let mut i: usize = 0;
    while i < suback.return_codes.len()
        invariant
            i <= suback.return_codes@.len(),
            out@ == head + suback.return_codes@.subrange(0, i as int).map_values(|c: SubscribeReasonCode| code_of(c)),
        decreases suback.return_codes@.len() - i,
    {
        out.push(code(suback.return_codes[i]));
        i += 1;
        assert(out@ =~= head + suback.return_codes@.subrange(0, i as int).map_values(|c: SubscribeReasonCode| code_of(c)));
    }
    assert(suback.return_codes@.subrange(0, i as int) =~= suback.return_codes@);
    assert(out@ =~= suback_bytes(suback.pkid, suback.return_codes@));
    bytes_mut_extend(buffer, &out);
    proof {
        crate::protocol::fixed_header::lemma_remaining_length_size(remaining_len as nat);
    }
    Ok(1 + n + remaining_len)
}

/// Reads the body of a SUBACK that starts after `fixed_header_len` bytes: a
/// packet id, then at least one return code.
pub open spec fn suback_of(body: Seq<u8>) -> Result<(u16, Seq<SubscribeReasonCode>), Error> {
    if body.len() < 3 {
        Err(Error::MalformedPacket)
    } else {
        match first_invalid(body, 2) {
            Some(j) => Err(Error::InvalidSubscribeReasonCode(body[j as int])),
            None => Ok((
                (body[0] as nat * 256 + body[1] as nat) as u16,
                body.subrange(2, body.len() as int).map_values(|b: u8| reason_of(b)->Ok_0),
            )),
        }
    }
}

/// The first position from `i` on whose byte is no return code.
pub open spec fn first_invalid(s: Seq<u8>, i: nat) -> Option<nat>
    decreases s.len() - i,
{
    if i >= s.len() {
        None
    } else if reason_of(s[i as int]) is Err {
        Some(i)
    } else {
        first_invalid(s, i + 1)
    }
}

proof fn lemma_first_invalid_none(s: Seq<u8>, i: nat)
    requires
        first_invalid(s, i) is None,
    ensures
        forall|j: int| i <= j < s.len() ==> reason_of(#[trigger] s[j]) is Ok,
    decreases s.len() - i,
{
    if i < s.len() {
        lemma_first_invalid_none(s, i + 1);
    }
}

proof fn lemma_first_invalid_skip(s: Seq<u8>, i: nat, k: nat)
    requires
        i <= k <= s.len(),
        forall|j: int| i <= j < k ==> reason_of(#[trigger] s[j]) is Ok,
    ensures
        first_invalid(s, i) == first_invalid(s, k),
    decreases k - i,
{
    if i < k {
        lemma_first_invalid_skip(s, i + 1, k);
    }
}

/// Reads a SUBACK from `bytes`, whose first `fixed_header_len` bytes are its
/// fixed header.
pub fn read(fixed_header: FixedHeader, bytes: Bytes) -> (r: Result<SubAck, Error>)
    requires
        fixed_header.fixed_header_len <= bytes_content(bytes).len(),
    ensures
        ({
            let body = bytes_content(bytes).subrange(fixed_header.fixed_header_len as int, bytes_content(bytes).len() as int);
            match suback_of(body) {
                Ok((pkid, codes)) => r matches Ok(s) && s.pkid == pkid && s.return_codes@ == codes,
                Err(e) => r == Err::<SubAck, Error>(e),
            }
        }),
{
    let all = bytes_to_vec(&bytes);
    let start = fixed_header.fixed_header_len;
    let ghost body = all@.subrange(start as int, all@.len() as int);
    if all.len() - start < 2 {
        return Err(Error::MalformedPacket);
    }
    let pkid: u16 = all[start] as u16 * 256 + all[start + 1] as u16;
    if all.len() - start < 3 {
        return Err(Error::MalformedPacket);
    }
    let mut return_codes: Vec<SubscribeReasonCode> = Vec::new();
    let mut i: usize = start + 2;
    while i < all.len()
        invariant
            start + 2 <= i <= all@.len(),
            all@ == bytes_content(bytes),
            start == fixed_header.fixed_header_len,
            body == all@.subrange(start as int, all@.len() as int),
            forall|j: int| 2 <= j < i - start ==> reason_of(#[trigger] body[j]) is Ok,
            return_codes@ == body.subrange(2, i - start).map_values(|b: u8| reason_of(b)->Ok_0),
        decreases all@.len() - i,
    {
        let c = all[i];
        assert(body[i - start] == c);
        match reason(c) {
            Ok(rc) => {
                return_codes.push(rc);
            },
            Err(e) => {
                proof {
                    let k = (i - start) as nat;
                    assert(body[k as int] == c);
                    assert(reason_of(body[k as int]) is Err);
                    assert(e == Error::InvalidSubscribeReasonCode(body[k as int]));
                    lemma_first_invalid_skip(body, 2, k);
                    assert(first_invalid(body, k) == Some(k));
                    assert(body.len() >= 3);
                }
                return Err(e);
            },
        }
        i += 1;
        assert(return_codes@ =~= body.subrange(2, i - start).map_values(|b: u8| reason_of(b)->Ok_0));
    }
    proof {
        lemma_first_invalid_skip(body, 2, body.len());
        assert(body.subrange(2, i - start) =~= body.subrange(2, body.len() as int));
    }
    Ok(SubAck { pkid, return_codes })
}

} // verus!
