//! The fixed header of an MQTT packet: the first byte and the remaining length,
//! written in one to four bytes of seven bits each, lowest first.
use vstd::prelude::*;

use crate::protocol::Error;

verus! {

/// The largest remaining length that four bytes hold.
pub const MAX_REMAINING_LENGTH: usize = 268_435_455;

/// The parts of a fixed header.
#[derive(Debug, Clone, Copy, PartialEq, Eq, Structural)]
pub struct FixedHeader {
    /// The first byte: packet type and flags.
    pub byte1: u8,
    /// The first byte and the length bytes together.
    pub fixed_header_len: usize,
    /// The length of what follows the fixed header.
    pub remaining_len: usize,
}

/// The bytes that stand for a remaining length.
pub open spec fn remaining_length_bytes(x: nat) -> Seq<u8>
    decreases x,
{
    if x < 128 {
        seq![x as u8]
    } else {
        seq![(x % 128 + 128) as u8] + remaining_length_bytes(x / 128)
    }
}

/// Reads a remaining length from position `i` of `s`, where position 1 holds its
/// first byte: how many bytes it took from `i` on and its value.
pub open spec fn remaining_length_at(s: Seq<u8>, i: nat) -> Result<(nat, nat), Error>
    decreases 5 - i,
{
    if i >= s.len() {
        Err(Error::InsufficientBytes(1))
    } else if s[i as int] < 128 {
        Ok((1, s[i as int] as nat))
    } else if i >= 4 {
        Err(Error::MalformedRemainingLength)
    } else {
        match remaining_length_at(s, i + 1) {
            Ok((k, v)) => Ok((k + 1, (s[i as int] - 128) as nat + 128 * v)),
            Err(e) => Err(e),
        }
    }
}

/// The fixed header at the start of `s`.
pub open spec fn fixed_header_of(s: Seq<u8>) -> Result<FixedHeader, Error> {
    if s.len() < 2 {
        Err(Error::InsufficientBytes((2 - s.len()) as usize))
    } else {
        match remaining_length_at(s, 1) {
            Ok((k, v)) => Ok(FixedHeader { byte1: s[0], fixed_header_len: (k + 1) as usize, remaining_len: v as usize }),
            Err(e) => Err(e),
        }
    }
}

/// Appends the bytes of a remaining length; refused above `MAX_REMAINING_LENGTH`.
/// Returns how many bytes it wrote.
pub fn write_remaining_length(buffer: &mut Vec<u8>, len: usize) -> (r: Result<usize, Error>)
    ensures
        len > MAX_REMAINING_LENGTH ==> r == Err::<usize, Error>(Error::PayloadTooLong) && final(buffer)@ == old(buffer)@,
        len <= MAX_REMAINING_LENGTH ==> final(buffer)@ == old(buffer)@ + remaining_length_bytes(len as nat)
            && r == Ok::<usize, Error>(remaining_length_bytes(len as nat).len() as usize),
{
    if len > MAX_REMAINING_LENGTH {
        return Err(Error::PayloadTooLong);
    }
    proof {
        lemma_remaining_length_size(len as nat);
    }
    encode_remaining_length(buffer, len);
    Ok(remaining_length_size(len))
}

pub proof fn lemma_remaining_length_size(x: nat)
    ensures
        1 <= remaining_length_bytes(x).len(),
        x <= MAX_REMAINING_LENGTH ==> remaining_length_bytes(x).len() <= 4,
        remaining_length_bytes(x).len() == if x < 128 { 1nat } else { 1 + remaining_length_bytes(x / 128).len() },
    decreases x,
{
    if x >= 128 {
        lemma_remaining_length_size(x / 128);
    }
    if x <= MAX_REMAINING_LENGTH {
        lemma_pow128_small(3);
        assert(pow128(4) == 128 * pow128(3));
        lemma_remaining_length_fits(x, 4);
    }
}

proof fn lemma_remaining_length_fits(x: nat, k: nat)
    requires
        k >= 1,
        x < pow128(k),
    ensures
        remaining_length_bytes(x).len() <= k,
    decreases k,
{
    if x >= 128 {
        if k == 1 {
            assert(pow128(0) == 1);
            assert(false);
        }
        assert(pow128(k) == 128 * pow128((k - 1) as nat));
        assert(x / 128 < pow128((k - 1) as nat)) by (nonlinear_arith)
            requires
                x < pow128(k),
                pow128(k) == 128 * pow128((k - 1) as nat),
        ;
        lemma_remaining_length_fits(x / 128, (k - 1) as nat);
    }
}

fn remaining_length_size(x: usize) -> (r: usize)
    requires
        x <= MAX_REMAINING_LENGTH,
    ensures
        r == remaining_length_bytes(x as nat).len(),
    decreases x,
{
    proof {
        lemma_remaining_length_size(x as nat);
    }
    if x < 128 {
        1
    } else {
        proof {
            lemma_remaining_length_size((x / 128) as nat);
        }
        1 + remaining_length_size(x / 128)
    }
}

fn encode_remaining_length(buffer: &mut Vec<u8>, x: usize)
    ensures
        final(buffer)@ == old(buffer)@ + remaining_length_bytes(x as nat),
    decreases x,
{
    if x < 128 {
        buffer.push(x as u8);
        assert(final(buffer)@ =~= old(buffer)@ + remaining_length_bytes(x as nat));
    } else {
        buffer.push((x % 128 + 128) as u8);
        let ghost mid = buffer@;
        encode_remaining_length(buffer, x / 128);
        assert(final(buffer)@ =~= old(buffer)@ + remaining_length_bytes(x as nat));
    }
}

fn decode_remaining_length(s: &[u8], i: usize) -> (r: Result<(usize, usize), Error>)
    requires
        1 <= i <= 4,
    ensures
        match remaining_length_at(s@, i as nat) {
            Ok((k, v)) => r == Ok::<(usize, usize), Error>((k as usize, v as usize)) && k <= 5 - i && v < pow128(
                (5 - i) as nat,
            ),
            Err(e) => r == Err::<(usize, usize), Error>(e),
        },
    decreases 5 - i,
{
    if i >= s.len() {
        return Err(Error::InsufficientBytes(1));
    }
    let b = s[i];
    if b < 128 {
        proof {
            lemma_pow128_positive((5 - i) as nat);
        }
        return Ok((1, b as usize));
    }
    if i >= 4 {
        return Err(Error::MalformedRemainingLength);
    }
    match decode_remaining_length(s, i + 1) {
        Ok((k, v)) => {
            proof {
                assert(pow128((5 - i) as nat) == 128 * pow128((5 - (i + 1)) as nat));
                lemma_pow128_small((5 - (i + 1)) as nat);
            }
            Ok((k + 1, (b - 128) as usize + 128 * v))
        },
        Err(e) => Err(e),
    }
}

pub open spec fn pow128(n: nat) -> nat
    decreases n,
{
    if n == 0 {
        1
    } else {
        128 * pow128((n - 1) as nat)
    }
}

proof fn lemma_pow128_positive(n: nat)
    ensures
        pow128(n) >= 1,
        n >= 1 ==> pow128(n) >= 128,
    decreases n,
{
    if n > 0 {
        lemma_pow128_positive((n - 1) as nat);
    }
}

proof fn lemma_pow128_small(n: nat)
    requires
        n <= 3,
    ensures
        pow128(n) <= 2_097_152,
        pow128(3) == 2_097_152,
{
    assert(pow128(0) == 1);
    assert(pow128(1) == 128);
    assert(pow128(2) == 16_384);
    assert(pow128(3) == 2_097_152);
}

/// Reads the fixed header at the start of `stream`.
pub fn parse_fixed_header(stream: &[u8]) -> (r: Result<FixedHeader, Error>)
    ensures
        r == fixed_header_of(stream@),
{
    let n = stream.len();
    if n < 2 {
        return Err(Error::InsufficientBytes(2 - n));
    }
    match decode_remaining_length(stream, 1) {
        Ok((k, v)) => Ok(FixedHeader { byte1: stream[0], fixed_header_len: k + 1, remaining_len: v }),
        Err(e) => Err(e),
    }
}

/// A remaining length, written after a packet's first byte, reads back as itself.
pub proof fn lemma_remaining_length_round_trip(byte1: u8, x: nat, rest: Seq<u8>)
    requires
        x <= MAX_REMAINING_LENGTH,
    ensures
        remaining_length_at(seq![byte1] + remaining_length_bytes(x) + rest, 1) == Ok::<(nat, nat), Error>(
            (remaining_length_bytes(x).len(), x),
        ),
{
    assert(pow128(4) == 268_435_456) by {
        assert(pow128(0) == 1);
        assert(pow128(1) == 128);
        assert(pow128(2) == 16_384);
        assert(pow128(3) == 2_097_152);
    }
    lemma_round_trip_at(x, rest, 1);
    assert(seq![byte1].len() == 1);
}

proof fn lemma_round_trip_at(x: nat, rest: Seq<u8>, i: nat)
    requires
        1 <= i <= 4,
        x < pow128((5 - i) as nat),
    ensures
        forall|pre: Seq<u8>| pre.len() == i ==> #[trigger] remaining_length_at(pre + remaining_length_bytes(x) + rest, i)
            == Ok::<(nat, nat), Error>((remaining_length_bytes(x).len(), x)),
    decreases x,
{
    assert forall|pre: Seq<u8>| pre.len() == i implies #[trigger] remaining_length_at(pre + remaining_length_bytes(x) + rest, i)
        == Ok::<(nat, nat), Error>((remaining_length_bytes(x).len(), x)) by {
        let s = pre + remaining_length_bytes(x) + rest;
        if x < 128 {
            assert(s[i as int] == x as u8);
        } else {
            assert(s[i as int] == (x % 128 + 128) as u8);
            if i >= 4 {
                assert(pow128(0) == 1);
                assert(pow128(1) == 128);
                assert(false);
            }
            assert(pow128((5 - i) as nat) == 128 * pow128((5 - (i + 1)) as nat));
            assert(x / 128 < pow128((5 - (i + 1)) as nat)) by (nonlinear_arith)
                requires
                    x < pow128((5 - i) as nat),
                    pow128((5 - i) as nat) == 128 * pow128((5 - (i + 1)) as nat),
            ;
            lemma_round_trip_at(x / 128, rest, i + 1);
            let pre2 = pre.push((x % 128 + 128) as u8);
            assert(pre2 + remaining_length_bytes(x / 128) + rest =~= s);
            assert(remaining_length_at(pre2 + remaining_length_bytes(x / 128) + rest, i + 1) == Ok::<(nat, nat), Error>(
                (remaining_length_bytes(x / 128).len(), x / 128),
            ));
        }
    }
}

} // verus!
