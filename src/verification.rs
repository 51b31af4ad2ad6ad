//! Framing of serialized proofs and the outcome of verifying one.
//!
//! A framed proof is a four-byte big-endian payload length followed by the
//! payload. Bytes that do not frame a payload, or whose payload the proving
//! backend cannot decode, are malformed; that is told apart from a
//! well-formed proof that does not verify.

use vstd::prelude::*;

verus! {

/// The three outcomes of verifying a proof.
#[derive(Clone, Copy, Debug, PartialEq, Eq, Structural)]
pub enum VerificationOutcome {
    Accepted,
    RejectedInvalid,
    RejectedMalformed,
}

/// The number of bytes in a frame's length prefix.
pub const FRAME_HEADER_LEN: usize = 4;

/// The big-endian bytes of a length.
pub open spec fn be_bytes(x: u32) -> Seq<u8> {
    seq![(x >> 24u32) as u8, (x >> 16u32) as u8, (x >> 8u32) as u8, x as u8]
}

/// The length that four big-endian bytes give.
pub open spec fn be_value(b0: u8, b1: u8, b2: u8, b3: u8) -> u32 {
    ((b0 as u32) << 24u32) | ((b1 as u32) << 16u32) | ((b2 as u32) << 8u32) | (b3 as u32)
}

/// The frame of a payload.
pub open spec fn frame_spec(payload: Seq<u8>) -> Seq<u8> {
    be_bytes(payload.len() as u32) + payload
}

/// The payload that bytes frame, if they frame one.
pub open spec fn unframe_spec(bytes: Seq<u8>) -> Option<Seq<u8>> {
    if bytes.len() < FRAME_HEADER_LEN {
        None
    } else if be_value(bytes[0], bytes[1], bytes[2], bytes[3]) as int != bytes.len() - 4 {
        None
    } else {
        Some(bytes.subrange(4, bytes.len() as int))
    }
}

proof fn lemma_be_round_trip(x: u32)
    ensures
        be_value((x >> 24u32) as u8, (x >> 16u32) as u8, (x >> 8u32) as u8, x as u8) == x,
{
    assert(((((x >> 24u32) as u8) as u32) << 24u32) | ((((x >> 16u32) as u8) as u32) << 16u32)
        | ((((x >> 8u32) as u8) as u32) << 8u32) | (((x as u8) as u32)) == x) by (bit_vector);
}

/// Frames a payload for transport.
pub fn frame_proof(payload: &Vec<u8>) -> (r: Vec<u8>)
    requires
        payload@.len() <= u32::MAX,
    ensures
        r@ == frame_spec(payload@),
{
    let n = payload.len() as u32;
    let mut r: Vec<u8> = Vec::new();
    r.push((n >> 24u32) as u8);
    r.push((n >> 16u32) as u8);
    r.push((n >> 8u32) as u8);
    r.push(n as u8);
    let mut i: usize = 0;
    while i < payload.len()
        invariant
            i <= payload@.len(),
            r@ == be_bytes(n) + payload@.take(i as int),
        decreases payload@.len() - i,
    {
        r.push(payload[i]);
        i = i + 1;
        assert(r@ =~= be_bytes(n) + payload@.take(i as int));
    }
    assert(payload@.take(payload@.len() as int) == payload@);
    r
}

/// Takes the payload out of framed bytes; `None` when they are malformed.
pub fn unframe_proof(bytes: &Vec<u8>) -> (r: Option<Vec<u8>>)
    ensures
        match r {
            Some(p) => unframe_spec(bytes@) == Some(p@),
            None => unframe_spec(bytes@) is None,
        },
{
    if bytes.len() < FRAME_HEADER_LEN {
        return None;
    }
    let n: u32 = ((bytes[0] as u32) << 24u32) | ((bytes[1] as u32) << 16u32) | ((bytes[2] as u32)
        << 8u32) | (bytes[3] as u32);
    if n as usize != bytes.len() - 4 {
        return None;
    }
    let mut p: Vec<u8> = Vec::new();
    let mut i: usize = 4;
    while i < bytes.len()
        invariant
            4 <= i <= bytes@.len(),
            p@ == bytes@.subrange(4, i as int),
        decreases bytes@.len() - i,
    {
        p.push(bytes[i]);
        i = i + 1;
        assert(p@ =~= bytes@.subrange(4, i as int));
    }
    Some(p)
}

/// The outcome of a verification, given what the backend made of the
/// payload: `None` when it could not decode it, else whether the proof verified.
pub fn classify_verification(decoded: Option<bool>) -> (r: VerificationOutcome)
    ensures
        decoded is None <==> r == VerificationOutcome::RejectedMalformed,
        decoded == Some(true) <==> r == VerificationOutcome::Accepted,
        decoded == Some(false) <==> r == VerificationOutcome::RejectedInvalid,
{
    match decoded {
        None => VerificationOutcome::RejectedMalformed,
        Some(true) => VerificationOutcome::Accepted,
        Some(false) => VerificationOutcome::RejectedInvalid,
    }
}

/// Unframing a framed payload gives the payload back.
pub proof fn lemma_frame_round_trip(payload: Seq<u8>)
    requires
        payload.len() <= u32::MAX,
    ensures
        unframe_spec(frame_spec(payload)) == Some(payload),
{
    let f = frame_spec(payload);
    lemma_be_round_trip(payload.len() as u32);
    assert(f.subrange(4, f.len() as int) =~= payload);
}

/// Every proper prefix of a frame, a truncated proof, is malformed.
pub proof fn lemma_truncated_frame_malformed(payload: Seq<u8>, n: int)
    requires
        payload.len() <= u32::MAX,
        0 <= n < frame_spec(payload).len(),
    ensures
        unframe_spec(frame_spec(payload).take(n)) is None,
{
    let f = frame_spec(payload);
    lemma_be_round_trip(payload.len() as u32);
    if n >= 4 {
        assert(f.take(n)[0] == f[0] && f.take(n)[1] == f[1] && f.take(n)[2] == f[2] && f.take(n)[3]
            == f[3]);
    }
}

} // verus!
