//! The packet framer: wraps a payload into the self-delimiting envelope
//! that the companion device expects.
//!
//! An envelope is the payload's length as eight little-endian bytes, the
//! CRC-32 of the payload as four little-endian bytes, then the payload.

use crate::checksum::{checksum, crc32};
use vstd::bytes::{
    lemma_auto_spec_u32_to_from_le_bytes, lemma_auto_spec_u64_to_from_le_bytes,
    spec_u32_from_le_bytes, spec_u32_to_le_bytes, spec_u64_from_le_bytes, spec_u64_to_le_bytes,
    u32_from_le_bytes, u32_to_le_bytes, u64_from_le_bytes, u64_to_le_bytes,
};
use vstd::prelude::*;
use vstd::slice::slice_subrange;

verus! {

/// Bytes in front of the payload: length, then checksum.
pub const HEADER_LEN: usize = 12;

/// The envelope of `payload`.
pub open spec fn envelope(payload: Seq<u8>) -> Seq<u8> {
    spec_u64_to_le_bytes(payload.len() as u64) + spec_u32_to_le_bytes(crc32(payload)) + payload
}

/// The payload length that the header of `bytes` declares.
pub open spec fn declared_len(bytes: Seq<u8>) -> u64 {
    spec_u64_from_le_bytes(bytes.subrange(0, 8))
}

/// The checksum that the header of `bytes` carries.
pub open spec fn embedded_checksum(bytes: Seq<u8>) -> u32 {
    spec_u32_from_le_bytes(bytes.subrange(8, 12))
}

/// What follows the header of `bytes`.
pub open spec fn carried_payload(bytes: Seq<u8>) -> Seq<u8> {
    bytes.subrange(12, bytes.len() as int)
}

/// Whether `bytes` is one whole envelope: a header, exactly as many payload
/// bytes as it declares, and a checksum that matches them.
pub open spec fn is_envelope(bytes: Seq<u8>) -> bool {
    &&& bytes.len() >= 12
    &&& declared_len(bytes) == bytes.len() - 12
    &&& embedded_checksum(bytes) == crc32(carried_payload(bytes))
}

/// Wraps `payload` into its envelope.
pub fn frame(payload: &[u8]) -> (out: Vec<u8>)
    ensures
        out@ == envelope(payload@),
{
    let mut out = u64_to_le_bytes(payload.len() as u64);
    let mut sum = u32_to_le_bytes(checksum(payload));
    out.append(&mut sum);
    let mut i: usize = 0;
    while i < payload.len()
        invariant
            i <= payload@.len(),
            out@ == spec_u64_to_le_bytes(payload@.len() as u64) + spec_u32_to_le_bytes(
                crc32(payload@),
            ) + payload@.subrange(0, i as int),
        decreases payload@.len() - i,
    {
        out.push(payload[i]);
        i = i + 1;
    }
    out
}

/// Takes the payload out of an envelope, or `None` if `bytes` is not one.
pub fn unframe(bytes: &[u8]) -> (payload: Option<Vec<u8>>)
    ensures
        payload is Some <==> is_envelope(bytes@),
        payload matches Some(p) ==> p@ == carried_payload(bytes@) && bytes@ == envelope(p@),
{
    if bytes.len() < HEADER_LEN {
        return None;
    }
    let declared = u64_from_le_bytes(slice_subrange(bytes, 0, 8));
    if declared != (bytes.len() - HEADER_LEN) as u64 {
        return None;
    }
    let embedded = u32_from_le_bytes(slice_subrange(bytes, 8, 12));
    let body = slice_subrange(bytes, HEADER_LEN, bytes.len());
    if embedded != checksum(body) {
        return None;
    }
    let mut p: Vec<u8> = Vec::new();
    let mut i: usize = 0;
    while i < body.len()
        invariant
            i <= body@.len(),
            p@ == body@.subrange(0, i as int),
        decreases body@.len() - i,
    {
        p.push(body[i]);
        i = i + 1;
    }
    assert(body@.subrange(0, i as int) == body@);
    proof {
        lemma_envelope_unique(bytes@);
    }
    Some(p)
}

/// An envelope is the envelope of the payload it carries, and of no other.
pub proof fn lemma_envelope_unique(bytes: Seq<u8>)
    requires
        is_envelope(bytes),
    ensures
        bytes == envelope(carried_payload(bytes)),
{
    lemma_auto_spec_u32_to_from_le_bytes();
    lemma_auto_spec_u64_to_from_le_bytes();
    assert(bytes =~= bytes.subrange(0, 8) + bytes.subrange(8, 12) + carried_payload(bytes));
}

/// Framing loses nothing: the envelope of a payload is well formed, carries
/// that payload, and the checksum recomputed over the carried payload is the
/// checksum in the header.
pub proof fn lemma_frame_round_trip(payload: Seq<u8>)
    requires
        payload.len() <= u64::MAX,
    ensures
        is_envelope(envelope(payload)),
        carried_payload(envelope(payload)) == payload,
        crc32(carried_payload(envelope(payload))) == embedded_checksum(envelope(payload)),
        declared_len(envelope(payload)) == payload.len(),
{
    lemma_auto_spec_u32_to_from_le_bytes();
    lemma_auto_spec_u64_to_from_le_bytes();
    let e = envelope(payload);
    let len_bytes = spec_u64_to_le_bytes(payload.len() as u64);
    let sum_bytes = spec_u32_to_le_bytes(crc32(payload));
    assert(e.subrange(0, 8) =~= len_bytes);
    assert(e.subrange(8, 12) =~= sum_bytes);
    assert(e.subrange(12, e.len() as int) =~= payload);
}

} // verus!
