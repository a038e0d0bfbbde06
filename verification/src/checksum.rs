//! The 32-bit checksum shared by the packet framer and the frame pipeline.

use vstd::prelude::*;

verus! {

/// The CRC-32 of a byte string as `crc32fast::hash` computes it.
pub uninterp spec fn crc32(data: Seq<u8>) -> u32;

/// Calls `crc32fast::hash`. The contract only gives the result its name: it
/// depends on the bytes alone, on every machine.
#[verifier::external_body]
fn hash(data: &[u8]) -> (sum: u32)
    ensures
        sum == crc32(data@),
{
    crc32fast::hash(data)
}

/// The checksum of `data`.
pub fn checksum(data: &[u8]) -> (sum: u32)
    ensures
        sum == crc32(data@),
{
    hash(data)
}

} // verus!
