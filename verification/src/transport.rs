//! The serial transport, without the port: how a payload is cut into link
//! writes, which enumerated port belongs to a device, and the vocabulary of
//! link actions and their results that the session speaks.

use vstd::prelude::*;
use vstd::slice::slice_subrange;
use vstd::string::StrSliceExecFns;

verus! {

/// Bytes in one link write: the size of the device's USB endpoint.
pub const CHUNK_SIZE: usize = 64;

/// Read and write timeout of an opened port, in milliseconds.
pub const PORT_TIMEOUT_MS: u64 = 1000;

/// Number of writes that a payload of `len` bytes takes: `len / 64`, rounded up.
pub open spec fn chunk_count(len: nat) -> nat {
    ((len + 63) / 64) as nat
}

/// The `index`-th write of `payload`: its bytes from `64 * index` up to the
/// next multiple of 64 or the end, whichever comes first.
pub open spec fn chunk(payload: Seq<u8>, index: int) -> Seq<u8> {
    payload.subrange(
        64 * index,
        if 64 * (index + 1) <= payload.len() {
            64 * (index + 1)
        } else {
            payload.len() as int
        },
    )
}

/// The writes of `payload`, in the order in which they are issued.
pub open spec fn chunks(payload: Seq<u8>) -> Seq<Seq<u8>> {
    Seq::new(chunk_count(payload.len()), |index: int| chunk(payload, index))
}

/// The byte strings that a list of buffers holds.
pub open spec fn contents(buffers: Seq<Vec<u8>>) -> Seq<Seq<u8>> {
    buffers.map_values(|buffer: Vec<u8>| buffer@)
}

/// Cuts `payload` into its link writes.
pub fn split_chunks(payload: &[u8]) -> (out: Vec<Vec<u8>>)
    ensures
        contents(out@) == chunks(payload@),
{
    let len = payload.len();
    let count = if len % CHUNK_SIZE == 0 {
        len / CHUNK_SIZE
    } else {
        len / CHUNK_SIZE + 1
    };
    let mut out: Vec<Vec<u8>> = Vec::new();
    let mut index: usize = 0;
    while index < count
        invariant
            len == payload@.len(),
            count == chunk_count(len as nat),
            index <= count,
            out@.len() == index,
            forall|k: int| 0 <= k < out@.len() ==> (#[trigger] out@[k])@ == chunk(payload@, k),
        decreases count - index,
    {
        let start = index * CHUNK_SIZE;
        let end = if len - start > CHUNK_SIZE {
            start + CHUNK_SIZE
        } else {
            len
        };
        let piece = slice_subrange(payload, start, end);
        let mut bytes: Vec<u8> = Vec::new();
        let mut i: usize = 0;
        while i < piece.len()
            invariant
                i <= piece@.len(),
                bytes@ == piece@.subrange(0, i as int),
            decreases piece@.len() - i,
        {
            bytes.push(piece[i]);
            i = i + 1;
        }
        out.push(bytes);
        index = index + 1;
    }
    out
}

/// A payload of `P` bytes goes out in `P / 64` writes, rounded up; none is
/// empty, none is longer than 64 bytes, and end to end they are the payload.
pub proof fn lemma_chunks_cover(payload: Seq<u8>)
    ensures
        64 * (chunks(payload).len() - 1) < payload.len() <= 64 * chunks(payload).len(),
        forall|k: int|
            0 <= k < chunks(payload).len() ==> 1 <= (#[trigger] chunks(payload)[k]).len() <= 64,
        chunks(payload).flatten() == payload,
{
    lemma_chunks_prefix(payload, chunks(payload).len());
    assert(chunks(payload).take(chunks(payload).len() as int) == chunks(payload));
}

/// The first `k` writes of `payload`, end to end, are its first `64 * k`
/// bytes (all of it, once `k` reaches the last write).
proof fn lemma_chunks_prefix(payload: Seq<u8>, k: nat)
    requires
        k <= chunks(payload).len(),
    ensures
        chunks(payload).take(k as int).flatten() == payload.subrange(
            0,
            if 64 * k <= payload.len() {
                64 * k as int
            } else {
                payload.len() as int
            },
        ),
    decreases k,
{
    let all = chunks(payload);
    if k > 0 {
        lemma_chunks_prefix(payload, (k - 1) as nat);
        assert(all.take(k as int) =~= all.take(k - 1).push(all[k - 1]));
        all.take(k - 1).lemma_flatten_push(all[k - 1]);
        assert(all.take(k as int).flatten() =~= payload.subrange(0, 64 * (k - 1)) + chunk(
            payload,
            k - 1,
        ));
    }
}

/// The USB vendor and product numbers of a serial port.
#[derive(Clone, Copy, Debug, PartialEq, Eq)]
pub struct UsbId {
    pub vid: u16,
    pub pid: u16,
}

/// One enumerated serial port: its system name and, for a USB port, its
/// vendor and product numbers.
#[derive(Clone, Debug, PartialEq, Eq)]
pub struct PortInfo {
    pub name: String,
    pub usb: Option<UsbId>,
}

/// The lower-case hexadecimal digit of a value below 16.
pub open spec fn hex_digit(nibble: int) -> char {
    seq!['0', '1', '2', '3', '4', '5', '6', '7', '8', '9', 'a', 'b', 'c', 'd', 'e', 'f'][nibble]
}

/// The signature of a USB port: vendor number, then product number, each as
/// four lower-case hexadecimal digits.
pub open spec fn usb_signature(id: UsbId) -> Seq<char> {
    seq![
        hex_digit(id.vid as int / 4096),
        hex_digit(id.vid as int / 256 % 16),
        hex_digit(id.vid as int / 16 % 16),
        hex_digit(id.vid as int % 16),
        hex_digit(id.pid as int / 4096),
        hex_digit(id.pid as int / 256 % 16),
        hex_digit(id.pid as int / 16 % 16),
        hex_digit(id.pid as int % 16),
    ]
}

/// Whether `port` is a USB port with the given signature.
pub open spec fn port_matches(signature: Seq<char>, port: PortInfo) -> bool {
    port.usb matches Some(id) && signature == usb_signature(id)
}

/// The first port at or after position `from` that has the signature.
pub open spec fn first_match(signature: Seq<char>, ports: Seq<PortInfo>, from: int) -> Option<int>
    decreases ports.len() - from,
{
    if from < 0 || from >= ports.len() {
        None
    } else if port_matches(signature, ports[from]) {
        Some(from)
    } else {
        first_match(signature, ports, from + 1)
    }
}

fn hex_char(nibble: u16) -> (digit: char)
    requires
        nibble < 16,
    ensures
        digit == hex_digit(nibble as int),
{
    match nibble {
        0 => '0',
        1 => '1',
        2 => '2',
        3 => '3',
        4 => '4',
        5 => '5',
        6 => '6',
        7 => '7',
        8 => '8',
        9 => '9',
        10 => 'a',
        11 => 'b',
        12 => 'c',
        13 => 'd',
        14 => 'e',
        _ => 'f',
    }
}

/// Whether `signature` is the signature of the USB port `id`.
pub fn matches_signature(signature: &str, id: UsbId) -> (hit: bool)
    ensures
        hit == (signature@ == usb_signature(id)),
{
    if signature.unicode_len() != 8 {
        return false;
    }
    let hit = signature.get_char(0) == hex_char(id.vid / 4096)
        && signature.get_char(1) == hex_char(id.vid / 256 % 16)
        && signature.get_char(2) == hex_char(id.vid / 16 % 16)
        && signature.get_char(3) == hex_char(id.vid % 16)
        && signature.get_char(4) == hex_char(id.pid / 4096)
        && signature.get_char(5) == hex_char(id.pid / 256 % 16)
        && signature.get_char(6) == hex_char(id.pid / 16 % 16)
        && signature.get_char(7) == hex_char(id.pid % 16);
    assert(hit ==> signature@ =~= usb_signature(id));
    hit
}

/// Finds the first port at or after position `from` that has the signature.
pub fn next_candidate(signature: &str, ports: &Vec<PortInfo>, from: usize) -> (found: Option<usize>)
    ensures
        match found {
            Some(index) => first_match(signature@, ports@, from as int) == Some(index as int)
                && from <= index < ports@.len(),
            None => first_match(signature@, ports@, from as int) is None,
        },
{
    let mut index = from;
    while index < ports.len()
        invariant
            from <= index,
            first_match(signature@, ports@, from as int) == first_match(
                signature@,
                ports@,
                index as int,
            ),
        decreases ports@.len() - index,
    {
        let hit = match ports[index].usb {
            Some(id) => matches_signature(signature, id),
            None => false,
        };
        if hit {
            return Some(index);
        }
        index = index + 1;
    }
    None
}

/// What `first_match` finds is a matching port with none before it, and it
/// finds nothing only where no port from `from` on matches.
pub proof fn lemma_first_match(signature: Seq<char>, ports: Seq<PortInfo>, from: int)
    requires
        0 <= from,
    ensures
        match first_match(signature, ports, from) {
            Some(found) => {
                &&& from <= found < ports.len()
                &&& port_matches(signature, ports[found])
                &&& forall|k: int| from <= k < found ==> !port_matches(signature, #[trigger] ports[k])
            },
            None => forall|k: int|
                from <= k < ports.len() ==> !port_matches(signature, #[trigger] ports[k]),
        },
    decreases ports.len() - from,
{
    if from < ports.len() && !port_matches(signature, ports[from]) {
        lemma_first_match(signature, ports, from + 1);
    }
}

} // verus!
