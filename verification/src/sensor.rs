//! The environment sensor's reply: a fixed-length text of two fields
//! separated by a space and padded with NUL bytes.

use vstd::prelude::*;
use vstd::slice::{slice_subrange, slice_to_vec};
use vstd::utf8::{decode_utf8, valid_utf8};

verus! {

/// Length of the sensor's reply in bytes.
pub const SENSOR_REPLY_LEN: usize = 14;

/// How long the sensor is left alone between two reads, in milliseconds.
pub const SENSOR_POLL_MS: u64 = 2000;

/// `bytes` without the NUL bytes at its end.
pub open spec fn trimmed(bytes: Seq<u8>) -> Seq<u8>
    decreases bytes.len(),
{
    if bytes.len() > 0 && bytes.last() == 0 {
        trimmed(bytes.drop_last())
    } else {
        bytes
    }
}

/// Where the field that starts at `from` ends: the position of the first
/// space at or after `from`, or the length of `bytes` if there is none.
pub open spec fn field_end(bytes: Seq<u8>, from: int) -> int
    decreases bytes.len() - from,
{
    if from < 0 || from >= bytes.len() {
        bytes.len() as int
    } else if bytes[from] == 0x20 {
        from
    } else {
        field_end(bytes, from + 1)
    }
}

/// The bytes in front of the first space.
pub open spec fn first_field(bytes: Seq<u8>) -> Seq<u8> {
    bytes.subrange(0, field_end(bytes, 0))
}

/// The bytes between the first space and the second, empty where `bytes`
/// has no space.
pub open spec fn second_field(bytes: Seq<u8>) -> Seq<u8> {
    let first_end = field_end(bytes, 0);
    if first_end >= bytes.len() {
        Seq::empty()
    } else {
        bytes.subrange(first_end + 1, field_end(bytes, first_end + 1))
    }
}

/// The text that `bytes` encodes, empty where they are not UTF-8.
pub open spec fn text_of(bytes: Seq<u8>) -> Seq<char> {
    if valid_utf8(bytes) {
        decode_utf8(bytes)
    } else {
        Seq::empty()
    }
}

/// The two fields of a sensor reply. A reply that is not UTF-8 has none.
pub open spec fn reading(reply: Seq<u8>) -> (Seq<char>, Seq<char>) {
    if valid_utf8(reply) {
        (text_of(first_field(trimmed(reply))), text_of(second_field(trimmed(reply))))
    } else {
        (Seq::empty(), Seq::empty())
    }
}

/// Calls `String::from_utf8`, which gives back the text only if the bytes
/// are valid UTF-8, and then the characters they encode.
#[verifier::external_body]
fn text_from_utf8(bytes: Vec<u8>) -> (text: Option<String>)
    ensures
        text is Some <==> valid_utf8(bytes@),
        text matches Some(t) ==> t@ == decode_utf8(bytes@),
{
    match String::from_utf8(bytes) {
        Ok(text) => Some(text),
        Err(_) => None,
    }
}

fn field_text(bytes: &[u8]) -> (text: String)
    ensures
        text@ == text_of(bytes@),
{
    match text_from_utf8(slice_to_vec(bytes)) {
        Some(text) => text,
        None => String::new(),
    }
}

fn find_field_end(bytes: &[u8], from: usize) -> (end: usize)
    requires
        from <= bytes@.len(),
    ensures
        end == field_end(bytes@, from as int),
        from <= end <= bytes@.len(),
{
    let mut end = from;
    while end < bytes.len() && bytes[end] != 0x20
        invariant
            from <= end <= bytes@.len(),
            field_end(bytes@, from as int) == field_end(bytes@, end as int),
        decreases bytes@.len() - end,
    {
        end = end + 1;
    }
    end
}

/// Splits a sensor reply into its two fields.
pub fn parse_reading(reply: &[u8]) -> (fields: (String, String))
    ensures
        fields.0@ == reading(reply@).0,
        fields.1@ == reading(reply@).1,
{
    if text_from_utf8(slice_to_vec(reply)).is_none() {
        return (String::new(), String::new());
    }
    let mut len = reply.len();
    assert(reply@.subrange(0, len as int) == reply@);
    while len > 0 && reply[len - 1] == 0
        invariant
            len <= reply@.len(),
            trimmed(reply@) == trimmed(reply@.subrange(0, len as int)),
        decreases len,
    {
        assert(reply@.subrange(0, len as int).drop_last() == reply@.subrange(0, len - 1));
        len = len - 1;
    }
    let body = slice_subrange(reply, 0, len);
    let first_end = find_field_end(body, 0);
    let first = field_text(slice_subrange(body, 0, first_end));
    if first_end >= body.len() {
        return (first, String::new());
    }
    let second_end = find_field_end(body, first_end + 1);
    let second = field_text(slice_subrange(body, first_end + 1, second_end));
    (first, second)
}

/// Whether a reading is worth keeping: both fields are there.
pub open spec fn is_complete(fields: (Seq<char>, Seq<char>)) -> bool {
    fields.0.len() > 0 && fields.1.len() > 0
}

/// Publishes a fresh reading into the last-reading slot. A reading with an
/// empty field is skipped, so a failed read never erases the last good one.
pub fn publish_reading(slot: &mut (String, String), fresh: (String, String)) -> (published: bool)
    ensures
        published == is_complete((fresh.0@, fresh.1@)),
        published ==> *final(slot) == fresh,
        !published ==> *final(slot) == *old(slot),
{
    if fresh.0.as_str().is_empty() || fresh.1.as_str().is_empty() {
        false
    } else {
        *slot = fresh;
        true
    }
}

} // verus!
