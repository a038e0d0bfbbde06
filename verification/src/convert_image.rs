//! Pixel conversions between what the screens render and what the
//! displays and the preview take. Buffers are packed, three bytes a pixel.

use vstd::prelude::*;

verus! {

/// Where byte `i` of a buffer comes from when the first and the third
/// channel of each pixel change places.
pub open spec fn mirrored(i: int) -> int {
    i - i % 3 + (2 - i % 3)
}

/// `bytes` with the first and the third channel of each pixel exchanged.
pub open spec fn swapped(bytes: Seq<u8>) -> Seq<u8> {
    Seq::new(bytes.len(), |i: int| bytes[mirrored(i)])
}

/// A channel value at a brightness given in percent, capped at 255.
pub open spec fn dimmed(value: u8, brightness: u16) -> u8 {
    if value * brightness / 100 > 255 {
        255u8
    } else {
        (value * brightness / 100) as u8
    }
}

/// `bytes` with the channels of each pixel exchanged and every value
/// dimmed to `brightness` percent.
pub open spec fn dimmed_and_swapped(bytes: Seq<u8>, brightness: u16) -> Seq<u8> {
    Seq::new(bytes.len(), |i: int| dimmed(bytes[mirrored(i)], brightness))
}

/// `bytes` as four-byte pixels: the channels exchanged, then a fourth
/// channel that is fully opaque.
pub open spec fn with_alpha(bytes: Seq<u8>) -> Seq<u8> {
    Seq::new(
        (bytes.len() / 3 * 4) as nat,
        |i: int|
            if i % 4 == 3 {
                255u8
            } else {
                bytes[i / 4 * 3 + (2 - i % 4)]
            },
    )
}

/// Exchanges the first and the third channel of each pixel. The frame's
/// width and height are taken for the caller's convenience only: the
/// result has the length of `bytes`.
pub fn swap_rgb(bytes: &Vec<u8>, width: u32, height: u32) -> (out: Vec<u8>)
    requires
        bytes@.len() % 3 == 0,
    ensures
        out@ == swapped(bytes@),
{
    let mut out: Vec<u8> = Vec::with_capacity(bytes.len());
    let mut i: usize = 0;
    while i < bytes.len()
        invariant
            bytes@.len() % 3 == 0,
            i <= bytes@.len(),
            i % 3 == 0,
            out@ == swapped(bytes@).subrange(0, i as int),
        decreases bytes@.len() - i,
    {
        out.push(bytes[i + 2]);
        out.push(bytes[i + 1]);
        out.push(bytes[i]);
        i = i + 3;
    }
    out
}

fn dim(value: u8, brightness: u16) -> (out: u8)
    ensures
        out == dimmed(value, brightness),
{
    assert(value * brightness <= 255 * 65535) by (nonlinear_arith)
        requires
            value <= 255,
            brightness <= 65535,
    ;
    let scaled: u32 = value as u32 * brightness as u32 / 100;
    if scaled > 255 {
        255
    } else {
        scaled as u8
    }
}

/// Dims every channel value to `brightness` percent and exchanges the
/// first and the third channel of each pixel.
pub fn adjust_brightness_rgb(bytes: &Vec<u8>, brightness: u16) -> (out: Vec<u8>)
    requires
        bytes@.len() % 3 == 0,
    ensures
        out@ == dimmed_and_swapped(bytes@, brightness),
{
    let mut out: Vec<u8> = Vec::with_capacity(bytes.len());
    let mut i: usize = 0;
    while i < bytes.len()
        invariant
            bytes@.len() % 3 == 0,
            i <= bytes@.len(),
            i % 3 == 0,
            out@ == dimmed_and_swapped(bytes@, brightness).subrange(0, i as int),
        decreases bytes@.len() - i,
    {
        out.push(dim(bytes[i + 2], brightness));
        out.push(dim(bytes[i + 1], brightness));
        out.push(dim(bytes[i], brightness));
        i = i + 3;
    }
    assert(dimmed_and_swapped(bytes@, brightness).subrange(0, i as int) == dimmed_and_swapped(
        bytes@,
        brightness,
    ));
    out
}

/// Builds the four-byte pixels of the preview from a three-byte buffer.
pub fn rgb_bytes_to_rgba(bytes: &Vec<u8>) -> (out: Vec<u8>)
    requires
        bytes@.len() % 3 == 0,
    ensures
        out@ == with_alpha(bytes@),
{
    let mut out: Vec<u8> = Vec::new();
    let mut i: usize = 0;
    while i < bytes.len()
        invariant
            bytes@.len() % 3 == 0,
            i <= bytes@.len(),
            i % 3 == 0,
            out@ == with_alpha(bytes@).subrange(0, i / 3 * 4),
        decreases bytes@.len() - i,
    {
        out.push(bytes[i + 2]);
        out.push(bytes[i + 1]);
        out.push(bytes[i]);
        out.push(255);
        i = i + 3;
    }
    out
}

/// Two gray levels of four bits each in one byte, the first in the high half.
pub open spec fn packed_pair(first: u8, second: u8) -> u8 {
    (16 * first + second) as u8
}

/// The gray levels two to a byte.
pub open spec fn packed(levels: Seq<u8>) -> Seq<u8> {
    Seq::new(levels.len() / 2, |i: int| packed_pair(levels[2 * i], levels[2 * i + 1]))
}

/// Packs four-bit gray levels, one for each pixel, two to a byte, as the
/// primary display takes them.
pub fn pack_gray_levels(levels: &Vec<u8>) -> (out: Vec<u8>)
    requires
        levels@.len() % 2 == 0,
        forall|i: int| 0 <= i < levels@.len() ==> levels@[i] < 16,
    ensures
        out@ == packed(levels@),
{
    let mut out: Vec<u8> = Vec::with_capacity(levels.len() / 2);
    let mut i: usize = 0;
    while i < levels.len()
        invariant
            levels@.len() % 2 == 0,
            forall|k: int| 0 <= k < levels@.len() ==> levels@[k] < 16,
            i <= levels@.len(),
            i % 2 == 0,
            out@ == packed(levels@).subrange(0, i as int / 2),
        decreases levels@.len() - i,
    {
        let first = levels[i];
        let second = levels[i + 1];
        let pair = first << 4 | second;
        assert(pair == packed_pair(first, second)) by (bit_vector)
            requires
                first < 16,
                second < 16,
                pair == first << 4 | second,
        ;
        out.push(pair);
        i = i + 2;
    }
    out
}

/// Exchanging the channels twice gives the buffer back.
pub proof fn lemma_swap_twice(bytes: Seq<u8>)
    requires
        bytes.len() % 3 == 0,
    ensures
        swapped(swapped(bytes)) == bytes,
{
    assert forall|i: int| 0 <= i < bytes.len() implies swapped(swapped(bytes))[i] == bytes[i] by {
        assert(mirrored(mirrored(i)) == i);
    }
}

} // verus!
