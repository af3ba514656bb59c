//! Byte encoding of spectrum scalars for the display buffers.
//!
//! The encoding in force is the lossless one: each bin contributes the four
//! bytes of its power's IEEE-754 bit pattern, most significant byte first.
//! The renderer maps those bytes to a colour on its side.

use crate::frame::FrequencyBinPoint;
use vstd::prelude::*;

verus! {

/// Bytes stored per frequency bin.
pub const BYTES_PER_BIN: usize = 4;

/// The four bytes of `bits`, most significant first.
pub open spec fn be_bytes(bits: u32) -> Seq<u8> {
    seq![
        (bits / 0x100_0000) as u8,
        (bits / 0x1_0000 % 0x100) as u8,
        (bits / 0x100 % 0x100) as u8,
        (bits % 0x100) as u8,
    ]
}

/// The 32-bit value whose big-endian bytes are the first four of `bytes`.
pub open spec fn from_be_bytes(bytes: Seq<u8>) -> u32 {
    (bytes[0] * 0x100_0000 + bytes[1] * 0x1_0000 + bytes[2] * 0x100 + bytes[3]) as u32
}

/// Decoding inverts encoding exactly.
pub proof fn lemma_be_bytes_round_trip(bits: u32)
    ensures
        be_bytes(bits).len() == 4,
        from_be_bytes(be_bytes(bits)) == bits,
{
    let b0: u32 = bits / 0x100_0000;
    let b1: u32 = bits / 0x1_0000 % 0x100;
    let b2: u32 = bits / 0x100 % 0x100;
    let b3: u32 = bits % 0x100;
    assert(b0 < 0x100 && b1 < 0x100 && b2 < 0x100 && b3 < 0x100 && bits == b0 * 0x100_0000 + b1
        * 0x1_0000 + b2 * 0x100 + b3) by (bit_vector)
        requires
            b0 == bits / 0x100_0000,
            b1 == bits / 0x1_0000 % 0x100,
            b2 == bits / 0x100 % 0x100,
            b3 == bits % 0x100,
    ;
}

/// Encoding inverts decoding: four bytes decode to the one value that
/// encodes to them.
pub proof fn lemma_from_be_bytes_round_trip(bytes: Seq<u8>)
    requires
        bytes.len() == 4,
    ensures
        be_bytes(from_be_bytes(bytes)) == bytes,
{
    let b0: u32 = bytes[0] as u32;
    let b1: u32 = bytes[1] as u32;
    let b2: u32 = bytes[2] as u32;
    let b3: u32 = bytes[3] as u32;
    let bits: u32 = from_be_bytes(bytes);
    assert(bits == b0 * 0x100_0000 + b1 * 0x1_0000 + b2 * 0x100 + b3);
    assert(bits / 0x100_0000 == b0 && bits / 0x1_0000 % 0x100 == b1 && bits / 0x100 % 0x100 == b2
        && bits % 0x100 == b3) by (bit_vector)
        requires
            b0 < 0x100,
            b1 < 0x100,
            b2 < 0x100,
            b3 < 0x100,
            bits == b0 * 0x100_0000 + b1 * 0x1_0000 + b2 * 0x100 + b3,
    ;
    assert(be_bytes(bits) =~= bytes);
}

/// Splits a bit pattern into its big-endian bytes.
pub fn to_be_bytes(bits: u32) -> (out: [u8; 4])
    ensures
        out@ == be_bytes(bits),
{
    let b0: u8 = (bits >> 24) as u8;
    let b1: u8 = ((bits >> 16) & 0xff) as u8;
    let b2: u8 = ((bits >> 8) & 0xff) as u8;
    let b3: u8 = (bits & 0xff) as u8;
    assert(bits >> 24 == bits / 0x100_0000) by (bit_vector);
    assert((bits >> 16) & 0xff == bits / 0x1_0000 % 0x100) by (bit_vector);
    assert((bits >> 8) & 0xff == bits / 0x100 % 0x100) by (bit_vector);
    assert(bits & 0xff == bits % 0x100) by (bit_vector);
    let out: [u8; 4] = [b0, b1, b2, b3];
    assert(out@ =~= be_bytes(bits));
    out
}

/// A scanline on which nothing has been drawn yet: `width` bins of zero bytes.
pub open spec fn blank_line(width: nat) -> Seq<u8> {
    Seq::new(4 * width, |k: int| 0u8)
}

/// The scanline `line` after `frame` has been drawn over it.
///
/// Bin `i` of the frame lands in bytes `4 * i .. 4 * i + 4`. Bins of the frame
/// that lie beyond the end of the line are dropped; bins of the line that the
/// frame does not reach keep what they held.
pub open spec fn overlay(line: Seq<u8>, frame: Seq<FrequencyBinPoint>) -> Seq<u8> {
    Seq::new(
        line.len(),
        |k: int|
            if k / 4 < frame.len() {
                be_bytes(frame[k / 4].power)[k % 4]
            } else {
                line[k]
            },
    )
}

/// The encoding of `frame` as a scanline of `width` bins.
pub open spec fn scanline(frame: Seq<FrequencyBinPoint>, width: nat) -> Seq<u8> {
    overlay(blank_line(width), frame)
}

/// The powers held by a scanline, one per complete group of four bytes.
pub open spec fn decoded_powers(bytes: Seq<u8>) -> Seq<u32> {
    Seq::new(bytes.len() / 4, |i: int| from_be_bytes(bytes.subrange(4 * i, 4 * i + 4)))
}

/// Drawing a frame over a line and decoding the result gives back, bit for
/// bit, the power of every bin that was drawn, and the previous content of
/// every bin that was not.
pub proof fn lemma_overlay_round_trip(line: Seq<u8>, frame: Seq<FrequencyBinPoint>, i: int)
    requires
        0 <= i < line.len() / 4,
    ensures
        decoded_powers(overlay(line, frame)).len() == line.len() / 4,
        i < frame.len() ==> decoded_powers(overlay(line, frame))[i] == frame[i].power,
        i >= frame.len() ==> decoded_powers(overlay(line, frame))[i] == decoded_powers(line)[i],
{
    let drawn = overlay(line, frame);
    let group = drawn.subrange(4 * i, 4 * i + 4);
    if i < frame.len() {
        assert(group =~= be_bytes(frame[i].power));
        lemma_be_bytes_round_trip(frame[i].power);
    } else {
        assert(group =~= line.subrange(4 * i, 4 * i + 4));
    }
}

/// Encoding a frame that fills the line and decoding it again reproduces the
/// power of each of the first `width` bins exactly.
pub proof fn lemma_scanline_round_trip(frame: Seq<FrequencyBinPoint>, width: nat)
    requires
        frame.len() >= width,
    ensures
        decoded_powers(scanline(frame, width)) == Seq::new(width, |i: int| frame[i].power),
{
    let decoded = decoded_powers(scanline(frame, width));
    assert(decoded.len() == width);
    assert forall|i: int| 0 <= i < width implies decoded[i] == frame[i].power by {
        lemma_overlay_round_trip(blank_line(width), frame, i);
    }
    assert(decoded =~= Seq::new(width, |i: int| frame[i].power));
}

/// Draws `frame` over the `width` bins of `buf` that start at byte `base`.
pub fn write_bins(buf: &mut Vec<u8>, base: usize, width: usize, frame: &[FrequencyBinPoint])
    requires
        base + 4 * width <= old(buf)@.len(),
    ensures
        final(buf)@ == old(buf)@.subrange(0, base as int) + overlay(
            old(buf)@.subrange(base as int, base + 4 * width),
            frame@,
        ) + old(buf)@.subrange(base + 4 * width, old(buf)@.len() as int),
{
    let ghost before = buf@;
    let mut i: usize = 0;
    while i < width && i < frame.len()
        invariant
            i <= width,
            i <= frame.len(),
            buf.len() == before.len(),
            base + 4 * width <= before.len(),
            forall|k: int|
                0 <= k < before.len() ==> #[trigger] buf@[k] == if base <= k < base + 4 * i {
                    be_bytes(frame@[(k - base) / 4].power)[(k - base) % 4]
                } else {
                    before[k]
                },
        decreases width - i,
    {
        let bytes: [u8; 4] = to_be_bytes(frame[i].power);
        let at: usize = base + 4 * i;
        buf.set(at, bytes[0]);
        buf.set(at + 1, bytes[1]);
        buf.set(at + 2, bytes[2]);
        buf.set(at + 3, bytes[3]);
        i += 1;
    }
    assert(buf@ =~= before.subrange(0, base as int) + overlay(
        before.subrange(base as int, base + 4 * width),
        frame@,
    ) + before.subrange(base + 4 * width, before.len() as int));
}

/// Reads back the powers stored in a scanline.
pub fn decode_scanline(bytes: &[u8]) -> (powers: Vec<u32>)
    ensures
        powers@ == decoded_powers(bytes@),
{
    let count: usize = bytes.len() / 4;
    let mut powers: Vec<u32> = Vec::new();
    let mut i: usize = 0;
    while i < count
        invariant
            count == bytes.len() / 4,
            i <= count,
            powers@.len() == i,
            forall|j: int| 0 <= j < i ==> #[trigger] powers@[j] == decoded_powers(bytes@)[j],
        decreases count - i,
    {
        let at: usize = 4 * i;
        let b0: u32 = bytes[at] as u32;
        let b1: u32 = bytes[at + 1] as u32;
        let b2: u32 = bytes[at + 2] as u32;
        let b3: u32 = bytes[at + 3] as u32;
        let bits: u32 = b0 * 0x100_0000 + b1 * 0x1_0000 + b2 * 0x100 + b3;
        assert(bits == from_be_bytes(bytes@.subrange(4 * i, 4 * i + 4)));
        powers.push(bits);
        i += 1;
    }
    assert(powers@ =~= decoded_powers(bytes@));
    powers
}

} // verus!
