use vstd::prelude::*;

verus! {

// Displacement fields of x86 instructions are little-endian two's-complement
// words. The spec functions here fix that encoding once; the decoder, the
// planner, the trampoline builder and the execution model all speak of it.

/// The unsigned value stored by four little-endian bytes.
pub open spec fn word32(b0: u8, b1: u8, b2: u8, b3: u8) -> int {
    b0 + 256 * b1 + 65536 * b2 + 16777216 * b3
}

/// The four little-endian bytes of an unsigned 32-bit value.
pub open spec fn le32(w: u32) -> Seq<u8> {
    seq![
        (w % 256) as u8,
        ((w / 256) % 256) as u8,
        ((w / 65536) % 256) as u8,
        ((w / 16777216) % 256) as u8,
    ]
}

/// The word that encodes a signed 32-bit displacement in two's complement.
pub open spec fn disp32_word(d: int) -> u32 {
    if d < 0 {
        (d + 0x1_0000_0000) as u32
    } else {
        d as u32
    }
}

/// The signed reading of an unsigned 32-bit value as two's complement.
pub open spec fn signed32(u: int) -> int {
    if u >= 0x8000_0000 {
        u - 0x1_0000_0000
    } else {
        u
    }
}

/// The signed reading of one byte as two's complement.
pub open spec fn signed8(b: u8) -> int {
    if b >= 0x80 {
        b - 0x100
    } else {
        b as int
    }
}

/// The byte that encodes a signed 8-bit displacement in two's complement.
pub open spec fn disp8_byte(d: int) -> u8 {
    if d < 0 {
        (d + 0x100) as u8
    } else {
        d as u8
    }
}

/// Whether a displacement is encodable as a signed 32-bit immediate.
pub open spec fn fits_i32(d: int) -> bool {
    -0x8000_0000 <= d < 0x8000_0000
}

/// Whether a displacement is encodable as a signed 8-bit immediate.
pub open spec fn fits_i8(d: int) -> bool {
    -0x80 <= d < 0x80
}

/// The unsigned value stored by eight little-endian bytes.
pub open spec fn word64(b: Seq<u8>) -> int
    recommends
        b.len() == 8,
{
    b[0] + 256 * b[1] + 65536 * b[2] + 16777216 * b[3] + 0x1_0000_0000 * b[4]
        + 0x100_0000_0000 * b[5] + 0x1_0000_0000_0000 * b[6] + 0x100_0000_0000_0000 * b[7]
}

/// The eight little-endian bytes of an unsigned 64-bit value.
pub open spec fn le64(w: u64) -> Seq<u8> {
    seq![
        (w % 256) as u8,
        ((w / 256) % 256) as u8,
        ((w / 65536) % 256) as u8,
        ((w / 16777216) % 256) as u8,
        ((w / 0x1_0000_0000) % 256) as u8,
        ((w / 0x100_0000_0000) % 256) as u8,
        ((w / 0x1_0000_0000_0000) % 256) as u8,
        ((w / 0x100_0000_0000_0000) % 256) as u8,
    ]
}

/// Reassembling the four little-endian bytes of a word yields the word back.
pub proof fn lemma_word32_le32(w: u32)
    ensures
        word32(le32(w)[0], le32(w)[1], le32(w)[2], le32(w)[3]) == w,
{
    assert((w % 256) as u8 + 256 * (((w / 256) % 256) as u8) + 65536 * (((w / 65536) % 256) as u8)
        + 16777216 * (((w / 16777216) % 256) as u8) == w) by (bit_vector);
}

/// Reassembling the eight little-endian bytes of a word yields the word back.
pub proof fn lemma_word64_le64(w: u64)
    ensures
        word64(le64(w)) == w,
{
    assert((w % 256) as u8 + 256 * (((w / 256) % 256) as u8) + 65536 * (((w / 65536) % 256) as u8)
        + 16777216 * (((w / 16777216) % 256) as u8) + 0x1_0000_0000 * (((w / 0x1_0000_0000)
        % 256) as u8) + 0x100_0000_0000 * (((w / 0x100_0000_0000) % 256) as u8)
        + 0x1_0000_0000_0000 * (((w / 0x1_0000_0000_0000) % 256) as u8) + 0x100_0000_0000_0000 * (((
    w / 0x100_0000_0000_0000) % 256) as u8) == w) by (bit_vector);
}

/// A signed 32-bit displacement survives encoding and signed re-reading.
pub proof fn lemma_disp32_round_trip(d: int)
    requires
        fits_i32(d),
    ensures
        signed32(word32(le32(disp32_word(d))[0], le32(disp32_word(d))[1], le32(disp32_word(d))[2],
            le32(disp32_word(d))[3])) == d,
{
    let w = disp32_word(d);
    lemma_word32_le32(w);
}

/// Appends the little-endian encoding of a 32-bit word.
pub fn push_le32(out: &mut Vec<u8>, w: u32)
    ensures
        final(out)@ == old(out)@ + le32(w),
{
    out.push((w % 256) as u8);
    out.push(((w / 256) % 256) as u8);
    out.push(((w / 65536) % 256) as u8);
    out.push(((w / 16777216) % 256) as u8);
    proof {
        assert(out@ =~= old(out)@ + le32(w));
    }
}

/// Appends the little-endian encoding of a 64-bit word.
pub fn push_le64(out: &mut Vec<u8>, w: u64)
    ensures
        final(out)@ == old(out)@ + le64(w),
{
    out.push((w % 256) as u8);
    out.push(((w / 256) % 256) as u8);
    out.push(((w / 65536) % 256) as u8);
    out.push(((w / 16777216) % 256) as u8);
    out.push(((w / 0x1_0000_0000) % 256) as u8);
    out.push(((w / 0x100_0000_0000) % 256) as u8);
    out.push(((w / 0x1_0000_0000_0000) % 256) as u8);
    out.push(((w / 0x100_0000_0000_0000) % 256) as u8);
    proof {
        assert(out@ =~= old(out)@ + le64(w));
    }
}

/// Encodes a signed displacement as its unsigned 32-bit word.
pub fn disp32_encode(d: i64) -> (w: u32)
    requires
        fits_i32(d as int),
    ensures
        w == disp32_word(d as int),
{
    if d < 0 {
        (d + 0x1_0000_0000) as u32
    } else {
        d as u32
    }
}

/// Encodes a signed displacement as its 8-bit two's-complement byte.
pub fn disp8_encode(d: i64) -> (b: u8)
    requires
        fits_i8(d as int),
    ensures
        b == disp8_byte(d as int),
{
    if d < 0 {
        (d + 0x100) as u8
    } else {
        d as u8
    }
}

/// Reads four little-endian bytes as an unsigned word.
pub fn read_word32(b0: u8, b1: u8, b2: u8, b3: u8) -> (u: u32)
    ensures
        u as int == word32(b0, b1, b2, b3),
{
    b0 as u32 + 256 * (b1 as u32) + 65536 * (b2 as u32) + 16777216 * (b3 as u32)
}

/// Reads an unsigned 32-bit value as a signed two's-complement quantity.
pub fn signed32_of(u: u32) -> (d: i64)
    ensures
        d as int == signed32(u as int),
{
    if u >= 0x8000_0000 {
        u as i64 - 0x1_0000_0000
    } else {
        u as i64
    }
}

/// Reads one byte as a signed two's-complement quantity.
pub fn signed8_of(b: u8) -> (d: i64)
    ensures
        d as int == signed8(b),
{
    if b >= 0x80 {
        b as i64 - 0x100
    } else {
        b as i64
    }
}

} // verus!
