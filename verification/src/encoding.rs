//! Byte layouts of the integers the streams carry, and their laws.

use vstd::prelude::*;

verus! {

/// `dst` with `src` laid over it from index `at` on.
pub open spec fn splice(dst: Seq<u8>, at: int, src: Seq<u8>) -> Seq<u8> {
    dst.subrange(0, at) + src + dst.subrange(at + src.len(), dst.len() as int)
}

/// `len` copies of `byte`.
pub open spec fn repeat_byte(byte: u8, len: nat) -> Seq<u8> {
    Seq::new(len, |i: int| byte)
}

/// The two bytes of `v`, least significant first.
pub open spec fn u16_le_bytes(v: u16) -> Seq<u8> {
    seq![(v % 256) as u8, (v / 256) as u8]
}

/// The two bytes of `v`, most significant first.
pub open spec fn u16_be_bytes(v: u16) -> Seq<u8> {
    seq![(v / 256) as u8, (v % 256) as u8]
}

/// The four bytes of `v`, least significant first.
pub open spec fn u32_le_bytes(v: u32) -> Seq<u8> {
    seq![
        (v % 0x100) as u8,
        ((v / 0x100) % 0x100) as u8,
        ((v / 0x1_0000) % 0x100) as u8,
        (v / 0x100_0000) as u8,
    ]
}

/// The four bytes of `v`, most significant first.
pub open spec fn u32_be_bytes(v: u32) -> Seq<u8> {
    seq![
        (v / 0x100_0000) as u8,
        ((v / 0x1_0000) % 0x100) as u8,
        ((v / 0x100) % 0x100) as u8,
        (v % 0x100) as u8,
    ]
}

/// The number whose least significant byte is `s[0]` and next is `s[1]`.
pub open spec fn u16_from_le(s: Seq<u8>) -> int {
    s[0] + s[1] * 0x100
}

/// The number whose most significant byte is `s[0]` and next is `s[1]`.
pub open spec fn u16_from_be(s: Seq<u8>) -> int {
    s[0] * 0x100 + s[1]
}

/// The number whose bytes, least significant first, are `s[0..4]`.
pub open spec fn u32_from_le(s: Seq<u8>) -> int {
    s[0] + s[1] * 0x100 + s[2] * 0x1_0000 + s[3] * 0x100_0000
}

/// The number whose bytes, most significant first, are `s[0..4]`.
pub open spec fn u32_from_be(s: Seq<u8>) -> int {
    s[0] * 0x100_0000 + s[1] * 0x1_0000 + s[2] * 0x100 + s[3]
}

/// Decoding the little-endian bytes of a `u16` gives the value back, and
/// encoding what two bytes decode to gives the two bytes back.
pub proof fn lemma_u16_le_roundtrip(v: u16, s: Seq<u8>)
    requires
        s.len() == 2,
    ensures
        u16_le_bytes(v).len() == 2,
        u16_from_le(u16_le_bytes(v)) == v,
        0 <= u16_from_le(s) <= u16::MAX,
        u16_le_bytes(u16_from_le(s) as u16) == s,
{
    let b0 = s[0];
    let b1 = s[1];
    assert(((b0 as u16 + b1 as u16 * 256) as u16) % 256 == b0 && ((b0 as u16 + b1 as u16
        * 256) as u16) / 256 == b1) by (bit_vector);
    assert(u16_le_bytes(u16_from_le(s) as u16) =~= s);
}

/// Decoding the big-endian bytes of a `u16` gives the value back, and
/// encoding what two bytes decode to gives the two bytes back.
pub proof fn lemma_u16_be_roundtrip(v: u16, s: Seq<u8>)
    requires
        s.len() == 2,
    ensures
        u16_be_bytes(v).len() == 2,
        u16_from_be(u16_be_bytes(v)) == v,
        0 <= u16_from_be(s) <= u16::MAX,
        u16_be_bytes(u16_from_be(s) as u16) == s,
{
    let b0 = s[0];
    let b1 = s[1];
    assert(((b0 as u16 * 256 + b1 as u16) as u16) % 256 == b1 && ((b0 as u16 * 256
        + b1 as u16) as u16) / 256 == b0) by (bit_vector);
    assert(u16_be_bytes(u16_from_be(s) as u16) =~= s);
}

/// Decoding the little-endian bytes of a `u32` gives the value back, and
/// encoding what four bytes decode to gives the four bytes back.
pub proof fn lemma_u32_le_roundtrip(v: u32, s: Seq<u8>)
    requires
        s.len() == 4,
    ensures
        u32_le_bytes(v).len() == 4,
        u32_from_le(u32_le_bytes(v)) == v,
        0 <= u32_from_le(s) <= u32::MAX,
        u32_le_bytes(u32_from_le(s) as u32) == s,
{
    assert(v % 0x100 + ((v / 0x100) % 0x100) * 0x100 + ((v / 0x1_0000) % 0x100) * 0x1_0000 + (v
        / 0x100_0000) * 0x100_0000 == v) by (bit_vector);
    let b0 = s[0];
    let b1 = s[1];
    let b2 = s[2];
    let b3 = s[3];
    assert({
        let x = b0 as u32 + b1 as u32 * 0x100 + b2 as u32 * 0x1_0000 + b3 as u32 * 0x100_0000;
        &&& b0 as int + b1 as int * 0x100 + b2 as int * 0x1_0000 + b3 as int * 0x100_0000 <= u32::MAX
        &&& x % 0x100 == b0
        &&& (x / 0x100) % 0x100 == b1
        &&& (x / 0x1_0000) % 0x100 == b2
        &&& x / 0x100_0000 == b3
    }) by (bit_vector);
    assert(u32_le_bytes(u32_from_le(s) as u32) =~= s);
}

/// Decoding the big-endian bytes of a `u32` gives the value back, and
/// encoding what four bytes decode to gives the four bytes back.
pub proof fn lemma_u32_be_roundtrip(v: u32, s: Seq<u8>)
    requires
        s.len() == 4,
    ensures
        u32_be_bytes(v).len() == 4,
        u32_from_be(u32_be_bytes(v)) == v,
        0 <= u32_from_be(s) <= u32::MAX,
        u32_be_bytes(u32_from_be(s) as u32) == s,
{
    assert((v / 0x100_0000) * 0x100_0000 + ((v / 0x1_0000) % 0x100) * 0x1_0000 + ((v / 0x100)
        % 0x100) * 0x100 + v % 0x100 == v) by (bit_vector);
    let b0 = s[0];
    let b1 = s[1];
    let b2 = s[2];
    let b3 = s[3];
    assert({
        let x = b0 as u32 * 0x100_0000 + b1 as u32 * 0x1_0000 + b2 as u32 * 0x100 + b3 as u32;
        &&& b0 as int * 0x100_0000 + b1 as int * 0x1_0000 + b2 as int * 0x100 + b3 as int <= u32::MAX
        &&& x / 0x100_0000 == b0
        &&& (x / 0x1_0000) % 0x100 == b1
        &&& (x / 0x100) % 0x100 == b2
        &&& x % 0x100 == b3
    }) by (bit_vector);
    assert(u32_be_bytes(u32_from_be(s) as u32) =~= s);
}

/// Bytes laid over a buffer are read back as they were laid, the buffer keeps
/// its length, everything around them is kept, the buffer's prefix up to
/// their end is the old prefix followed by them, and any longer prefix of
/// the buffer still holds them at the same place.
pub proof fn lemma_splice_reads_back(dst: Seq<u8>, at: int, src: Seq<u8>)
    requires
        0 <= at,
        at + src.len() <= dst.len(),
    ensures
        splice(dst, at, src).len() == dst.len(),
        splice(dst, at, src).subrange(at, at + src.len()) == src,
        splice(dst, at, src).subrange(0, at) == dst.subrange(0, at),
        splice(dst, at, src).subrange(0, at + src.len()) == dst.subrange(0, at) + src,
        splice(dst, at, src).subrange(at + src.len(), dst.len() as int) == dst.subrange(
            at + src.len(),
            dst.len() as int,
        ),
        forall|end: int|
            at + src.len() <= end <= dst.len() ==> #[trigger] splice(dst, at, src).subrange(
                0,
                end,
            ).subrange(at, at + src.len()) == src,
{
    let r = splice(dst, at, src);
    assert(r.subrange(at, at + src.len()) =~= src);
    assert(r.subrange(0, at) =~= dst.subrange(0, at));
    assert(r.subrange(0, at + src.len()) =~= dst.subrange(0, at) + src);
    assert(r.subrange(at + src.len(), dst.len() as int) =~= dst.subrange(
        at + src.len(),
        dst.len() as int,
    ));
}

/// A two-byte read at the place of a two-byte write gives back the value
/// written, in either byte order.
pub proof fn lemma_write_then_read_u16(dst: Seq<u8>, at: int, v: u16)
    requires
        0 <= at,
        at + 2 <= dst.len(),
    ensures
        u16_from_le(splice(dst, at, u16_le_bytes(v)).subrange(at, at + 2)) == v,
        u16_from_be(splice(dst, at, u16_be_bytes(v)).subrange(at, at + 2)) == v,
{
    let s2 = seq![0u8, 0u8];
    lemma_u16_le_roundtrip(v, s2);
    lemma_u16_be_roundtrip(v, s2);
    lemma_splice_reads_back(dst, at, u16_le_bytes(v));
    lemma_splice_reads_back(dst, at, u16_be_bytes(v));
}

/// A four-byte read at the place of a four-byte write gives back the value
/// written, in either byte order.
pub proof fn lemma_write_then_read_u32(dst: Seq<u8>, at: int, v: u32)
    requires
        0 <= at,
        at + 4 <= dst.len(),
    ensures
        u32_from_le(splice(dst, at, u32_le_bytes(v)).subrange(at, at + 4)) == v,
        u32_from_be(splice(dst, at, u32_be_bytes(v)).subrange(at, at + 4)) == v,
{
    let s4 = seq![0u8, 0u8, 0u8, 0u8];
    lemma_u32_le_roundtrip(v, s4);
    lemma_u32_be_roundtrip(v, s4);
    lemma_splice_reads_back(dst, at, u32_le_bytes(v));
    lemma_splice_reads_back(dst, at, u32_be_bytes(v));
}

/// The little-endian layout of a `u16` puts the low byte first and the high
/// byte second, the big-endian layout is the same two bytes the other way
/// round, and two bytes are read back with the first as the low byte
/// (little-endian) or as the high byte (big-endian).
pub proof fn lemma_u16_layout(v: u16, s: Seq<u8>)
    requires
        s.len() == 2,
    ensures
        u16_le_bytes(v).len() == 2,
        u16_le_bytes(v)[0] == v % 256,
        u16_le_bytes(v)[1] == v / 256,
        u16_be_bytes(v).len() == 2,
        u16_be_bytes(v)[0] == v / 256,
        u16_be_bytes(v)[1] == v % 256,
        u16_be_bytes(v) == u16_le_bytes(v).reverse(),
        u16_from_le(s) == s[0] + 256 * s[1],
        u16_from_be(s) == 256 * s[0] + s[1],
{
    assert(u16_be_bytes(v) =~= u16_le_bytes(v).reverse());
}

/// The little-endian layout of a `u32` puts byte `i` of the value, counted
/// from the low end, at place `i`; the big-endian layout is the same four
/// bytes the other way round; four bytes are read back as the sum of each
/// byte times 256 to the power of its place counted from the low end.
pub proof fn lemma_u32_layout(v: u32, s: Seq<u8>)
    requires
        s.len() == 4,
    ensures
        u32_le_bytes(v).len() == 4,
        u32_le_bytes(v)[0] == v % 256,
        u32_le_bytes(v)[1] == (v / 256) % 256,
        u32_le_bytes(v)[2] == (v / 65536) % 256,
        u32_le_bytes(v)[3] == (v / 16777216) % 256,
        u32_be_bytes(v).len() == 4,
        u32_be_bytes(v)[0] == (v / 16777216) % 256,
        u32_be_bytes(v)[1] == (v / 65536) % 256,
        u32_be_bytes(v)[2] == (v / 256) % 256,
        u32_be_bytes(v)[3] == v % 256,
        u32_be_bytes(v) == u32_le_bytes(v).reverse(),
        u32_from_le(s) == s[0] + 256 * s[1] + 65536 * s[2] + 16777216 * s[3],
        u32_from_be(s) == 16777216 * s[0] + 65536 * s[1] + 256 * s[2] + s[3],
{
    assert((v / 0x100_0000) < 256) by (bit_vector);
    assert(u32_be_bytes(v) =~= u32_le_bytes(v).reverse());
}

/// Laying bytes over a buffer keeps its length, puts byte `k - at` of them
/// at each place `k` they cover, and keeps every other byte.
pub proof fn lemma_splice_bytes(dst: Seq<u8>, at: int, src: Seq<u8>)
    requires
        0 <= at,
        at + src.len() <= dst.len(),
    ensures
        splice(dst, at, src).len() == dst.len(),
        forall|k: int|
            at <= k < at + src.len() ==> #[trigger] splice(dst, at, src)[k] == src[k - at],
        forall|k: int|
            0 <= k < dst.len() && !(at <= k < at + src.len()) ==> #[trigger] splice(
                dst,
                at,
                src,
            )[k] == dst[k],
{
}

/// A run of `len` copies of `byte` has length `len`, every byte of it is
/// `byte`, and laid over a buffer it sets every byte it covers to `byte`
/// and keeps the others.
pub proof fn lemma_fill_run(dst: Seq<u8>, at: int, byte: u8, len: nat)
    requires
        0 <= at,
        at + len <= dst.len(),
    ensures
        repeat_byte(byte, len).len() == len,
        forall|i: int| 0 <= i < len ==> #[trigger] repeat_byte(byte, len)[i] == byte,
        splice(dst, at, repeat_byte(byte, len)).len() == dst.len(),
        forall|k: int|
            at <= k < at + len ==> #[trigger] splice(dst, at, repeat_byte(byte, len))[k] == byte,
        forall|k: int|
            0 <= k < dst.len() && !(at <= k < at + len) ==> #[trigger] splice(
                dst,
                at,
                repeat_byte(byte, len),
            )[k] == dst[k],
{
    lemma_splice_bytes(dst, at, repeat_byte(byte, len));
}

} // verus!
