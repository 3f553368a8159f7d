//! Byte-level building blocks of the frame format: how 16- and 32-bit
//! integers are laid out as bytes, how the host's byte order enters through
//! `to_be`/`from_be`, and the `bytes` crate calls that append to and read from
//! byte buffers.
use vstd::prelude::*;
use vstd::endian::{Endian, endianness};
use bytes::{Buf, BufMut};

verus! {

// ---------------------------------------------------------------------------
// Big-endian layout of integers
// ---------------------------------------------------------------------------

/// The two bytes of `v`, most significant first.
pub open spec fn u16_be_bytes(v: u16) -> Seq<u8> {
    seq![(v >> 8u16) as u8, (v & 0xffu16) as u8]
}

/// The `u16` whose big-endian bytes are `hi`, `lo`.
pub open spec fn u16_from_be_bytes(hi: u8, lo: u8) -> u16 {
    ((hi as u16) << 8u16) | (lo as u16)
}

/// `v` with its two bytes exchanged.
pub open spec fn swap_u16(v: u16) -> u16 {
    ((v & 0xffu16) << 8u16) | (v >> 8u16)
}

/// Byte `k` (0 is the most significant) of the two's complement form of `v`.
pub open spec fn i32_byte(v: i32, k: int) -> u8 {
    let u = v as u32;
    if k == 0 {
        (u >> 24u32) as u8
    } else if k == 1 {
        ((u >> 16u32) & 0xffu32) as u8
    } else if k == 2 {
        ((u >> 8u32) & 0xffu32) as u8
    } else {
        (u & 0xffu32) as u8
    }
}

/// The four bytes of `v`, most significant first.
pub open spec fn i32_be_bytes(v: i32) -> Seq<u8> {
    seq![i32_byte(v, 0), i32_byte(v, 1), i32_byte(v, 2), i32_byte(v, 3)]
}

/// The four bytes of `v`, least significant first.
pub open spec fn i32_le_bytes(v: i32) -> Seq<u8> {
    seq![i32_byte(v, 3), i32_byte(v, 2), i32_byte(v, 1), i32_byte(v, 0)]
}

/// The `i32` whose big-endian bytes are `b0`, `b1`, `b2`, `b3`.
pub open spec fn i32_of_be(b0: u8, b1: u8, b2: u8, b3: u8) -> i32 {
    (((b0 as u32) << 24u32) | ((b1 as u32) << 16u32) | ((b2 as u32) << 8u32) | (b3 as u32)) as i32
}

/// The `i32` whose big-endian bytes are the first four of `b`.
pub open spec fn i32_from_be_bytes(b: Seq<u8>) -> i32 {
    i32_of_be(b[0], b[1], b[2], b[3])
}

/// `v` with its four bytes in reverse order.
pub open spec fn swap_i32(v: i32) -> i32 {
    i32_of_be(i32_byte(v, 3), i32_byte(v, 2), i32_byte(v, 1), i32_byte(v, 0))
}

// ---------------------------------------------------------------------------
// The host's byte order
// ---------------------------------------------------------------------------

/// What `to_be` and `from_be` of `u16` give on a host of byte order `e`:
/// the value itself on a big-endian host, its bytes exchanged on a
/// little-endian one.
pub open spec fn u16_be_order(v: u16, e: Endian) -> u16 {
    match e {
        Endian::Big => v,
        Endian::Little => swap_u16(v),
    }
}

/// What `to_be` and `from_be` of `i32` give on a host of byte order `e`.
pub open spec fn i32_be_order(v: i32, e: Endian) -> i32 {
    match e {
        Endian::Big => v,
        Endian::Little => swap_i32(v),
    }
}

/// The bytes of `v` in the host's own order `e`.
pub open spec fn i32_native_bytes(v: i32, e: Endian) -> Seq<u8> {
    match e {
        Endian::Big => i32_be_bytes(v),
        Endian::Little => i32_le_bytes(v),
    }
}

/// The `i32` that the first four bytes of `b` make in the host's order `e`.
pub open spec fn i32_from_native_bytes(b: Seq<u8>, e: Endian) -> i32 {
    match e {
        Endian::Big => i32_of_be(b[0], b[1], b[2], b[3]),
        Endian::Little => i32_of_be(b[3], b[2], b[1], b[0]),
    }
}

/// The `u16` that `b0`, `b1` make in the host's order `e`.
pub open spec fn u16_from_native_bytes(b0: u8, b1: u8, e: Endian) -> u16 {
    match e {
        Endian::Big => u16_from_be_bytes(b0, b1),
        Endian::Little => u16_from_be_bytes(b1, b0),
    }
}

// ---------------------------------------------------------------------------
// Lemmas on the layouts
// ---------------------------------------------------------------------------

proof fn lemma_i32_bytes_of_be(b0: u8, b1: u8, b2: u8, b3: u8)
    ensures
        i32_byte(i32_of_be(b0, b1, b2, b3), 0) == b0,
        i32_byte(i32_of_be(b0, b1, b2, b3), 1) == b1,
        i32_byte(i32_of_be(b0, b1, b2, b3), 2) == b2,
        i32_byte(i32_of_be(b0, b1, b2, b3), 3) == b3,
{
    assert((((((b0 as u32) << 24u32) | ((b1 as u32) << 16u32) | ((b2 as u32) << 8u32) | (b3 as u32)) as i32) as u32 >> 24u32) as u8 == b0) by (bit_vector);
    assert((((((((b0 as u32) << 24u32) | ((b1 as u32) << 16u32) | ((b2 as u32) << 8u32) | (b3 as u32)) as i32) as u32) >> 16u32) & 0xffu32) as u8 == b1) by (bit_vector);
    assert((((((((b0 as u32) << 24u32) | ((b1 as u32) << 16u32) | ((b2 as u32) << 8u32) | (b3 as u32)) as i32) as u32) >> 8u32) & 0xffu32) as u8 == b2) by (bit_vector);
    assert(((((((b0 as u32) << 24u32) | ((b1 as u32) << 16u32) | ((b2 as u32) << 8u32) | (b3 as u32)) as i32) as u32) & 0xffu32) as u8 == b3) by (bit_vector);
}

proof fn lemma_i32_of_be_bytes(v: i32)
    ensures
        i32_of_be(i32_byte(v, 0), i32_byte(v, 1), i32_byte(v, 2), i32_byte(v, 3)) == v,
{
    assert((((((v as u32 >> 24u32) as u8) as u32) << 24u32) | (((((v as u32 >> 16u32) & 0xffu32) as u8) as u32) << 16u32)
        | (((((v as u32 >> 8u32) & 0xffu32) as u8) as u32) << 8u32) | (((v as u32 & 0xffu32) as u8) as u32)) as i32 == v) by (bit_vector);
}

/// Writing the value that `to_be` gives in big-endian order writes the
/// value itself in the host's order.
pub proof fn lemma_be_bytes_of_be_order(v: i32, e: Endian)
    ensures
        i32_be_bytes(i32_be_order(v, e)) == i32_native_bytes(v, e),
{
    if e is Little {
        lemma_i32_bytes_of_be(i32_byte(v, 3), i32_byte(v, 2), i32_byte(v, 1), i32_byte(v, 0));
        assert(i32_be_bytes(swap_i32(v)) =~= i32_le_bytes(v));
    }
}

/// Reading four bytes big-endian and applying `from_be` reads them in the
/// host's order.
pub proof fn lemma_be_order_of_be_bytes(b: Seq<u8>, e: Endian)
    requires
        b.len() >= 4,
    ensures
        i32_be_order(i32_from_be_bytes(b), e) == i32_from_native_bytes(b, e),
{
    if e is Little {
        lemma_i32_bytes_of_be(b[0], b[1], b[2], b[3]);
    }
}

/// Reading back the host-order bytes of `v` gives `v`.
pub proof fn lemma_native_bytes_roundtrip(v: i32, e: Endian)
    ensures
        i32_native_bytes(v, e).len() == 4,
        i32_from_native_bytes(i32_native_bytes(v, e), e) == v,
{
    lemma_i32_of_be_bytes(v);
}

// ---------------------------------------------------------------------------
// std's byte-order conversions
// ---------------------------------------------------------------------------

/// `u16::from_be`: std documents it as a no-op on a big-endian target and a
/// byte swap on a little-endian one; the target's order is vstd's
/// `endianness()`.
#[verifier::external_body]
pub(crate) fn u16_from_be(x: u16) -> (r: u16)
    ensures
        r == u16_be_order(x, endianness()),
{
    u16::from_be(x)
}

/// `i32::to_be`: std documents it as a no-op on a big-endian target and a
/// byte swap on a little-endian one.
#[verifier::external_body]
pub(crate) fn i32_to_be(x: i32) -> (r: i32)
    ensures
        r == i32_be_order(x, endianness()),
{
    x.to_be()
}

/// `i32::from_be`: std documents it as a no-op on a big-endian target and a
/// byte swap on a little-endian one.
#[verifier::external_body]
pub(crate) fn i32_from_be(x: i32) -> (r: i32)
    ensures
        r == i32_be_order(x, endianness()),
{
    i32::from_be(x)
}

// ---------------------------------------------------------------------------
// The `bytes` crate
// ---------------------------------------------------------------------------

/// `BufMut::put_u16` on a `Vec<u8>`: appends the two big-endian bytes of `n`
/// (`put_slice(&n.to_be_bytes())`, which for a `Vec` is
/// `extend_from_slice`). It panics when the vector would exceed `isize::MAX`
/// bytes, which `requires` rules out.
#[verifier::external_body]
pub(crate) fn buf_put_u16(buf: &mut Vec<u8>, n: u16)
    requires
        old(buf)@.len() + 2 <= isize::MAX,
    ensures
        final(buf)@ == old(buf)@ + u16_be_bytes(n),
{
    buf.put_u16(n)
}

/// `BufMut::put_i32` on a `Vec<u8>`: appends the four big-endian bytes of `n`.
#[verifier::external_body]
pub(crate) fn buf_put_i32(buf: &mut Vec<u8>, n: i32)
    requires
        old(buf)@.len() + 4 <= isize::MAX,
    ensures
        final(buf)@ == old(buf)@ + i32_be_bytes(n),
{
    buf.put_i32(n)
}

/// `Buf::get_u16` on a `&[u8]`: reads the first two bytes big-endian and
/// advances the slice past them. It panics on fewer than two bytes, which
/// `requires` rules out.
#[verifier::external_body]
pub(crate) fn buf_get_u16(src: &mut &[u8]) -> (r: u16)
    requires
        old(src)@.len() >= 2,
    ensures
        r == u16_from_be_bytes(old(src)@[0], old(src)@[1]),
        final(src)@ == old(src)@.skip(2),
{
    src.get_u16()
}

/// `Buf::get_i32` on a `&[u8]`: reads the first four bytes big-endian and
/// advances the slice past them. It panics on fewer than four bytes.
#[verifier::external_body]
pub(crate) fn buf_get_i32(src: &mut &[u8]) -> (r: i32)
    requires
        old(src)@.len() >= 4,
    ensures
        r == i32_from_be_bytes(old(src)@),
        final(src)@ == old(src)@.skip(4),
{
    src.get_i32()
}

} // verus!
