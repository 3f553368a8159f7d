//! Frames: an operation and a body of 32-bit integers, and their byte form.
//!
//! A frame is written as a 16-bit header, big-endian, that holds the body's
//! length shifted left by two with the operation's code in the low bits,
//! followed by the body's integers, each in the host's own byte order.
//! Reading goes through `from_be` as the writer's counterpart, so what is read
//! depends on the host's byte order; the specification below names that order
//! `e` and the exec functions are stated for vstd's `endianness()`.
use vstd::prelude::*;
use vstd::endian::{Endian, endianness};
use crate::wire::{
    buf_get_i32, buf_get_u16, buf_put_i32, buf_put_u16, i32_from_be, i32_from_native_bytes,
    i32_native_bytes, i32_to_be, lemma_be_bytes_of_be_order, lemma_be_order_of_be_bytes,
    lemma_native_bytes_roundtrip, swap_u16, u16_be_bytes, u16_be_order, u16_from_be,
    u16_from_be_bytes, u16_from_native_bytes,
};

verus! {

/// The operation that a frame carries.
#[derive(PartialEq, Eq, Debug)]
pub enum Operation {
    Get,
    Put,
    Unknown,
}

/// A frame: a body of integers and an operation.
#[derive(PartialEq, Eq, Debug)]
pub struct Frame {
    pub body: Vec<i32>,
    pub op: Operation,
}

/// The mathematical content of a [`Frame`].
pub struct FrameView {
    pub body: Seq<i32>,
    pub op: Operation,
}

impl View for Frame {
    type V = FrameView;

    open spec fn view(&self) -> FrameView {
        FrameView { body: self.body@, op: self.op }
    }
}

// ---------------------------------------------------------------------------
// The format
// ---------------------------------------------------------------------------

/// The operation that a code read from a header stands for.
pub open spec fn op_of_code(opcode: u8) -> Operation {
    if opcode == 0 {
        Operation::Put
    } else if opcode == 1 {
        Operation::Get
    } else {
        Operation::Unknown
    }
}

/// The code that a header carries for an operation.
pub open spec fn code_of_op(op: Operation) -> u16 {
    match op {
        Operation::Put => 0,
        Operation::Get => 1,
        Operation::Unknown => 64,
    }
}

/// A body length cut to 16 bits, as the header and the writer count it.
pub open spec fn length_field(n: nat) -> u16 {
    (n % 0x10000) as u16
}

/// The header written for a body of `n` integers: `n`, cut to 16 bits and
/// shifted left by two (bits shifted out are lost), or-ed with the code.
pub open spec fn header_of(n: nat, op: Operation) -> u16 {
    (length_field(n) << 2u16) | code_of_op(op)
}

/// The body's integers one after the other, each in the host's order `e`.
pub open spec fn encode_body(body: Seq<i32>, e: Endian) -> Seq<u8>
    decreases body.len(),
{
    if body.len() == 0 {
        Seq::empty()
    } else {
        encode_body(body.drop_last(), e) + i32_native_bytes(body.last(), e)
    }
}

/// The bytes that [`Frame::to_bytes`] gives on a host of order `e`: the
/// header, then the first `n mod 2^16` integers of the body, where `n` is the
/// body's length.
pub open spec fn frame_bytes(body: Seq<i32>, op: Operation, e: Endian) -> Seq<u8> {
    u16_be_bytes(header_of(body.len(), op)) + encode_body(body.take(length_field(body.len()) as int), e)
}

/// The header word as [`Frame::from_bytes`] reads it: the first two bytes in
/// the host's order.
pub open spec fn header_word(bytes: Seq<u8>, e: Endian) -> u16 {
    u16_from_native_bytes(bytes[0], bytes[1], e)
}

/// The body length that [`Frame::from_bytes`] reads from the header: the
/// header word without its two low bits, shifted right by two, then passed
/// through `from_be`.
pub open spec fn decoded_length(bytes: Seq<u8>, e: Endian) -> u16 {
    u16_be_order((header_word(bytes, e) & 0xfffcu16) >> 2u16, e)
}

/// The operation that [`Frame::from_bytes`] reads from the header: the one
/// of the code in the header word's two low bits.
pub open spec fn decoded_op(bytes: Seq<u8>, e: Endian) -> Operation {
    op_of_code((header_word(bytes, e) & 3u16) as u8)
}

/// `n` integers read from `bytes`, the `k`-th from bytes `4k .. 4k + 4` in the
/// host's order `e`.
pub open spec fn decode_body(bytes: Seq<u8>, n: nat, e: Endian) -> Seq<i32> {
    Seq::new(n, |k: int| i32_from_native_bytes(bytes.subrange(4 * k, 4 * k + 4), e))
}

/// Whether `bytes` hold a whole frame: a header, and as many body bytes as
/// the header announces.
pub open spec fn holds_frame(bytes: Seq<u8>, e: Endian) -> bool {
    &&& bytes.len() >= 2
    &&& bytes.len() >= 2 + 4 * decoded_length(bytes, e)
}

/// The frame that [`Frame::from_bytes`] reads from `bytes` on a host of
/// order `e`; bytes past the announced body are not read.
pub open spec fn decode_frame(bytes: Seq<u8>, e: Endian) -> FrameView {
    FrameView {
        body: decode_body(bytes.skip(2), decoded_length(bytes, e) as nat, e),
        op: decoded_op(bytes, e),
    }
}

/// The frames that come back unchanged from [`Frame::to_bytes`] followed by
/// [`Frame::from_bytes`] on a host of order `e`: fewer than 2^14 integers
/// (more do not fit beside the code); on a big-endian host any operation but
/// `Unknown`; on a little-endian host, where the header is read with its
/// bytes exchanged, only `Put`, and only when bits 6 and 7 of the length are
/// clear.
pub open spec fn survives_roundtrip(n: nat, op: Operation, e: Endian) -> bool {
    &&& n < 0x4000
    &&& match e {
        Endian::Big => op != Operation::Unknown,
        Endian::Little => op == Operation::Put && n % 256 < 64,
    }
}

// ---------------------------------------------------------------------------
// Lemmas
// ---------------------------------------------------------------------------

proof fn lemma_encode_body_len(body: Seq<i32>, e: Endian)
    ensures
        encode_body(body, e).len() == 4 * body.len(),
    decreases body.len(),
{
    if body.len() > 0 {
        lemma_encode_body_len(body.drop_last(), e);
    }
}

proof fn lemma_encode_body_push(body: Seq<i32>, i: int, e: Endian)
    requires
        0 <= i < body.len(),
    ensures
        encode_body(body.take(i + 1), e) == encode_body(body.take(i), e) + i32_native_bytes(body[i], e),
{
    assert(body.take(i + 1).drop_last() =~= body.take(i));
}

proof fn lemma_encode_body_chunk(body: Seq<i32>, k: int, e: Endian)
    requires
        0 <= k < body.len(),
    ensures
        encode_body(body, e).subrange(4 * k, 4 * k + 4) == i32_native_bytes(body[k], e),
    decreases body.len(),
{
    lemma_encode_body_len(body.drop_last(), e);
    lemma_native_bytes_roundtrip(body.last(), e);
    let prefix = encode_body(body.drop_last(), e);
    let whole = encode_body(body, e);
    if k == body.len() - 1 {
        assert(whole.subrange(4 * k, 4 * k + 4) =~= i32_native_bytes(body[k], e));
    } else {
        lemma_encode_body_chunk(body.drop_last(), k, e);
        assert(whole.subrange(4 * k, 4 * k + 4) =~= prefix.subrange(4 * k, 4 * k + 4));
    }
}

/// The body comes back from its encoding.
proof fn lemma_decode_encode_body(body: Seq<i32>, rest: Seq<u8>, e: Endian)
    ensures
        decode_body(encode_body(body, e) + rest, body.len(), e) == body,
{
    let bytes = encode_body(body, e) + rest;
    lemma_encode_body_len(body, e);
    assert forall|k: int| 0 <= k < body.len() implies #[trigger] decode_body(bytes, body.len(), e)[k]
        == body[k] by {
        lemma_encode_body_chunk(body, k, e);
        lemma_native_bytes_roundtrip(body[k], e);
        assert(bytes.subrange(4 * k, 4 * k + 4) =~= encode_body(body, e).subrange(4 * k, 4 * k + 4));
    }
    assert(decode_body(bytes, body.len(), e) =~= body);
}

proof fn lemma_native_header(b0: u8, b1: u8, e: Endian)
    ensures
        u16_be_order(u16_from_be_bytes(b0, b1), e) == u16_from_native_bytes(b0, b1, e),
{
    assert(((((((b0 as u16) << 8u16) | (b1 as u16)) & 0xffu16) << 8u16) | ((((b0 as u16) << 8u16)
        | (b1 as u16)) >> 8u16)) == (((b1 as u16) << 8u16) | (b0 as u16))) by (bit_vector);
}

/// What the header of `n` integers and operation code `c` reads back as.
proof fn lemma_header_roundtrip(n: u16, c: u16)
    requires
        n < 0x4000,
        c < 2,
    ensures
        ({
            let h = (n << 2u16) | c;
            let big = u16_from_be_bytes((h >> 8u16) as u8, (h & 0xffu16) as u8);
            let little = u16_from_be_bytes((h & 0xffu16) as u8, (h >> 8u16) as u8);
            &&& (big & 3u16) == c
            &&& (big & 0xfffcu16) >> 2u16 == n
            &&& (n % 256 < 64 && c == 0) ==> (little & 3u16) == 0
            &&& (n % 256 < 64 && c == 0) ==> swap_u16((little & 0xfffcu16) >> 2u16) == n
        }),
{
    assert(n < 0x4000 && c < 2 ==> ((((((n << 2u16) | c) >> 8u16) as u8) as u16) << 8u16 | (((((n
        << 2u16) | c) & 0xffu16) as u8) as u16)) & 3u16 == c) by (bit_vector);
    assert(n < 0x4000 && c < 2 ==> (((((((n << 2u16) | c) >> 8u16) as u8) as u16) << 8u16 | (((((n
        << 2u16) | c) & 0xffu16) as u8) as u16)) & 0xfffcu16) >> 2u16 == n) by (bit_vector);
    assert(n < 0x4000 && n % 256 < 64 ==> (((((((n << 2u16) & 0xffu16) as u8) as u16) << 8u16) | ((((n
        << 2u16) >> 8u16) as u8) as u16)) & 3u16) == 0) by (bit_vector);
    assert(n < 0x4000 && n % 256 < 64 ==> ({
        let x = ((((((((n << 2u16) & 0xffu16) as u8) as u16) << 8u16) | ((((n << 2u16) >> 8u16) as u8)
            as u16)) & 0xfffcu16) >> 2u16);
        ((x & 0xffu16) << 8u16) | (x >> 8u16)
    }) == n) by (bit_vector);
    assert(c == 0 ==> (n << 2u16) | c == n << 2u16) by (bit_vector);
}

// ---------------------------------------------------------------------------
// Laws
// ---------------------------------------------------------------------------

/// Reading back what was written gives the frame that was written, for every
/// frame that [`survives_roundtrip`] admits.
pub proof fn law_decode_encode(body: Seq<i32>, op: Operation, e: Endian)
    requires
        survives_roundtrip(body.len(), op, e),
    ensures
        holds_frame(frame_bytes(body, op, e), e),
        decode_frame(frame_bytes(body, op, e), e) == (FrameView { body, op }),
{
    let n = body.len();
    let bytes = frame_bytes(body, op, e);
    let c = code_of_op(op);
    assert(length_field(n) as int == n);
    assert(body.take(n as int) =~= body);
    let enc = encode_body(body, e);
    lemma_encode_body_len(body, e);
    lemma_header_roundtrip(length_field(n), c);
    let h = header_of(n, op);
    lemma_native_header((h >> 8u16) as u8, (h & 0xffu16) as u8, e);
    assert(bytes[0] == (h >> 8u16) as u8);
    assert(bytes[1] == (h & 0xffu16) as u8);
    assert(bytes.skip(2) =~= enc);
    assert(decoded_length(bytes, e) == n);
    lemma_decode_encode_body(body, Seq::empty(), e);
    assert(enc + Seq::<u8>::empty() =~= enc);
    assert(decode_frame(bytes, e).body =~= body);
}

/// Bytes after a whole frame are not read: appending to them does not change
/// what [`Frame::from_bytes`] gives.
pub proof fn law_trailing_bytes_ignored(bytes: Seq<u8>, extra: Seq<u8>, e: Endian)
    requires
        holds_frame(bytes, e),
    ensures
        holds_frame(bytes + extra, e),
        decode_frame(bytes + extra, e) == decode_frame(bytes, e),
{
    let all = bytes + extra;
    assert(all[0] == bytes[0] && all[1] == bytes[1]);
    let n = decoded_length(bytes, e) as nat;
    assert forall|k: int| 0 <= k < n implies (#[trigger] decode_body(all.skip(2), n, e)[k])
        == decode_body(bytes.skip(2), n, e)[k] by {
        assert(all.skip(2).subrange(4 * k, 4 * k + 4) =~= bytes.skip(2).subrange(4 * k, 4 * k + 4));
    }
    assert(decode_body(all.skip(2), n, e) =~= decode_body(bytes.skip(2), n, e));
}

/// What any header reads back as, on either host order: on a big-endian host
/// the code comes back in the low bits and, for codes below 2, the length
/// modulo 2^14; on a little-endian host the code bits are bits 6 and 7 of the
/// length, and the length read has those two bits clear (and, for codes with
/// clear low bits, is below 2^14).
proof fn lemma_header_reads(m: u16, c: u16)
    requires
        c == 0 || c == 1 || c == 64,
    ensures
        ({
            let h = (m << 2u16) | c;
            let big = u16_from_be_bytes((h >> 8u16) as u8, (h & 0xffu16) as u8);
            let little = u16_from_be_bytes((h & 0xffu16) as u8, (h >> 8u16) as u8);
            let dl = swap_u16((little & 0xfffcu16) >> 2u16);
            &&& (big & 3u16) == (c & 3u16)
            &&& c < 2 ==> (big & 0xfffcu16) >> 2u16 == m % 0x4000
            &&& (little & 3u16) == (m >> 6u16) & 3u16
            &&& dl % 256 < 64
            &&& c != 1 ==> dl < 0x4000
        }),
{
    assert((c == 0 || c == 1 || c == 64) ==> (((((((m << 2u16) | c) >> 8u16) as u8) as u16) << 8u16 | (((((m
        << 2u16) | c) & 0xffu16) as u8) as u16)) & 3u16) == (c & 3u16)) by (bit_vector);
    assert(c < 2 ==> (((((((m << 2u16) | c) >> 8u16) as u8) as u16) << 8u16 | (((((m << 2u16) | c)
        & 0xffu16) as u8) as u16)) & 0xfffcu16) >> 2u16 == m % 0x4000) by (bit_vector);
    assert((c == 0 || c == 1 || c == 64) ==> ((((((((m << 2u16) | c) & 0xffu16) as u8) as u16) << 8u16)
        | (((((m << 2u16) | c) >> 8u16) as u8) as u16)) & 3u16) == (m >> 6u16) & 3u16) by (bit_vector);
    assert((c == 0 || c == 1 || c == 64) ==> ({
        let x = ((((((((m << 2u16) | c) & 0xffu16) as u8) as u16) << 8u16) | (((((m << 2u16) | c) >> 8u16)
            as u8) as u16)) & 0xfffcu16) >> 2u16;
        (((x & 0xffu16) << 8u16) | (x >> 8u16)) % 256 < 64
    })) by (bit_vector);
    assert((c == 0 || c == 64) ==> ({
        let x = ((((((((m << 2u16) | c) & 0xffu16) as u8) as u16) << 8u16) | (((((m << 2u16) | c) >> 8u16)
            as u8) as u16)) & 0xfffcu16) >> 2u16;
        (((x & 0xffu16) << 8u16) | (x >> 8u16)) < 0x4000
    })) by (bit_vector);
}

/// Outside what [`survives_roundtrip`] admits, reading back what was
/// written never gives the frame that was written: the operation or the
/// body's length comes back changed.
pub proof fn law_roundtrip_only_when_admitted(body: Seq<i32>, op: Operation, e: Endian)
    requires
        !survives_roundtrip(body.len(), op, e),
    ensures
        decode_frame(frame_bytes(body, op, e), e) != (FrameView { body, op }),
{
    let n = body.len();
    let m = length_field(n);
    let c = code_of_op(op);
    let h = header_of(n, op);
    let bytes = frame_bytes(body, op, e);
    lemma_header_reads(m, c);
    lemma_native_header((h >> 8u16) as u8, (h & 0xffu16) as u8, e);
    assert(bytes[0] == (h >> 8u16) as u8);
    assert(bytes[1] == (h & 0xffu16) as u8);
    assert(m as int % 256 == n % 256);
    let big = u16_from_be_bytes((h >> 8u16) as u8, (h & 0xffu16) as u8);
    let little = u16_from_be_bytes((h & 0xffu16) as u8, (h >> 8u16) as u8);
    let dl = decoded_length(bytes, e);
    let d = decode_frame(bytes, e);
    assert(d.body.len() == dl);
    match e {
        Endian::Big => {
            assert(header_word(bytes, e) == big);
            if op == Operation::Unknown {
                assert(64u16 & 3u16 == 0u16) by (bit_vector);
                assert(decoded_op(bytes, e) == Operation::Put);
            } else {
                assert(dl == m % 0x4000);
                assert(dl != n);
            }
        },
        Endian::Little => {
            assert(header_word(bytes, e) == little);
            let code = (m >> 6u16) & 3u16;
            assert(code == (m as int / 64) % 4) by (bit_vector)
                requires
                    code == (m >> 6u16) & 3u16,
            ;
            assert(decoded_op(bytes, e) == op_of_code(code as u8));
            if op == Operation::Put {
                if code == 0 {
                    assert(dl != n);
                }
            } else if op == Operation::Get {
                if code == 1 {
                    assert(dl != n);
                }
            } else {
                if code >= 2 {
                    assert(dl != n);
                }
            }
        },
    }
}

/// What a written frame holds, byte by byte: its length is two header bytes
/// and four bytes per written integer; the header is the big-endian `u16`
/// `((n mod 2^16) << 2) | code`, with code 0 for `Put`, 1 for `Get` and 64
/// for `Unknown`; and the bytes at `2 + 4k .. 2 + 4k + 4` are the `k`-th
/// integer of the body in the host's byte order, for every `k` below
/// `n mod 2^16`, where `n` is the body's length.
pub proof fn law_written_bytes(body: Seq<i32>, op: Operation, e: Endian)
    ensures
        frame_bytes(body, op, e).len() == 2 + 4 * (body.len() % 0x10000),
        ({
            let h: u16 = (((body.len() % 0x10000) as u16) << 2u16) | (match op {
                Operation::Put => 0u16,
                Operation::Get => 1u16,
                Operation::Unknown => 64u16,
            });
            &&& frame_bytes(body, op, e)[0] == (h >> 8u16) as u8
            &&& frame_bytes(body, op, e)[1] == (h & 0xffu16) as u8
        }),
        forall|k: int|
            0 <= k < body.len() % 0x10000 ==> #[trigger] frame_bytes(body, op, e).subrange(
                2 + 4 * k,
                2 + 4 * k + 4,
            ) == i32_native_bytes(body[k], e),
{
    let m = length_field(body.len());
    let part = body.take(m as int);
    let enc = encode_body(part, e);
    let bytes = frame_bytes(body, op, e);
    lemma_encode_body_len(part, e);
    assert forall|k: int| 0 <= k < body.len() % 0x10000 implies #[trigger] bytes.subrange(
        2 + 4 * k,
        2 + 4 * k + 4,
    ) == i32_native_bytes(body[k], e) by {
        lemma_encode_body_chunk(part, k, e);
        assert(bytes.subrange(2 + 4 * k, 2 + 4 * k + 4) =~= enc.subrange(4 * k, 4 * k + 4));
    }
}

/// What reading a frame gives, in terms of the bytes alone: with `w` the
/// first two bytes as a `u16` in the host's order, the operation is `Put`
/// where `w`'s two low bits are 0, `Get` where they are 1 and `Unknown` where
/// they are 2 or 3; the body has `from_be((w & 0xfffc) >> 2)` integers, the
/// `k`-th made of bytes `2 + 4k .. 2 + 4k + 4` in the host's order (where
/// the bytes are there); and the
/// bytes hold a whole frame exactly when there are that many body bytes after
/// the header, whatever the operation. Fewer than two bytes never hold one.
pub proof fn law_read_fields(bytes: Seq<u8>, e: Endian)
    ensures
        bytes.len() < 2 ==> !holds_frame(bytes, e),
        bytes.len() >= 2 ==> ({
            let w = u16_from_native_bytes(bytes[0], bytes[1], e);
            let len = u16_be_order((w & 0xfffcu16) >> 2u16, e);
            let f = decode_frame(bytes, e);
            &&& f.body.len() == len
            &&& holds_frame(bytes, e) ==> forall|k: int|
                0 <= k < len ==> #[trigger] f.body[k] == i32_from_native_bytes(
                    bytes.subrange(2 + 4 * k, 2 + 4 * k + 4),
                    e,
                )
            &&& (w & 3u16) == 0 ==> f.op == Operation::Put
            &&& (w & 3u16) == 1 ==> f.op == Operation::Get
            &&& (w & 3u16) >= 2 ==> f.op == Operation::Unknown
            &&& holds_frame(bytes, e) <==> bytes.len() >= 2 + 4 * len
        }),
{
    if bytes.len() >= 2 {
        let w = u16_from_native_bytes(bytes[0], bytes[1], e);
        let len = u16_be_order((w & 0xfffcu16) >> 2u16, e);
        let f = decode_frame(bytes, e);
        assert forall|k: int| holds_frame(bytes, e) && 0 <= k < len implies #[trigger] f.body[k]
            == i32_from_native_bytes(bytes.subrange(2 + 4 * k, 2 + 4 * k + 4), e) by {
            assert(bytes.skip(2).subrange(4 * k, 4 * k + 4) =~= bytes.subrange(2 + 4 * k, 2 + 4 * k + 4));
        }
        let c = w & 3u16;
        assert(c < 4) by (bit_vector)
            requires
                c == w & 3u16,
        ;
    }
}

/// Every operation's code reads back as the same operation (`Put` is 0,
/// `Get` 1, `Unknown` 64).
pub proof fn law_operation_code_roundtrip(op: Operation)
    ensures
        op_of_code(code_of_op(op) as u8) == op,
{
}

/// The code written for the operation that a code stands for is that code
/// where it is 0 or 1, and 64 for every other code.
pub proof fn law_code_operation_roundtrip(c: u8)
    ensures
        code_of_op(op_of_code(c)) == (if c <= 1 { c as u16 } else { 64u16 }),
{
}

// ---------------------------------------------------------------------------
// Exec
// ---------------------------------------------------------------------------

impl Frame {
    /// A frame of the given body and operation.
    pub fn new(body: Vec<i32>, op: Operation) -> (f: Frame)
        ensures
            f.body == body,
            f.op == op,
    {
        Frame { body, op }
    }

    /// The frame's byte form: the header `(n << 2) | code` as a big-endian
    /// `u16`, where `n` is the body's length cut to 16 bits, then the first
    /// `n` integers, each in the host's byte order.
    pub fn to_bytes(self) -> (buf: Vec<u8>)
        ensures
            buf@ == frame_bytes(self.body@, self.op, endianness()),
            buf@.len() == 2 + 4 * (length_field(self.body@.len()) as int),
            ({
                let h: u16 = (((self.body@.len() % 0x10000) as u16) << 2u16) | (match self.op {
                    Operation::Put => 0u16,
                    Operation::Get => 1u16,
                    Operation::Unknown => 64u16,
                });
                &&& buf@[0] == (h >> 8u16) as u8
                &&& buf@[1] == (h & 0xffu16) as u8
            }),
            forall|k: int|
                0 <= k < self.body@.len() % 0x10000 ==> #[trigger] buf@.subrange(2 + 4 * k, 2 + 4 * k + 4)
                    == i32_native_bytes(self.body@[k], endianness()),
    {
        let ghost e = endianness();
        let Frame { body, op } = self;
        let n: usize = body.len();
        let length: u16 = body.len() as u16;
        assert(length as int == n as int % 0x10000) by (bit_vector)
            requires
                length == n as u16,
        ;
        let opcode = Frame::get_opcode(op);

        let temp: u16 = length << 2 | opcode;

        let mut buf = vec![];
        buf_put_u16(&mut buf, temp);
        proof {
            lemma_encode_body_len(body@.take(0), e);
            assert(buf@ =~= u16_be_bytes(temp) + encode_body(body@.take(0), e));
        }
        for i in 0..length
            invariant
                e == endianness(),
                length <= body@.len(),
                length == length_field(body@.len()),
                buf@ == u16_be_bytes(temp) + encode_body(body@.take(i as int), e),
                buf@.len() == 2 + 4 * i,
        {
            let t: i32 = body[i as usize];
            let be: i32 = i32_to_be(t);
            proof {
                lemma_be_bytes_of_be_order(t, e);
                lemma_encode_body_push(body@, i as int, e);
            }
            buf_put_i32(&mut buf, be);
            assert(buf@ =~= u16_be_bytes(temp) + encode_body(body@.take(i + 1), e));
        }
        proof {
            law_written_bytes(body@, op, e);
        }
        buf
    }

    /// The frame in `bytes`: the operation and body length from the header
    /// (read as a `u16` in the host's order), then that many integers in the
    /// host's order. `bytes` must hold the whole frame; see
    /// [`Frame::try_from_bytes`] for a reading that checks.
    pub fn from_bytes(bytes: &[u8]) -> (f: Frame)
        requires
            holds_frame(bytes@, endianness()),
        ensures
            f@ == decode_frame(bytes@, endianness()),
            ({
                let e = endianness();
                let w = u16_from_native_bytes(bytes@[0], bytes@[1], e);
                &&& f.body@.len() == u16_be_order((w & 0xfffcu16) >> 2u16, e)
                &&& forall|k: int|
                    0 <= k < f.body@.len() ==> #[trigger] f.body@[k] == i32_from_native_bytes(
                        bytes@.subrange(2 + 4 * k, 2 + 4 * k + 4),
                        e,
                    )
                &&& (w & 3u16) == 0 ==> f.op == Operation::Put
                &&& (w & 3u16) == 1 ==> f.op == Operation::Get
                &&& (w & 3u16) >= 2 ==> f.op == Operation::Unknown
            }),
    {
        proof {
            law_read_fields(bytes@, endianness());
        }
        let mut src = bytes;
        let (length, opcode) = Frame::read_header(&mut src);
        let op = Frame::get_op(opcode);
        let body = Frame::parse_body(src, length);
        Frame { body, op }
    }

    /// The frame in `bytes`, or `None` where `bytes` do not hold the whole
    /// frame that their header announces (where [`Frame::from_bytes`] would
    /// run out of bytes).
    pub fn try_from_bytes(bytes: &[u8]) -> (r: Option<Frame>)
        ensures
            r is None <==> !holds_frame(bytes@, endianness()),
            r matches Some(f) ==> f@ == decode_frame(bytes@, endianness()),
            r is Some <==> bytes@.len() >= 2 && bytes@.len() >= 2 + 4 * u16_be_order(
                (u16_from_native_bytes(bytes@[0], bytes@[1], endianness()) & 0xfffcu16) >> 2u16,
                endianness(),
            ),
            r matches Some(f) ==> ({
                let e = endianness();
                let w = u16_from_native_bytes(bytes@[0], bytes@[1], e);
                &&& f.body@.len() == u16_be_order((w & 0xfffcu16) >> 2u16, e)
                &&& forall|k: int|
                    0 <= k < f.body@.len() ==> #[trigger] f.body@[k] == i32_from_native_bytes(
                        bytes@.subrange(2 + 4 * k, 2 + 4 * k + 4),
                        e,
                    )
                &&& (w & 3u16) == 0 ==> f.op == Operation::Put
                &&& (w & 3u16) == 1 ==> f.op == Operation::Get
                &&& (w & 3u16) >= 2 ==> f.op == Operation::Unknown
            }),
    {
        proof {
            law_read_fields(bytes@, endianness());
        }
        if bytes.len() < 2 {
            return None;
        }
        let mut src = bytes;
        let (length, opcode) = Frame::read_header(&mut src);
        if src.len() / 4 < length as usize {
            return None;
        }
        let op = Frame::get_op(opcode);
        let body = Frame::parse_body(src, length);
        Some(Frame { body, op })
    }

    /// Reads the header off the front of `src`: the body length and the
    /// operation code.
    fn read_header(src: &mut &[u8]) -> (r: (u16, u8))
        requires
            old(src)@.len() >= 2,
        ensures
            final(src)@ == old(src)@.skip(2),
            r.0 == decoded_length(old(src)@, endianness()),
            op_of_code(r.1) == decoded_op(old(src)@, endianness()),
    {
        let ghost start = src@;
        let temp: u16 = u16_from_be(buf_get_u16(src));
        proof {
            lemma_native_header(start[0], start[1], endianness());
        }
        let length: u16 = (temp & 0xFFFC) >> 2;
        let opcode: u8 = (temp & 0b11) as u8;
        let length: u16 = u16_from_be(length);
        (length, opcode)
    }

    /// The operation of a header code: 0 is `Put`, 1 is `Get`, any other
    /// code `Unknown`.
    pub fn get_op(opcode: u8) -> (op: Operation)
        ensures
            op == op_of_code(opcode),
    {
        match opcode {
            0 => Operation::Put,
            1 => Operation::Get,
            _ => Operation::Unknown,
        }
    }

    /// The header code of an operation: `Put` is 0, `Get` 1, `Unknown` 64.
    pub fn get_opcode(op: Operation) -> (code: u16)
        ensures
            code == code_of_op(op),
    {
        match op {
            Operation::Put => 0,
            Operation::Get => 1,
            Operation::Unknown => 64,
        }
    }

    /// `length` integers read from the front of `bytes`, each four bytes in
    /// the host's order.
    pub fn parse_body(bytes: &[u8], length: u16) -> (body: Vec<i32>)
        requires
            bytes@.len() >= 4 * length,
        ensures
            body@ == decode_body(bytes@, length as nat, endianness()),
    {
        let ghost e = endianness();
        let mut src = bytes;
        let mut body = Vec::new();
        for i in 0..length
            invariant
                e == endianness(),
                bytes@.len() >= 4 * length,
                src@ == bytes@.skip(4 * i),
                body@ == decode_body(bytes@, i as nat, e),
        {
            let ghost before = src@;
            let number: i32 = buf_get_i32(&mut src);
            proof {
                lemma_be_order_of_be_bytes(before, e);
            }
            body.push(i32_from_be(number));
            proof {
                let chunk = bytes@.subrange(4 * i, 4 * i + 4);
                assert(before[0] == chunk[0] && before[1] == chunk[1] && before[2] == chunk[2]
                    && before[3] == chunk[3]);
                assert(i32_from_native_bytes(before, e) == i32_from_native_bytes(chunk, e));
                assert(src@ =~= bytes@.skip(4 * (i + 1)));
                assert(body@ =~= decode_body(bytes@, (i + 1) as nat, e));
            }
        }
        body
    }
}

} // verus!
