//! The wire format as mathematics: big-endian integers, length-prefixed
//! strings and the frame envelope, each as a function on byte sequences,
//! together with the facts that relate what is written to what is read.

use crate::error::PacketError;
use vstd::prelude::*;
use vstd::utf8::*;

verus! {

/// The largest byte length a string may have and still be read back.
pub const MAX_STRING_BYTES: usize = 0x7fff;

/// The low-order byte of `v`; for a negative `v`, that of its two's
/// complement.
#[verifier::opaque]
pub open spec fn low8(v: int) -> u8 {
    (v % 0x100) as u8
}

/// `v` without its low-order byte: the floor of `v / 256`.
#[verifier::opaque]
pub open spec fn drop8(v: int) -> int {
    v / 0x100
}

/// The two low-order bytes of `v`, most significant first. For a negative
/// `v` these are the bytes of its two's complement.
pub open spec fn be16(v: int) -> Seq<u8> {
    seq![low8(drop8(v)), low8(v)]
}

/// The four low-order bytes of `v`, most significant first.
pub open spec fn be32(v: int) -> Seq<u8> {
    be16(drop8(drop8(v))) + be16(v)
}

/// The eight low-order bytes of `v`, most significant first.
pub open spec fn be64(v: int) -> Seq<u8> {
    be32(drop8(drop8(drop8(drop8(v))))) + be32(v)
}

/// The number that two bytes spell, most significant first, unsigned.
pub open spec fn unsigned16(b: Seq<u8>) -> int {
    b[0] as int * 0x100 + b[1] as int
}

/// The number that four bytes spell, most significant first, unsigned.
pub open spec fn unsigned32(b: Seq<u8>) -> int {
    ((b[0] as int * 0x100 + b[1] as int) * 0x100 + b[2] as int) * 0x100 + b[3] as int
}

/// The number that eight bytes spell, most significant first, unsigned.
pub open spec fn unsigned64(b: Seq<u8>) -> int {
    (((unsigned32(b) * 0x100 + b[4] as int) * 0x100 + b[5] as int) * 0x100 + b[6] as int) * 0x100
        + b[7] as int
}

/// Two bytes read as a signed 16-bit integer.
pub open spec fn signed16(b: Seq<u8>) -> i16 {
    let u = unsigned16(b);
    if u >= 0x8000 {
        (u - 0x1_0000) as i16
    } else {
        u as i16
    }
}

/// Four bytes read as a signed 32-bit integer.
pub open spec fn signed32(b: Seq<u8>) -> i32 {
    let u = unsigned32(b);
    if u >= 0x8000_0000 {
        (u - 0x1_0000_0000) as i32
    } else {
        u as i32
    }
}

/// Eight bytes read as a signed 64-bit integer.
pub open spec fn signed64(b: Seq<u8>) -> i64 {
    let u = unsigned64(b);
    if u >= 0x8000_0000_0000_0000 {
        (u - 0x1_0000_0000_0000_0000) as i64
    } else {
        u as i64
    }
}

/// A boolean on the wire: one byte, 1 for true and 0 for false.
pub open spec fn wire_bool(v: bool) -> Seq<u8> {
    seq![if v { 1u8 } else { 0u8 }]
}

/// A plain string on the wire: the byte length in 16 bits, then the UTF-8
/// bytes. A length that does not fit is cut to its 16 low bits.
pub open spec fn wire_string(s: Seq<char>) -> Seq<u8> {
    be16(encode_utf8(s).len() as int) + encode_utf8(s)
}

/// An optional string on the wire: a presence flag, and the plain string
/// only where the text is not empty.
pub open spec fn wire_opt_string(s: Seq<char>) -> Seq<u8> {
    if s.len() == 0 {
        wire_bool(false)
    } else {
        wire_bool(true) + wire_string(s)
    }
}

/// The envelope of a frame around `inner`, the type tag followed by the
/// fields: the length of the fields alone in 32 bits, then `inner`.
pub open spec fn framed(inner: Seq<u8>) -> Seq<u8> {
    be32(inner.len() - 4) + inner
}

/// Whether a text can be sent as a string field and read back.
pub open spec fn sendable(s: Seq<char>) -> bool {
    encode_utf8(s).len() <= MAX_STRING_BYTES
}

/// Reading `n` raw bytes at `pos`: the bytes and the position behind them.
#[verifier::opaque]
pub open spec fn read_bytes_at(b: Seq<u8>, pos: int, n: int) -> Result<(Seq<u8>, int), PacketError> {
    if 0 <= pos && 0 <= n && pos + n <= b.len() {
        Ok((b.subrange(pos, pos + n), pos + n))
    } else {
        Err(PacketError::OutOfBounds)
    }
}

/// Reading one byte at `pos`.
pub open spec fn read_byte_at(b: Seq<u8>, pos: int) -> Result<(u8, int), PacketError> {
    match read_bytes_at(b, pos, 1) {
        Ok((raw, next)) => Ok((raw[0], next)),
        Err(e) => Err(e),
    }
}

/// Reading a boolean at `pos`: any byte but 0 is true.
pub open spec fn read_bool_at(b: Seq<u8>, pos: int) -> Result<(bool, int), PacketError> {
    match read_bytes_at(b, pos, 1) {
        Ok((raw, next)) => Ok((raw[0] != 0, next)),
        Err(e) => Err(e),
    }
}

/// Reading a signed 16-bit integer at `pos`.
pub open spec fn read_i16_at(b: Seq<u8>, pos: int) -> Result<(i16, int), PacketError> {
    match read_bytes_at(b, pos, 2) {
        Ok((raw, next)) => Ok((signed16(raw), next)),
        Err(e) => Err(e),
    }
}

/// Reading a signed 32-bit integer at `pos`.
pub open spec fn read_i32_at(b: Seq<u8>, pos: int) -> Result<(i32, int), PacketError> {
    match read_bytes_at(b, pos, 4) {
        Ok((raw, next)) => Ok((signed32(raw), next)),
        Err(e) => Err(e),
    }
}

/// Reading a signed 64-bit integer at `pos`.
pub open spec fn read_i64_at(b: Seq<u8>, pos: int) -> Result<(i64, int), PacketError> {
    match read_bytes_at(b, pos, 8) {
        Ok((raw, next)) => Ok((signed64(raw), next)),
        Err(e) => Err(e),
    }
}

/// Reading a plain string at `pos`. A negative length asks for more than
/// any buffer holds.
pub open spec fn read_string_at(b: Seq<u8>, pos: int) -> Result<(Seq<char>, int), PacketError> {
    match read_i16_at(b, pos) {
        Err(e) => Err(e),
        Ok((n, body)) => if n < 0 {
            Err(PacketError::OutOfBounds)
        } else {
            match read_bytes_at(b, body, n as int) {
                Err(e) => Err(e),
                Ok((raw, next)) => if valid_utf8(raw) {
                    Ok((decode_utf8(raw), next))
                } else {
                    Err(PacketError::Utf8Error)
                },
            }
        },
    }
}

/// Reading an optional string at `pos`.
pub open spec fn read_opt_string_at(b: Seq<u8>, pos: int) -> Result<(Seq<char>, int), PacketError> {
    match read_bool_at(b, pos) {
        Err(e) => Err(e),
        Ok((present, body)) => if present {
            read_string_at(b, body)
        } else {
            Ok((Seq::<char>::empty(), body))
        },
    }
}

/// Appends the two low-order bytes of `u`, most significant first.
fn put_u16_be(out: &mut Vec<u8>, u: u16)
    ensures
        final(out)@ == old(out)@ + be16(u as int),
{
    proof {
        reveal(low8);
        reveal(drop8);
    }
    out.push((u / 0x100) as u8);
    out.push((u % 0x100) as u8);
    assert(out@ =~= old(out)@ + be16(u as int));
}

/// Appends the four low-order bytes of `u`, most significant first.
pub(crate) fn put_u32_be(out: &mut Vec<u8>, u: u32)
    ensures
        final(out)@ == old(out)@ + be32(u as int),
{
    let hi: u32 = u / 0x1_0000;
    let lo: u32 = u % 0x1_0000;
    proof {
        lemma_be16_wraps(lo as int, hi as int);
        assert(drop8(drop8(lo as int)) == 0) by {
            reveal(drop8);
        }
    }
    put_u16_be(out, hi as u16);
    put_u16_be(out, lo as u16);
    assert(out@ =~= old(out)@ + be32(u as int));
}

/// Appends the eight low-order bytes of `u`, most significant first.
fn put_u64_be(out: &mut Vec<u8>, u: u64)
    ensures
        final(out)@ == old(out)@ + be64(u as int),
{
    let hi: u64 = u / 0x1_0000_0000;
    let lo: u64 = u % 0x1_0000_0000;
    proof {
        lemma_be32_wraps(lo as int, hi as int);
        assert(drop8(drop8(drop8(drop8(lo as int)))) == 0) by {
            reveal(drop8);
            assert(drop8(drop8(lo as int)) < 0x1_0000);
        }
    }
    put_u32_be(out, hi as u32);
    put_u32_be(out, lo as u32);
    assert(out@ =~= old(out)@ + be64(u as int));
}

/// Appends a signed 16-bit integer, most significant byte first.
pub(crate) fn put_i16_be(out: &mut Vec<u8>, v: i16)
    ensures
        final(out)@ == old(out)@ + be16(v as int),
{
    let u: u16 = if v >= 0 {
        v as u16
    } else {
        (v as i32 + 0x1_0000) as u16
    };
    proof {
        lemma_be16_wraps(v as int, if v >= 0 { 0 } else { 1 });
    }
    put_u16_be(out, u);
}

/// Appends a signed 32-bit integer, most significant byte first.
pub(crate) fn put_i32_be(out: &mut Vec<u8>, v: i32)
    ensures
        final(out)@ == old(out)@ + be32(v as int),
{
    let u: u32 = if v >= 0 {
        v as u32
    } else {
        (v as i64 + 0x1_0000_0000) as u32
    };
    proof {
        lemma_be32_wraps(v as int, if v >= 0 { 0 } else { 1 });
    }
    put_u32_be(out, u);
}

/// Appends a signed 64-bit integer, most significant byte first.
pub(crate) fn put_i64_be(out: &mut Vec<u8>, v: i64)
    ensures
        final(out)@ == old(out)@ + be64(v as int),
{
    let u: u64 = if v >= 0 {
        v as u64
    } else {
        (v as i128 + 0x1_0000_0000_0000_0000) as u64
    };
    proof {
        lemma_be64_wraps(v as int, if v >= 0 { 0 } else { 1 });
    }
    put_u64_be(out, u);
}

/// The signed 16-bit integer that two bytes spell.
pub(crate) fn i16_from_be(b: &[u8]) -> (v: i16)
    requires
        b@.len() == 2,
    ensures
        v == signed16(b@),
{
    let u: u16 = b[0] as u16 * 0x100 + b[1] as u16;
    if u >= 0x8000 {
        (u as i32 - 0x1_0000) as i16
    } else {
        u as i16
    }
}

/// The signed 32-bit integer that four bytes spell.
pub(crate) fn i32_from_be(b: &[u8]) -> (v: i32)
    requires
        b@.len() == 4,
    ensures
        v == signed32(b@),
{
    let u: u32 = ((b[0] as u32 * 0x100 + b[1] as u32) * 0x100 + b[2] as u32) * 0x100
        + b[3] as u32;
    if u >= 0x8000_0000 {
        (u as i64 - 0x1_0000_0000) as i32
    } else {
        u as i32
    }
}

/// The signed 64-bit integer that eight bytes spell.
pub(crate) fn i64_from_be(b: &[u8]) -> (v: i64)
    requires
        b@.len() == 8,
    ensures
        v == signed64(b@),
{
    let hi: u64 = ((b[0] as u64 * 0x100 + b[1] as u64) * 0x100 + b[2] as u64) * 0x100
        + b[3] as u64;
    let u: u64 = (((hi * 0x100 + b[4] as u64) * 0x100 + b[5] as u64) * 0x100 + b[6] as u64)
        * 0x100 + b[7] as u64;
    if u >= 0x8000_0000_0000_0000 {
        (u as i128 - 0x1_0000_0000_0000_0000) as i64
    } else {
        u as i64
    }
}

/// Adding a multiple of 256 moves the quotient and keeps the low byte.
pub proof fn lemma_drop8_add(v: int, m: int)
    ensures
        drop8(v + m * 0x100) == drop8(v) + m,
        low8(v + m * 0x100) == low8(v),
{
    reveal(low8);
    reveal(drop8);
}

/// The two low-order bytes do not see a multiple of 2^16.
pub proof fn lemma_be16_wraps(v: int, m: int)
    ensures
        be16(v + m * 0x1_0000) == be16(v),
        drop8(drop8(v + m * 0x1_0000)) == drop8(drop8(v)) + m,
{
    lemma_drop8_add(v, m * 0x100);
    lemma_drop8_add(drop8(v), m);
}

/// The four low-order bytes do not see a multiple of 2^32.
pub proof fn lemma_be32_wraps(v: int, m: int)
    ensures
        be32(v + m * 0x1_0000_0000) == be32(v),
        drop8(drop8(drop8(drop8(v + m * 0x1_0000_0000)))) == drop8(drop8(drop8(drop8(v)))) + m,
{
    lemma_be16_wraps(v, m * 0x1_0000);
    lemma_be16_wraps(drop8(drop8(v)), m);
}

/// The eight low-order bytes do not see a multiple of 2^64.
pub proof fn lemma_be64_wraps(v: int, m: int)
    ensures
        be64(v + m * 0x1_0000_0000_0000_0000) == be64(v),
{
    lemma_be32_wraps(v, m * 0x1_0000_0000);
    lemma_be32_wraps(drop8(drop8(drop8(drop8(v)))), m);
}

/// What was written as a 16-bit integer is read back as the same integer.
pub proof fn lemma_signed16_of_be16(v: i16)
    ensures
        be16(v as int).len() == 2,
        signed16(be16(v as int)) == v,
{
    reveal(low8);
    reveal(drop8);
}

/// What was written as a 32-bit integer is read back as the same integer.
pub proof fn lemma_signed32_of_be32(v: i32)
    ensures
        be32(v as int).len() == 4,
        signed32(be32(v as int)) == v,
{
    reveal(low8);
    reveal(drop8);
}

/// What was written as a 64-bit integer is read back as the same integer.
pub proof fn lemma_signed64_of_be64(v: i64)
    ensures
        be64(v as int).len() == 8,
        signed64(be64(v as int)) == v,
{
    reveal(low8);
    reveal(drop8);
}

/// `e` stands in `b` at `pos`.
pub open spec fn holds_at(b: Seq<u8>, pos: int, e: Seq<u8>) -> bool {
    0 <= pos && pos + e.len() <= b.len() && b.subrange(pos, pos + e.len()) == e
}

/// `b` begins with `a`.
#[verifier::opaque]
pub open spec fn begins_with(b: Seq<u8>, a: Seq<u8>) -> bool {
    a.is_prefix_of(b)
}

/// Every sequence begins with itself.
pub proof fn lemma_begins_with_itself(b: Seq<u8>)
    ensures
        begins_with(b, b),
{
    reveal(begins_with);
    assert(b.subrange(0, b.len() as int) =~= b);
}

/// Where `inner` begins with `a` followed by `e`, it begins with `a`, and
/// in the frame around `inner` the bytes `e` stand behind the length field
/// and `a`.
pub proof fn lemma_field_in_frame(a: Seq<u8>, e: Seq<u8>, inner: Seq<u8>)
    requires
        begins_with(inner, a + e),
    ensures
        begins_with(inner, a),
        holds_at(framed(inner), 4int + a.len(), e),
{
    reveal(begins_with);
    let f = framed(inner);
    assert(a =~= inner.subrange(0, a.len() as int)) by {
        assert(a =~= (a + e).subrange(0, a.len() as int));
    }
    assert(f.subrange(4int + a.len(), 4int + a.len() + e.len()) =~= e) by {
        assert(e =~= (a + e).subrange(a.len() as int, (a.len() + e.len()) as int));
    }
}

/// The length field of a frame: it is read back as the number of bytes
/// that follow the type tag, and the frame is as long as that number and
/// the eight bytes of length and tag.
pub proof fn lemma_frame_length(inner: Seq<u8>)
    requires
        4 <= inner.len() <= i32::MAX + 4,
    ensures
        read_i32_at(framed(inner), 0) == Ok::<_, PacketError>(((inner.len() - 4) as i32, 4int)),
        framed(inner).len() == 8 + (inner.len() - 4),
{
    reveal(read_bytes_at);
    let n = (inner.len() - 4) as i32;
    lemma_signed32_of_be32(n);
    assert(framed(inner).subrange(0, 4) =~= be32(n as int));
}

/// Raw bytes that were written are read back.
pub proof fn lemma_bytes_in_frame(a: Seq<u8>, e: Seq<u8>, inner: Seq<u8>)
    requires
        begins_with(inner, a + e),
    ensures
        begins_with(inner, a),
        read_bytes_at(framed(inner), 4int + a.len(), e.len() as int) == Ok::<_, PacketError>(
            (e, 4int + a.len() + e.len()),
        ),
{
    reveal(read_bytes_at);
    lemma_field_in_frame(a, e, inner);
}

/// A byte that was written is read back.
pub proof fn lemma_byte_in_frame(a: Seq<u8>, v: u8, inner: Seq<u8>)
    requires
        begins_with(inner, a + seq![v]),
    ensures
        begins_with(inner, a),
        read_byte_at(framed(inner), 4int + a.len()) == Ok::<_, PacketError>((v, 4int + a.len() + 1)),
{
    reveal(read_bytes_at);
    lemma_field_in_frame(a, seq![v], inner);
}

/// A boolean that was written is read back.
pub proof fn lemma_bool_in_frame(a: Seq<u8>, v: bool, inner: Seq<u8>)
    requires
        begins_with(inner, a + wire_bool(v)),
    ensures
        begins_with(inner, a),
        read_bool_at(framed(inner), 4int + a.len()) == Ok::<_, PacketError>((v, 4int + a.len() + 1)),
{
    reveal(read_bytes_at);
    lemma_field_in_frame(a, wire_bool(v), inner);
}

/// A 32-bit integer that was written is read back.
pub proof fn lemma_i32_in_frame(a: Seq<u8>, v: i32, inner: Seq<u8>)
    requires
        begins_with(inner, a + be32(v as int)),
    ensures
        begins_with(inner, a),
        read_i32_at(framed(inner), 4int + a.len()) == Ok::<_, PacketError>((v, 4int + a.len() + 4)),
{
    reveal(read_bytes_at);
    lemma_field_in_frame(a, be32(v as int), inner);
    lemma_signed32_of_be32(v);
}

/// A 64-bit integer that was written is read back.
pub proof fn lemma_i64_in_frame(a: Seq<u8>, v: i64, inner: Seq<u8>)
    requires
        begins_with(inner, a + be64(v as int)),
    ensures
        begins_with(inner, a),
        read_i64_at(framed(inner), 4int + a.len()) == Ok::<_, PacketError>((v, 4int + a.len() + 8)),
{
    reveal(read_bytes_at);
    lemma_field_in_frame(a, be64(v as int), inner);
    lemma_signed64_of_be64(v);
}

/// A plain string that stands at `pos`, and is short enough for its length
/// prefix, is read back from there.
pub proof fn lemma_read_string_back(b: Seq<u8>, pos: int, s: Seq<char>)
    requires
        sendable(s),
        holds_at(b, pos, wire_string(s)),
    ensures
        read_string_at(b, pos) == Ok::<_, PacketError>((s, pos + wire_string(s).len())),
        wire_string(s).len() == 2 + encode_utf8(s).len(),
{
    reveal(read_bytes_at);
    let raw = encode_utf8(s);
    let n = raw.len() as i16;
    lemma_signed16_of_be16(n);
    encode_utf8_valid_utf8(s);
    encode_utf8_decode_utf8(s);
    assert(b.subrange(pos, pos + 2) =~= be16(n as int)) by {
        assert(be16(n as int) =~= wire_string(s).subrange(0, 2));
    }
    assert(b.subrange(pos + 2, pos + 2 + n) =~= raw) by {
        assert(raw =~= wire_string(s).subrange(2, 2 + n));
    }
}

/// A plain string that was written, and is short enough for its length
/// prefix, is read back.
pub proof fn lemma_string_in_frame(a: Seq<u8>, s: Seq<char>, inner: Seq<u8>)
    requires
        sendable(s),
        begins_with(inner, a + wire_string(s)),
    ensures
        begins_with(inner, a),
        read_string_at(framed(inner), 4int + a.len()) == Ok::<_, PacketError>(
            (s, 4int + a.len() + wire_string(s).len()),
        ),
{
    lemma_field_in_frame(a, wire_string(s), inner);
    lemma_read_string_back(framed(inner), 4int + a.len(), s);
}

/// An optional string that was written, and is short enough for its length
/// prefix, is read back.
pub proof fn lemma_opt_string_in_frame(a: Seq<u8>, s: Seq<char>, inner: Seq<u8>)
    requires
        sendable(s),
        begins_with(inner, a + wire_opt_string(s)),
    ensures
        begins_with(inner, a),
        read_opt_string_at(framed(inner), 4int + a.len()) == Ok::<_, PacketError>(
            (s, 4int + a.len() + wire_opt_string(s).len()),
        ),
{
    reveal(read_bytes_at);
    let b = framed(inner);
    let pos = 4int + a.len();
    lemma_field_in_frame(a, wire_opt_string(s), inner);
    if s.len() == 0 {
        assert(s =~= Seq::<char>::empty());
    } else {
        let e = wire_opt_string(s);
        assert(b.subrange(pos, pos + 1) =~= wire_bool(true)) by {
            assert(wire_bool(true) =~= e.subrange(0, 1));
        }
        assert(b.subrange(pos + 1, pos + 1 + wire_string(s).len()) =~= wire_string(s)) by {
            assert(wire_string(s) =~= e.subrange(1, e.len() as int));
        }
        lemma_read_string_back(b, pos + 1, s);
    }
}

} // verus!
