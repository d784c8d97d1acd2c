//! The derivation of credentials: the login token, the colour text and the
//! sum of two UUIDs, computed from what the server hands out.

use crate::bridge::{
    bigint_decimal, bigint_sum_signed_le, parse_uuid, sha256, sha256_digest, signed_le_bytes,
    signed_le_value, uuid_bytes,
};
use crate::error::PacketError;
use crate::packet::Packet;
use crate::protocol::register_connection::{RegisterConnectionPacket, RegisterConnectionView};
use crate::text::{
    decimal_text, digit, digit_str, hex_text, hex_upper, lemma_decimal_is_no_mark, lemma_hex_text_len,
    lemma_mantissa_of_digits, lemma_nat_text_digits, mantissa, nat_text, push_decimal, push_nat,
    scientific_text,
};
use crate::wire::{be32, lemma_be32_wraps, put_u32_be};
use vstd::prelude::*;
use vstd::string::{StrSliceExecFns, StringExecFns};
use vstd::wrapping::i32_specs;

verus! {

/// What the credentials are derived from: the key, the identifier and
/// the colour that the server's registration packet carries.
pub struct SerKey {
    pub keys: i32,
    pub network_id: String,
    pub color: i32,
}

impl SerKey {
    /// The key 0, no identifier and the colour 0.
    pub fn new() -> (out: Self)
        ensures
            out.keys == 0,
            out.network_id@ == Seq::<char>::empty(),
            out.color == 0,
    {
        Self { keys: 0, network_id: String::new(), color: 0 }
    }

    /// Decodes the registration packet at the cursor and takes key,
    /// identifier and colour from it. Where the packet cannot be decoded,
    /// the error is returned and neither `a` nor the cursor has changed.
    pub fn get(a: &mut SerKey, packet: &mut Packet) -> (res: Result<(), PacketError>)
        ensures
            final(packet).payload@ == old(packet).payload@,
            old(packet).wf() ==> final(packet).wf(),
            match res {
                Ok(_) => {
                    &&& RegisterConnectionPacket::parse(
                        old(packet).payload@,
                        old(packet).offset as int,
                    ) matches Ok((request, next))
                    &&& final(packet).offset == next
                    &&& final(a).keys == request.server_key
                    &&& final(a).network_id@ == request.network_server_id
                    &&& final(a).color == request.color
                },
                Err(e) => {
                    &&& RegisterConnectionPacket::parse(
                        old(packet).payload@,
                        old(packet).offset as int,
                    ) == Err::<(RegisterConnectionView, int), _>(e)
                    &&& final(packet).offset == old(packet).offset
                    &&& *final(a) == *old(a)
                },
            },
    {
        let b = RegisterConnectionPacket::from_packet(packet)?;
        a.keys = b.server_key;
        a.network_id = b.network_server_id;
        a.color = b.color;
        Ok(())
    }
}

/// The factor of the arbitrary-precision term of the token.
pub const T1_RATIO: i64 = 44000;

/// Where the digits of a decimal text begin and how zero is told: the text
/// is not empty, it begins with a minus sign exactly where the number is
/// negative, and it is the single digit 0 exactly where the number is 0.
proof fn lemma_decimal_shape(v: int)
    ensures
        decimal_text(v).len() >= 1,
        decimal_text(v)[0] == '-' <==> v < 0,
        v < 0 ==> decimal_text(v).len() >= 2,
        v == 0 <==> decimal_text(v).len() == 1 && decimal_text(v)[0] == '0',
{
    let size = (if v < 0 { -v } else { v }) as nat;
    lemma_nat_text_digits(size);
    lemma_decimal_is_no_mark(nat_text(size)[0]);
}

/// The scientific notation of a number other than 0, put together from
/// parts of its decimal text: the digits begin at `start` and are all 0
/// from `end` on, with `end` as small as can be.
proof fn lemma_scientific_parts(v: int, start: int, end: int)
    requires
        v != 0,
        start == (if v < 0 { 1int } else { 0int }),
        start < end <= decimal_text(v).len(),
        forall|j: int| end <= j < decimal_text(v).len() ==> decimal_text(v)[j] == '0',
        end > start + 1 ==> decimal_text(v)[end - 1] != '0',
    ensures
        scientific_text(v) == decimal_text(v).subrange(0, start + 1) + (if end > start + 1 {
            seq!['.'] + decimal_text(v).subrange(start + 1, end)
        } else {
            Seq::<char>::empty()
        }) + seq!['E'] + nat_text((decimal_text(v).len() - start - 1) as nat),
{
    let text = decimal_text(v);
    let size = (if v < 0 { -v } else { v }) as nat;
    let d = nat_text(size);
    lemma_nat_text_digits(size);
    assert(text.skip(start) =~= d);
    assert forall|j: int| end - start <= j < d.len() implies d[j] == '0' by {
        assert(d[j] == text[start + j]);
    }
    assert(end > start + 1 ==> d[end - start - 1] == text[end - 1]);
    lemma_mantissa_of_digits(d, end - start);
    let sign = if v < 0 { seq!['-'] } else { Seq::<char>::empty() };
    assert(text.subrange(0, start + 1) =~= sign + seq![d[0]]);
    if end > start + 1 {
        assert(text.subrange(start + 1, end) =~= d.subrange(1, end - start));
        assert(sign + mantissa(d) =~= text.subrange(0, start + 1) + (seq!['.'] + text.subrange(
            start + 1,
            end,
        )));
    } else {
        assert(sign + mantissa(d) =~= text.subrange(0, start + 1) + Seq::<char>::empty());
    }
}

/// The position behind the last digit other than 0, or behind the first
/// digit where all that follow it are 0.
fn significant_end(text: &str, start: usize) -> (end: usize)
    requires
        start < text@.len(),
    ensures
        start < end <= text@.len(),
        forall|j: int| end <= j < text@.len() ==> text@[j] == '0',
        end > start + 1 ==> text@[end - 1] != '0',
{
    let mut end = text.unicode_len();
    while end > start + 1 && text.get_char(end - 1) == '0'
        invariant
            start < end <= text@.len(),
            forall|j: int| end <= j < text@.len() ==> text@[j] == '0',
        decreases end,
    {
        end -= 1;
    }
    end
}

/// `n` in normalized scientific notation: the digits of its absolute value
/// with a point behind the first, without the zeros at the end and without
/// a point left at the end, then `E` and the number of digits less one; a
/// negative `n` behind a minus sign, and zero as `0E0`.
pub fn format_scientific(n: i64) -> (out: String)
    ensures
        out@ == scientific_text(n as int),
{
    let decimal = bigint_decimal(n);
    let text = decimal.as_str();
    proof {
        lemma_decimal_shape(n as int);
    }
    let len = text.unicode_len();
    let start: usize = if text.get_char(0) == '-' { 1 } else { 0 };
    if len == 1 && text.get_char(0) == '0' {
        proof {
            reveal_strlit("0E0");
        }
        let zero = String::from_str("0E0");
        assert(zero@ =~= scientific_text(0));
        return zero;
    }
    let end = significant_end(text, start);
    proof {
        lemma_scientific_parts(n as int, start as int, end as int);
        reveal_strlit(".");
        reveal_strlit("E");
    }
    let mut out = String::from_str(text.substring_char(0, start + 1));
    if end > start + 1 {
        out.append(".");
        out.append(text.substring_char(start + 1, end));
    }
    let ghost lead = out@;
    out.append("E");
    push_nat(&mut out, (len - start - 1) as u64);
    assert(out@ =~= lead + seq!['E'] + nat_text((len - start - 1) as nat));
    out
}

/// The ratio of the term with the given index; 999 for an index that has
/// no term.
pub open spec fn ratio(index: int) -> i32 {
    if index == 0 {
        4000
    } else if index == 1 {
        0
    } else if index == 2 {
        1000
    } else if index == 3 {
        2000
    } else if index == 4 {
        5000
    } else if index == 5 {
        10000
    } else if index == 6 {
        50000
    } else if index == 7 {
        100000
    } else if index == 8 {
        200000
    } else {
        999
    }
}

/// The multiplier of the term with the given index: 11 for the first, and
/// one more for each that follows.
pub open spec fn multiplier(index: int) -> i32 {
    (11 + index) as i32
}

/// The term with the given index: ratio times multiplier, combined with the
/// key by multiplication where the index is even and by addition where it
/// is odd, each operation wrapping around.
pub open spec fn token_term(index: int, key: i32) -> i32 {
    let base = i32_specs::wrapping_mul(ratio(index), multiplier(index));
    if index % 2 == 0 {
        i32_specs::wrapping_mul(base, key)
    } else {
        i32_specs::wrapping_add(base, key)
    }
}

/// The first `count` terms, each behind its index and a colon.
pub open spec fn token_terms(key: i32, count: nat) -> Seq<char>
    decreases count,
{
    if count == 0 {
        Seq::<char>::empty()
    } else {
        token_terms(key, (count - 1) as nat) + nat_text((count - 1) as nat) + seq![':']
            + decimal_text(token_term(count - 1, key) as int)
    }
}

/// The login token for a server key: the key, the key times 87 plus 24, the
/// nine terms, 44000 times the key in scientific notation and five times
/// the key, each behind its label. Only the product with 44000 is exact;
/// all other arithmetic wraps around.
pub open spec fn token_text(key: i32) -> Seq<char> {
    "c:"@ + decimal_text(key as int) + "m:"@ + decimal_text(
        i32_specs::wrapping_add(i32_specs::wrapping_mul(key, 87), 24) as int,
    ) + token_terms(key, 9) + "t1:"@ + scientific_text(T1_RATIO * key) + "d:"@ + decimal_text(
        i32_specs::wrapping_mul(5, key) as int,
    )
}

/// The ratio of the term with the index `num`.
fn get_ratios(num: i32) -> (out: i32)
    ensures
        out == ratio(num as int),
{
    match num {
        0 => 4000,
        1 => 0,
        2 => 1000,
        3 => 2000,
        4 => 5000,
        5 => 10000,
        6 => 50000,
        7 => 100000,
        8 => 200000,
        _ => 999,
    }
}

/// The term with the index `num` for the key `server_key`.
fn get_term(num: i32, server_key: i32) -> (out: i32)
    requires
        0 <= num < 9,
    ensures
        out == token_term(num as int, server_key),
{
    let base = get_ratios(num).wrapping_mul(11 + num);
    if num % 2 == 0 {
        base.wrapping_mul(server_key)
    } else {
        base.wrapping_add(server_key)
    }
}

/// The login token that the server expects for the key it handed out.
pub fn compute_key_for_packet(server_key: i32) -> (out: String)
    ensures
        out@ == token_text(server_key),
{
    let t1_str = format_scientific(T1_RATIO * (server_key as i64));
    let mut out = String::new();
    out.append("c:");
    push_decimal(&mut out, server_key as i64);
    out.append("m:");
    push_decimal(&mut out, server_key.wrapping_mul(87).wrapping_add(24) as i64);
    let ghost head = out@;
    let mut index: i32 = 0;
    while index < 9
        invariant
            0 <= index <= 9,
            out@ == head + token_terms(server_key, index as nat),
        decreases 9 - index,
    {
        let ghost before = out@;
        push_nat(&mut out, index as u64);
        proof {
            reveal_strlit(":");
        }
        out.append(":");
        push_decimal(&mut out, get_term(index, server_key) as i64);
        assert(out@ =~= head + token_terms(server_key, (index + 1) as nat));
        index += 1;
    }
    out.append("t1:");
    out.append(t1_str.as_str());
    out.append("d:");
    push_decimal(&mut out, 5i32.wrapping_mul(server_key) as i64);
    assert(out@ =~= token_text(server_key));
    out
}

/// The colour text for a colour number: `#` and the 24 low-order bits as
/// six hexadecimal digits, the letters in upper case. Sign and high bits do
/// not count.
pub open spec fn color_text(color: i32) -> Seq<char> {
    let low = color as int % 0x100_0000;
    seq![
        '#',
        digit(low / 0x10_0000),
        digit(low / 0x1_0000 % 16),
        digit(low / 0x1000 % 16),
        digit(low / 0x100 % 16),
        digit(low / 0x10 % 16),
        digit(low % 16),
    ]
}

/// The colour as the peer wants it written.
pub fn compute_color_for_packet(color: i32) -> (out: String)
    ensures
        out@ == color_text(color),
{
    let bits: u32 = if color >= 0 {
        color as u32
    } else {
        (color as i64 + 0x1_0000_0000) as u32
    };
    let low: u32 = bits % 0x100_0000;
    assert(low == color as int % 0x100_0000);
    let mut out = String::new();
    proof {
        reveal_strlit("#");
    }
    out.append("#");
    out.append(digit_str((low / 0x10_0000) as u8));
    out.append(digit_str((low / 0x1_0000 % 16) as u8));
    out.append(digit_str((low / 0x1000 % 16) as u8));
    out.append(digit_str((low / 0x100 % 16) as u8));
    out.append(digit_str((low / 0x10 % 16) as u8));
    out.append(digit_str((low % 16) as u8));
    assert(out@ =~= color_text(color));
    out
}

/// A frame around `payload`: its length and `packet_type`, each in four
/// bytes, then `payload` itself. Of a length beyond 32 bits the low bits
/// are written.
pub fn create_packet(packet_type: u32, payload: &[u8]) -> (out: Vec<u8>)
    ensures
        out@ == be32(payload@.len() as int) + be32(packet_type as int) + payload@,
{
    let mut result: Vec<u8> = Vec::new();
    let length: u64 = payload.len() as u64 % 0x1_0000_0000;
    proof {
        lemma_be32_wraps(length as int, (payload.len() as u64 / 0x1_0000_0000) as int);
    }
    put_u32_be(&mut result, length as u32);
    put_u32_be(&mut result, packet_type);
    result.extend_from_slice(payload);
    assert(result@ =~= be32(payload@.len() as int) + be32(packet_type as int) + payload@);
    result
}

/// The SHA-256 digest of `data` as upper-case hexadecimal text.
pub fn compute_sha256_hash(data: &[u8]) -> (out: String)
    ensures
        out@ == hex_text(sha256_digest(data@)),
        out@.len() == 64,
{
    let digest = sha256(data);
    proof {
        lemma_hex_text_len(digest@);
    }
    hex_upper(digest.as_slice())
}

/// The sixteen bytes of a UUID in the layout of a foreign runtime's GUID:
/// the first four bytes reversed, the next two reversed, the next two
/// reversed, the last eight as they are.
pub open spec fn guid_layout(b: Seq<u8>) -> Seq<u8> {
    seq![b[3], b[2], b[1], b[0], b[5], b[4], b[7], b[6]] + b.subrange(8, 16)
}

/// The bytes of a UUID in GUID layout.
pub fn uuid_to_csharp_guid_bytes(bytes: &[u8; 16]) -> (out: [u8; 16])
    ensures
        out@ == guid_layout(bytes@),
{
    let out = [
        bytes[3],
        bytes[2],
        bytes[1],
        bytes[0],
        bytes[5],
        bytes[4],
        bytes[7],
        bytes[6],
        bytes[8],
        bytes[9],
        bytes[10],
        bytes[11],
        bytes[12],
        bytes[13],
        bytes[14],
        bytes[15],
    ];
    assert(out@ =~= guid_layout(bytes@));
    out
}

/// The sum of two UUIDs as the peer computes it, from the bytes of the
/// two: each in GUID layout and read as a signed integer, least
/// significant byte first; the sum spelled the same way in the fewest
/// bytes; of these the SHA-256 digest in upper-case hexadecimal.
pub open spec fn uuid_sum_text(client: Seq<u8>, server: Seq<u8>) -> Seq<char> {
    hex_text(
        sha256_digest(
            signed_le_bytes(
                signed_le_value(guid_layout(client)) + signed_le_value(guid_layout(server)),
            ),
        ),
    )
}

/// The sum of the UUIDs that two texts name; none where one of the texts
/// names no UUID.
pub open spec fn uuid_sum_of(client_uuid: Seq<char>, server_uuid: Seq<char>) -> Option<Seq<char>> {
    match (uuid_bytes(client_uuid), uuid_bytes(server_uuid)) {
        (Some(client), Some(server)) => Some(uuid_sum_text(client, server)),
        _ => None,
    }
}

/// The sum of two UUIDs, given by their bytes.
pub fn uuid_sum_from_bytes(client: &[u8; 16], server: &[u8; 16]) -> (out: String)
    ensures
        out@ == uuid_sum_text(client@, server@),
{
    let client_bytes = uuid_to_csharp_guid_bytes(client);
    let server_bytes = uuid_to_csharp_guid_bytes(server);
    let sum_bytes = bigint_sum_signed_le(client_bytes.as_slice(), server_bytes.as_slice());
    compute_sha256_hash(sum_bytes.as_slice())
}

/// The sum of two UUIDs, given as texts. A text that names no UUID is
/// answered with `InvalidUuid`.
pub fn compute_uuid_for_packet(client_uuid: &str, server_uuid: &str) -> (res: Result<
    String,
    PacketError,
>)
    ensures
        match res {
            Ok(sum) => uuid_sum_of(client_uuid@, server_uuid@) == Some(sum@),
            Err(e) => e == PacketError::InvalidUuid && uuid_sum_of(client_uuid@, server_uuid@)
                is None,
        },
{
    let client_guid = match parse_uuid(client_uuid) {
        Ok(bytes) => bytes,
        Err(_) => return Err(PacketError::InvalidUuid),
    };
    let server_guid = match parse_uuid(server_uuid) {
        Ok(bytes) => bytes,
        Err(_) => return Err(PacketError::InvalidUuid),
    };
    Ok(uuid_sum_from_bytes(&client_guid, &server_guid))
}

/// The sum of two UUIDs does not depend on their order.
pub proof fn lemma_uuid_sum_commutes(a: Seq<char>, b: Seq<char>)
    ensures
        uuid_sum_of(a, b) == uuid_sum_of(b, a),
{
}

} // verus!
