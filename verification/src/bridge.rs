//! The calls into other crates: big integers, SHA-256 and UUIDs. Nothing
//! here is proved; each contract says what the crate's function is taken
//! to do, over the library's own mathematics.

use crate::text::decimal_text;
use num_bigint::BigInt;
use sha2::{Digest, Sha256};
use uuid::Uuid;
use vstd::prelude::*;

verus! {

/// The failure that the `uuid` crate reports for a text that is no UUID.
#[verifier::external_type_specification]
#[verifier::external_body]
pub struct ExUuidError(uuid::Error);

/// The integer that `bytes` spell in two's complement, least significant
/// byte first. No bytes spell 0.
pub open spec fn signed_le_value(bytes: Seq<u8>) -> int
    decreases bytes.len(),
{
    if bytes.len() == 0 {
        0
    } else if bytes.len() == 1 {
        if bytes[0] >= 0x80 {
            bytes[0] as int - 0x100
        } else {
            bytes[0] as int
        }
    } else {
        bytes[0] as int + 0x100 * signed_le_value(bytes.drop_first())
    }
}

/// The shortest spelling of `v` in two's complement, least significant
/// byte first; it has at least one byte.
pub open spec fn signed_le_bytes(v: int) -> Seq<u8>
    decreases (if v < 0 { -v } else { v }),
{
    if -0x80 <= v < 0x80 {
        seq![(v % 0x100) as u8]
    } else {
        seq![(v % 0x100) as u8] + signed_le_bytes(v / 0x100)
    }
}

/// The SHA-256 digest of `data`.
pub uninterp spec fn sha256_digest(data: Seq<u8>) -> Seq<u8>;

/// The sixteen bytes of the UUID that `text` names, in the order of the
/// text, where the `uuid` crate accepts `text` as a UUID.
pub uninterp spec fn uuid_bytes(text: Seq<char>) -> Option<Seq<u8>>;

/// `BigInt::from` and `to_string` of `num-bigint`: the decimal digits of
/// `n`, behind a minus sign where `n` is negative.
#[verifier::external_body]
pub(crate) fn bigint_decimal(n: i64) -> (text: String)
    ensures
        text@ == decimal_text(n as int),
{
    BigInt::from(n).to_string()
}

/// `BigInt::from_signed_bytes_le`, `+` and `to_signed_bytes_le` of
/// `num-bigint`: both arguments are read as two's complement, least
/// significant byte first, and their sum comes back in the same form and
/// in the fewest bytes.
#[verifier::external_body]
pub(crate) fn bigint_sum_signed_le(a: &[u8], b: &[u8]) -> (sum: Vec<u8>)
    ensures
        sum@ == signed_le_bytes(signed_le_value(a@) + signed_le_value(b@)),
{
    (BigInt::from_signed_bytes_le(a) + BigInt::from_signed_bytes_le(b)).to_signed_bytes_le()
}

/// `Sha256` of `sha2`: the digest of `data`, which has 32 bytes.
#[verifier::external_body]
pub(crate) fn sha256(data: &[u8]) -> (digest: Vec<u8>)
    ensures
        digest@ == sha256_digest(data@),
        digest@.len() == 32,
{
    let mut hasher = Sha256::new();
    hasher.update(data);
    hasher.finalize().to_vec()
}

/// `Uuid::parse_str` and `into_bytes` of `uuid`: the bytes of the UUID that
/// `text` names, or the crate's error where it names none.
#[verifier::external_body]
pub(crate) fn parse_uuid(text: &str) -> (res: Result<[u8; 16], uuid::Error>)
    ensures
        match res {
            Ok(bytes) => uuid_bytes(text@) == Some(bytes@),
            Err(_) => uuid_bytes(text@) is None,
        },
{
    match Uuid::parse_str(text) {
        Ok(id) => Ok(id.into_bytes()),
        Err(e) => Err(e),
    }
}

/// `Uuid::new_v4` and `to_string` of `uuid`: a random UUID in the
/// hyphenated form, which `parse_str` accepts like every form that the
/// crate writes.
#[verifier::external_body]
pub(crate) fn fresh_uuid_text() -> (text: String)
    ensures
        uuid_bytes(text@) is Some,
{
    Uuid::new_v4().to_string()
}

} // verus!
