//! The calls into outside crates that the library makes, each with the contract
//! that the rest of the library relies on.
use vstd::prelude::*;

use crate::json::{Json, JsonTree};
use crate::text;

verus! {

/// The standard base64 text of `bytes` (RFC 4648, with padding).
pub uninterp spec fn base64_text(bytes: Seq<u8>) -> Seq<char>;

/// The bytes that a standard base64 text stands for, where it is one.
pub uninterp spec fn base64_bytes(text: Seq<char>) -> Option<Seq<u8>>;

/// Calls `base64::engine::general_purpose::STANDARD.encode`: the result is the base64
/// text of `bytes`, and decoding it gives `bytes` back. The bound keeps the encoded
/// length within what one allocation may hold.
#[verifier::external_body]
pub(crate) fn base64_encode(bytes: &[u8]) -> (r: String)
    requires
        (bytes@.len() + 2) / 3 * 4 <= isize::MAX,
    ensures
        r@ == base64_text(bytes@),
        base64_bytes(r@) == Some(bytes@),
{
    base64::Engine::encode(&base64::engine::general_purpose::STANDARD, bytes)
}

/// The bytes held by an optional list.
pub open spec fn opt_bytes(v: Option<Vec<u8>>) -> Option<Seq<u8>> {
    match v {
        Some(b) => Some(b@),
        None => None,
    }
}

/// Calls `base64::engine::general_purpose::STANDARD.decode`: the result is `None`
/// exactly where the crate reports a decoding error.
#[verifier::external_body]
pub(crate) fn base64_decode(encoded: &str) -> (r: Option<Vec<u8>>)
    ensures
        opt_bytes(r) == base64_bytes(encoded@),
{
    base64::Engine::decode(&base64::engine::general_purpose::STANDARD, encoded).ok()
}

/// The SHA-256 digest of `bytes`.
pub uninterp spec fn sha256(bytes: Seq<u8>) -> Seq<u8>;

/// Calls `sha2::Sha256::digest`: the result is the digest of `bytes`. The bound keeps the
/// length in bits, which the digest counts in 64 bits, from overflowing.
#[verifier::external_body]
pub(crate) fn sha256_digest(bytes: &[u8]) -> (r: [u8; 32])
    requires
        bytes@.len() < 0x2000_0000_0000_0000,
    ensures
        r@ == sha256(bytes@),
{
    <sha2::Sha256 as sha2::Digest>::digest(bytes).into()
}

/// The outside crate's JSON value.
#[verifier::external_type_specification]
#[verifier::external_body]
pub struct ExJsonValue(serde_json::Value);

/// The JSON value that `bytes` are the text of, where they are one.
pub uninterp spec fn json_value(bytes: Seq<u8>) -> Option<JsonTree>;

/// Changes a `serde_json::Value` into the library's form, variant by variant and member by
/// member. Nothing is claimed of it here: what it gives is part of what `json_parse` claims.
#[verifier::external_body]
fn json_of_value(value: serde_json::Value) -> Json {
    match value {
        serde_json::Value::Null => Json::Null,
        serde_json::Value::Bool(b) => Json::Bool(b),
        serde_json::Value::Number(n) => Json::Number(n.to_string()),
        serde_json::Value::String(s) => Json::Text(s),
        serde_json::Value::Array(v) => Json::Array(v.into_iter().map(json_of_value).collect()),
        serde_json::Value::Object(m) => Json::Object(
            m.into_iter().map(|(k, v)| (k, json_of_value(v))).collect(),
        ),
    }
}

/// Calls `serde_json::from_slice` into a `serde_json::Value`: the result is the JSON value
/// that `bytes` are the text of, and `None` exactly where the crate reports an error.
#[verifier::external_body]
pub(crate) fn json_parse(bytes: &[u8]) -> (r: Option<Json>)
    ensures
        match r {
            Some(v) => json_value(bytes@) == Some(v.tree()),
            None => json_value(bytes@) is None,
        },
{
    match serde_json::from_slice::<serde_json::Value>(bytes) {
        Ok(value) => Some(json_of_value(value)),
        Err(_) => None,
    }
}

/// Calls `nostr::EventId::from_hex`: it accepts exactly the texts of 64 hexadecimal
/// digits and gives the 32 bytes that they stand for.
#[verifier::external_body]
pub(crate) fn event_id_from_hex(hex: &str) -> (r: Option<[u8; 32]>)
    ensures
        r is Some <==> text::hex_event_id(hex@),
        r matches Some(id) ==> id@ == text::hex_decode(hex@),
{
    match nostr::EventId::from_hex(hex) {
        Ok(id) => Some(id.to_bytes()),
        Err(_) => None,
    }
}

/// Calls `nostr::EventId::to_hex`: the lower-case hexadecimal text of the id.
#[verifier::external_body]
pub(crate) fn event_id_to_hex(id: &[u8; 32]) -> (r: String)
    ensures
        r@ == text::hex_encode(id@),
{
    nostr::EventId::from_byte_array(*id).to_hex()
}

/// The id and the author's key, in hexadecimal, of the signed event that `json` is
/// the serialization of, where it is one.
pub uninterp spec fn event_fields(json: Seq<u8>) -> Option<(Seq<u8>, Seq<char>)>;

/// The id bytes and key text of an optional pair.
pub open spec fn fields_view(v: Option<([u8; 32], String)>) -> Option<(Seq<u8>, Seq<char>)> {
    match v {
        Some((id, key)) => Some((id@, key@)),
        None => None,
    }
}

/// Calls `serde_json::from_slice::<nostr::Event>`: `None` exactly where the bytes do
/// not parse as an event, else the event's id and its author's key in hexadecimal.
#[verifier::external_body]
pub(crate) fn signed_event_fields(json: &[u8]) -> (r: Option<([u8; 32], String)>)
    ensures
        fields_view(r) == event_fields(json@),
{
    match serde_json::from_slice::<nostr::Event>(json) {
        Ok(event) => Some((event.id.to_bytes(), event.pubkey.to_hex())),
        Err(_) => None,
    }
}

/// Whether `json` is the serialization of an event whose id and signature verify.
pub uninterp spec fn event_verifies(json: Seq<u8>) -> bool;

/// Calls `nostr::Event::verify` on the event that the bytes parse as: whether there is
/// one and its id and signature verify.
#[verifier::external_body]
pub(crate) fn signed_event_verifies(json: &[u8]) -> (r: bool)
    ensures
        r == event_verifies(json@),
{
    match serde_json::from_slice::<nostr::Event>(json) {
        Ok(event) => event.verify().is_ok(),
        Err(_) => false,
    }
}

/// The `k`-th hexadecimal digit of a 128-bit value, the most significant one first.
pub open spec fn uuid_nibble(value: u128, k: int) -> u8 {
    ((value >> ((124 - 4 * k) as u128)) & 15) as u8
}

/// The hyphenated lower-case text of a UUID, such as
/// `67e55044-10b1-426f-9247-bb680e5fe0c8`.
pub open spec fn uuid_text(value: u128) -> Seq<char> {
    Seq::new(
        36,
        |i: int|
            if i == 8 || i == 13 || i == 18 || i == 23 {
                '-'
            } else if i < 8 {
                text::hex_char(uuid_nibble(value, i))
            } else if i < 13 {
                text::hex_char(uuid_nibble(value, i - 1))
            } else if i < 18 {
                text::hex_char(uuid_nibble(value, i - 2))
            } else if i < 23 {
                text::hex_char(uuid_nibble(value, i - 3))
            } else {
                text::hex_char(uuid_nibble(value, i - 4))
            },
    )
}

/// Calls `uuid::Uuid::to_string`: the hyphenated lower-case text, which parses back to
/// the same UUID.
#[verifier::external_body]
pub(crate) fn uuid_to_string(value: u128) -> (r: String)
    ensures
        r@ == uuid_text(value),
        uuid_value(r@) == Some(value),
{
    uuid::Uuid::from_u128(value).to_string()
}

/// Calls `uuid::Uuid::new_v4`, which draws a random UUID. Nothing is claimed of the result:
/// it differs from call to call.
#[verifier::external_body]
pub(crate) fn uuid_random() -> u128 {
    uuid::Uuid::new_v4().as_u128()
}

/// The RFC 3339 text, in UTC, of an instant given in seconds and nanoseconds since the
/// Unix epoch, where `chrono` has a date for it.
pub uninterp spec fn rfc3339_text(secs: i64, nanos: u32) -> Option<Seq<char>>;

/// Calls `chrono::DateTime::from_timestamp` and `to_rfc3339` on what it gives: `None`
/// exactly where the instant is out of the range of dates.
#[verifier::external_body]
pub(crate) fn rfc3339(secs: i64, nanos: u32) -> (r: Option<String>)
    ensures
        text::opt_text(r) == rfc3339_text(secs, nanos),
{
    match chrono::DateTime::<chrono::Utc>::from_timestamp(secs, nanos) {
        Some(at) => Some(at.to_rfc3339()),
        None => None,
    }
}

/// The UUID that a text stands for in any of the written forms of the `uuid` crate
/// (simple, hyphenated, URN, braced), where it does.
pub uninterp spec fn uuid_value(text: Seq<char>) -> Option<u128>;

/// Calls `uuid::Uuid::parse_str`: `None` exactly where the crate reports an error.
#[verifier::external_body]
pub(crate) fn uuid_parse(text: &str) -> (r: Option<u128>)
    ensures
        r == uuid_value(text@),
{
    match uuid::Uuid::parse_str(text) {
        Ok(id) => Some(id.as_u128()),
        Err(_) => None,
    }
}

/// `str::to_ascii_lowercase`: a copy in which the ASCII letters `A` to `Z` are mapped to
/// `a` to `z` and all other characters are unchanged.
pub assume_specification[ str::to_ascii_lowercase ](s: &str) -> (r: String)
    ensures
        r@ == text::ascii_lower(s@),
;

/// A text in quotes, as the standard library writes strings for developers.
pub uninterp spec fn debug_text(s: Seq<char>) -> Seq<char>;

/// Writes a text with the standard library's `Debug` format for `str`, which puts it in
/// quotes and escapes what needs it.
#[verifier::external_body]
pub(crate) fn debug_quoted(s: &str) -> (r: String)
    ensures
        r@ == debug_text(s@),
{
    format!("{:?}", s)
}

proof fn hex_chars_distinct(a: u8, b: u8)
    requires
        a < 16,
        b < 16,
        text::hex_char(a) == text::hex_char(b),
    ensures
        a == b,
{
}

proof fn nibble_below_16(v: u128, k: int)
    requires
        0 <= k < 32,
    ensures
        uuid_nibble(v, k) < 16,
{
    let shift = (124 - 4 * k) as u128;
    let w = v >> shift;
    assert(w & 15 < 16) by (bit_vector);
}

proof fn uuid_digit(v: u128, k: int)
    requires
        0 <= k < 32,
    ensures
        ({
            let i = if k < 8 {
                k
            } else if k < 12 {
                k + 1
            } else if k < 16 {
                k + 2
            } else if k < 20 {
                k + 3
            } else {
                k + 4
            };
            uuid_text(v)[i] == text::hex_char(uuid_nibble(v, k))
        }),
{
}

/// Different UUIDs have different texts.
pub proof fn uuid_text_injective(a: u128, b: u128)
    requires
        uuid_text(a) == uuid_text(b),
    ensures
        a == b,
{
    assert forall|k: int| 0 <= k < 32 implies #[trigger] uuid_nibble(a, k)
        == uuid_nibble(b, k) by {
        uuid_digit(a, k);
        uuid_digit(b, k);
        nibble_below_16(a, k);
        nibble_below_16(b, k);
        hex_chars_distinct(uuid_nibble(a, k), uuid_nibble(b, k));
    }
    assert forall|k: int| 0 <= k < 32 implies (a >> (#[trigger] ((124 - 4 * k) as u128))) & 15 == (b
        >> ((124 - 4 * k) as u128)) & 15 by {
        let shift = (124 - 4 * k) as u128;
        assert(uuid_nibble(a, k) == uuid_nibble(b, k));
        let x = (a >> shift) & 15;
        let y = (b >> shift) & 15;
        assert(x < 16) by {
            let w = a >> shift;
            assert(w & 15 < 16) by (bit_vector);
        }
        assert(y < 16) by {
            let w = b >> shift;
            assert(w & 15 < 16) by (bit_vector);
        }
        assert(x as u8 == y as u8);
    }
    uuid_equal_by_digits(a, b);
}

proof fn uuid_equal_by_digits(a: u128, b: u128)
    requires
        forall|k: int|
            0 <= k < 32 ==> (a >> (#[trigger] ((124 - 4 * k) as u128))) & 15 == (b >> ((124 - 4
                * k) as u128)) & 15,
    ensures
        a == b,
{
    assert((124 - 4 * 0int) as u128 == 124);
    assert((124 - 4 * 1int) as u128 == 120);
    assert((124 - 4 * 2int) as u128 == 116);
    assert((124 - 4 * 3int) as u128 == 112);
    assert((124 - 4 * 4int) as u128 == 108);
    assert((124 - 4 * 5int) as u128 == 104);
    assert((124 - 4 * 6int) as u128 == 100);
    assert((124 - 4 * 7int) as u128 == 96);
    assert((124 - 4 * 8int) as u128 == 92);
    assert((124 - 4 * 9int) as u128 == 88);
    assert((124 - 4 * 10int) as u128 == 84);
    assert((124 - 4 * 11int) as u128 == 80);
    assert((124 - 4 * 12int) as u128 == 76);
    assert((124 - 4 * 13int) as u128 == 72);
    assert((124 - 4 * 14int) as u128 == 68);
    assert((124 - 4 * 15int) as u128 == 64);
    assert((124 - 4 * 16int) as u128 == 60);
    assert((124 - 4 * 17int) as u128 == 56);
    assert((124 - 4 * 18int) as u128 == 52);
    assert((124 - 4 * 19int) as u128 == 48);
    assert((124 - 4 * 20int) as u128 == 44);
    assert((124 - 4 * 21int) as u128 == 40);
    assert((124 - 4 * 22int) as u128 == 36);
    assert((124 - 4 * 23int) as u128 == 32);
    assert((124 - 4 * 24int) as u128 == 28);
    assert((124 - 4 * 25int) as u128 == 24);
    assert((124 - 4 * 26int) as u128 == 20);
    assert((124 - 4 * 27int) as u128 == 16);
    assert((124 - 4 * 28int) as u128 == 12);
    assert((124 - 4 * 29int) as u128 == 8);
    assert((124 - 4 * 30int) as u128 == 4);
    assert((124 - 4 * 31int) as u128 == 0);
    assert(a == b) by (bit_vector)
        requires
            (a >> 0u128) & 15 == (b >> 0u128) & 15,
            (a >> 4u128) & 15 == (b >> 4u128) & 15,
            (a >> 8u128) & 15 == (b >> 8u128) & 15,
            (a >> 12u128) & 15 == (b >> 12u128) & 15,
            (a >> 16u128) & 15 == (b >> 16u128) & 15,
            (a >> 20u128) & 15 == (b >> 20u128) & 15,
            (a >> 24u128) & 15 == (b >> 24u128) & 15,
            (a >> 28u128) & 15 == (b >> 28u128) & 15,
            (a >> 32u128) & 15 == (b >> 32u128) & 15,
            (a >> 36u128) & 15 == (b >> 36u128) & 15,
            (a >> 40u128) & 15 == (b >> 40u128) & 15,
            (a >> 44u128) & 15 == (b >> 44u128) & 15,
            (a >> 48u128) & 15 == (b >> 48u128) & 15,
            (a >> 52u128) & 15 == (b >> 52u128) & 15,
            (a >> 56u128) & 15 == (b >> 56u128) & 15,
            (a >> 60u128) & 15 == (b >> 60u128) & 15,
            (a >> 64u128) & 15 == (b >> 64u128) & 15,
            (a >> 68u128) & 15 == (b >> 68u128) & 15,
            (a >> 72u128) & 15 == (b >> 72u128) & 15,
            (a >> 76u128) & 15 == (b >> 76u128) & 15,
            (a >> 80u128) & 15 == (b >> 80u128) & 15,
            (a >> 84u128) & 15 == (b >> 84u128) & 15,
            (a >> 88u128) & 15 == (b >> 88u128) & 15,
            (a >> 92u128) & 15 == (b >> 92u128) & 15,
            (a >> 96u128) & 15 == (b >> 96u128) & 15,
            (a >> 100u128) & 15 == (b >> 100u128) & 15,
            (a >> 104u128) & 15 == (b >> 104u128) & 15,
            (a >> 108u128) & 15 == (b >> 108u128) & 15,
            (a >> 112u128) & 15 == (b >> 112u128) & 15,
            (a >> 116u128) & 15 == (b >> 116u128) & 15,
            (a >> 120u128) & 15 == (b >> 120u128) & 15,
            (a >> 124u128) & 15 == (b >> 124u128) & 15,
    ;
}

} // verus!
