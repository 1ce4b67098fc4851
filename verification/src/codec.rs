//! Digests, encodings, secret comparison and random values.
use vstd::prelude::*;
use vstd::string::*;
use vstd::utf8::*;

use crate::json::{to_value, Json, JsonSpec};
use crate::number::digit_char;

verus! {

/// The value of a hexadecimal digit of either case.
pub open spec fn hex_value(c: char) -> Option<u8> {
    if '0' <= c <= '9' {
        Some((c as u8 - 48) as u8)
    } else if 'a' <= c <= 'f' {
        Some((c as u8 - 87) as u8)
    } else if 'A' <= c <= 'F' {
        Some((c as u8 - 55) as u8)
    } else {
        None
    }
}

/// Bytes in lower-case hexadecimal, two digits for each.
pub open spec fn hex_of(bytes: Seq<u8>) -> Seq<char> {
    Seq::new(
        2 * bytes.len(),
        |i: int|
            if i % 2 == 0 {
                digit_char((bytes[i / 2] / 16) as nat)
            } else {
                digit_char((bytes[i / 2] % 16) as nat)
            },
    )
}

/// The bytes that a text gives two hexadecimal digits each for, if it does.
pub open spec fn unhex(s: Seq<char>) -> Option<Seq<u8>> {
    if s.len() % 2 == 0 && (forall|i: int| 0 <= i < s.len() ==> hex_value(#[trigger] s[i]) is Some) {
        Some(
            Seq::new(
                s.len() / 2,
                |i: int| (16 * hex_value(s[2 * i])->0 + hex_value(s[2 * i + 1])->0) as u8,
            ),
        )
    } else {
        None
    }
}

/// Hexadecimal text reads back as the bytes it was made of.
pub proof fn law_hex_round_trip(bytes: Seq<u8>)
    ensures
        unhex(hex_of(bytes)) == Some(bytes),
{
    let s = hex_of(bytes);
    assert forall|i: int| 0 <= i < s.len() implies hex_value(#[trigger] s[i]) == Some(
        (if i % 2 == 0 {
            bytes[i / 2] / 16
        } else {
            bytes[i / 2] % 16
        }) as u8,
    ) by {}
    assert(unhex(s)->0 =~= bytes);
}

/// `hex::encode`: two lower-case digits for each byte.
#[verifier::external_body]
pub(crate) fn hex_encode(bytes: &[u8]) -> (r: String)
    ensures
        r@ == hex_of(bytes@),
{
    hex::encode(bytes)
}

/// `hex::decode`: it takes digits of either case, and fails on an odd length or on
/// any other character.
#[verifier::external_body]
pub(crate) fn hex_decode(s: &str) -> (r: Option<Vec<u8>>)
    ensures
        match r {
            Some(b) => unhex(s@) == Some(b@),
            None => unhex(s@) is None,
        },
{
    hex::decode(s).ok()
}

/// The SHA-256 digest of some bytes.
pub uninterp spec fn sha256_of(bytes: Seq<u8>) -> Seq<u8>;

/// `sha2::Sha256::digest`: the digest depends on the bytes alone.
#[verifier::external_body]
pub(crate) fn sha256(bytes: &[u8]) -> (r: [u8; 32])
    ensures
        r@ == sha256_of(bytes@),
{
    <sha2::Sha256 as sha2::Digest>::digest(bytes).into()
}

/// The hexadecimal SHA-256 digest of a text.
pub open spec fn text_digest(s: Seq<char>) -> Seq<char> {
    hex_of(sha256_of(encode_utf8(s)))
}

/// The hexadecimal SHA-256 digest of a text.
pub fn digest_text(s: &str) -> (r: String)
    ensures
        r@ == text_digest(s@),
        r@.len() == 64,
{
    let hash = sha256(s.as_bytes());
    hex_encode(hash.as_slice())
}

/// Two different texts with the same SHA-256 digest.
pub open spec fn sha256_collision(a: Seq<char>, b: Seq<char>) -> bool {
    a != b && sha256_of(encode_utf8(a)) == sha256_of(encode_utf8(b))
}

/// Two texts with the same hexadecimal digest are equal or collide under
/// SHA-256.
pub proof fn law_equal_digests(a: Seq<char>, b: Seq<char>)
    requires
        text_digest(a) == text_digest(b),
    ensures
        a == b || sha256_collision(a, b),
{
    law_hex_round_trip(sha256_of(encode_utf8(a)));
    law_hex_round_trip(sha256_of(encode_utf8(b)));
}

/// `subtle::ConstantTimeEq::ct_eq` on byte slices: whether they have the same
/// length and the same bytes.
#[verifier::external_body]
pub(crate) fn bytes_equal(a: &[u8], b: &[u8]) -> (r: bool)
    ensures
        r == (a@ == b@),
{
    bool::from(subtle::ConstantTimeEq::ct_eq(a, b))
}

/// Whether two texts are the same, compared without an early exit.
pub fn secret_equal(a: &str, b: &str) -> (r: bool)
    ensures
        r == (a@ == b@),
{
    proof {
        encode_utf8_decode_utf8(a@);
        encode_utf8_decode_utf8(b@);
    }
    bytes_equal(a.as_bytes(), b.as_bytes())
}

/// The text that unpadded URL-safe base64 gives for some bytes.
pub uninterp spec fn base64url_text(bytes: Seq<u8>) -> Seq<char>;

/// The bytes that a text stands for in unpadded URL-safe base64, or what is wrong with it.
pub uninterp spec fn base64url_bytes(text: Seq<char>) -> Result<Seq<u8>, Seq<char>>;

/// `encode` of base64's `URL_SAFE_NO_PAD` engine: its text reads back as the bytes
/// it was made of.
#[verifier::external_body]
pub(crate) fn base64url_encode(bytes: &[u8]) -> (r: String)
    ensures
        r@ == base64url_text(bytes@),
        base64url_bytes(r@) is Ok && base64url_bytes(r@)->Ok_0 == bytes@,
{
    base64::Engine::encode(&base64::engine::general_purpose::URL_SAFE_NO_PAD, bytes)
}

/// `decode` of base64's `URL_SAFE_NO_PAD` engine: the bytes, or what is wrong with a text that is
/// not in that encoding. Both depend on the text alone.
#[verifier::external_body]
pub(crate) fn base64url_decode(text: &str) -> (r: Result<Vec<u8>, String>)
    ensures
        match r {
            Ok(b) => base64url_bytes(text@) == Ok::<Seq<u8>, Seq<char>>(b@),
            Err(m) => base64url_bytes(text@) == Err::<Seq<u8>, Seq<char>>(m@),
        },
{
    let engine = base64::engine::general_purpose::URL_SAFE_NO_PAD;
    base64::Engine::decode(&engine, text).map_err(|e| e.to_string())
}

/// The text that padded standard base64 gives for some bytes.
pub uninterp spec fn base64_text(bytes: Seq<u8>) -> Seq<char>;

/// The bytes that a text stands for in padded standard base64, or what is wrong with it.
pub uninterp spec fn base64_bytes(text: Seq<char>) -> Result<Seq<u8>, Seq<char>>;

/// `encode` of base64's `STANDARD` engine: its text reads back as the bytes it was
/// made of.
#[verifier::external_body]
pub(crate) fn base64_encode(bytes: &[u8]) -> (r: String)
    ensures
        r@ == base64_text(bytes@),
        base64_bytes(r@) is Ok && base64_bytes(r@)->Ok_0 == bytes@,
{
    base64::Engine::encode(&base64::engine::general_purpose::STANDARD, bytes)
}

/// `decode` of base64's `STANDARD` engine: the bytes, or what is wrong with a text that is not in
/// that encoding. Both depend on the text alone.
#[verifier::external_body]
pub(crate) fn base64_decode(text: &str) -> (r: Result<Vec<u8>, String>)
    ensures
        match r {
            Ok(b) => base64_bytes(text@) == Ok::<Seq<u8>, Seq<char>>(b@),
            Err(m) => base64_bytes(text@) == Err::<Seq<u8>, Seq<char>>(m@),
        },
{
    let engine = base64::engine::general_purpose::STANDARD;
    base64::Engine::decode(&engine, text).map_err(|e| e.to_string())
}

/// `rand::RngCore::fill_bytes` on the thread's generator: as many bytes as asked
/// for, of any value.
#[verifier::external_body]
pub(crate) fn random_bytes(n: usize) -> (r: Vec<u8>)
    ensures
        r@.len() == n,
{
    let mut bytes = vec![0u8; n];
    rand::RngCore::fill_bytes(&mut rand::thread_rng(), &mut bytes);
    bytes
}

/// Whether a text is made of lower-case hexadecimal digits.
pub open spec fn is_hex(s: Seq<char>) -> bool {
    forall|i: int| 0 <= i < s.len() ==> ('0' <= #[trigger] s[i] <= '9' || 'a' <= s[i] <= 'f')
}

pub proof fn lemma_hex_of_is_hex(bytes: Seq<u8>)
    ensures
        is_hex(hex_of(bytes)),
        hex_of(bytes).len() == 2 * bytes.len(),
{
}

/// A secret of 32 random bytes, in hexadecimal.
pub fn new_token() -> (r: String)
    ensures
        r@.len() == 64,
        is_hex(r@),
{
    let bytes = random_bytes(32);
    proof {
        lemma_hex_of_is_hex(bytes@);
    }
    token_of(bytes.as_slice())
}

/// The hexadecimal text of a secret.
pub fn token_of(bytes: &[u8]) -> (r: String)
    ensures
        r@ == hex_of(bytes@),
{
    hex_encode(bytes)
}

/// A number in exactly `width` hexadecimal digits, the higher ones cut off.
pub open spec fn hex_digits(n: nat, width: nat) -> Seq<char>
    decreases width,
{
    if width == 0 {
        Seq::empty()
    } else {
        hex_digits(n / 16, (width - 1) as nat).push(digit_char(n % 16))
    }
}

/// A UUID as text: its 32 hexadecimal digits in groups of 8, 4, 4, 4 and 12.
pub open spec fn uuid_text(id: u128) -> Seq<char> {
    let d = hex_digits(id as nat, 32);
    d.subrange(0, 8) + seq!['-'] + d.subrange(8, 12) + seq!['-'] + d.subrange(12, 16) + seq!['-']
        + d.subrange(16, 20) + seq!['-'] + d.subrange(20, 32)
}

/// The 16 bytes of a UUID, the highest first.
pub open spec fn uuid_bytes(id: u128) -> Seq<u8> {
    unhex(hex_digits(id as nat, 32))->0
}

/// The UUID that a JSON value stands for, or what is wrong with it.
pub uninterp spec fn uuid_in(m: JsonSpec) -> Result<u128, Seq<char>>;

/// `uuid::Uuid::new_v4`: a random UUID, of any value that has the version 4.
#[verifier::external_body]
pub(crate) fn new_uuid() -> (r: u128)
    ensures
        uuid_text(r)[14] == '4',
{
    uuid::Uuid::new_v4().as_u128()
}

/// `to_string` of a `uuid::Uuid`: the hyphenated form in lower case, which reads
/// back as the same UUID.
#[verifier::external_body]
pub(crate) fn uuid_to_text(id: u128) -> (r: String)
    ensures
        r@ == uuid_text(id),
        uuid_in(JsonSpec::Text(r@)) is Ok && uuid_in(JsonSpec::Text(r@))->Ok_0 == id,
{
    uuid::Uuid::from_u128(id).to_string()
}

/// `serde_json::from_value` on a `uuid::Uuid`: the UUID that the value stands for, or what is wrong
/// with it, which depend on the value alone.
#[verifier::external_body]
pub(crate) fn read_uuid(j: &Json) -> (r: Result<u128, String>)
    ensures
        match r {
            Ok(id) => uuid_in(j@) == Ok::<u128, Seq<char>>(id),
            Err(m) => uuid_in(j@) == Err::<u128, Seq<char>>(m@),
        },
{
    let id = serde_json::from_value::<uuid::Uuid>(to_value(j)).map_err(|e| e.to_string())?;
    Ok(id.as_u128())
}

pub proof fn lemma_hex_digits(n: nat, width: nat)
    ensures
        hex_digits(n, width).len() == width,
        is_hex(hex_digits(n, width)),
    decreases width,
{
    if width > 0 {
        lemma_hex_digits(n / 16, (width - 1) as nat);
    }
}

}
