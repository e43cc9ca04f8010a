//! Byte-level encodings and the signature check that the registry relies on.

use vstd::prelude::*;
use vstd::string::StringSliceAdditionalSpecFns;
use vstd::utf8::encode_utf8;

verus! {

/// The longest username, in bytes, that the registry accepts.
pub const MAX_USERNAME_CHARS: usize = 30;

/// Whether `signature` is a valid Baby Jubjub EdDSA signature by the compressed
/// point `public_key` over the field element whose little-endian bytes are
/// `message`.
pub uninterp spec fn signature_verifies(public_key: Seq<u8>, signature: Seq<u8>, message: Seq<u8>) -> bool;

/// Relies on babyjubjub_rs::decompress_point and decompress_signature to read
/// the key and the signature, on num_bigint::BigInt::from_bytes_le to read the
/// message as an unsigned little-endian integer, and on babyjubjub_rs::verify
/// for the check itself. A key or a signature that does not decompress is no
/// valid signature. A message of at most 31 bytes lies below the field
/// modulus, where `verify` does not panic.
#[verifier::external_body]
fn verify_signature(public_key: [u8; 32], signature: &[u8; 64], message: &[u8]) -> (r: bool)
    requires
        message@.len() <= 31,
    ensures
        r == signature_verifies(public_key@, signature@, message@),
{
    let point = match babyjubjub_rs::decompress_point(public_key) {
        Ok(p) => p,
        Err(_) => return false,
    };
    let sig = match babyjubjub_rs::decompress_signature(signature) {
        Ok(s) => s,
        Err(_) => return false,
    };
    let msg = num_bigint::BigInt::from_bytes_le(num_bigint::Sign::Plus, message);
    babyjubjub_rs::verify(point, sig, msg)
}

/// The canonical message for a username: its UTF-8 bytes, read as a
/// little-endian field element.
pub open spec fn username_message(username: Seq<char>) -> Seq<u8> {
    encode_utf8(username)
}

/// Whether `signature` by `public_key` signs the canonical encoding of
/// `username`.
pub open spec fn signs_username(public_key: [u8; 32], signature: [u8; 64], username: Seq<char>) -> bool {
    signature_verifies(public_key@, signature@, username_message(username))
}

/// Checks a signature over a username of at most `MAX_USERNAME_CHARS` bytes.
pub fn verify_username_signature(public_key: [u8; 32], signature: &[u8; 64], username: &str) -> (r:
    bool)
    requires
        username.spec_bytes().len() <= MAX_USERNAME_CHARS,
    ensures
        r == signs_username(public_key, *signature, username@),
{
    verify_signature(public_key, signature, username.as_bytes())
}

/// The lower-case hexadecimal digit for a value below sixteen.
pub open spec fn hex_digit(n: u8) -> char {
    if n < 10 {
        ((n + 48) as u8) as char
    } else {
        ((n + 87) as u8) as char
    }
}

/// Two lower-case hexadecimal digits per byte, high nibble first.
pub open spec fn hex_of(b: Seq<u8>) -> Seq<char>
    decreases b.len(),
{
    if b.len() == 0 {
        Seq::empty()
    } else {
        hex_of(b.drop_last()) + seq![hex_digit(b.last() / 16), hex_digit(b.last() % 16)]
    }
}

/// Relies on hex::encode: lower-case digits, two per byte, high nibble first.
#[verifier::external_body]
pub(crate) fn to_hex(b: &[u8; 32]) -> (r: String)
    ensures
        r@ == hex_of(b@),
{
    hex::encode(b)
}

} // verus!
