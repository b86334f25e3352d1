//! Byte-level primitives supplied by the `sha2`, `hmac` and `hex` crates.

use hmac::{Hmac, Mac};
use sha2::{Digest, Sha256};
use vstd::prelude::*;
use vstd::utf8::encode_utf8;

verus! {

/// The SHA-256 digest of `input`, as computed by `sha2`.
pub uninterp spec fn sha256_digest(input: Seq<u8>) -> Seq<u8>;

/// The HMAC-SHA256 tag of `message` under `key`, as computed by `hmac` over `sha2`.
pub uninterp spec fn hmac_sha256_tag(key: Seq<u8>, message: Seq<u8>) -> Seq<u8>;

/// The lower-case hexadecimal digit for a value below sixteen.
pub open spec fn hex_digit(nibble: int) -> char {
    if nibble < 10 {
        (48 + nibble) as char
    } else {
        (87 + nibble) as char
    }
}

/// The lower-case hexadecimal rendering of `bytes`: two digits per byte, the
/// high half first.
pub open spec fn hex_encoding(bytes: Seq<u8>) -> Seq<char> {
    Seq::new(
        2 * bytes.len(),
        |i: int|
            if i % 2 == 0 {
                hex_digit(bytes[i / 2] as int / 16)
            } else {
                hex_digit(bytes[i / 2] as int % 16)
            },
    )
}

/// SHA-256 of the UTF-8 bytes of `text`, in lower-case hexadecimal.
pub open spec fn sha256_hex(text: Seq<char>) -> Seq<char> {
    hex_encoding(sha256_digest(encode_utf8(text)))
}

/// Calls `sha2::Sha256::digest`. Trusted: the result is the SHA-256 digest of
/// `input`, which is always 32 bytes long.
#[verifier::external_body]
pub(crate) fn sha256_bytes(input: &[u8]) -> (digest: Vec<u8>)
    ensures
        digest@ == sha256_digest(input@),
        digest@.len() == 32,
{
    Sha256::digest(input).to_vec()
}

/// Runs `hmac::Hmac<Sha256>` over `message` with `key`. Trusted: the result is
/// the 32-byte HMAC-SHA256 tag; `new_from_slice` accepts a key of any length.
#[verifier::external_body]
pub(crate) fn hmac_sha256_bytes(key: &[u8], message: &[u8]) -> (tag: Vec<u8>)
    ensures
        tag@ == hmac_sha256_tag(key@, message@),
        tag@.len() == 32,
{
    let mut mac = Hmac::<Sha256>::new_from_slice(key).expect("HMAC accepts a key of any length");
    mac.update(message);
    mac.finalize().into_bytes().to_vec()
}

/// Calls `hex::encode`. Trusted: the result holds two lower-case hexadecimal
/// digits for each byte of `bytes`, in order.
#[verifier::external_body]
pub(crate) fn hex_encode(bytes: &[u8]) -> (text: String)
    ensures
        text@ == hex_encoding(bytes@),
{
    hex::encode(bytes)
}

/// SHA-256 of the UTF-8 bytes of `input`, as lower-case hexadecimal text.
pub fn sha256(input: &str) -> (text: String)
    ensures
        text@ == sha256_hex(input@),
        text@.len() == 64,
{
    let digest = sha256_bytes(input.as_bytes());
    hex_encode(digest.as_slice())
}

} // verus!
