//! SHA-256 digests and their hexadecimal spelling, as the API uses them to
//! fingerprint API keys and to derive idempotency keys.

use vstd::prelude::*;
use vstd::utf8::*;
use crate::text::hex_char;
use sha2::Digest;

verus! {

broadcast use vstd::string::group_string_axioms;

/// The SHA-256 digest of `data`.
pub uninterp spec fn sha256_of(data: Seq<u8>) -> Seq<u8>;

/// Lowercase hexadecimal spelling of `data`, two digits per byte, high
/// nibble first.
pub open spec fn hex_lower(data: Seq<u8>) -> Seq<char>
    decreases data.len(),
{
    if data.len() == 0 {
        Seq::empty()
    } else {
        hex_lower(data.drop_last()) + seq![
            hex_char((data.last() / 16) as nat),
            hex_char((data.last() % 16) as nat),
        ]
    }
}

/// Calls `sha2::Sha256::digest` on `data`. The result is the SHA-256 digest
/// of the bytes (named `sha256_of`), which is always 32 bytes long.
#[verifier::external_body]
pub(crate) fn sha256(data: &[u8]) -> (r: Vec<u8>)
    ensures
        r@ == sha256_of(data@),
        r@.len() == 32,
{
    sha2::Sha256::digest(data).to_vec()
}

/// Calls `hex::encode` on `data`: lowercase hexadecimal, two digits per
/// byte, high nibble first.
#[verifier::external_body]
pub(crate) fn hex_encode(data: &[u8]) -> (r: String)
    ensures
        r@ == hex_lower(data@),
{
    hex::encode(data)
}

/// `hex(sha256(s))` of the UTF-8 bytes of `s`.
pub open spec fn sha256_hex_of_text(s: Seq<char>) -> Seq<char> {
    hex_lower(sha256_of(encode_utf8(s)))
}

/// Lowercase hex of the SHA-256 digest of the UTF-8 bytes of `s`.
pub fn sha256_hex(s: &str) -> (r: String)
    ensures
        r@ == sha256_hex_of_text(s@),
{
    let d = sha256(s.as_bytes());
    hex_encode(d.as_slice())
}

} // verus!
