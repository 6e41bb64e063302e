//! The cryptographic primitives of the signer: SHA-256, HMAC-SHA-256
//! and lowercase hex rendering.
//!
//! The digests come from outside crates and are not re-specified here:
//! their results are named by uninterpreted functions, and only what
//! their documentation plainly promises (a 32-byte output) is stated.
//! The hex rendering has an exact byte-for-byte contract.

use vstd::prelude::*;

verus! {

/// The SHA-256 digest of `data`, a function of the bytes alone.
pub uninterp spec fn spec_sha256(data: Seq<u8>) -> Seq<u8>;

/// The HMAC-SHA-256 tag over `data` under `key`, a function of the two
/// byte strings alone.
pub uninterp spec fn spec_hmac_sha256(key: Seq<u8>, data: Seq<u8>) -> Seq<u8>;

/// Lowercase hex digit for a value below 16.
pub open spec fn spec_hex_lower_digit(n: int) -> u8 {
    if n < 10 {
        (0x30 + n) as u8
    } else {
        (0x61 + (n - 10)) as u8
    }
}

/// Lowercase hex rendering: two digits per byte, high nibble first.
pub open spec fn spec_hex_lower(s: Seq<u8>) -> Seq<u8>
    decreases s.len(),
{
    if s.len() == 0 {
        seq![]
    } else {
        seq![
            spec_hex_lower_digit(s[0] as int / 16),
            spec_hex_lower_digit(s[0] as int % 16),
        ] + spec_hex_lower(s.drop_first())
    }
}

/// Relies on sha2::Sha256::digest: the digest depends on the input
/// bytes alone, and SHA-256 output is 32 bytes.
#[verifier::external_body]
pub(crate) fn sha256_digest(data: &[u8]) -> (r: Vec<u8>)
    ensures
        r@ == spec_sha256(data@),
        r@.len() == 32,
{
    <sha2::Sha256 as sha2::Digest>::digest(data).to_vec()
}

/// Relies on hmac::Hmac over sha2::Sha256: the tag depends on key and
/// message alone and is 32 bytes; `new_from_slice` accepts keys of any
/// length for HMAC, so the `expect` cannot fail.
#[verifier::external_body]
pub(crate) fn hmac_sha256(key: &[u8], data: &[u8]) -> (r: Vec<u8>)
    ensures
        r@ == spec_hmac_sha256(key@, data@),
        r@.len() == 32,
{
    let mut mac = <hmac::Hmac<sha2::Sha256> as hmac::Mac>::new_from_slice(key)
        .expect("HMAC accepts keys of any length");
    hmac::Mac::update(&mut mac, data);
    hmac::Mac::finalize(mac).into_bytes().to_vec()
}

/// Relies on hex::encode: two lowercase hex digits per byte, high
/// nibble first.
#[verifier::external_body]
pub(crate) fn hex_lower(data: &[u8]) -> (r: Vec<u8>)
    ensures
        r@ == spec_hex_lower(data@),
{
    hex::encode(data).into_bytes()
}

} // verus!
