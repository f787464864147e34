//! The cryptographic primitives the key derivation invokes, taken as opaque
//! services: MD4 and HMAC-MD5, each a fixed-length digest of arbitrary-length
//! input. Only the invocation contract (key, input, output length) is stated
//! here; the primitives' internals live in their own crates.

use hmac::Mac;
use md5::Digest;
use vstd::prelude::*;

verus! {

/// What the md4 crate's digest returns: the MD4 digest of a byte string, a
/// function of the input bytes alone.
pub uninterp spec fn md4_of(data: Seq<u8>) -> Seq<u8>;

/// What HMAC-MD5 returns: the MD5-based keyed MAC of a byte string, a
/// function of the key and input bytes alone.
pub uninterp spec fn hmac_md5_of(key: Seq<u8>, data: Seq<u8>) -> Seq<u8>;

/// Relies on md4::Md4 (via digest::Digest::digest): a 16-byte MD4 digest of
/// the input, depending on the input bytes alone (Md4Core's OutputSize is 16).
#[verifier::external_body]
pub(crate) fn md4_digest(data: &[u8]) -> (r: Vec<u8>)
    ensures
        r@ == md4_of(data@),
        r@.len() == 16,
{
    md4::Md4::digest(data).to_vec()
}

/// Relies on hmac::Hmac and md5::Md5: a 16-byte HMAC-MD5 MAC of `data` keyed
/// by `key`, depending on the two arguments alone (Md5Core's OutputSize is
/// 16). Hmac::new_from_slice pads or hashes a key of any length and never
/// returns an error, so the unwrap cannot fail.
#[verifier::external_body]
pub(crate) fn hmac_md5(key: &[u8], data: &[u8]) -> (r: Vec<u8>)
    ensures
        r@ == hmac_md5_of(key@, data@),
        r@.len() == 16,
{
    let mut algo: hmac::Hmac<md5::Md5> = hmac::Hmac::new_from_slice(key).unwrap();
    algo.update(data);
    algo.finalize().into_bytes().to_vec()
}

} // verus!
