//! Keys for precomputed configurations at the edge.
//!
//! Edge deployments store one precomputed flag configuration per SDK key,
//! filed under a digest of the key so that the key itself never appears
//! in the store.

use vstd::prelude::*;
use vstd::string::*;
use vstd::utf8::encode_utf8;

verus! {

/// The SHA-256 digest of a byte sequence, as the `sha2` crate computes
/// it.
pub uninterp spec fn sha256_of(input: Seq<u8>) -> Seq<u8>;

/// Relies on sha2::Sha256: the 32-byte SHA-256 digest of the input, a
/// function of the input bytes alone.
#[verifier::external_body]
fn sha256_digest(input: &Vec<u8>) -> (r: Vec<u8>)
    ensures
        r@ == sha256_of(input@),
        r@.len() == 32,
{
    let mut hasher = <sha2::Sha256 as sha2::Digest>::new();
    sha2::Digest::update(&mut hasher, input.as_slice());
    sha2::Digest::finalize(hasher).to_vec()
}

/// The URL-safe unpadded base64 encoding of a byte sequence, as the
/// `base64-url` crate computes it.
pub uninterp spec fn b64url_encode(input: Seq<u8>) -> Seq<char>;

/// Relies on base64_url::encode: the URL-safe unpadded base64 text of the
/// input, a function of the input bytes alone.
#[verifier::external_body]
fn base64_url_encode(input: &Vec<u8>) -> (r: String)
    ensures
        r@ == b64url_encode(input@),
{
    base64_url::encode(input.as_slice())
}

/// The token hash filed for an SDK key: URL-safe base64 of the SHA-256 of
/// the key's UTF-8 bytes.
pub fn token_hash(sdk_key: &str) -> (r: String)
    ensures
        r@ == b64url_encode(sha256_of(encode_utf8(sdk_key@))),
{
    let bytes = sdk_key.as_bytes_vec();
    let digest = sha256_digest(&bytes);
    base64_url_encode(&digest)
}

/// The key-value-store key holding the configuration for a token hash.
pub fn kv_store_key(token_hash: String) -> (r: String)
    ensures
        r@ == "ufc-by-sdk-key-token-hash-"@ + token_hash@,
{
    let mut r = String::from_str("ufc-by-sdk-key-token-hash-");
    r.append(token_hash.as_str());
    r
}

} // verus!
