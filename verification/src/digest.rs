//! Content digests and keyed hashes.

use sha2::Digest;
use vstd::prelude::*;

use crate::render::{hex_of_bytes, hex_string};

verus! {

/// The SHA-256 digest of `bytes`.
pub uninterp spec fn sha256_of(bytes: Seq<u8>) -> Seq<u8>;

/// The SipHash-1-3 of `bytes` under the two key halves.
pub uninterp spec fn sip13_of(key0: u64, key1: u64, bytes: Seq<u8>) -> u64;

/// `sha2::Sha256::digest`: the digest is a function of the bytes and has
/// thirty-two bytes.
#[verifier::external_body]
pub(crate) fn sha256(bytes: &[u8]) -> (digest: [u8; 32])
    ensures
        digest@ == sha256_of(bytes@),
{
    sha2::Sha256::digest(bytes).into()
}

/// `siphasher::sip::SipHasher13::hash`: the hash is a function of the keys and
/// the bytes.
#[verifier::external_body]
pub(crate) fn sip13(key0: u64, key1: u64, bytes: &[u8]) -> (hash: u64)
    ensures
        hash == sip13_of(key0, key1, bytes@),
{
    siphasher::sip::SipHasher13::new_with_keys(key0, key1).hash(bytes)
}

/// The lower-case hexadecimal SHA-256 digest of `bytes`.
pub fn hex_digest(bytes: &[u8]) -> (text: String)
    ensures
        text@ == hex_of_bytes(sha256_of(bytes@)),
{
    let digest = sha256(bytes);
    hex_string(digest.as_slice())
}

} // verus!
