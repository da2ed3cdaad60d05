//! The four-byte tag that binds a payload to its header.

use crate::wire::{get_le, le_value, lemma_radix_values};
use sha2::Digest;
use vstd::prelude::*;

verus! {

/// The SHA-256 digest of `data`.
pub uninterp spec fn sha256(data: Seq<u8>) -> Seq<u8>;

/// `Digest::digest` of the `digest` crate on `sha2::Sha256`: it hashes the
/// whole of `data` with a fresh hasher. The result depends on the bytes alone
/// and is always 32 bytes long, the output size `U32` of that hasher.
#[verifier::external_body]
fn sha256_digest(data: &[u8]) -> (digest: Vec<u8>)
    ensures
        digest@ == sha256(data@),
        digest@.len() == 32,
{
    sha2::Sha256::digest(data).to_vec()
}

/// The tag that a final digest gives: its first four bytes as a
/// little-endian number.
pub open spec fn tag_of(digest: Seq<u8>) -> u32
    recommends
        digest.len() >= 4,
{
    le_value(digest.subrange(0, 4)) as u32
}

/// The checksum of `payload`: the tag of the digest of its digest.
pub open spec fn checksum_of(payload: Seq<u8>) -> u32 {
    tag_of(sha256(sha256(payload)))
}

/// Take the tag from a final digest.
pub fn digest_tag(digest: &[u8]) -> (tag: u32)
    requires
        digest@.len() >= 4,
    ensures
        tag == tag_of(digest@),
{
    proof {
        lemma_radix_values();
    }
    get_le(digest, 0, 4) as u32
}

/// Compute the checksum of `payload`; any length will do, none included.
pub fn checksum(payload: &[u8]) -> (tag: u32)
    ensures
        tag == checksum_of(payload@),
{
    let first: Vec<u8> = sha256_digest(payload);
    let second: Vec<u8> = sha256_digest(first.as_slice());
    digest_tag(second.as_slice())
}

/// The checksum is a function of the bytes alone: equal inputs have equal
/// checksums.
pub proof fn lemma_checksum_deterministic(first: Seq<u8>, second: Seq<u8>)
    requires
        first == second,
    ensures
        checksum_of(first) == checksum_of(second),
{
}

} // verus!
