//! Keccak-256, the hash of Ethereum, which the `tiny-keccak` crate computes.

use vstd::prelude::*;

verus! {

/// The Keccak-256 digest of `data`: the sponge with a rate of 136 bytes and
/// the padding `0x01 … 0x80`, squeezed to thirty-two bytes.
pub uninterp spec fn keccak256_digest(data: Seq<u8>) -> Seq<u8>;

/// `tiny_keccak::keccak256`: absorbs `data` into a fresh Keccak-256 sponge and
/// squeezes thirty-two bytes. The digest depends on `data` alone; nothing else
/// is claimed of it.
#[verifier::external_body]
pub(crate) fn keccak256(data: &[u8]) -> (digest: [u8; 32])
    ensures
        digest@ == keccak256_digest(data@),
{
    tiny_keccak::keccak256(data)
}

} // verus!
