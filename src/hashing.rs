//! Keccak-256, the hash that every typed-data encoding is reduced with.

use vstd::prelude::*;

verus! {

/// The Keccak-256 digest of `data` (the pre-standard Keccak padding, as Ethereum
/// uses it, not SHA3-256).
pub uninterp spec fn keccak256_of(data: Seq<u8>) -> Seq<u8>;

/// Relies on tiny_keccak's `Keccak::v256`: absorbs `data` and squeezes one
/// 32-byte digest, which depends on `data` alone.
#[verifier::external_body]
pub(crate) fn keccak256(data: &[u8]) -> (r: Vec<u8>)
    ensures
        r@ == keccak256_of(data@),
        r@.len() == 32,
{
    let mut hasher = tiny_keccak::Keccak::v256();
    let mut out = [0u8; 32];
    tiny_keccak::Hasher::update(&mut hasher, data);
    tiny_keccak::Hasher::finalize(hasher, &mut out);
    out.to_vec()
}

} // verus!
