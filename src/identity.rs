//! The wallet identity: secp256k1 secret keys, the account address they
//! derive, recoverable signatures over 32-byte digests, and recovery of the
//! signer's address from such a signature.

use crate::abi::be_value;
use crate::hashing::{keccak256, keccak256_of};
use vstd::prelude::*;

verus! {

/// Added to the recovery id in the last byte of a signature, as the
/// verifying contract expects.
pub const RECOVERY_ID_OFFSET: u8 = 27;

/// The order of the secp256k1 group, n.
pub open spec fn secp256k1_order() -> nat {
    0xFFFFFFFFFFFFFFFFFFFFFFFFFFFFFFFEBAAEDCE6AF48A03BBFD25E8CD0364141nat
}

/// Whether 32 bytes are a valid secret key: a big-endian scalar in [1, n).
pub open spec fn is_valid_secret(secret: Seq<u8>) -> bool {
    secret.len() == 32 && 0 < be_value(secret) < secp256k1_order()
}

/// The uncompressed SEC1 encoding (0x04, x, y) of the public point of a
/// valid secret key.
pub uninterp spec fn secp256k1_public_point(secret: Seq<u8>) -> Seq<u8>;

/// The deterministic (RFC 6979) recoverable signature of a 32-byte digest:
/// the 64 bytes r ‖ s and the recovery id; `None` where the curve operation
/// fails (r or s comes out zero).
pub uninterp spec fn ecdsa_sign_of(secret: Seq<u8>, digest: Seq<u8>) -> Option<(Seq<u8>, u8)>;

/// The uncompressed public point recovered from a digest, r ‖ s and a
/// recovery id; `None` where no point verifies.
pub uninterp spec fn ecdsa_recover_of(digest: Seq<u8>, rs: Seq<u8>, recovery_id: u8) -> Option<
    Seq<u8>,
>;

/// The account address of an uncompressed public point: the low 20 bytes of
/// the hash of its 64 coordinate bytes (the format byte dropped).
pub open spec fn address_of_point(point: Seq<u8>) -> Seq<u8> {
    keccak256_of(point.subrange(1, 65)).subrange(12, 32)
}

/// The account address of a valid secret key.
pub open spec fn address_of_secret(secret: Seq<u8>) -> Seq<u8> {
    address_of_point(secp256k1_public_point(secret))
}

/// The 65-byte signature r ‖ s ‖ (recovery id + 27) of a digest, where
/// signing succeeds.
pub open spec fn signature_of(secret: Seq<u8>, digest: Seq<u8>) -> Seq<u8> {
    let (rs, recovery_id) = ecdsa_sign_of(secret, digest).unwrap();
    rs.push((recovery_id + RECOVERY_ID_OFFSET) as u8)
}

/// Relies on k256's `SigningKey::from_slice`: for 32 bytes it succeeds exactly
/// when their big-endian value is a non-zero scalar below the group order.
#[verifier::external_body]
fn secret_in_range(secret: &[u8]) -> (r: bool)
    requires
        secret@.len() == 32,
    ensures
        r == is_valid_secret(secret@),
{
    k256::ecdsa::SigningKey::from_slice(secret).is_ok()
}

/// Relies on k256's `SigningKey::verifying_key` and
/// `VerifyingKey::to_encoded_point(false)`: the 65-byte uncompressed encoding
/// of the public point, which starts with 0x04.
#[verifier::external_body]
fn public_point(secret: &[u8]) -> (r: Vec<u8>)
    requires
        is_valid_secret(secret@),
    ensures
        r@ == secp256k1_public_point(secret@),
        r@.len() == 65,
        r@[0] == 4,
{
    match k256::ecdsa::SigningKey::from_slice(secret) {
        Ok(key) => key.verifying_key().to_encoded_point(false).as_bytes().to_vec(),
        Err(_) => Vec::new(),
    }
}

/// Relies on k256's `SigningKey::sign_prehash_recoverable`: signs the digest
/// as given (no further hashing) with an RFC 6979 nonce; `to_bytes` gives the
/// 64 bytes r ‖ s and the recovery id is below 4.
#[verifier::external_body]
fn sign_prehash_recoverable(secret: &[u8], digest: &[u8]) -> (r: Option<(Vec<u8>, u8)>)
    requires
        is_valid_secret(secret@),
        digest@.len() == 32,
    ensures
        r.is_some() == ecdsa_sign_of(secret@, digest@).is_some(),
        r.is_some() ==> (r.unwrap().0@, r.unwrap().1) == ecdsa_sign_of(secret@, digest@).unwrap(),
        r.is_some() ==> r.unwrap().0@.len() == 64 && r.unwrap().1 < 4,
{
    let key = k256::ecdsa::SigningKey::from_slice(secret).ok()?;
    let (sig, recid) = key.sign_prehash_recoverable(digest).ok()?;
    Some((sig.to_bytes().to_vec(), recid.to_byte()))
}

/// Relies on k256's `Signature::from_slice`, `RecoveryId::from_byte` and
/// `VerifyingKey::recover_from_prehash` (which checks that the recovered key
/// verifies the signature), then `to_encoded_point(false)`.
#[verifier::external_body]
fn recover_point(digest: &[u8], rs: &[u8], recovery_id: u8) -> (r: Option<Vec<u8>>)
    requires
        digest@.len() == 32,
        rs@.len() == 64,
        recovery_id < 4,
    ensures
        r.is_some() == ecdsa_recover_of(digest@, rs@, recovery_id).is_some(),
        r.is_some() ==> Some(r.unwrap()@) == ecdsa_recover_of(digest@, rs@, recovery_id),
        r.is_some() ==> r.unwrap()@.len() == 65,
{
    let sig = k256::ecdsa::Signature::from_slice(rs).ok()?;
    let recid = k256::ecdsa::RecoveryId::from_byte(recovery_id)?;
    let key = k256::ecdsa::VerifyingKey::recover_from_prehash(digest, &sig, recid).ok()?;
    Some(key.to_encoded_point(false).as_bytes().to_vec())
}

/// The address of an uncompressed public point.
fn point_to_address(point: &[u8]) -> (r: Vec<u8>)
    requires
        point@.len() == 65,
    ensures
        r@ == address_of_point(point@),
        r@.len() == 20,
{
    let mut coords: Vec<u8> = Vec::new();
    let mut i: usize = 1;
    while i < 65
        invariant
            1 <= i <= 65,
            point@.len() == 65,
            coords@ == point@.subrange(1, i as int),
        decreases 65 - i,
    {
        coords.push(point[i]);
        i = i + 1;
        assert(coords@ =~= point@.subrange(1, i as int));
    }
    let hash = keccak256(coords.as_slice());
    let mut addr: Vec<u8> = Vec::new();
    let mut j: usize = 12;
    while j < 32
        invariant
            12 <= j <= 32,
            hash@.len() == 32,
            addr@ == hash@.subrange(12, j as int),
        decreases 32 - j,
    {
        addr.push(hash[j]);
        j = j + 1;
        assert(addr@ =~= hash@.subrange(12, j as int));
    }
    addr
}

/// Whether 32 bytes are a valid secret key (a scalar in [1, n)); `false` for
/// any other length.
pub fn is_valid_secret_key(secret: &[u8]) -> (r: bool)
    ensures
        r == is_valid_secret(secret@),
{
    if secret.len() != 32 {
        return false;
    }
    secret_in_range(secret)
}

/// The account address of a valid secret key.
pub fn pubkey_to_address(secret: &[u8]) -> (r: Vec<u8>)
    requires
        is_valid_secret(secret@),
    ensures
        r@ == address_of_secret(secret@),
        r@.len() == 20,
{
    let point = public_point(secret);
    point_to_address(point.as_slice())
}

/// The 65-byte signature r ‖ s ‖ (recovery id + 27) of a 32-byte digest;
/// `None` where the curve operation fails.
pub fn sign_digest_bytes(secret: &[u8], digest: &[u8]) -> (r: Option<Vec<u8>>)
    requires
        is_valid_secret(secret@),
        digest@.len() == 32,
    ensures
        r.is_some() == ecdsa_sign_of(secret@, digest@).is_some(),
        r.is_some() ==> r.unwrap()@ == signature_of(secret@, digest@),
        r.is_some() ==> r.unwrap()@.len() == 65,
{
    match sign_prehash_recoverable(secret, digest) {
        Some((rs, recovery_id)) => {
            let mut sig = rs;
            sig.push(recovery_id + RECOVERY_ID_OFFSET);
            Some(sig)
        },
        None => None,
    }
}

/// The address that a 65-byte signature r ‖ s ‖ v over a 32-byte digest was
/// made by, where v is 27 plus a recovery id below 4 and a point is
/// recovered; `None` otherwise.
pub fn recover_address(digest: &[u8], signature: &[u8]) -> (r: Option<Vec<u8>>)
    ensures
        r.is_some() == (digest@.len() == 32 && signature@.len() == 65 && 27 <= signature@[64] < 31
            && ecdsa_recover_of(
            digest@,
            signature@.subrange(0, 64),
            (signature@[64] - 27) as u8,
        ).is_some()),
        r.is_some() ==> r.unwrap()@ == address_of_point(
            ecdsa_recover_of(digest@, signature@.subrange(0, 64), (signature@[64] - 27) as u8).unwrap(),
        ),
{
    if digest.len() != 32 || signature.len() != 65 {
        return None;
    }
    let v = signature[64];
    if v < 27 || v >= 31 {
        return None;
    }
    let mut rs: Vec<u8> = Vec::new();
    let mut i: usize = 0;
    while i < 64
        invariant
            i <= 64,
            signature@.len() == 65,
            rs@ == signature@.subrange(0, i as int),
        decreases 64 - i,
    {
        rs.push(signature[i]);
        i = i + 1;
        assert(rs@ =~= signature@.subrange(0, i as int));
    }
    match recover_point(digest, rs.as_slice(), v - 27) {
        Some(point) => Some(point_to_address(point.as_slice())),
        None => None,
    }
}

} // verus!
