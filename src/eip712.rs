//! Typed-data hashing: domain separators, the two struct encodings and the
//! final digest that is signed.

use crate::abi::{
    addr_to_bytes32, addr_word, decimal_value, is_decimal, parse_decimal_u256, u256_bytes,
    uint_word,
};
use vstd::arithmetic::power::pow;
use crate::hashing::{keccak256, keccak256_of};
use vstd::prelude::*;
use vstd::string::StringSliceAdditionalSpecFns;

verus! {

/// Type string of a domain that names its verifying contract.
pub const DOMAIN_TYPE_WITH_CONTRACT: &'static str =
    "EIP712Domain(string name,string version,uint256 chainId,address verifyingContract)";

/// Type string of a domain without a verifying contract.
pub const DOMAIN_TYPE: &'static str = "EIP712Domain(string name,string version,uint256 chainId)";

/// Type string of the wallet attestation that buys session credentials.
pub const CLOB_AUTH_TYPE: &'static str =
    "ClobAuth(address address,string timestamp,uint256 nonce,string message)";

/// Type string of an exchange order.
pub const ORDER_TYPE: &'static str =
    "Order(uint256 salt,address maker,address signer,address taker,uint256 tokenId,uint256 makerAmount,uint256 takerAmount,uint256 expiration,uint256 nonce,uint256 feeRateBps,uint8 side,uint8 signatureType)";

/// The bytes hashed into a domain separator: the type hash, the hashed name
/// and version, the chain id word and, if given, the contract's address word.
pub open spec fn domain_encoding(
    name: Seq<u8>,
    version: Seq<u8>,
    chain_id: nat,
    contract: Option<Seq<u8>>,
) -> Seq<u8> {
    match contract {
        Some(c) => keccak256_of(DOMAIN_TYPE_WITH_CONTRACT.spec_bytes()) + keccak256_of(name)
            + keccak256_of(version) + uint_word(chain_id) + addr_word(c),
        None => keccak256_of(DOMAIN_TYPE.spec_bytes()) + keccak256_of(name) + keccak256_of(
            version,
        ) + uint_word(chain_id),
    }
}

/// The view of an optional byte slice.
pub open spec fn opt_bytes(c: Option<&[u8]>) -> Option<Seq<u8>> {
    match c {
        Some(s) => Some(s@),
        None => None,
    }
}

/// The bytes hashed into a wallet attestation's struct hash.
pub open spec fn clob_auth_encoding(
    address: Seq<u8>,
    timestamp: Seq<u8>,
    nonce: Seq<u8>,
    message: Seq<u8>,
) -> Seq<u8> {
    keccak256_of(CLOB_AUTH_TYPE.spec_bytes()) + addr_word(address) + keccak256_of(timestamp)
        + nonce + keccak256_of(message)
}

/// The twelve words of an order, in schema order, after its type hash.
pub open spec fn order_encoding(
    salt: Seq<u8>,
    maker: Seq<u8>,
    signer: Seq<u8>,
    taker: Seq<u8>,
    token_id: Seq<u8>,
    maker_amount: nat,
    taker_amount: nat,
    expiration: nat,
    nonce: nat,
    fee_rate_bps: nat,
    side: nat,
    signature_type: nat,
) -> Seq<u8> {
    keccak256_of(ORDER_TYPE.spec_bytes()) + salt + addr_word(maker) + addr_word(signer) + addr_word(
        taker,
    ) + token_id + uint_word(maker_amount) + uint_word(taker_amount) + uint_word(
        expiration,
    ) + uint_word(nonce) + uint_word(fee_rate_bps) + uint_word(side) + uint_word(signature_type)
}

/// The token id that decimal text spells, where it fits in an unsigned
/// 256-bit word.
pub open spec fn token_id_value(s: Seq<u8>) -> Option<nat> {
    if is_decimal(s) && decimal_value(s) < pow(256, 32) {
        Some(decimal_value(s))
    } else {
        None
    }
}

/// The bytes that the final digest hashes: 0x19, 0x01, the domain separator
/// and the struct hash.
pub open spec fn digest_encoding(domain: Seq<u8>, struct_hash: Seq<u8>) -> Seq<u8> {
    seq![0x19u8, 0x01u8] + domain + struct_hash
}

/// The domain separator of (name, version, chain id, optional verifying
/// contract).
pub fn domain_separator(name: &str, version: &str, chain_id: u64, contract: Option<&[u8]>) -> (r:
    Vec<u8>)
    ensures
        r@ == keccak256_of(
            domain_encoding(
                name.spec_bytes(),
                version.spec_bytes(),
                chain_id as nat,
                opt_bytes(contract),
            ),
        ),
        r@.len() == 32,
{
    let mut enc = match contract {
        Some(_) => keccak256(DOMAIN_TYPE_WITH_CONTRACT.as_bytes()),
        None => keccak256(DOMAIN_TYPE.as_bytes()),
    };
    enc.append(&mut keccak256(name.as_bytes()));
    enc.append(&mut keccak256(version.as_bytes()));
    enc.append(&mut u256_bytes(chain_id));
    match contract {
        Some(c) => {
            enc.append(&mut addr_to_bytes32(c));
        },
        None => {},
    }
    keccak256(enc.as_slice())
}

/// The struct hash of a wallet attestation.
pub fn clob_auth_hash(address: &[u8], timestamp: &str, nonce: &[u8], message: &str) -> (r: Vec<
    u8,
>)
    ensures
        r@ == keccak256_of(
            clob_auth_encoding(address@, timestamp.spec_bytes(), nonce@, message.spec_bytes()),
        ),
        r@.len() == 32,
{
    let mut enc = keccak256(CLOB_AUTH_TYPE.as_bytes());
    enc.append(&mut addr_to_bytes32(address));
    enc.append(&mut keccak256(timestamp.as_bytes()));
    let mut n: Vec<u8> = Vec::new();
    n.extend_from_slice(nonce);
    proof {
        assert(n@ =~= nonce@);
    }
    enc.append(&mut n);
    enc.append(&mut keccak256(message.as_bytes()));
    keccak256(enc.as_slice())
}

/// The struct hash of an order; `None` where the token id is not decimal
/// text of a number below 2^256.
pub fn order_struct_hash(
    salt: &[u8],
    maker: &[u8],
    signer: &[u8],
    taker: &[u8],
    token_id: &str,
    maker_amount: u64,
    taker_amount: u64,
    expiration: u64,
    nonce: u64,
    fee_rate_bps: u64,
    side: u8,
    sig_type: u8,
) -> (r: Option<Vec<u8>>)
    ensures
        r.is_some() == token_id_value(token_id.spec_bytes()).is_some(),
        r.is_some() ==> r.unwrap()@ == keccak256_of(
            order_encoding(
                salt@,
                maker@,
                signer@,
                taker@,
                uint_word(token_id_value(token_id.spec_bytes()).unwrap()),
                maker_amount as nat,
                taker_amount as nat,
                expiration as nat,
                nonce as nat,
                fee_rate_bps as nat,
                side as nat,
                sig_type as nat,
            ),
        ),
        r.is_some() ==> r.unwrap()@.len() == 32,
{
    let mut token = match parse_decimal_u256(token_id.as_bytes()) {
        Some(v) => v,
        None => {
            return None;
        },
    };
    let mut enc = keccak256(ORDER_TYPE.as_bytes());
    let mut s: Vec<u8> = Vec::new();
    s.extend_from_slice(salt);
    proof {
        assert(s@ =~= salt@);
    }
    enc.append(&mut s);
    enc.append(&mut addr_to_bytes32(maker));
    enc.append(&mut addr_to_bytes32(signer));
    enc.append(&mut addr_to_bytes32(taker));
    enc.append(&mut token);
    enc.append(&mut u256_bytes(maker_amount));
    enc.append(&mut u256_bytes(taker_amount));
    enc.append(&mut u256_bytes(expiration));
    enc.append(&mut u256_bytes(nonce));
    enc.append(&mut u256_bytes(fee_rate_bps));
    enc.append(&mut u256_bytes(side as u64));
    enc.append(&mut u256_bytes(sig_type as u64));
    Some(keccak256(enc.as_slice()))
}

/// The digest that is signed: the hash of 0x19 0x01, the domain separator
/// and the struct hash.
pub fn eip712_digest(domain: &[u8], struct_hash: &[u8]) -> (r: Vec<u8>)
    ensures
        r@ == keccak256_of(digest_encoding(domain@, struct_hash@)),
        r@.len() == 32,
{
    let mut msg: Vec<u8> = Vec::with_capacity(66);
    msg.push(0x19u8);
    msg.push(0x01u8);
    msg.extend_from_slice(domain);
    msg.extend_from_slice(struct_hash);
    proof {
        assert(msg@ =~= seq![0x19u8, 0x01u8] + domain@ + struct_hash@);
    }
    keccak256(msg.as_slice())
}


proof fn lemma_addr_word_injective(a: Seq<u8>, b: Seq<u8>)
    requires
        a.len() == 20,
        b.len() == 20,
        addr_word(a) == addr_word(b),
    ensures
        a == b,
{
    assert(addr_word(a).subrange(12, 32) =~= a);
    assert(addr_word(b).subrange(12, 32) =~= b);
}

proof fn lemma_uint_word_injective(a: nat, b: nat)
    requires
        a <= u128::MAX,
        b <= u128::MAX,
        uint_word(a) == uint_word(b),
    ensures
        a == b,
{
    crate::abi::lemma_u128_fits_word(a);
    crate::abi::lemma_u128_fits_word(b);
    crate::abi::lemma_be_bytes_injective(a, b, 32);
}

proof fn lemma_word_lens(v: nat, a: Seq<u8>)
    ensures
        uint_word(v).len() == 32,
        addr_word(a).len() == 32,
{
    crate::abi::lemma_be_bytes_len(v, 32);
}

/// Domain separators are a function of (name, version, chain id, contract)
/// alone, and two domains that differ only in their chain id are encoded
/// differently before hashing, so their separators differ unless Keccak-256
/// collides.
pub proof fn lemma_domain_chain_id_sensitive(
    name: Seq<u8>,
    version: Seq<u8>,
    chain_a: u64,
    chain_b: u64,
    contract: Option<Seq<u8>>,
)
    ensures
        chain_a == chain_b ==> keccak256_of(domain_encoding(name, version, chain_a as nat, contract))
            == keccak256_of(domain_encoding(name, version, chain_b as nat, contract)),
        chain_a != chain_b ==> domain_encoding(name, version, chain_a as nat, contract)
            != domain_encoding(name, version, chain_b as nat, contract),
{
    if chain_a != chain_b {
        let ea = domain_encoding(name, version, chain_a as nat, contract);
        let eb = domain_encoding(name, version, chain_b as nat, contract);
        let head = match contract {
            Some(c) => keccak256_of(DOMAIN_TYPE_WITH_CONTRACT.spec_bytes()) + keccak256_of(name)
                + keccak256_of(version),
            None => keccak256_of(DOMAIN_TYPE.spec_bytes()) + keccak256_of(name) + keccak256_of(
                version,
            ),
        };
        let k = head.len() as int;
        lemma_word_lens(chain_a as nat, seq![]);
        lemma_word_lens(chain_b as nat, seq![]);
        assert(ea.subrange(k, k + 32) =~= uint_word(chain_a as nat));
        assert(eb.subrange(k, k + 32) =~= uint_word(chain_b as nat));
        if ea == eb {
            lemma_uint_word_injective(chain_a as nat, chain_b as nat);
        }
    }
}

/// An order's encoding determines every one of its fields: orders that
/// differ in any single field (salt, maker, signer, taker, token id word,
/// either amount, expiration, nonce, fee rate, side or signature type) are
/// encoded differently before hashing.
pub proof fn lemma_order_encoding_injective(
    salt_a: Seq<u8>, maker_a: Seq<u8>, signer_a: Seq<u8>, taker_a: Seq<u8>, token_a: Seq<u8>,
    maker_amount_a: u64, taker_amount_a: u64, expiration_a: u64, nonce_a: u64, fee_a: u64,
    side_a: u8, sig_type_a: u8,
    salt_b: Seq<u8>, maker_b: Seq<u8>, signer_b: Seq<u8>, taker_b: Seq<u8>, token_b: Seq<u8>,
    maker_amount_b: u64, taker_amount_b: u64, expiration_b: u64, nonce_b: u64, fee_b: u64,
    side_b: u8, sig_type_b: u8,
)
    requires
        salt_a.len() == 32,
        salt_b.len() == 32,
        maker_a.len() == 20,
        maker_b.len() == 20,
        signer_a.len() == 20,
        signer_b.len() == 20,
        taker_a.len() == 20,
        taker_b.len() == 20,
        token_a.len() == 32,
        token_b.len() == 32,
        order_encoding(
            salt_a, maker_a, signer_a, taker_a, token_a, maker_amount_a as nat,
            taker_amount_a as nat, expiration_a as nat, nonce_a as nat, fee_a as nat,
            side_a as nat, sig_type_a as nat,
        ) == order_encoding(
            salt_b, maker_b, signer_b, taker_b, token_b, maker_amount_b as nat,
            taker_amount_b as nat, expiration_b as nat, nonce_b as nat, fee_b as nat,
            side_b as nat, sig_type_b as nat,
        ),
    ensures
        salt_a == salt_b,
        maker_a == maker_b,
        signer_a == signer_b,
        taker_a == taker_b,
        token_a == token_b,
        maker_amount_a == maker_amount_b,
        taker_amount_a == taker_amount_b,
        expiration_a == expiration_b,
        nonce_a == nonce_b,
        fee_a == fee_b,
        side_a == side_b,
        sig_type_a == sig_type_b,
{
    let ea = order_encoding(
        salt_a, maker_a, signer_a, taker_a, token_a, maker_amount_a as nat,
        taker_amount_a as nat, expiration_a as nat, nonce_a as nat, fee_a as nat,
        side_a as nat, sig_type_a as nat,
    );
    let eb = order_encoding(
        salt_b, maker_b, signer_b, taker_b, token_b, maker_amount_b as nat,
        taker_amount_b as nat, expiration_b as nat, nonce_b as nat, fee_b as nat,
        side_b as nat, sig_type_b as nat,
    );
    let t = keccak256_of(ORDER_TYPE.spec_bytes());
    let k = t.len() as int;
    lemma_word_lens(0, maker_a);
    lemma_word_lens(0, maker_b);
    lemma_word_lens(0, signer_a);
    lemma_word_lens(0, signer_b);
    lemma_word_lens(0, taker_a);
    lemma_word_lens(0, taker_b);
    lemma_word_lens(maker_amount_a as nat, seq![]);
    lemma_word_lens(maker_amount_b as nat, seq![]);
    lemma_word_lens(taker_amount_a as nat, seq![]);
    lemma_word_lens(taker_amount_b as nat, seq![]);
    lemma_word_lens(expiration_a as nat, seq![]);
    lemma_word_lens(expiration_b as nat, seq![]);
    lemma_word_lens(nonce_a as nat, seq![]);
    lemma_word_lens(nonce_b as nat, seq![]);
    lemma_word_lens(fee_a as nat, seq![]);
    lemma_word_lens(fee_b as nat, seq![]);
    lemma_word_lens(side_a as nat, seq![]);
    lemma_word_lens(side_b as nat, seq![]);
    lemma_word_lens(sig_type_a as nat, seq![]);
    lemma_word_lens(sig_type_b as nat, seq![]);
    assert(ea.subrange(k, k + 32) =~= salt_a);
    assert(eb.subrange(k, k + 32) =~= salt_b);
    assert(ea.subrange(k + 32, k + 64) =~= addr_word(maker_a));
    assert(eb.subrange(k + 32, k + 64) =~= addr_word(maker_b));
    lemma_addr_word_injective(maker_a, maker_b);
    assert(ea.subrange(k + 64, k + 96) =~= addr_word(signer_a));
    assert(eb.subrange(k + 64, k + 96) =~= addr_word(signer_b));
    lemma_addr_word_injective(signer_a, signer_b);
    assert(ea.subrange(k + 96, k + 128) =~= addr_word(taker_a));
    assert(eb.subrange(k + 96, k + 128) =~= addr_word(taker_b));
    lemma_addr_word_injective(taker_a, taker_b);
    assert(ea.subrange(k + 128, k + 160) =~= token_a);
    assert(eb.subrange(k + 128, k + 160) =~= token_b);
    assert(ea.subrange(k + 160, k + 192) =~= uint_word(maker_amount_a as nat));
    assert(eb.subrange(k + 160, k + 192) =~= uint_word(maker_amount_b as nat));
    lemma_uint_word_injective(maker_amount_a as nat, maker_amount_b as nat);
    assert(ea.subrange(k + 192, k + 224) =~= uint_word(taker_amount_a as nat));
    assert(eb.subrange(k + 192, k + 224) =~= uint_word(taker_amount_b as nat));
    lemma_uint_word_injective(taker_amount_a as nat, taker_amount_b as nat);
    assert(ea.subrange(k + 224, k + 256) =~= uint_word(expiration_a as nat));
    assert(eb.subrange(k + 224, k + 256) =~= uint_word(expiration_b as nat));
    lemma_uint_word_injective(expiration_a as nat, expiration_b as nat);
    assert(ea.subrange(k + 256, k + 288) =~= uint_word(nonce_a as nat));
    assert(eb.subrange(k + 256, k + 288) =~= uint_word(nonce_b as nat));
    lemma_uint_word_injective(nonce_a as nat, nonce_b as nat);
    assert(ea.subrange(k + 288, k + 320) =~= uint_word(fee_a as nat));
    assert(eb.subrange(k + 288, k + 320) =~= uint_word(fee_b as nat));
    lemma_uint_word_injective(fee_a as nat, fee_b as nat);
    assert(ea.subrange(k + 320, k + 352) =~= uint_word(side_a as nat));
    assert(eb.subrange(k + 320, k + 352) =~= uint_word(side_b as nat));
    lemma_uint_word_injective(side_a as nat, side_b as nat);
    assert(ea.subrange(k + 352, k + 384) =~= uint_word(sig_type_a as nat));
    assert(eb.subrange(k + 352, k + 384) =~= uint_word(sig_type_b as nat));
    lemma_uint_word_injective(sig_type_a as nat, sig_type_b as nat);
}

/// A wallet attestation's encoding determines its address and nonce word:
/// attestations that differ in either are encoded differently before
/// hashing (the timestamp and message enter only through their hashes).
pub proof fn lemma_clob_auth_encoding_injective(
    address_a: Seq<u8>,
    timestamp_a: Seq<u8>,
    nonce_a: Seq<u8>,
    message_a: Seq<u8>,
    address_b: Seq<u8>,
    timestamp_b: Seq<u8>,
    nonce_b: Seq<u8>,
    message_b: Seq<u8>,
)
    requires
        address_a.len() == 20,
        address_b.len() == 20,
        nonce_a.len() == 32,
        nonce_b.len() == 32,
        timestamp_a == timestamp_b,
        message_a == message_b,
        clob_auth_encoding(address_a, timestamp_a, nonce_a, message_a) == clob_auth_encoding(
            address_b,
            timestamp_b,
            nonce_b,
            message_b,
        ),
    ensures
        address_a == address_b,
        nonce_a == nonce_b,
{
    let ea = clob_auth_encoding(address_a, timestamp_a, nonce_a, message_a);
    let eb = clob_auth_encoding(address_b, timestamp_b, nonce_b, message_b);
    let k = keccak256_of(CLOB_AUTH_TYPE.spec_bytes()).len() as int;
    let h = keccak256_of(timestamp_a).len() as int;
    lemma_word_lens(0, address_a);
    lemma_word_lens(0, address_b);
    assert(ea.subrange(k, k + 32) =~= addr_word(address_a));
    assert(eb.subrange(k, k + 32) =~= addr_word(address_b));
    lemma_addr_word_injective(address_a, address_b);
    assert(ea.subrange(k + 32 + h, k + 64 + h) =~= nonce_a);
    assert(eb.subrange(k + 32 + h, k + 64 + h) =~= nonce_b);
}

/// Distinct token ids below 2^256 have distinct words.
pub proof fn lemma_token_word_injective(a: nat, b: nat)
    requires
        a < pow(256, 32),
        b < pow(256, 32),
        uint_word(a) == uint_word(b),
    ensures
        a == b,
{
    crate::abi::lemma_be_bytes_injective(a, b, 32);
}

} // verus!
