//! Orders: fixed-point amounts, the order struct, its digest under the
//! exchange's domain, and its wire form.

use crate::abi::{
    addr_to_bytes32, parse_decimal_u256, u256_bytes, u64_to_bytes32, uint_word,
};
use crate::eip712::{
    digest_encoding, domain_encoding, domain_separator, eip712_digest, order_encoding,
    token_id_value, ORDER_TYPE,
};
use crate::error::ClobError;
use crate::hashing::{keccak256, keccak256_of};
use vstd::prelude::*;
use vstd::string::StringSliceAdditionalSpecFns;

verus! {

/// The chain the exchange settles on.
pub const CHAIN_ID: u64 = 137;

/// Name of the order domain.
pub const ORDER_DOMAIN_NAME: &'static str = "CTF Exchange";

/// Version of both signing domains.
pub const DOMAIN_VERSION: &'static str = "1";

/// Fee rate, in basis points, that every order carries.
pub const FEE_RATE_BPS: u64 = 100;

/// Amounts are integers in millionths (six decimals).
pub const AMOUNT_SCALE: u64 = 1_000_000;

/// Signature type of an order signed by a proxy wallet's owner key.
pub const SIGNATURE_TYPE: u8 = 2;

/// Which side of the book an order takes.
#[derive(Debug, Clone, Copy, PartialEq, Eq)]
pub enum OrderSide {
    Buy,
    Sell,
}

/// The side's code in the order struct: 0 to buy, 1 to sell.
pub open spec fn side_value(side: OrderSide) -> nat {
    match side {
        OrderSide::Buy => 0,
        OrderSide::Sell => 1,
    }
}

/// The side's code in the order struct: 0 to buy, 1 to sell.
pub fn side_code(side: OrderSide) -> (r: u8)
    ensures
        r as nat == side_value(side),
{
    match side {
        OrderSide::Buy => 0,
        OrderSide::Sell => 1,
    }
}

/// The standard exchange contract, 0xC5d563A36AE78145C45a50134d48A1215220f80a.
pub open spec fn ctf_exchange() -> Seq<u8> {
    seq![
        0xC5u8, 0xd5, 0x63, 0xA3, 0x6A, 0xE7, 0x81, 0x45, 0xC4, 0x5a,
        0x50, 0x13, 0x4d, 0x48, 0xA1, 0x21, 0x52, 0x20, 0xf8, 0x0a,
    ]
}

/// The negative-risk exchange contract,
/// 0x4bFb41d5B3570DeFd03C39a9A4D8dE6Bd8B8982E.
pub open spec fn neg_risk_ctf_exchange() -> Seq<u8> {
    seq![
        0x4Bu8, 0xFb, 0x41, 0xd5, 0xB3, 0x57, 0x0D, 0xeF, 0xd0, 0x3C,
        0x39, 0xa9, 0xA4, 0xD8, 0xdE, 0x6B, 0xd8, 0xB8, 0x98, 0x2E,
    ]
}

/// The verifying contract of a market: the negative-risk exchange or the
/// standard one.
pub open spec fn exchange_for(neg_risk: bool) -> Seq<u8> {
    if neg_risk {
        neg_risk_ctf_exchange()
    } else {
        ctf_exchange()
    }
}

/// The verifying contract of a market.
pub fn exchange_address(neg_risk: bool) -> (r: Vec<u8>)
    ensures
        r@ == exchange_for(neg_risk),
{
    let r = if neg_risk {
        vec![
            0x4Bu8, 0xFb, 0x41, 0xd5, 0xB3, 0x57, 0x0D, 0xeF, 0xd0, 0x3C,
            0x39, 0xa9, 0xA4, 0xD8, 0xdE, 0x6B, 0xd8, 0xB8, 0x98, 0x2E,
        ]
    } else {
        vec![
            0xC5u8, 0xd5, 0x63, 0xA3, 0x6A, 0xE7, 0x81, 0x45, 0xC4, 0x5a,
            0x50, 0x13, 0x4d, 0x48, 0xA1, 0x21, 0x52, 0x20, 0xf8, 0x0a,
        ]
    };
    proof {
        assert(r@ =~= exchange_for(neg_risk));
    }
    r
}

/// The value of `price · size` in millionths, both given in millionths,
/// rounded half up.
pub open spec fn notional(price_micros: nat, size_micros: nat) -> nat {
    (price_micros * size_micros + 500_000) / 1_000_000
}

/// Whether a price strictly between 0 and 1 and a positive size, both in
/// millionths.
pub open spec fn valid_price_size(price_micros: nat, size_micros: nat) -> bool {
    0 < price_micros < 1_000_000 && size_micros > 0
}

/// (maker amount, taker amount) of an order: a buyer pays the notional and
/// receives the shares; a seller the reverse.
pub open spec fn amounts_of(price_micros: nat, size_micros: nat, side: OrderSide) -> (nat, nat) {
    match side {
        OrderSide::Buy => (notional(price_micros, size_micros), size_micros),
        OrderSide::Sell => (size_micros, notional(price_micros, size_micros)),
    }
}

/// The order's (maker amount, taker amount) in millionths; `None` unless
/// 0 < price < 1 and size > 0.
pub fn order_amounts(price_micros: u64, size_micros: u64, side: OrderSide) -> (r: Option<
    (u64, u64),
>)
    ensures
        r.is_some() == valid_price_size(price_micros as nat, size_micros as nat),
        r.is_some() ==> (r.unwrap().0 as nat, r.unwrap().1 as nat) == amounts_of(
            price_micros as nat,
            size_micros as nat,
            side,
        ),
{
    if price_micros == 0 || price_micros >= AMOUNT_SCALE || size_micros == 0 {
        return None;
    }
    let p = price_micros as u128;
    let s = size_micros as u128;
    assert(p * s < 1_000_000 * s) by (nonlinear_arith)
        requires
            p < 1_000_000,
            s > 0,
    ;
    assert(p * s <= 1_000_000 * 0x1_0000_0000_0000_0000) by (nonlinear_arith)
        requires
            p < 1_000_000,
            s < 0x1_0000_0000_0000_0000,
    ;
    let n = (p * s + 500_000) / 1_000_000;
    assert(n <= s) by (nonlinear_arith)
        requires
            n == (p * s + 500_000) / 1_000_000,
            p * s < 1_000_000 * s,
    ;
    let n64 = n as u64;
    match side {
        OrderSide::Buy => Some((n64, size_micros)),
        OrderSide::Sell => Some((size_micros, n64)),
    }
}

/// Selling swaps the roles of the two amounts of the same buy: the seller
/// gives the shares and receives the notional.
pub proof fn lemma_sell_swaps_buy(price_micros: nat, size_micros: nat)
    ensures
        amounts_of(price_micros, size_micros, OrderSide::Sell) == (
            amounts_of(price_micros, size_micros, OrderSide::Buy).1,
            amounts_of(price_micros, size_micros, OrderSide::Buy).0,
        ),
{
}

/// An order as the exchange's contract hashes it.
pub struct Order {
    pub salt: u64,
    pub maker: Vec<u8>,
    pub signer: Vec<u8>,
    pub taker: Vec<u8>,
    /// The token id as a 32-byte big-endian word.
    pub token_id: Vec<u8>,
    pub maker_amount: u64,
    pub taker_amount: u64,
    pub expiration: u64,
    pub nonce: u64,
    pub fee_rate_bps: u64,
    pub side: OrderSide,
    pub signature_type: u8,
}

/// The bytes an order's struct hash is taken of.
pub open spec fn order_bytes(o: Order) -> Seq<u8> {
    order_encoding(
        uint_word(o.salt as nat),
        o.maker@,
        o.signer@,
        o.taker@,
        o.token_id@,
        o.maker_amount as nat,
        o.taker_amount as nat,
        o.expiration as nat,
        o.nonce as nat,
        o.fee_rate_bps as nat,
        side_value(o.side),
        o.signature_type as nat,
    )
}

/// The order domain's separator for a market.
pub open spec fn order_domain(neg_risk: bool) -> Seq<u8> {
    keccak256_of(
        domain_encoding(
            ORDER_DOMAIN_NAME.spec_bytes(),
            DOMAIN_VERSION.spec_bytes(),
            CHAIN_ID as nat,
            Some(exchange_for(neg_risk)),
        ),
    )
}

/// The digest that signs an order on a market.
pub open spec fn order_digest_of(o: Order, neg_risk: bool) -> Seq<u8> {
    keccak256_of(digest_encoding(order_domain(neg_risk), keccak256_of(order_bytes(o))))
}

/// The order that `maker` (signing for itself, open to any taker) places:
/// never expiring, nonce 0, the standard fee rate and signature type.
pub open spec fn order_of(
    maker: Seq<u8>,
    token_id: nat,
    amounts: (nat, nat),
    side: OrderSide,
    salt: u64,
    o: Order,
) -> bool {
    &&& o.salt == salt
    &&& o.maker@ == maker
    &&& o.signer@ == maker
    &&& o.taker@ == Seq::new(20, |i: int| 0u8)
    &&& o.token_id@ == uint_word(token_id)
    &&& o.maker_amount as nat == amounts.0
    &&& o.taker_amount as nat == amounts.1
    &&& o.expiration == 0
    &&& o.nonce == 0
    &&& o.fee_rate_bps == FEE_RATE_BPS
    &&& o.side == side
    &&& o.signature_type == SIGNATURE_TYPE
}

/// The order that `maker` places on `token_id` (decimal text) at a price
/// and size in millionths; `InputValidation` where the token id is not a
/// decimal integer below 2^256 or the price and size are out of range.
pub fn build_order(
    maker: &[u8],
    token_id: &str,
    price_micros: u64,
    size_micros: u64,
    side: OrderSide,
    salt: u64,
) -> (r: Result<Order, ClobError>)
    ensures
        r.is_ok() == (token_id_value(token_id.spec_bytes()).is_some() && valid_price_size(
            price_micros as nat,
            size_micros as nat,
        )),
        r.is_err() ==> r == Err::<Order, ClobError>(ClobError::InputValidation),
        r.is_ok() ==> order_of(
            maker@,
            token_id_value(token_id.spec_bytes()).unwrap(),
            amounts_of(price_micros as nat, size_micros as nat, side),
            side,
            salt,
            r.unwrap(),
        ),
{
    let token = match parse_decimal_u256(token_id.as_bytes()) {
        Some(v) => v,
        None => {
            return Err(ClobError::InputValidation);
        },
    };
    let (maker_amount, taker_amount) = match order_amounts(price_micros, size_micros, side) {
        Some(a) => a,
        None => {
            return Err(ClobError::InputValidation);
        },
    };
    let taker: Vec<u8> = vec![0u8; 20];
    proof {
        assert(taker@ =~= Seq::new(20, |i: int| 0u8));
    }
    Ok(
        Order {
            salt,
            maker: vstd::slice::slice_to_vec(maker),
            signer: vstd::slice::slice_to_vec(maker),
            taker,
            token_id: token,
            maker_amount,
            taker_amount,
            expiration: 0,
            nonce: 0,
            fee_rate_bps: FEE_RATE_BPS,
            side,
            signature_type: SIGNATURE_TYPE,
        },
    )
}

/// The struct hash of an order.
pub fn order_hash(o: &Order) -> (r: Vec<u8>)
    ensures
        r@ == keccak256_of(order_bytes(*o)),
        r@.len() == 32,
{
    let mut enc = keccak256(ORDER_TYPE.as_bytes());
    enc.append(&mut u64_to_bytes32(o.salt));
    enc.append(&mut addr_to_bytes32(o.maker.as_slice()));
    enc.append(&mut addr_to_bytes32(o.signer.as_slice()));
    enc.append(&mut addr_to_bytes32(o.taker.as_slice()));
    let mut token: Vec<u8> = vstd::slice::slice_to_vec(o.token_id.as_slice());
    enc.append(&mut token);
    enc.append(&mut u256_bytes(o.maker_amount));
    enc.append(&mut u256_bytes(o.taker_amount));
    enc.append(&mut u256_bytes(o.expiration));
    enc.append(&mut u256_bytes(o.nonce));
    enc.append(&mut u256_bytes(o.fee_rate_bps));
    enc.append(&mut u256_bytes(side_code(o.side) as u64));
    enc.append(&mut u256_bytes(o.signature_type as u64));
    keccak256(enc.as_slice())
}

/// The digest that signs an order on a market; `neg_risk` selects the
/// verifying contract.
pub fn order_digest(o: &Order, neg_risk: bool) -> (r: Vec<u8>)
    ensures
        r@ == order_digest_of(*o, neg_risk),
        r@.len() == 32,
{
    let exchange = exchange_address(neg_risk);
    let domain = domain_separator(
        ORDER_DOMAIN_NAME,
        DOMAIN_VERSION,
        CHAIN_ID,
        Some(exchange.as_slice()),
    );
    let hash = order_hash(o);
    eip712_digest(domain.as_slice(), hash.as_slice())
}


/// Toggling the negative-risk flag, all else equal, changes the bytes the
/// order domain separator is hashed from (the verifying contract differs),
/// so the order digest changes unless Keccak-256 collides.
pub proof fn lemma_neg_risk_changes_domain()
    ensures
        domain_encoding(
            ORDER_DOMAIN_NAME.spec_bytes(),
            DOMAIN_VERSION.spec_bytes(),
            CHAIN_ID as nat,
            Some(exchange_for(true)),
        ) != domain_encoding(
            ORDER_DOMAIN_NAME.spec_bytes(),
            DOMAIN_VERSION.spec_bytes(),
            CHAIN_ID as nat,
            Some(exchange_for(false)),
        ),
{
    let head = keccak256_of(crate::eip712::DOMAIN_TYPE_WITH_CONTRACT.spec_bytes()) + keccak256_of(
        ORDER_DOMAIN_NAME.spec_bytes(),
    ) + keccak256_of(DOMAIN_VERSION.spec_bytes()) + uint_word(CHAIN_ID as nat);
    let a = domain_encoding(
        ORDER_DOMAIN_NAME.spec_bytes(),
        DOMAIN_VERSION.spec_bytes(),
        CHAIN_ID as nat,
        Some(exchange_for(true)),
    );
    let b = domain_encoding(
        ORDER_DOMAIN_NAME.spec_bytes(),
        DOMAIN_VERSION.spec_bytes(),
        CHAIN_ID as nat,
        Some(exchange_for(false)),
    );
    let k = head.len() as int;
    assert(a =~= head + crate::abi::addr_word(exchange_for(true)));
    assert(b =~= head + crate::abi::addr_word(exchange_for(false)));
    assert(a[k + 12] == 0x4Bu8);
    assert(b[k + 12] == 0xC5u8);
}

} // verus!
