//! Request bodies, written as exact JSON bytes so that the bytes signed for
//! a request are the bytes sent.

use crate::abi::{decimal_bytes, decimal_digits};
use crate::hexcode::{hex_encode, hex_lower};
use crate::order::{Order, OrderSide};
use vstd::prelude::*;
use vstd::string::StringSliceAdditionalSpecFns;
use vstd::utf8::encode_utf8;

verus! {

/// The statement a wallet signs to obtain session credentials.
pub const ATTESTATION_MESSAGE: &'static str =
    "This message attests that I control the given wallet";

/// Bytes as "0x"-less lower-case hexadecimal text, in UTF-8.
pub open spec fn hex_text(b: Seq<u8>) -> Seq<u8> {
    encode_utf8(hex_lower(b))
}

/// The side as the order book spells it.
pub open spec fn side_text(side: OrderSide) -> Seq<u8> {
    match side {
        OrderSide::Buy => "BUY".spec_bytes(),
        OrderSide::Sell => "SELL".spec_bytes(),
    }
}

/// One byte as it stands inside a JSON string: quote and backslash escaped,
/// control characters as \u00XX, everything else as it is.
pub open spec fn json_escape_byte(c: u8) -> Seq<u8> {
    if c == 34 {
        seq![92u8, 34u8]
    } else if c == 92 {
        seq![92u8, 92u8]
    } else if c < 32 {
        seq![92u8, 117u8, 48u8, 48u8, (if c < 16 { 48u8 } else { 49u8 }), hex_lower(seq![c])[1] as u8]
    } else {
        seq![c]
    }
}

/// Text as it stands inside a JSON string.
pub open spec fn json_escaped(s: Seq<u8>) -> Seq<u8>
    decreases s.len(),
{
    if s.len() == 0 {
        seq![]
    } else {
        json_escaped(s.drop_last()) + json_escape_byte(s.last())
    }
}

/// The body that asks for session credentials.
pub open spec fn auth_json(address: Seq<u8>, timestamp: nat, signature: Seq<u8>) -> Seq<u8> {
    "{\"address\":\"0x".spec_bytes() + hex_text(address) + "\",\"timestamp\":\"".spec_bytes()
        + decimal_digits(timestamp) + "\",\"nonce\":\"0\",\"message\":\"".spec_bytes()
        + ATTESTATION_MESSAGE.spec_bytes() + "\",\"signature\":\"0x".spec_bytes() + hex_text(
        signature,
    ) + "\"}".spec_bytes()
}

/// The body that submits a signed order, every number as a decimal string
/// (the token id as the text it was given in).
pub open spec fn order_json(o: Order, token_id: Seq<u8>, signature: Seq<u8>, owner: Seq<u8>) -> Seq<
    u8,
> {
    "{\"order\":{\"salt\":\"".spec_bytes() + decimal_digits(o.salt as nat)
        + "\",\"maker\":\"0x".spec_bytes() + hex_text(o.maker@) + "\",\"signer\":\"0x".spec_bytes()
        + hex_text(o.signer@) + "\",\"taker\":\"0x".spec_bytes() + hex_text(o.taker@)
        + "\",\"tokenId\":\"".spec_bytes() + token_id
        + "\",\"makerAmount\":\"".spec_bytes() + decimal_digits(o.maker_amount as nat)
        + "\",\"takerAmount\":\"".spec_bytes() + decimal_digits(o.taker_amount as nat)
        + "\",\"expiration\":\"".spec_bytes() + decimal_digits(o.expiration as nat)
        + "\",\"nonce\":\"".spec_bytes() + decimal_digits(o.nonce as nat)
        + "\",\"feeRateBps\":\"".spec_bytes() + decimal_digits(o.fee_rate_bps as nat)
        + "\",\"side\":\"".spec_bytes() + side_text(o.side) + "\",\"signatureType\":\"".spec_bytes()
        + decimal_digits(o.signature_type as nat) + "\",\"signature\":\"0x".spec_bytes() + hex_text(
        signature,
    ) + "\"},\"owner\":\"0x".spec_bytes() + hex_text(owner) + "\",\"orderType\":\"GTC\"}".spec_bytes()
}

/// The body that cancels an order.
pub open spec fn cancel_json(order_id: Seq<u8>) -> Seq<u8> {
    "{\"orderID\":\"".spec_bytes() + json_escaped(order_id) + "\"}".spec_bytes()
}

fn push_text(buf: &mut Vec<u8>, s: &str)
    ensures
        final(buf)@ == old(buf)@ + s.spec_bytes(),
{
    buf.extend_from_slice(s.as_bytes());
    proof {
        assert(final(buf)@ =~= old(buf)@ + s.spec_bytes());
    }
}

fn push_hex(buf: &mut Vec<u8>, b: &[u8])
    ensures
        final(buf)@ == old(buf)@ + hex_text(b@),
{
    let h = hex_encode(b);
    buf.extend_from_slice(h.as_str().as_bytes());
    proof {
        assert(final(buf)@ =~= old(buf)@ + hex_text(b@));
    }
}

fn push_decimal(buf: &mut Vec<u8>, v: u128)
    ensures
        final(buf)@ == old(buf)@ + decimal_digits(v as nat),
{
    let mut d = decimal_bytes(v);
    buf.append(&mut d);
}

/// Text escaped for the inside of a JSON string.
pub fn json_escape(s: &[u8]) -> (r: Vec<u8>)
    ensures
        r@ == json_escaped(s@),
{
    let mut r: Vec<u8> = Vec::new();
    let mut i: usize = 0;
    while i < s.len()
        invariant
            i <= s@.len(),
            r@ == json_escaped(s@.subrange(0, i as int)),
        decreases s@.len() - i,
    {
        let c = s[i];
        if c == 34 {
            r.push(92u8);
            r.push(34u8);
        } else if c == 92 {
            r.push(92u8);
            r.push(92u8);
        } else if c < 32 {
            r.push(92u8);
            r.push(117u8);
            r.push(48u8);
            r.push(48u8);
            r.push(if c < 16 { 48u8 } else { 49u8 });
            let low = c % 16;
            r.push(if low < 10 { low + 48 } else { low + 87 });
        } else {
            r.push(c);
        }
        proof {
            let t = s@.subrange(0, i + 1);
            assert(t.drop_last() =~= s@.subrange(0, i as int));
            assert(t.last() == c);
            assert(r@ =~= json_escaped(t));
        }
        i = i + 1;
    }
    proof {
        assert(s@.subrange(0, s@.len() as int) =~= s@);
    }
    r
}

/// The body that asks for session credentials for `address`, attesting at
/// `timestamp` with `signature`.
pub fn auth_payload(address: &[u8], timestamp: u64, signature: &[u8]) -> (r: Vec<u8>)
    ensures
        r@ == auth_json(address@, timestamp as nat, signature@),
{
    let mut b: Vec<u8> = Vec::new();
    push_text(&mut b, "{\"address\":\"0x");
    push_hex(&mut b, address);
    push_text(&mut b, "\",\"timestamp\":\"");
    push_decimal(&mut b, timestamp as u128);
    push_text(&mut b, "\",\"nonce\":\"0\",\"message\":\"");
    push_text(&mut b, ATTESTATION_MESSAGE);
    push_text(&mut b, "\",\"signature\":\"0x");
    push_hex(&mut b, signature);
    push_text(&mut b, "\"}");
    proof {
        assert(b@ =~= auth_json(address@, timestamp as nat, signature@));
    }
    b
}

/// The body that submits order `o`, whose token id is given as the decimal
/// text `token_id`, with its signature, owned by `owner`.
pub fn order_payload(o: &Order, token_id: &[u8], signature: &[u8], owner: &[u8]) -> (r: Vec<u8>)
    ensures
        r@ == order_json(*o, token_id@, signature@, owner@),
{
    let mut b: Vec<u8> = Vec::new();
    push_text(&mut b, "{\"order\":{\"salt\":\"");
    push_decimal(&mut b, o.salt as u128);
    push_text(&mut b, "\",\"maker\":\"0x");
    push_hex(&mut b, o.maker.as_slice());
    push_text(&mut b, "\",\"signer\":\"0x");
    push_hex(&mut b, o.signer.as_slice());
    push_text(&mut b, "\",\"taker\":\"0x");
    push_hex(&mut b, o.taker.as_slice());
    push_text(&mut b, "\",\"tokenId\":\"");
    b.extend_from_slice(token_id);
    push_text(&mut b, "\",\"makerAmount\":\"");
    push_decimal(&mut b, o.maker_amount as u128);
    push_text(&mut b, "\",\"takerAmount\":\"");
    push_decimal(&mut b, o.taker_amount as u128);
    push_text(&mut b, "\",\"expiration\":\"");
    push_decimal(&mut b, o.expiration as u128);
    push_text(&mut b, "\",\"nonce\":\"");
    push_decimal(&mut b, o.nonce as u128);
    push_text(&mut b, "\",\"feeRateBps\":\"");
    push_decimal(&mut b, o.fee_rate_bps as u128);
    push_text(&mut b, "\",\"side\":\"");
    match o.side {
        OrderSide::Buy => push_text(&mut b, "BUY"),
        OrderSide::Sell => push_text(&mut b, "SELL"),
    }
    push_text(&mut b, "\",\"signatureType\":\"");
    push_decimal(&mut b, o.signature_type as u128);
    push_text(&mut b, "\",\"signature\":\"0x");
    push_hex(&mut b, signature);
    push_text(&mut b, "\"},\"owner\":\"0x");
    push_hex(&mut b, owner);
    push_text(&mut b, "\",\"orderType\":\"GTC\"}");
    proof {
        assert(b@ =~= order_json(*o, token_id@, signature@, owner@));
    }
    b
}

/// The body that cancels the order `order_id`.
pub fn cancel_payload(order_id: &str) -> (r: Vec<u8>)
    ensures
        r@ == cancel_json(order_id.spec_bytes()),
{
    let mut b: Vec<u8> = Vec::new();
    push_text(&mut b, "{\"orderID\":\"");
    let mut e = json_escape(order_id.as_bytes());
    b.append(&mut e);
    push_text(&mut b, "\"}");
    proof {
        assert(b@ =~= cancel_json(order_id.spec_bytes()));
    }
    b
}

} // verus!
