//! Per-request authentication: an HMAC-SHA256 over timestamp, method, path
//! and body, keyed by the session's decoded secret.

use crate::abi::{decimal_bytes, decimal_digits, decimal_value};
use vstd::prelude::*;
use vstd::string::StringSliceAdditionalSpecFns;
use vstd::utf8::encode_utf8;

verus! {

/// The upper-case form of text (full Unicode case mapping).
pub uninterp spec fn uppercase_of(s: Seq<char>) -> Seq<char>;

/// HMAC-SHA256 of a message under a key.
pub uninterp spec fn hmac_sha256_of(key: Seq<u8>, msg: Seq<u8>) -> Seq<u8>;

/// The bytes that URL-safe, padded base64 text decodes to; `None` where the
/// text is not such base64.
pub uninterp spec fn base64url_decode_of(text: Seq<u8>) -> Option<Seq<u8>>;

/// Bytes as URL-safe, padded base64 text.
pub uninterp spec fn base64url_encode_of(b: Seq<u8>) -> Seq<char>;

/// Relies on std's `str::to_uppercase`: the result depends on the characters
/// alone.
#[verifier::external_body]
fn to_uppercase(s: &str) -> (r: String)
    ensures
        r@ == uppercase_of(s@),
{
    s.to_uppercase()
}

/// Relies on hmac's `Hmac<Sha256>`: `new_from_slice` takes a key of any
/// length, and `finalize` gives the 32-byte tag of the message absorbed.
#[verifier::external_body]
fn hmac_sha256(key: &[u8], msg: &[u8]) -> (r: Vec<u8>)
    ensures
        r@ == hmac_sha256_of(key@, msg@),
        r@.len() == 32,
{
    match <hmac::Hmac<sha2::Sha256> as hmac::Mac>::new_from_slice(key) {
        Ok(mut mac) => {
            hmac::Mac::update(&mut mac, msg);
            hmac::Mac::finalize(mac).into_bytes().to_vec()
        },
        Err(_) => Vec::new(),
    }
}

/// Relies on base64's `URL_SAFE` engine `decode`: the decoded bytes, or an
/// error for text that is not URL-safe padded base64.
#[verifier::external_body]
pub(crate) fn base64url_decode(text: &[u8]) -> (r: Option<Vec<u8>>)
    ensures
        r.is_some() == base64url_decode_of(text@).is_some(),
        r.is_some() ==> Some(r.unwrap()@) == base64url_decode_of(text@),
{
    base64::Engine::decode(&base64::engine::general_purpose::URL_SAFE, text).ok()
}

/// Relies on base64's `URL_SAFE` engine `encode`.
#[verifier::external_body]
fn base64url_encode(b: &[u8]) -> (r: String)
    ensures
        r@ == base64url_encode_of(b@),
{
    base64::Engine::encode(&base64::engine::general_purpose::URL_SAFE, b)
}

/// The message a request signature covers: the timestamp's decimal digits,
/// the upper-cased method, the path and the body, back to back.
pub open spec fn l2_message(timestamp: nat, method: Seq<char>, path: Seq<u8>, body: Seq<u8>) -> Seq<
    u8,
> {
    decimal_digits(timestamp) + encode_utf8(uppercase_of(method)) + path + body
}

/// The request signature: base64url of the HMAC-SHA256, under `key`, of the
/// request's message.
pub open spec fn l2_signature_of(
    key: Seq<u8>,
    timestamp: nat,
    method: Seq<char>,
    path: Seq<u8>,
    body: Seq<u8>,
) -> Seq<char> {
    base64url_encode_of(hmac_sha256_of(key, l2_message(timestamp, method, path, body)))
}

/// The message a request signature covers.
pub fn l2_message_bytes(timestamp: u64, method: &str, path: &str, body: &[u8]) -> (r: Vec<u8>)
    ensures
        r@ == l2_message(timestamp as nat, method@, path.spec_bytes(), body@),
{
    let mut msg = decimal_bytes(timestamp as u128);
    let upper = to_uppercase(method);
    msg.extend_from_slice(upper.as_str().as_bytes());
    msg.extend_from_slice(path.as_bytes());
    msg.extend_from_slice(body);
    proof {
        assert(msg@ =~= l2_message(timestamp as nat, method@, path.spec_bytes(), body@));
    }
    msg
}

/// The signature of one request under the session key `key`.
pub fn l2_signature(key: &[u8], timestamp: u64, method: &str, path: &str, body: &[u8]) -> (r:
    String)
    ensures
        r@ == l2_signature_of(key@, timestamp as nat, method@, path.spec_bytes(), body@),
{
    let msg = l2_message_bytes(timestamp, method, path, body);
    let tag = hmac_sha256(key, msg.as_slice());
    base64url_encode(tag.as_slice())
}

proof fn lemma_decimal_round_trip(v: nat)
    ensures
        decimal_value(decimal_digits(v)) == v,
    decreases v,
{
    if v >= 10 {
        lemma_decimal_round_trip(v / 10);
        assert(decimal_digits(v).drop_last() == decimal_digits(v / 10));
        assert(decimal_digits(v).last() == (v % 10 + 48) as u8);
        assert(v == (v / 10) * 10 + v % 10) by (nonlinear_arith);
        assert(decimal_value(decimal_digits(v)) == decimal_value(decimal_digits(v / 10)) * 10 + (
        v % 10));
    } else {
        assert(decimal_digits(v).drop_last() =~= Seq::<u8>::empty());
        assert(decimal_value(Seq::<u8>::empty()) == 0);
        assert(decimal_digits(v).last() == (v + 48) as u8);
        assert(decimal_value(decimal_digits(v)) == 0 * 10 + v);
    }
}

proof fn lemma_middle_differs(pre: Seq<u8>, a: Seq<u8>, b: Seq<u8>, post: Seq<u8>)
    requires
        a != b,
    ensures
        pre + a + post != pre + b + post,
{
    if a.len() == b.len() {
        let k = pre.len() as int;
        assert((pre + a + post).subrange(k, k + a.len()) =~= a);
        assert((pre + b + post).subrange(k, k + b.len()) =~= b);
    } else {
        assert((pre + a + post).len() != (pre + b + post).len());
    }
}

/// A request's signed message changes whenever exactly one of its parts
/// changes: the timestamp, the method (as upper-cased), the path or the
/// body. Identical parts give the identical message, and so the identical
/// signature under the same key.
pub proof fn lemma_l2_message_sensitive(
    key: Seq<u8>,
    t: u64,
    t2: u64,
    method: Seq<char>,
    method2: Seq<char>,
    path: Seq<u8>,
    path2: Seq<u8>,
    body: Seq<u8>,
    body2: Seq<u8>,
)
    ensures
        t != t2 ==> l2_message(t as nat, method, path, body) != l2_message(
            t2 as nat,
            method,
            path,
            body,
        ),
        uppercase_of(method) != uppercase_of(method2) ==> l2_message(t as nat, method, path, body)
            != l2_message(t as nat, method2, path, body),
        path != path2 ==> l2_message(t as nat, method, path, body) != l2_message(
            t as nat,
            method,
            path2,
            body,
        ),
        body != body2 ==> l2_message(t as nat, method, path, body) != l2_message(
            t as nat,
            method,
            path,
            body2,
        ),
        (t == t2 && method == method2 && path == path2 && body == body2) ==> l2_signature_of(
            key,
            t as nat,
            method,
            path,
            body,
        ) == l2_signature_of(key, t2 as nat, method2, path2, body2),
{
    let d = decimal_digits(t as nat);
    let u = encode_utf8(uppercase_of(method));
    if t != t2 {
        lemma_decimal_round_trip(t as nat);
        lemma_decimal_round_trip(t2 as nat);
        lemma_middle_differs(seq![], d, decimal_digits(t2 as nat), u + path + body);
        assert(l2_message(t as nat, method, path, body) =~= Seq::<u8>::empty() + d + (u + path
            + body));
        assert(l2_message(t2 as nat, method, path, body) =~= Seq::<u8>::empty() + decimal_digits(
            t2 as nat,
        ) + (u + path + body));
    }
    if uppercase_of(method) != uppercase_of(method2) {
        let u2 = encode_utf8(uppercase_of(method2));
        vstd::utf8::encode_utf8_decode_utf8(uppercase_of(method));
        vstd::utf8::encode_utf8_decode_utf8(uppercase_of(method2));
        lemma_middle_differs(d, u, u2, path + body);
        assert(l2_message(t as nat, method, path, body) =~= d + u + (path + body));
        assert(l2_message(t as nat, method2, path, body) =~= d + u2 + (path + body));
    }
    if path != path2 {
        lemma_middle_differs(d + u, path, path2, body);
    }
    if body != body2 {
        lemma_middle_differs(d + u + path, body, body2, seq![]);
        assert(l2_message(t as nat, method, path, body) =~= d + u + path + body + Seq::<
            u8,
        >::empty());
        assert(l2_message(t as nat, method, path, body2) =~= d + u + path + body2 + Seq::<
            u8,
        >::empty());
    }
}

} // verus!
