//! The exchange client: one wallet identity, the session credentials it
//! obtains once, and the signed requests it prepares. Sending them is left
//! to the caller, which hands the exchange's answers back.

use crate::abi::{decimal_bytes, decimal_digits, lemma_decimal_digits_are_digits, uint_word};
use crate::eip712::{
    clob_auth_encoding, clob_auth_hash, digest_encoding, domain_encoding, domain_separator,
    eip712_digest, token_id_value,
};
use crate::error::ClobError;
use crate::hashing::keccak256_of;
use crate::hexcode::{hex_decode, hex_decoded, hex_encode, hex_lower};
use crate::identity::{
    address_of_secret, is_valid_secret, is_valid_secret_key, pubkey_to_address, sign_digest_bytes,
    ecdsa_sign_of, signature_of,
};
use crate::l2auth::{base64url_decode, base64url_decode_of, l2_signature, l2_signature_of};
use crate::order::{
    amounts_of, build_order, order_digest, order_digest_of, order_of, valid_price_size, Order,
    OrderSide, CHAIN_ID, DOMAIN_VERSION,
};
use crate::payload::{
    auth_json, auth_payload, cancel_json, cancel_payload, order_json, order_payload,
    ATTESTATION_MESSAGE,
};
use crate::text::{ascii_chars, ascii_string, lemma_ascii_round_trip};
use vstd::prelude::*;
use vstd::string::{StringExecFns, StringSliceAdditionalSpecFns};
use vstd::utf8::encode_utf8;

verus! {

/// Name of the authentication domain.
pub const AUTH_DOMAIN_NAME: &'static str = "ClobAuthDomain";

/// Path of order submission and cancellation.
pub const ORDER_PATH: &'static str = "/order";

/// Session credentials handed out by the exchange.
pub struct Credentials {
    pub api_key: String,
    /// URL-safe base64 of the HMAC key.
    pub api_secret: String,
    pub api_passphrase: String,
}

/// What the exchange answers to an order submission.
pub struct OrderResponse {
    pub success: bool,
    pub order_id: String,
    pub error_msg: Option<String>,
}

/// A request ready to send: its exact body and its authentication headers.
pub struct SignedRequest {
    pub body: Vec<u8>,
    pub headers: Vec<(String, String)>,
}

struct Session {
    credentials: Credentials,
    key: Vec<u8>,
}

/// A wallet-keyed client of the exchange: unauthenticated until session
/// credentials are installed, authenticated for the rest of its life.
pub struct ClobClient {
    secret: Vec<u8>,
    address: Vec<u8>,
    session: Option<Session>,
}

/// The hexadecimal key text with an optional "0x" prefix removed.
pub open spec fn strip_hex_prefix(s: Seq<u8>) -> Seq<u8> {
    if s.len() >= 2 && s[0] == 48 && s[1] == 120 {
        s.subrange(2, s.len() as int)
    } else {
        s
    }
}

/// The secret key that key text spells, if it is hex of a valid scalar.
pub open spec fn secret_from_text(s: Seq<u8>) -> Option<Seq<u8>> {
    match hex_decoded(strip_hex_prefix(s)) {
        Some(b) => if is_valid_secret(b) {
            Some(b)
        } else {
            None
        },
        None => None,
    }
}

/// "0x" and the lower-case hex of an address or signature.
pub open spec fn prefixed_hex(b: Seq<u8>) -> Seq<char> {
    seq!['0', 'x'] + hex_lower(b)
}

/// The digest a wallet signs to attest control at `timestamp`.
pub open spec fn auth_digest_of(address: Seq<u8>, timestamp: nat) -> Seq<u8> {
    keccak256_of(
        digest_encoding(
            keccak256_of(
                domain_encoding(
                    AUTH_DOMAIN_NAME.spec_bytes(),
                    DOMAIN_VERSION.spec_bytes(),
                    CHAIN_ID as nat,
                    None,
                ),
            ),
            keccak256_of(
                clob_auth_encoding(
                    address,
                    decimal_digits(timestamp),
                    uint_word(0),
                    ATTESTATION_MESSAGE.spec_bytes(),
                ),
            ),
        ),
    )
}

/// The five authentication headers, as (name, value) text.
pub open spec fn l2_header_list(
    address: Seq<u8>,
    signature: Seq<char>,
    timestamp: nat,
    api_key: Seq<char>,
    passphrase: Seq<char>,
) -> Seq<(Seq<char>, Seq<char>)> {
    seq![
        ("POLY-ADDRESS"@, prefixed_hex(address)),
        ("POLY-SIGNATURE"@, signature),
        ("POLY-TIMESTAMP"@, ascii_chars(decimal_digits(timestamp))),
        ("POLY-API-KEY"@, api_key),
        ("POLY-PASSPHRASE"@, passphrase),
    ]
}

/// Header pairs as text.
pub open spec fn headers_view(h: Seq<(String, String)>) -> Seq<(Seq<char>, Seq<char>)> {
    h.map_values(|p: (String, String)| (p.0@, p.1@))
}

/// Whether an HTTP status is a success (2xx).
pub open spec fn is_success(status: u16) -> bool {
    200 <= status < 300
}

/// Relies on rand's `random::<u64>`: any value may come.
#[verifier::external_body]
fn random_salt() -> (r: u64) {
    rand::random::<u64>()
}

/// Relies on std's `SystemTime::now`: seconds since the Unix epoch (0 for a
/// clock set before it); any value may come.
#[verifier::external_body]
fn unix_now() -> (r: u64) {
    std::time::SystemTime::now().duration_since(std::time::UNIX_EPOCH).map(|d| d.as_secs()).unwrap_or(0)
}

/// A timestamp as decimal text.
pub fn timestamp_text(t: u64) -> (r: String)
    ensures
        r@ == ascii_chars(decimal_digits(t as nat)),
        encode_utf8(r@) == decimal_digits(t as nat),
{
    let d = decimal_bytes(t as u128);
    proof {
        lemma_decimal_digits_are_digits(t as nat);
        lemma_ascii_round_trip(d@);
    }
    ascii_string(d.as_slice())
}

/// The current Unix time in seconds, as decimal text.
pub fn current_timestamp() -> (r: String)
    ensures
        exists|t: u64| r@ == #[trigger] ascii_chars(decimal_digits(t as nat)),
{
    let t = unix_now();
    timestamp_text(t)
}

/// Whether a cancellation was accepted: the status alone decides.
pub fn cancel_succeeded(status: u16) -> (r: bool)
    ensures
        r == is_success(status),
{
    200 <= status && status < 300
}

/// The outcome of an order submission: the exchange's answer where its
/// body was a response (a rejection included), else a transport error
/// carrying the body.
pub fn order_outcome(parsed: Option<OrderResponse>, body: String) -> (r: Result<
    OrderResponse,
    ClobError,
>)
    ensures
        parsed.is_some() ==> r == Ok::<OrderResponse, ClobError>(parsed.unwrap()),
        parsed.is_none() ==> r == Err::<OrderResponse, ClobError>(ClobError::TransportError(body)),
{
    match parsed {
        Some(resp) => Ok(resp),
        None => Err(ClobError::TransportError(body)),
    }
}

impl ClobClient {
    /// The secret key.
    pub closed spec fn secret_key(&self) -> Seq<u8> {
        self.secret@
    }

    /// The session credentials as (api key, api secret, passphrase) text,
    /// once authenticated.
    pub closed spec fn credentials(&self) -> Option<(Seq<char>, Seq<char>, Seq<char>)> {
        match self.session {
            Some(s) => Some(
                (s.credentials.api_key@, s.credentials.api_secret@, s.credentials.api_passphrase@),
            ),
            None => None,
        }
    }

    /// The HMAC key of the session: the decoded api secret.
    pub closed spec fn session_key(&self) -> Seq<u8> {
        match self.session {
            Some(s) => s.key@,
            None => seq![],
        }
    }

    /// The account address of the client's key.
    pub open spec fn account(&self) -> Seq<u8> {
        address_of_secret(self.secret_key())
    }

    /// The client's invariant: a valid key, its address, and a session key
    /// that is the decoding of the session's api secret.
    pub closed spec fn wf(&self) -> bool {
        &&& is_valid_secret(self.secret@)
        &&& self.address@ == address_of_secret(self.secret@)
        &&& self.address@.len() == 20
        &&& match self.session {
            Some(s) => base64url_decode_of(encode_utf8(s.credentials.api_secret@)) == Some(
                s.key@,
            ),
            None => true,
        }
    }

    /// A client for the secret key given as 64 hex digits, with or without
    /// a "0x" prefix; `InputValidation` for text that is not hex of a valid
    /// secp256k1 scalar.
    pub fn new(private_key: &str) -> (r: Result<ClobClient, ClobError>)
        ensures
            r.is_ok() == secret_from_text(private_key.spec_bytes()).is_some(),
            r.is_err() ==> r == Err::<ClobClient, ClobError>(ClobError::InputValidation),
            r.is_ok() ==> r.unwrap().wf() && Some(r.unwrap().secret_key()) == secret_from_text(
                private_key.spec_bytes(),
            ) && r.unwrap().credentials().is_none(),
    {
        let text = private_key.as_bytes();
        let ghost s = text@;
        let mut body: Vec<u8> = Vec::new();
        let start: usize = if text.len() >= 2 && text[0] == 48 && text[1] == 120 {
            2
        } else {
            0
        };
        let mut i: usize = start;
        while i < text.len()
            invariant
                start <= i <= text@.len(),
                text@ == s,
                start == 2 ==> s.len() >= 2 && s[0] == 48 && s[1] == 120,
                start == 0 ==> !(s.len() >= 2 && s[0] == 48 && s[1] == 120),
                body@ == s.subrange(start as int, i as int),
            decreases text@.len() - i,
        {
            body.push(text[i]);
            i = i + 1;
            proof {
                assert(body@ =~= s.subrange(start as int, i as int));
            }
        }
        proof {
            assert(body@ =~= strip_hex_prefix(s));
        }
        let secret = match hex_decode(body.as_slice()) {
            Some(b) => b,
            None => {
                return Err(ClobError::InputValidation);
            },
        };
        if !is_valid_secret_key(secret.as_slice()) {
            return Err(ClobError::InputValidation);
        }
        let address = pubkey_to_address(secret.as_slice());
        Ok(ClobClient { secret, address, session: None })
    }

    /// Address derivation is deterministic: two well-formed clients with the
    /// same secret key have the same account address, 20 bytes long.
    pub proof fn lemma_address_deterministic(a: &ClobClient, b: &ClobClient)
        requires
            a.wf(),
            b.wf(),
            a.secret_key() == b.secret_key(),
        ensures
            a.account() == b.account(),
            a.account().len() == 20,
    {
    }

    /// Once authenticated, the session key is the decoding of the api
    /// secret: clients holding the same api secret sign requests alike.
    pub proof fn lemma_session_key(&self)
        requires
            self.wf(),
            self.credentials().is_some(),
        ensures
            Some(self.session_key()) == base64url_decode_of(
                encode_utf8(self.credentials().unwrap().1),
            ),
    {
    }

    /// Whether session credentials are installed.
    pub fn is_authenticated(&self) -> (r: bool)
        ensures
            r == self.credentials().is_some(),
    {
        self.session.is_some()
    }

    /// The account address as "0x" and 40 lower-case hex digits.
    pub fn address(&self) -> (r: String)
        requires
            self.wf(),
        ensures
            r@ == prefixed_hex(self.account()),
    {
        let h = hex_encode(self.address.as_slice());
        let r = String::from_str("0x").concat(h.as_str());
        proof {
            reveal_strlit("0x");
            assert(r@ =~= prefixed_hex(self.account()));
        }
        r
    }

    /// The signature of a 32-byte digest as "0x" and 130 hex digits: r, s
    /// and the recovery id plus 27; `SigningFailure` where the curve
    /// operation fails.
    pub fn sign_digest(&self, digest: &[u8]) -> (r: Result<String, ClobError>)
        requires
            self.wf(),
            digest@.len() == 32,
        ensures
            r.is_ok() == ecdsa_sign_of(self.secret_key(), digest@).is_some(),
            r.is_ok() ==> r.unwrap()@ == prefixed_hex(signature_of(self.secret_key(), digest@)),
            r.is_err() ==> r == Err::<String, ClobError>(ClobError::SigningFailure),
    {
        match sign_digest_bytes(self.secret.as_slice(), digest) {
            Some(sig) => {
                let h = hex_encode(sig.as_slice());
                let r = String::from_str("0x").concat(h.as_str());
                proof {
                    reveal_strlit("0x");
                    assert(r@ =~= prefixed_hex(signature_of(self.secret_key(), digest@)));
                }
                Ok(r)
            },
            None => Err(ClobError::SigningFailure),
        }
    }

    /// The digest the wallet signs to attest control at `timestamp`.
    pub fn auth_digest(&self, timestamp: u64) -> (r: Vec<u8>)
        requires
            self.wf(),
        ensures
            r@ == auth_digest_of(self.account(), timestamp as nat),
            r@.len() == 32,
    {
        let domain = domain_separator(AUTH_DOMAIN_NAME, DOMAIN_VERSION, CHAIN_ID, None);
        let ts = timestamp_text(timestamp);
        let nonce = crate::abi::u256_bytes(0);
        let hash = clob_auth_hash(
            self.address.as_slice(),
            ts.as_str(),
            nonce.as_slice(),
            ATTESTATION_MESSAGE,
        );
        eip712_digest(domain.as_slice(), hash.as_slice())
    }

    /// The body that asks for session credentials, attesting at
    /// `timestamp`; `SigningFailure` where the curve operation fails.
    pub fn auth_request(&self, timestamp: u64) -> (r: Result<Vec<u8>, ClobError>)
        requires
            self.wf(),
        ensures
            r.is_ok() == ecdsa_sign_of(
                self.secret_key(),
                auth_digest_of(self.account(), timestamp as nat),
            ).is_some(),
            r.is_ok() ==> r.unwrap()@ == auth_json(
                self.account(),
                timestamp as nat,
                signature_of(self.secret_key(), auth_digest_of(self.account(), timestamp as nat)),
            ),
            r.is_err() ==> r == Err::<Vec<u8>, ClobError>(ClobError::SigningFailure),
    {
        let digest = self.auth_digest(timestamp);
        match sign_digest_bytes(self.secret.as_slice(), digest.as_slice()) {
            Some(sig) => Ok(auth_payload(self.address.as_slice(), timestamp, sig.as_slice())),
            None => Err(ClobError::SigningFailure),
        }
    }

    /// The body that asks for session credentials, attesting now.
    pub fn authentication_request(&self) -> (r: Result<Vec<u8>, ClobError>)
        requires
            self.wf(),
        ensures
            r.is_ok() ==> exists|t: u64|
                r.unwrap()@ == #[trigger] auth_json(
                    self.account(),
                    t as nat,
                    signature_of(self.secret_key(), auth_digest_of(self.account(), t as nat)),
                ),
            r.is_err() ==> r == Err::<Vec<u8>, ClobError>(ClobError::SigningFailure),
            r.is_err() ==> exists|t: u64|
                #[trigger] ecdsa_sign_of(
                    self.secret_key(),
                    auth_digest_of(self.account(), t as nat),
                ).is_none(),
    {
        let t = unix_now();
        self.auth_request(t)
    }

    /// Installs the exchange's answer to a credential request: with a 2xx
    /// status and credentials whose api secret is URL-safe base64, the
    /// client is authenticated with them; otherwise it is left as it was
    /// and `AuthenticationFailed` carries the response body.
    pub fn finish_authentication(
        &mut self,
        status: u16,
        body: String,
        credentials: Option<Credentials>,
    ) -> (r: Result<(), ClobError>)
        requires
            old(self).wf(),
        ensures
            final(self).wf(),
            final(self).secret_key() == old(self).secret_key(),
            r.is_ok() == (is_success(status) && credentials.is_some() && base64url_decode_of(
                encode_utf8(credentials.unwrap().api_secret@),
            ).is_some()),
            r.is_ok() ==> final(self).credentials() == Some(
                (
                    credentials.unwrap().api_key@,
                    credentials.unwrap().api_secret@,
                    credentials.unwrap().api_passphrase@,
                ),
            ) && Some(final(self).session_key()) == base64url_decode_of(
                encode_utf8(credentials.unwrap().api_secret@),
            ),
            r.is_err() ==> *final(self) == *old(self) && r == Err::<(), ClobError>(
                ClobError::AuthenticationFailed(body),
            ),
    {
        if !(200 <= status && status < 300) {
            return Err(ClobError::AuthenticationFailed(body));
        }
        match credentials {
            Some(c) => {
                match base64url_decode(c.api_secret.as_str().as_bytes()) {
                    Some(key) => {
                        self.session = Some(Session { credentials: c, key });
                        Ok(())
                    },
                    None => Err(ClobError::AuthenticationFailed(body)),
                }
            },
            None => Err(ClobError::AuthenticationFailed(body)),
        }
    }

    /// The five authentication headers of a request with `method`, `path`
    /// and `body` at `timestamp`; `NotAuthenticated` before authentication.
    pub fn l2_headers(&self, method: &str, path: &str, body: &[u8], timestamp: u64) -> (r: Result<
        Vec<(String, String)>,
        ClobError,
    >)
        requires
            self.wf(),
        ensures
            r.is_err() == self.credentials().is_none(),
            r.is_err() ==> r == Err::<Vec<(String, String)>, ClobError>(
                ClobError::NotAuthenticated,
            ),
            r.is_ok() ==> headers_view(r.unwrap()@) == l2_header_list(
                self.account(),
                l2_signature_of(
                    self.session_key(),
                    timestamp as nat,
                    method@,
                    path.spec_bytes(),
                    body@,
                ),
                timestamp as nat,
                self.credentials().unwrap().0,
                self.credentials().unwrap().2,
            ),
    {
        let session = match &self.session {
            Some(s) => s,
            None => {
                return Err(ClobError::NotAuthenticated);
            },
        };
        let sig = l2_signature(session.key.as_slice(), timestamp, method, path, body);
        let mut h: Vec<(String, String)> = Vec::new();
        h.push((String::from_str("POLY-ADDRESS"), self.address()));
        h.push((String::from_str("POLY-SIGNATURE"), sig));
        h.push((String::from_str("POLY-TIMESTAMP"), timestamp_text(timestamp)));
        h.push((String::from_str("POLY-API-KEY"), session.credentials.api_key.clone()));
        h.push((String::from_str("POLY-PASSPHRASE"), session.credentials.api_passphrase.clone()));
        proof {
            assert(headers_view(h@) =~= l2_header_list(
                self.account(),
                l2_signature_of(
                    self.session_key(),
                    timestamp as nat,
                    method@,
                    path.spec_bytes(),
                    body@,
                ),
                timestamp as nat,
                self.credentials().unwrap().0,
                self.credentials().unwrap().2,
            ));
        }
        Ok(h)
    }

    /// Whether `req` is the submission of the order that this client places
    /// on `token_id` at a price and size in millionths, with `salt`, signed
    /// for the market's exchange and authenticated at `timestamp`.
    pub open spec fn is_order_request(
        &self,
        token_id: Seq<u8>,
        price_micros: nat,
        size_micros: nat,
        side: OrderSide,
        neg_risk: bool,
        salt: u64,
        timestamp: nat,
        req: SignedRequest,
    ) -> bool {
        exists|o: Order|
            {
                &&& #[trigger] order_of(
                    self.account(),
                    token_id_value(token_id).unwrap(),
                    amounts_of(price_micros, size_micros, side),
                    side,
                    salt,
                    o,
                )
                &&& ecdsa_sign_of(self.secret_key(), order_digest_of(o, neg_risk)).is_some()
                &&& req.body@ == order_json(
                    o,
                    token_id,
                    signature_of(self.secret_key(), order_digest_of(o, neg_risk)),
                    self.account(),
                )
                &&& headers_view(req.headers@) == l2_header_list(
                    self.account(),
                    l2_signature_of(
                        self.session_key(),
                        timestamp,
                        "POST"@,
                        ORDER_PATH.spec_bytes(),
                        req.body@,
                    ),
                    timestamp,
                    self.credentials().unwrap().0,
                    self.credentials().unwrap().2,
                )
            }
    }

    /// Whether signing fails for the order that this client places on
    /// `token_id` at a price and size in millionths with `salt`, on the
    /// market's exchange.
    pub open spec fn order_signing_fails(
        &self,
        token_id: Seq<u8>,
        price_micros: nat,
        size_micros: nat,
        side: OrderSide,
        neg_risk: bool,
        salt: u64,
    ) -> bool {
        exists|o: Order|
            {
                &&& #[trigger] order_of(
                    self.account(),
                    token_id_value(token_id).unwrap(),
                    amounts_of(price_micros, size_micros, side),
                    side,
                    salt,
                    o,
                )
                &&& ecdsa_sign_of(self.secret_key(), order_digest_of(o, neg_risk)).is_none()
            }
    }

    /// The signed submission of a good-till-cancelled limit order on
    /// `token_id` (decimal text) at a price and size in millionths, with
    /// `salt`, authenticated at `timestamp`. `NotAuthenticated` before
    /// authentication; `InputValidation` for a token id that is not a
    /// decimal integer below 2^256, a price outside (0, 1) or a zero size; `SigningFailure` where the curve operation fails.
    pub fn order_request(
        &self,
        token_id: &str,
        price_micros: u64,
        size_micros: u64,
        side: OrderSide,
        neg_risk: bool,
        salt: u64,
        timestamp: u64,
    ) -> (r: Result<SignedRequest, ClobError>)
        requires
            self.wf(),
        ensures
            self.credentials().is_none() ==> r == Err::<SignedRequest, ClobError>(
                ClobError::NotAuthenticated,
            ),
            self.credentials().is_some() && !(token_id_value(token_id.spec_bytes()).is_some()
                && valid_price_size(price_micros as nat, size_micros as nat)) ==> r == Err::<
                SignedRequest,
                ClobError,
            >(ClobError::InputValidation),
            r.is_err() ==> r == Err::<SignedRequest, ClobError>(ClobError::NotAuthenticated) || r
                == Err::<SignedRequest, ClobError>(ClobError::InputValidation) || r == Err::<
                SignedRequest,
                ClobError,
            >(ClobError::SigningFailure),
            r == Err::<SignedRequest, ClobError>(ClobError::SigningFailure)
                ==> self.order_signing_fails(
                token_id.spec_bytes(),
                price_micros as nat,
                size_micros as nat,
                side,
                neg_risk,
                salt,
            ),
            r.is_ok() ==> self.credentials().is_some() && token_id_value(
                token_id.spec_bytes(),
            ).is_some() && valid_price_size(price_micros as nat, size_micros as nat)
                && self.is_order_request(
                token_id.spec_bytes(),
                price_micros as nat,
                size_micros as nat,
                side,
                neg_risk,
                salt,
                timestamp as nat,
                r.unwrap(),
            ),
    {
        if self.session.is_none() {
            return Err(ClobError::NotAuthenticated);
        }
        let order = match build_order(
            self.address.as_slice(),
            token_id,
            price_micros,
            size_micros,
            side,
            salt,
        ) {
            Ok(o) => o,
            Err(e) => {
                return Err(e);
            },
        };
        let digest = order_digest(&order, neg_risk);
        let sig = match sign_digest_bytes(self.secret.as_slice(), digest.as_slice()) {
            Some(s) => s,
            None => {
                proof {
                    assert(order_of(
                        self.account(),
                        token_id_value(token_id.spec_bytes()).unwrap(),
                        amounts_of(price_micros as nat, size_micros as nat, side),
                        side,
                        salt,
                        order,
                    ));
                }
                return Err(ClobError::SigningFailure);
            },
        };
        let body = order_payload(
            &order,
            token_id.as_bytes(),
            sig.as_slice(),
            self.address.as_slice(),
        );
        let headers = match self.l2_headers("POST", ORDER_PATH, body.as_slice(), timestamp) {
            Ok(h) => h,
            Err(e) => {
                return Err(e);
            },
        };
        let req = SignedRequest { body, headers };
        proof {
            assert(order_of(
                self.account(),
                token_id_value(token_id.spec_bytes()).unwrap(),
                amounts_of(price_micros as nat, size_micros as nat, side),
                side,
                salt,
                order,
            ));
        }
        Ok(req)
    }

    /// As `order_request`, with a fresh random salt and the current time.
    pub fn limit_order_request(
        &self,
        token_id: &str,
        price_micros: u64,
        size_micros: u64,
        side: OrderSide,
        neg_risk: bool,
    ) -> (r: Result<SignedRequest, ClobError>)
        requires
            self.wf(),
        ensures
            self.credentials().is_none() ==> r == Err::<SignedRequest, ClobError>(
                ClobError::NotAuthenticated,
            ),
            self.credentials().is_some() && !(token_id_value(token_id.spec_bytes()).is_some()
                && valid_price_size(price_micros as nat, size_micros as nat)) ==> r == Err::<
                SignedRequest,
                ClobError,
            >(ClobError::InputValidation),
            r.is_err() ==> r == Err::<SignedRequest, ClobError>(ClobError::NotAuthenticated) || r
                == Err::<SignedRequest, ClobError>(ClobError::InputValidation) || r == Err::<
                SignedRequest,
                ClobError,
            >(ClobError::SigningFailure),
            r == Err::<SignedRequest, ClobError>(ClobError::SigningFailure) ==> exists|salt: u64|
                #[trigger] self.order_signing_fails(
                    token_id.spec_bytes(),
                    price_micros as nat,
                    size_micros as nat,
                    side,
                    neg_risk,
                    salt,
                ),
            r.is_ok() ==> exists|salt: u64, t: u64|
                #[trigger] self.is_order_request(
                    token_id.spec_bytes(),
                    price_micros as nat,
                    size_micros as nat,
                    side,
                    neg_risk,
                    salt,
                    t as nat,
                    r.unwrap(),
                ),
    {
        let salt = random_salt();
        let t = unix_now();
        self.order_request(token_id, price_micros, size_micros, side, neg_risk, salt, t)
    }

    /// The signed cancellation of order `order_id`, authenticated at
    /// `timestamp`; `NotAuthenticated` before authentication.
    pub fn cancel_request(&self, order_id: &str, timestamp: u64) -> (r: Result<
        SignedRequest,
        ClobError,
    >)
        requires
            self.wf(),
        ensures
            r.is_err() == self.credentials().is_none(),
            r.is_err() ==> r == Err::<SignedRequest, ClobError>(ClobError::NotAuthenticated),
            r.is_ok() ==> r.unwrap().body@ == cancel_json(order_id.spec_bytes()) && headers_view(
                r.unwrap().headers@,
            ) == l2_header_list(
                self.account(),
                l2_signature_of(
                    self.session_key(),
                    timestamp as nat,
                    "DELETE"@,
                    ORDER_PATH.spec_bytes(),
                    cancel_json(order_id.spec_bytes()),
                ),
                timestamp as nat,
                self.credentials().unwrap().0,
                self.credentials().unwrap().2,
            ),
    {
        let body = cancel_payload(order_id);
        let headers = match self.l2_headers("DELETE", ORDER_PATH, body.as_slice(), timestamp) {
            Ok(h) => h,
            Err(e) => {
                return Err(e);
            },
        };
        Ok(SignedRequest { body, headers })
    }

    /// As `cancel_request`, authenticated at the current time.
    pub fn cancel_order_request(&self, order_id: &str) -> (r: Result<SignedRequest, ClobError>)
        requires
            self.wf(),
        ensures
            r.is_err() == self.credentials().is_none(),
            r.is_err() ==> r == Err::<SignedRequest, ClobError>(ClobError::NotAuthenticated),
            r.is_ok() ==> r.unwrap().body@ == cancel_json(order_id.spec_bytes()),
            r.is_ok() ==> exists|t: u64|
                headers_view(r.unwrap().headers@) == #[trigger] l2_header_list(
                    self.account(),
                    l2_signature_of(
                        self.session_key(),
                        t as nat,
                        "DELETE"@,
                        ORDER_PATH.spec_bytes(),
                        cancel_json(order_id.spec_bytes()),
                    ),
                    t as nat,
                    self.credentials().unwrap().0,
                    self.credentials().unwrap().2,
                ),
    {
        let t = unix_now();
        self.cancel_request(order_id, t)
    }
}

} // verus!
