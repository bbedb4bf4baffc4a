use clob_signer::client::{cancel_succeeded, order_outcome, timestamp_text, ClobClient, Credentials, OrderResponse};
use clob_signer::error::ClobError;
use clob_signer::l2auth::{l2_message_bytes, l2_signature};

const KEY1: &str = "0x0000000000000000000000000000000000000000000000000000000000000001";
const ZERO_SECRET: &str = "AAAAAAAAAAAAAAAAAAAAAAAAAAAAAAAAAAAAAAAAAAA=";

fn creds(secret: &str) -> Credentials {
    Credentials {
        api_key: "k".to_string(),
        api_secret: secret.to_string(),
        api_passphrase: "p".to_string(),
    }
}

fn authenticated() -> ClobClient {
    let mut c = ClobClient::new(KEY1).unwrap();
    c.finish_authentication(200, String::new(), Some(creds(ZERO_SECRET))).unwrap();
    c
}

#[test]
fn authenticate_against_stub_credentials() {
    let mut c = ClobClient::new(KEY1).unwrap();
    assert!(!c.is_authenticated());
    let body = c.auth_request(1700000000).unwrap();
    let text = String::from_utf8(body).unwrap();
    assert!(text.starts_with(
        "{\"address\":\"0x7e5f4552091a69125d5dfcb7b8c2659029395bdf\",\"timestamp\":\"1700000000\",\"nonce\":\"0\",\"message\":\"This message attests that I control the given wallet\",\"signature\":\"0x"
    ));
    assert!(text.ends_with("\"}"));
    let r = c.finish_authentication(
        200,
        "{\"apiKey\":\"k\",\"secret\":\"AAAAAAAAAAAAAAAAAAAAAAAAAAAAAAAAAAAAAAAAAAA=\",\"passphrase\":\"p\"}".to_string(),
        Some(creds(ZERO_SECRET)),
    );
    assert_eq!(r, Ok(()));
    assert!(c.is_authenticated());
    assert_eq!(c.address(), "0x7e5f4552091a69125d5dfcb7b8c2659029395bdf");
}

#[test]
fn authentication_failure_keeps_client_unauthenticated() {
    let mut c = ClobClient::new(KEY1).unwrap();
    let r = c.finish_authentication(401, "denied".to_string(), Some(creds(ZERO_SECRET)));
    assert_eq!(r, Err(ClobError::AuthenticationFailed("denied".to_string())));
    assert!(!c.is_authenticated());
    let r = c.finish_authentication(200, "garbage".to_string(), None);
    assert_eq!(r, Err(ClobError::AuthenticationFailed("garbage".to_string())));
    let r = c.finish_authentication(200, "x".to_string(), Some(creds("not base64 !")));
    assert_eq!(r, Err(ClobError::AuthenticationFailed("x".to_string())));
    assert!(!c.is_authenticated());
    assert!(c.finish_authentication(200, String::new(), Some(creds(ZERO_SECRET))).is_ok());
    assert!(c.is_authenticated());
}

#[test]
fn l2_signature_vectors() {
    let key = [0u8; 32];
    assert_eq!(l2_signature(&key, 1700000000, "POST", "/order", b"{}"), "zFoeuWyoGqgV06QCFRRrLyrDJbmMJzqq5J5S0uffJFk=");
    assert_eq!(l2_signature(&key, 1700000000, "post", "/order", b"{}"), "zFoeuWyoGqgV06QCFRRrLyrDJbmMJzqq5J5S0uffJFk=");
    assert_eq!(l2_signature(&key, 1700000001, "POST", "/order", b"{}"), "_bDwlZzvRfZZM-ysjaNiDw0edX2Ksc5yNG04fgfAsPU=");
    assert_eq!(l2_signature(&key, 1700000000, "DELETE", "/order", b"{}"), "ABuJQvzuNErtY-fuGh4AqfdksDVxq25eBXGRfCanxwA=");
    assert_eq!(l2_signature(&key, 1700000000, "POST", "/orders", b"{}"), "oKcDNwgJt9FiBnggi8-yj02S7EASGbYXq-fuW0mg6KA=");
    assert_eq!(l2_signature(&key, 1700000000, "POST", "/order", b"{\"a\":1}"), "cLK0Q2Ed2O7DADp_5dDi2ytUgLoAal-l_plGYO-Tnzs=");
}

#[test]
fn l2_message_layout() {
    assert_eq!(l2_message_bytes(1700000000, "delete", "/order", b"{}"), b"1700000000DELETE/order{}".to_vec());
    assert_eq!(l2_message_bytes(0, "get", "/x", b""), b"0GET/x".to_vec());
}

#[test]
fn l2_headers_change_with_each_input() {
    let c = authenticated();
    let sig = |m: &str, p: &str, b: &[u8], t: u64| c.l2_headers(m, p, b, t).unwrap()[1].1.clone();
    let base = sig("POST", "/order", b"{}", 1700000000);
    assert_eq!(base, sig("POST", "/order", b"{}", 1700000000));
    assert_eq!(base, "zFoeuWyoGqgV06QCFRRrLyrDJbmMJzqq5J5S0uffJFk=");
    assert_ne!(base, sig("POST", "/order", b"{}", 1700000001));
    assert_ne!(base, sig("DELETE", "/order", b"{}", 1700000000));
    assert_ne!(base, sig("POST", "/orders", b"{}", 1700000000));
    assert_ne!(base, sig("POST", "/order", b"{ }", 1700000000));
}

#[test]
fn l2_headers_carry_session_values() {
    let c = authenticated();
    let h = c.l2_headers("POST", "/order", b"{}", 1700000000).unwrap();
    let names: Vec<&str> = h.iter().map(|p| p.0.as_str()).collect();
    assert_eq!(names, vec!["POLY-ADDRESS", "POLY-SIGNATURE", "POLY-TIMESTAMP", "POLY-API-KEY", "POLY-PASSPHRASE"]);
    assert_eq!(h[0].1, "0x7e5f4552091a69125d5dfcb7b8c2659029395bdf");
    assert_eq!(h[2].1, "1700000000");
    assert_eq!(h[3].1, "k");
    assert_eq!(h[4].1, "p");
}

#[test]
fn l2_headers_need_authentication() {
    let c = ClobClient::new(KEY1).unwrap();
    assert_eq!(c.l2_headers("POST", "/order", b"{}", 1).err(), Some(ClobError::NotAuthenticated));
}

#[test]
fn timestamp_is_decimal_text() {
    assert_eq!(timestamp_text(1700000000), "1700000000");
    assert_eq!(timestamp_text(0), "0");
}

#[test]
fn cancel_against_not_found_is_false() {
    assert!(!cancel_succeeded(404));
    assert!(cancel_succeeded(200));
    assert!(cancel_succeeded(204));
    assert!(!cancel_succeeded(500));
    assert!(!cancel_succeeded(302));
}

#[test]
fn cancel_request_body_and_headers() {
    let c = authenticated();
    let r = c.cancel_request("0xabc", 1700000000).unwrap();
    assert_eq!(r.body, b"{\"orderID\":\"0xabc\"}".to_vec());
    assert_eq!(r.headers[1].1, l2_signature(&[0u8; 32], 1700000000, "DELETE", "/order", &r.body));
    let plain = ClobClient::new(KEY1).unwrap();
    assert_eq!(plain.cancel_request("0xabc", 1).err(), Some(ClobError::NotAuthenticated));
    assert_eq!(plain.cancel_order_request("0xabc").err(), Some(ClobError::NotAuthenticated));
    assert_eq!(c.cancel_order_request("0xabc").unwrap().body, r.body);
}

#[test]
fn order_outcome_keeps_rejections() {
    let rejected = OrderResponse { success: false, order_id: String::new(), error_msg: Some("no".to_string()) };
    let r = order_outcome(Some(rejected), "{}".to_string()).unwrap();
    assert!(!r.success);
    assert_eq!(r.error_msg, Some("no".to_string()));
    let r = order_outcome(None, "<html>".to_string());
    assert!(matches!(r, Err(ClobError::TransportError(ref b)) if b == "<html>"));
}
