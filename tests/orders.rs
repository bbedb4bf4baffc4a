use clob_signer::client::{ClobClient, Credentials};
use clob_signer::error::ClobError;
use clob_signer::l2auth::l2_signature;
use clob_signer::order::{build_order, exchange_address, order_amounts, order_digest, order_hash, OrderSide};
use clob_signer::payload::{cancel_payload, json_escape};

const KEY1: &str = "0x0000000000000000000000000000000000000000000000000000000000000001";
const ADDR1: &str = "7e5f4552091a69125d5dfcb7b8c2659029395bdf";

fn authenticated() -> ClobClient {
    let mut c = ClobClient::new(KEY1).unwrap();
    let creds = Credentials {
        api_key: "k".to_string(),
        api_secret: "AAAAAAAAAAAAAAAAAAAAAAAAAAAAAAAAAAAAAAAAAAA=".to_string(),
        api_passphrase: "p".to_string(),
    };
    c.finish_authentication(200, String::new(), Some(creds)).unwrap();
    c
}

#[test]
fn buy_order_amounts() {
    assert_eq!(order_amounts(50_000, 100_000_000, OrderSide::Buy), Some((5_000_000, 100_000_000)));
}

#[test]
fn sell_order_amounts_swap() {
    assert_eq!(order_amounts(50_000, 100_000_000, OrderSide::Sell), Some((100_000_000, 5_000_000)));
}

#[test]
fn amounts_round_half_up() {
    assert_eq!(order_amounts(333_333, 1_500_000, OrderSide::Buy), Some((500_000, 1_500_000)));
    assert_eq!(order_amounts(500_000, 1, OrderSide::Buy), Some((1, 1)));
    assert_eq!(order_amounts(499_999, 1, OrderSide::Buy), Some((0, 1)));
    assert_eq!(order_amounts(999_999, u64::MAX, OrderSide::Sell), Some((u64::MAX, 18446725626965477905)));
}

#[test]
fn amounts_reject_out_of_range() {
    assert_eq!(order_amounts(0, 100, OrderSide::Buy), None);
    assert_eq!(order_amounts(1_000_000, 100, OrderSide::Buy), None);
    assert_eq!(order_amounts(50_000, 0, OrderSide::Sell), None);
}

#[test]
fn buy_order_request_body() {
    let c = authenticated();
    let r = c.order_request("123", 50_000, 100_000_000, OrderSide::Buy, false, 42, 1700000000).unwrap();
    let body = String::from_utf8(r.body.clone()).unwrap();
    let head = format!(
        "{{\"order\":{{\"salt\":\"42\",\"maker\":\"0x{a}\",\"signer\":\"0x{a}\",\"taker\":\"0x0000000000000000000000000000000000000000\",\"tokenId\":\"123\",\"makerAmount\":\"5000000\",\"takerAmount\":\"100000000\",\"expiration\":\"0\",\"nonce\":\"0\",\"feeRateBps\":\"100\",\"side\":\"BUY\",\"signatureType\":\"2\",\"signature\":\"0x",
        a = ADDR1
    );
    assert!(body.starts_with(&head), "{}", body);
    let tail = format!("\"}},\"owner\":\"0x{}\",\"orderType\":\"GTC\"}}", ADDR1);
    assert!(body.ends_with(&tail), "{}", body);
    assert_eq!(body.len(), head.len() + 130 + tail.len());
    assert_eq!(r.headers[1].1, l2_signature(&[0u8; 32], 1700000000, "POST", "/order", &r.body));
    assert_eq!(r.headers[2].1, "1700000000");
}

#[test]
fn sell_order_request_swaps_amounts() {
    let c = authenticated();
    let r = c.order_request("123", 50_000, 100_000_000, OrderSide::Sell, false, 42, 1700000000).unwrap();
    let body = String::from_utf8(r.body).unwrap();
    assert!(body.contains("\"makerAmount\":\"100000000\",\"takerAmount\":\"5000000\""));
    assert!(body.contains("\"side\":\"SELL\""));
}

#[test]
fn order_request_errors() {
    let plain = ClobClient::new(KEY1).unwrap();
    assert_eq!(plain.order_request("123", 50_000, 1, OrderSide::Buy, false, 1, 1).err(), Some(ClobError::NotAuthenticated));
    assert_eq!(plain.limit_order_request("123", 50_000, 1, OrderSide::Buy, false).err(), Some(ClobError::NotAuthenticated));
    let c = authenticated();
    assert_eq!(c.order_request("12x", 50_000, 1, OrderSide::Buy, false, 1, 1).err(), Some(ClobError::InputValidation));
    assert_eq!(c.order_request("123", 0, 1, OrderSide::Buy, false, 1, 1).err(), Some(ClobError::InputValidation));
    assert_eq!(c.order_request("123", 50_000, 0, OrderSide::Buy, false, 1, 1).err(), Some(ClobError::InputValidation));
    assert!(c.limit_order_request("123", 50_000, 100_000_000, OrderSide::Buy, true).is_ok());
}

#[test]
fn order_digest_vectors() {
    let maker = hex::decode(ADDR1).unwrap();
    let o = build_order(&maker, "123", 50_000, 100_000_000, OrderSide::Buy, 42).unwrap();
    assert_eq!(o.maker_amount, 5_000_000);
    assert_eq!(o.taker_amount, 100_000_000);
    assert_eq!(o.fee_rate_bps, 100);
    assert_eq!(o.signature_type, 2);
    assert_eq!(o.taker, vec![0u8; 20]);
    assert_eq!(o.token_id[31], 123);
    assert_eq!(hex::encode(order_hash(&o)), "695f9330187d63945a6aeea8ba4182bf3eaf271fe1e05eaf3ea163789a64bffc");
    assert_eq!(hex::encode(order_digest(&o, false)), "0217fc201a490dbcabe147bd4dfc290562c2ff9396f00dcdece21f5dc701da4f");
    assert_eq!(hex::encode(order_digest(&o, true)), "39091ca008677de39fb8d3b5b5f3a0bff3b018c66df696314974f98a0000ca85");
}

#[test]
fn negative_risk_flag_changes_digest() {
    let maker = hex::decode(ADDR1).unwrap();
    let o = build_order(&maker, "123", 50_000, 100_000_000, OrderSide::Buy, 7).unwrap();
    assert_ne!(order_digest(&o, false), order_digest(&o, true));
    assert_eq!(hex::encode(exchange_address(false)), "c5d563a36ae78145c45a50134d48a1215220f80a");
    assert_eq!(hex::encode(exchange_address(true)), "4bfb41d5b3570defd03c39a9a4d8de6bd8b8982e");
}

#[test]
fn build_order_rejects_bad_input() {
    let maker = hex::decode(ADDR1).unwrap();
    assert!(matches!(build_order(&maker, "abc", 50_000, 1, OrderSide::Buy, 1), Err(ClobError::InputValidation)));
    assert!(matches!(build_order(&maker, "1", 1_000_000, 1, OrderSide::Buy, 1), Err(ClobError::InputValidation)));
}

#[test]
fn json_escaping() {
    assert_eq!(json_escape(b"a\"b\\c\n"), b"a\\\"b\\\\c\\u000a".to_vec());
    assert_eq!(json_escape(b"\x1f"), b"\\u001f".to_vec());
    assert_eq!(cancel_payload("x\"y"), b"{\"orderID\":\"x\\\"y\"}".to_vec());
}

#[test]
fn full_width_token_id_is_signed() {
    let c = authenticated();
    let token = "71321045679252212594626385532706912750332728571942532289631379312455583992563";
    let r = c.order_request(token, 50_000, 100_000_000, OrderSide::Buy, true, 1, 1).unwrap();
    let body = String::from_utf8(r.body).unwrap();
    assert!(body.contains(&format!("\"tokenId\":\"{}\"", token)));
    let maker = hex::decode(ADDR1).unwrap();
    let o = build_order(&maker, token, 50_000, 100_000_000, OrderSide::Buy, 1).unwrap();
    assert_eq!(hex::encode(&o.token_id), "9dae480511c4c0cb5d6c7937924c1db5be221e758b7135fec2a1977a1c130af3");
}
