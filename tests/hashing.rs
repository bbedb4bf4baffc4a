use clob_signer::abi::{addr_to_bytes32, decimal_bytes, parse_decimal_u256, u256_bytes, u64_to_bytes32};
use clob_signer::eip712::{clob_auth_hash, domain_separator, eip712_digest, order_struct_hash};

const ADDR1: &str = "7e5f4552091a69125d5dfcb7b8c2659029395bdf";
const CTF: &str = "C5d563A36AE78145C45a50134d48A1215220f80a";
const MESSAGE: &str = "This message attests that I control the given wallet";

fn bytes(h: &str) -> Vec<u8> {
    hex::decode(h).unwrap()
}

#[test]
fn u256_word_is_big_endian_and_left_padded() {
    let w = u256_bytes(0x0102);
    assert_eq!(w.len(), 32);
    assert!(w[..30].iter().all(|b| *b == 0));
    assert_eq!(&w[30..], &[1u8, 2u8]);
    assert_eq!(u64_to_bytes32(u64::MAX)[24..], [0xffu8; 8]);
}

#[test]
fn address_word_is_left_padded() {
    let a = bytes(ADDR1);
    let w = addr_to_bytes32(&a);
    assert_eq!(&w[..12], &[0u8; 12]);
    assert_eq!(&w[12..], &a[..]);
    let short = addr_to_bytes32(&[7u8, 8u8]);
    assert_eq!(short[30..], [7u8, 8u8]);
    let long = addr_to_bytes32(&[9u8; 25]);
    assert_eq!(long[12..], [9u8; 20]);
}

#[test]
fn decimal_parse_and_format() {
    let w = |v: u64| u64_to_bytes32(v);
    assert_eq!(parse_decimal_u256(b"123"), Some(w(123)));
    assert_eq!(parse_decimal_u256(b"007"), Some(w(7)));
    assert_eq!(parse_decimal_u256(b"0"), Some(w(0)));
    assert_eq!(parse_decimal_u256(b""), None);
    assert_eq!(parse_decimal_u256(b"12a"), None);
    assert_eq!(parse_decimal_u256(b"-1"), None);
    assert_eq!(parse_decimal_u256(b"+1"), None);
    assert_eq!(
        parse_decimal_u256(b"71321045679252212594626385532706912750332728571942532289631379312455583992563").map(hex::encode),
        Some("9dae480511c4c0cb5d6c7937924c1db5be221e758b7135fec2a1977a1c130af3".to_string())
    );
    assert_eq!(parse_decimal_u256(b"115792089237316195423570985008687907853269984665640564039457584007913129639935"), Some(vec![0xffu8; 32]));
    assert_eq!(parse_decimal_u256(b"115792089237316195423570985008687907853269984665640564039457584007913129639936"), None);
    assert_eq!(parse_decimal_u256(b"1157920892373161954235709850086879078532699846656405640394575840079131296399360"), None);
    assert_eq!(decimal_bytes(0), b"0".to_vec());
    assert_eq!(decimal_bytes(5000000), b"5000000".to_vec());
    assert_eq!(decimal_bytes(u128::MAX), b"340282366920938463463374607431768211455".to_vec());
}

#[test]
fn auth_domain_separator_vector() {
    let d = domain_separator("ClobAuthDomain", "1", 137, None);
    assert_eq!(hex::encode(&d), "cfc66be2a3b30464cb3b588324101f660c9a205fa76e8e5f83ee16a528e1c4cb");
}

#[test]
fn order_domain_separator_vector() {
    let c = bytes(CTF);
    let d = domain_separator("CTF Exchange", "1", 137, Some(&c));
    assert_eq!(hex::encode(&d), "988d9bc736dfe055ec7230a0e7358ea7922f6b22a108ce4e17d15ecaa6de9272");
}

#[test]
fn domain_separator_is_pure_and_chain_sensitive() {
    let c = bytes(CTF);
    let a = domain_separator("CTF Exchange", "1", 137, Some(&c));
    let b = domain_separator("CTF Exchange", "1", 137, Some(&c));
    assert_eq!(a, b);
    let other_chain = domain_separator("CTF Exchange", "1", 80002, Some(&c));
    assert_ne!(a, other_chain);
    let no_contract = domain_separator("CTF Exchange", "1", 137, None);
    assert_ne!(a, no_contract);
}

#[test]
fn clob_auth_hash_vector() {
    let h = clob_auth_hash(&bytes(ADDR1), "1700000000", &[0u8; 32], MESSAGE);
    assert_eq!(hex::encode(&h), "24e7648658c0da5f718ceb894dbce7621de43daa3bba853edb96edcc4c7fdb1b");
    let d = domain_separator("ClobAuthDomain", "1", 137, None);
    let digest = eip712_digest(&d, &h);
    assert_eq!(hex::encode(&digest), "29cc0fe956d73b8f2962f2e3939a1248a4b094e07b914f8ef1ece85c7ee7e59a");
}

#[test]
fn clob_auth_hash_sensitive_to_each_field() {
    let a = bytes(ADDR1);
    let base = clob_auth_hash(&a, "1700000000", &[0u8; 32], MESSAGE);
    assert_eq!(base, clob_auth_hash(&a, "1700000000", &[0u8; 32], MESSAGE));
    let mut a2 = a.clone();
    a2[19] ^= 1;
    assert_ne!(base, clob_auth_hash(&a2, "1700000000", &[0u8; 32], MESSAGE));
    assert_ne!(base, clob_auth_hash(&a, "1700000001", &[0u8; 32], MESSAGE));
    let mut n = [0u8; 32];
    n[31] = 1;
    assert_ne!(base, clob_auth_hash(&a, "1700000000", &n, MESSAGE));
    assert_ne!(base, clob_auth_hash(&a, "1700000000", &[0u8; 32], "another message"));
}

fn order_hash_with(change: usize) -> Vec<u8> {
    let a = bytes(ADDR1);
    let mut salt = u64_to_bytes32(42);
    let mut maker = a.clone();
    let mut signer = a.clone();
    let mut taker = vec![0u8; 20];
    let mut token = "123";
    let mut amounts = [5000000u64, 100000000, 0, 0, 100];
    let mut side = 0u8;
    let mut sig_type = 2u8;
    match change {
        1 => salt[31] ^= 1,
        2 => maker[0] ^= 1,
        3 => signer[0] ^= 1,
        4 => taker[0] = 1,
        5 => token = "124",
        6..=10 => amounts[change - 6] += 1,
        11 => side = 1,
        12 => sig_type = 1,
        _ => {}
    }
    order_struct_hash(
        &salt, &maker, &signer, &taker, token, amounts[0], amounts[1], amounts[2], amounts[3],
        amounts[4], side, sig_type,
    )
    .unwrap()
}

#[test]
fn order_struct_hash_vector() {
    assert_eq!(
        hex::encode(order_hash_with(0)),
        "695f9330187d63945a6aeea8ba4182bf3eaf271fe1e05eaf3ea163789a64bffc"
    );
}

#[test]
fn order_struct_hash_sensitive_to_every_field() {
    let base = order_hash_with(0);
    assert_eq!(base, order_hash_with(0));
    for change in 1..=12 {
        assert_ne!(base, order_hash_with(change), "field {} did not change the hash", change);
    }
}

#[test]
fn order_struct_hash_rejects_bad_token_id() {
    let a = bytes(ADDR1);
    let salt = u64_to_bytes32(1);
    let z = vec![0u8; 20];
    assert!(order_struct_hash(&salt, &a, &a, &z, "12x", 1, 1, 0, 0, 100, 0, 2).is_none());
    assert!(order_struct_hash(&salt, &a, &a, &z, "", 1, 1, 0, 0, 100, 0, 2).is_none());
}
