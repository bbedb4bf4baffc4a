use clob_signer::client::ClobClient;
use clob_signer::error::ClobError;
use clob_signer::identity::{is_valid_secret_key, pubkey_to_address, recover_address};

const KEY1: &str = "0x0000000000000000000000000000000000000000000000000000000000000001";
const HARDHAT0: &str = "ac0974bec39a17e36ba4a6b4d238ff944bacb478cbed5efcae784d7bf4f2ff80";

#[test]
fn address_of_known_keys() {
    let c = ClobClient::new(KEY1).unwrap();
    assert_eq!(c.address(), "0x7e5f4552091a69125d5dfcb7b8c2659029395bdf");
    let h = ClobClient::new(HARDHAT0).unwrap();
    assert_eq!(h.address(), "0xf39fd6e51aad88f6f4ce6ab8827279cfffb92266");
}

#[test]
fn address_derivation_is_deterministic() {
    let a = ClobClient::new(HARDHAT0).unwrap();
    let b = ClobClient::new(&format!("0x{}", HARDHAT0)).unwrap();
    assert_eq!(a.address(), b.address());
    assert_eq!(a.address().len(), 42);
    let secret = hex::decode(HARDHAT0).unwrap();
    assert_eq!(hex::encode(pubkey_to_address(&secret)), "f39fd6e51aad88f6f4ce6ab8827279cfffb92266");
}

#[test]
fn malformed_keys_are_rejected() {
    assert_eq!(ClobClient::new("0xzz").err(), Some(ClobError::InputValidation));
    assert_eq!(ClobClient::new("123").err(), Some(ClobError::InputValidation));
    assert_eq!(ClobClient::new("00ff").err(), Some(ClobError::InputValidation));
    let zero = "0".repeat(64);
    assert_eq!(ClobClient::new(&zero).err(), Some(ClobError::InputValidation));
    let order = "FFFFFFFFFFFFFFFFFFFFFFFFFFFFFFFEBAAEDCE6AF48A03BBFD25E8CD0364141";
    assert_eq!(ClobClient::new(order).err(), Some(ClobError::InputValidation));
    let below = "FFFFFFFFFFFFFFFFFFFFFFFFFFFFFFFEBAAEDCE6AF48A03BBFD25E8CD0364140";
    assert!(ClobClient::new(below).is_ok());
}

#[test]
fn secret_key_validity() {
    assert!(is_valid_secret_key(&hex::decode(HARDHAT0).unwrap()));
    assert!(!is_valid_secret_key(&[0u8; 32]));
    assert!(!is_valid_secret_key(&[1u8; 31]));
}

#[test]
fn signature_recovers_signer_address() {
    let c = ClobClient::new(HARDHAT0).unwrap();
    let digest = c.auth_digest(1700000000);
    let sig_text = c.sign_digest(&digest).unwrap();
    assert!(sig_text.starts_with("0x"));
    assert_eq!(sig_text.len(), 132);
    let sig = hex::decode(&sig_text[2..]).unwrap();
    assert!(sig[64] == 27 || sig[64] == 28);
    let recovered = recover_address(&digest, &sig).unwrap();
    assert_eq!(format!("0x{}", hex::encode(recovered)), c.address());
}

#[test]
fn signing_is_deterministic() {
    let c = ClobClient::new(HARDHAT0).unwrap();
    let digest = c.auth_digest(1700000000);
    assert_eq!(c.sign_digest(&digest).unwrap(), c.sign_digest(&digest).unwrap());
    let other = c.auth_digest(1700000001);
    assert_ne!(c.sign_digest(&digest).unwrap(), c.sign_digest(&other).unwrap());
}

#[test]
fn recovery_rejects_malformed_signatures() {
    let c = ClobClient::new(HARDHAT0).unwrap();
    let digest = c.auth_digest(1);
    let sig = hex::decode(&c.sign_digest(&digest).unwrap()[2..]).unwrap();
    assert!(recover_address(&digest, &sig[..64]).is_none());
    let mut bad_v = sig.clone();
    bad_v[64] = 35;
    assert!(recover_address(&digest, &bad_v).is_none());
    assert!(recover_address(&digest[..31], &sig).is_none());
    let mut flipped = sig.clone();
    flipped[64] = if sig[64] == 27 { 28 } else { 27 };
    if let Some(a) = recover_address(&digest, &flipped) {
        assert_ne!(format!("0x{}", hex::encode(a)), c.address());
    }
}
