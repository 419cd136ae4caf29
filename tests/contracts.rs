use blockkey::contracts::{PrivateKey, Signature};
use blockkey::hash::Hashable;

#[test]
fn test_correct_contract() {
    let private = PrivateKey::generate();
    let message = 123;

    let contract = private.sign(message);

    assert!(contract.verify());
}

#[test]
fn test_tampered_content() {
    let private = PrivateKey::generate();
    let message = 123;
    let mut contract = private.sign(message);

    contract.content = 321;

    assert!(!contract.verify());
}

#[test]
fn test_tampered_signee() {
    let private = PrivateKey::generate();
    let message = 123;
    let mut contract = private.sign(message);

    contract.signee = PrivateKey::generate().get_public();

    assert!(!contract.verify());
}

#[test]
fn tampered_timestamp_fails() {
    let private = PrivateKey::generate();
    let mut contract = private.sign(123);
    contract.timestamp += 1;
    assert!(!contract.verify());
}

#[test]
fn tampered_signature_fails() {
    let private = PrivateKey::generate();
    let mut contract = private.sign(123);
    let mut bytes = contract.signature.to_bytes();
    bytes[0] ^= 1;
    contract.signature = Signature::from_bytes(bytes);
    assert!(!contract.verify());
}

#[test]
fn signing_is_deterministic_for_a_timestamp() {
    let private = PrivateKey::from_bytes([7u8; 32]);
    let a = private.sign_at(5u64, 1000);
    let b = private.sign_at(5u64, 1000);
    assert_eq!(a.signature.to_bytes().to_vec(), b.signature.to_bytes().to_vec());
    assert_eq!(a.hash().cast::<()>(), b.hash().cast());
    let c = private.sign_at(5u64, 1001);
    assert_ne!(a.hash().cast::<()>(), c.hash().cast());
    assert!(a.verify() && c.verify());
}

#[test]
fn public_key_is_derived_from_the_secret() {
    // RFC 8032, test 1.
    let secret: [u8; 32] = [
        0x9d, 0x61, 0xb1, 0x9d, 0xef, 0xfd, 0x5a, 0x60, 0xba, 0x84, 0x4a, 0xf4, 0x92, 0xec, 0x2c, 0xc4,
        0x44, 0x49, 0xc5, 0x69, 0x7b, 0x32, 0x69, 0x19, 0x70, 0x3b, 0xac, 0x03, 0x1c, 0xae, 0x7f, 0x60,
    ];
    let public = PrivateKey::from_bytes(secret).get_public().to_bytes();
    assert_eq!(public[0], 0xd7);
    assert_eq!(public[31], 0x1a);
}
