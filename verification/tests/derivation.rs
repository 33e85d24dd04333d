use eth_wallet::keys::address_from_private_key;
use eth_wallet::keys::address_from_public_key;
use eth_wallet::keys::generate_wallet;
use eth_wallet::keys::PrivateKey;

use k256::ecdsa::SigningKey;
use k256::elliptic_curve::sec1::ToEncodedPoint;
use sha3::Digest;
use sha3::Keccak256;

fn fixed_key(last: u8) -> PrivateKey {
    let mut bytes = vec![0u8; 32];
    bytes[31] = last;
    PrivateKey { bytes }
}

#[test]
fn address_is_20_bytes_and_deterministic() {
    let key = fixed_key(7);
    let first = address_from_private_key(&key).expect("valid scalar");
    let second = address_from_private_key(&key).expect("valid scalar");
    assert_eq!(first.bytes.len(), 20);
    assert_eq!(first.bytes, second.bytes);
}

#[test]
fn generated_wallet_address_is_20_bytes() {
    let wallet = generate_wallet().expect("entropy source");
    assert_eq!(wallet.address.bytes.len(), 20);
    assert_eq!(wallet.private_key.bytes.len(), 32);
}

#[test]
fn known_vector_private_key_one() {
    // The address of the secret scalar 1 is pinned by the curve's base
    // point: keccak256(G_x || G_y)[12..] for the generator G.
    let key = fixed_key(1);
    let address = address_from_private_key(&key).expect("1 is a valid scalar");
    assert_eq!(
        address.to_hex_string(),
        "0x7e5f4552091a69125d5dfcb7b8c2659029395bdf"
    );
}

#[test]
fn known_vector_private_key_two() {
    let key = fixed_key(2);
    let address = address_from_private_key(&key).expect("2 is a valid scalar");
    assert_eq!(
        address.to_hex_string(),
        "0x2b5ad5c4795c026514f8317c7a215e218dccd6cf"
    );
}

#[test]
fn full_key_hash_differs_from_stripped() {
    // Hashing all 65 bytes of the uncompressed key, tag byte included,
    // must give a different address than hashing the 64 coordinate
    // bytes: stripping the tag is mandatory.
    let key = fixed_key(7);
    let signing = SigningKey::from_slice(&key.bytes).expect("valid scalar");
    let point = signing.verifying_key().to_encoded_point(false);
    let full = point.as_bytes();
    assert_eq!(full.len(), 65);

    let full_digest = Keccak256::digest(full);
    let wrong_address = &full_digest[12..];

    let address = address_from_public_key(&full.to_vec());
    assert_ne!(address.bytes.as_slice(), wrong_address);
}

// The order of the secp256k1 group, big-endian.
fn group_order_bytes() -> Vec<u8> {
    let mut bytes = vec![0xFFu8; 32];
    let tail = [
        0xFEu8, 0xBA, 0xAE, 0xDC, 0xE6, 0xAF, 0x48, 0xA0, 0x3B, 0xBF, 0xD2, 0x5E, 0x8C, 0xD0,
        0x36, 0x41, 0x41,
    ];
    bytes[15..32].copy_from_slice(&tail);
    bytes
}

#[test]
fn rejects_zero_scalar() {
    let key = PrivateKey { bytes: vec![0u8; 32] };
    assert!(address_from_private_key(&key).is_none());
}

#[test]
fn rejects_group_order_scalar() {
    let key = PrivateKey { bytes: group_order_bytes() };
    assert!(address_from_private_key(&key).is_none());
}

#[test]
fn rejects_scalar_above_order() {
    let key = PrivateKey { bytes: vec![0xFFu8; 32] };
    assert!(address_from_private_key(&key).is_none());
}

#[test]
fn accepts_order_minus_one() {
    let mut bytes = group_order_bytes();
    bytes[31] -= 1;
    let key = PrivateKey { bytes };
    let address = address_from_private_key(&key).expect("largest valid scalar");
    assert_eq!(address.bytes.len(), 20);
}

#[test]
fn two_wallets_differ() {
    let first = generate_wallet().expect("entropy source");
    let second = generate_wallet().expect("entropy source");
    assert_ne!(first.address.bytes, second.address.bytes);
    assert_ne!(first.private_key.bytes, second.private_key.bytes);
}

#[test]
fn private_key_hex_is_64_chars() {
    let key = fixed_key(1);
    let hex = key.to_hex_string();
    assert_eq!(
        hex,
        "0000000000000000000000000000000000000000000000000000000000000001"
    );
    assert_eq!(hex.len(), 64);
}
