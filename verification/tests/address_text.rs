use eth_wallet::address::parse_address;
use eth_wallet::address::AccountAddress;
use eth_wallet::errors::WalletError;

#[test]
fn rejects_plain_words() {
    let r = parse_address("not-an-address");
    assert!(matches!(r, Err(WalletError::InvalidAddress { .. })));
}

#[test]
fn rejects_39_hex_chars() {
    let r = parse_address("0x7e5f4552091a69125d5dfcb7b8c2659029395bd");
    assert!(matches!(r, Err(WalletError::InvalidAddress { .. })));
}

#[test]
fn rejects_41_hex_chars() {
    let r = parse_address("0x7e5f4552091a69125d5dfcb7b8c2659029395bdf0");
    assert!(matches!(r, Err(WalletError::InvalidAddress { .. })));
}

#[test]
fn rejects_non_hex_char_of_right_length() {
    let r = parse_address("0x7g5f4552091a69125d5dfcb7b8c2659029395bdf");
    assert!(matches!(r, Err(WalletError::InvalidAddress { .. })));
}

#[test]
fn rejects_empty_text() {
    let r = parse_address("");
    assert!(matches!(r, Err(WalletError::InvalidAddress { .. })));
}

#[test]
fn invalid_address_error_carries_input() {
    match parse_address("not-an-address") {
        Err(WalletError::InvalidAddress { input }) => assert_eq!(input, "not-an-address"),
        other => panic!("expected InvalidAddress, got {:?}", other),
    }
}

#[test]
fn accepts_with_and_without_prefix() {
    let with = parse_address("0x7e5f4552091a69125d5dfcb7b8c2659029395bdf").unwrap();
    let without = parse_address("7e5f4552091a69125d5dfcb7b8c2659029395bdf").unwrap();
    assert_eq!(with.bytes, without.bytes);
    assert_eq!(with.bytes.len(), 20);
}

#[test]
fn accepts_uppercase_prefix() {
    let lower = parse_address("0x7e5f4552091a69125d5dfcb7b8c2659029395bdf").unwrap();
    let upper = parse_address("0X7e5f4552091a69125d5dfcb7b8c2659029395bdf").unwrap();
    assert_eq!(lower.bytes, upper.bytes);
}

#[test]
fn accepts_any_letter_case() {
    let lower = parse_address("0x7e5f4552091a69125d5dfcb7b8c2659029395bdf").unwrap();
    let upper = parse_address("0x7E5F4552091A69125D5DFCB7B8C2659029395BDF").unwrap();
    let checksummed = parse_address("0x7E5F4552091A69125d5DfCb7b8C2659029395Bdf").unwrap();
    assert_eq!(lower.bytes, upper.bytes);
    assert_eq!(lower.bytes, checksummed.bytes);
}

#[test]
fn parses_to_expected_bytes() {
    let a = parse_address("0x0102030405060708090a0b0c0d0e0f1011121314").unwrap();
    let expected: Vec<u8> = (1..=20).collect();
    assert_eq!(a.bytes, expected);
}

#[test]
fn hex_text_round_trip() {
    let bytes: Vec<u8> = (100..120).collect();
    let address = AccountAddress { bytes: bytes.clone() };
    let text = address.to_hex_string();
    assert_eq!(text.len(), 42);
    let parsed = parse_address(&text).unwrap();
    assert_eq!(parsed.bytes, bytes);
}
