use eth_wallet::units::format_ether;

#[test]
fn one_ether_exactly() {
    assert_eq!(format_ether(1_000_000_000_000_000_000), "1");
}

#[test]
fn zero_wei() {
    assert_eq!(format_ether(0), "0");
}

#[test]
fn one_and_a_half_ether() {
    assert_eq!(format_ether(1_500_000_000_000_000_000), "1.5");
}

#[test]
fn one_wei() {
    assert_eq!(format_ether(1), "0.000000000000000001");
}

#[test]
fn just_below_one_ether() {
    assert_eq!(format_ether(999_999_999_999_999_999), "0.999999999999999999");
}

#[test]
fn trailing_zeros_are_trimmed() {
    assert_eq!(format_ether(1_000_000_000_000_000_100), "1.0000000000000001");
}

#[test]
fn large_whole_amount() {
    assert_eq!(format_ether(42_000_000_000_000_000_000), "42");
}

#[test]
fn largest_amount() {
    assert_eq!(
        format_ether(u128::MAX),
        "340282366920938463463.374607431768211455"
    );
}
