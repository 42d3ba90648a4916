use ethers::types::U256;
use ethers::utils::parse_units;
use luckysix::denomination::{format_amount, parse_to_denomination, trim_decimal, DenominationUnit};
use luckysix::error::LotteryError;
use luckysix::uint256::Uint256;

fn wei(value: u128) -> Uint256 {
    Uint256::from_u128(value)
}

fn reparsed(text: &str, label: &str, decimals: u32) -> U256 {
    let number = text.strip_suffix(label).unwrap().trim_end();
    parse_units(number, decimals).unwrap().into()
}

#[test]
fn formats_eth_without_trailing_zeros() {
    assert_eq!(parse_to_denomination(wei(1_500_000_000_000_000_000), "eth"), Ok("1.5 eth".to_string()));
    assert_eq!(parse_to_denomination(wei(10_000_000_000_000_000), "eth"), Ok("0.01 eth".to_string()));
    assert_eq!(parse_to_denomination(wei(100_000_000_000_000_000), "eth"), Ok("0.1 eth".to_string()));
    assert_eq!(parse_to_denomination(wei(15_000_000_000_000_000), "eth"), Ok("0.015 eth".to_string()));
}

#[test]
fn formats_whole_amounts_without_point() {
    assert_eq!(format_amount(wei(2_000_000_000_000_000_000), DenominationUnit::Eth), "2 eth");
    assert_eq!(format_amount(wei(100_000_000_000_000_000_000), DenominationUnit::Eth), "100 eth");
    assert_eq!(format_amount(wei(10_000_000_000), DenominationUnit::Gwei), "10 gwei");
    assert_eq!(format_amount(wei(1200), DenominationUnit::Wei), "1200 wei");
}

#[test]
fn formats_zero_in_every_unit() {
    assert_eq!(format_amount(wei(0), DenominationUnit::Wei), "0 wei");
    assert_eq!(format_amount(wei(0), DenominationUnit::Gwei), "0 gwei");
    assert_eq!(format_amount(wei(0), DenominationUnit::Eth), "0 eth");
    assert_eq!(parse_to_denomination(wei(0), "wei"), Ok("0 wei".to_string()));
    assert_eq!(parse_to_denomination(wei(0), "gwei"), Ok("0 gwei".to_string()));
    assert_eq!(parse_to_denomination(wei(0), "eth"), Ok("0 eth".to_string()));
}

#[test]
fn formats_the_smallest_and_inner_zeros() {
    assert_eq!(format_amount(wei(1), DenominationUnit::Eth), "0.000000000000000001 eth");
    assert_eq!(format_amount(wei(1), DenominationUnit::Gwei), "0.000000001 gwei");
    assert_eq!(format_amount(wei(1), DenominationUnit::Wei), "1 wei");
    assert_eq!(format_amount(wei(1_000_000_000_000_001_000), DenominationUnit::Eth), "1.000000000000001 eth");
    assert_eq!(format_amount(wei(1_395_633_240_123_456_789), DenominationUnit::Eth), "1.395633240123456789 eth");
    assert_eq!(format_amount(wei(1_500_000_000), DenominationUnit::Gwei), "1.5 gwei");
}

#[test]
fn formats_amounts_beyond_64_bits() {
    assert_eq!(
        format_amount(wei(123_456_789_012_345_678_901_234_567_890), DenominationUnit::Eth),
        "123456789012.34567890123456789 eth"
    );
    let max = Uint256 { w0: u64::MAX, w1: u64::MAX, w2: u64::MAX, w3: u64::MAX };
    assert_eq!(
        format_amount(max, DenominationUnit::Eth),
        "115792089237316195423570985008687907853269984665640564039457.584007913129639935 eth"
    );
    assert_eq!(
        format_amount(max, DenominationUnit::Wei),
        "115792089237316195423570985008687907853269984665640564039457584007913129639935 wei"
    );
    let two_to_192 = Uint256 { w0: 0, w1: 0, w2: 0, w3: 1 };
    assert_eq!(
        format_amount(two_to_192, DenominationUnit::Gwei),
        "6277101735386680763835789423207666416102355444464.034512896 gwei"
    );
}

#[test]
fn refuses_unknown_units() {
    assert_eq!(
        parse_to_denomination(wei(1), "btc"),
        Err(LotteryError::InvalidUnit("btc".to_string()))
    );
    assert_eq!(
        parse_to_denomination(wei(1), "ETH"),
        Err(LotteryError::InvalidUnit("ETH".to_string()))
    );
    assert_eq!(parse_to_denomination(wei(1), ""), Err(LotteryError::InvalidUnit(String::new())));
    assert_eq!(
        DenominationUnit::from_label("ether"),
        Err(LotteryError::InvalidUnit("ether".to_string()))
    );
}

#[test]
fn units_know_their_labels_and_scales() {
    for unit in [DenominationUnit::Wei, DenominationUnit::Gwei, DenominationUnit::Eth] {
        assert_eq!(DenominationUnit::from_label(unit.label()), Ok(unit));
    }
    assert_eq!(DenominationUnit::Wei.decimals(), 0);
    assert_eq!(DenominationUnit::Gwei.decimals(), 9);
    assert_eq!(DenominationUnit::Eth.decimals(), 18);
    assert_eq!(DenominationUnit::Wei.label(), "wei");
    assert_eq!(DenominationUnit::Gwei.label(), "gwei");
    assert_eq!(DenominationUnit::Eth.label(), "eth");
}

#[test]
fn trim_decimal_drops_zeros_then_point() {
    assert_eq!(trim_decimal("1.500"), "1.5");
    assert_eq!(trim_decimal("0.000"), "0");
    assert_eq!(trim_decimal("10.0"), "10");
    assert_eq!(trim_decimal("10.010"), "10.01");
    assert_eq!(trim_decimal("12.34"), "12.34");
    assert_eq!(trim_decimal("7."), "7");
    assert_eq!(trim_decimal("."), "");
    assert_eq!(trim_decimal(".000"), "");
}

#[test]
fn trim_decimal_leaves_whole_numbers_alone() {
    assert_eq!(trim_decimal("100"), "100");
    assert_eq!(trim_decimal("0"), "0");
    assert_eq!(trim_decimal(""), "");
}

#[test]
fn formatted_amounts_read_back_exactly() {
    let amounts = [
        wei(0),
        wei(1),
        wei(10),
        wei(999_999_999),
        wei(1_000_000_000),
        wei(15_000_000_000_000_000),
        wei(1_500_000_000_000_000_000),
        wei(1_395_633_240_123_456_789),
        wei(u128::MAX),
        Uint256 { w0: 7, w1: 0, w2: 9, w3: 11 },
        Uint256 { w0: u64::MAX, w1: u64::MAX, w2: u64::MAX, w3: u64::MAX },
    ];
    for amount in amounts {
        for unit in [DenominationUnit::Wei, DenominationUnit::Gwei, DenominationUnit::Eth] {
            let text = format_amount(amount, unit);
            let back = reparsed(&text, unit.label(), unit.decimals());
            assert_eq!(back, U256([amount.w0, amount.w1, amount.w2, amount.w3]));
            let again = format_amount(
                Uint256 { w0: back.0[0], w1: back.0[1], w2: back.0[2], w3: back.0[3] },
                unit,
            );
            assert_eq!(again, text);
        }
    }
}
