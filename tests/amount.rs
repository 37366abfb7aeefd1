use ore_cli::amount::{ONE_ORE, TOKEN_DECIMALS};
use ore_cli::{amount_string_to_u64, amount_u64_to_string};

#[test]
fn decimals_match_the_token() {
    assert_eq!(TOKEN_DECIMALS, ore_api::consts::TOKEN_DECIMALS as u32);
    assert_eq!(ONE_ORE, ore_api::consts::ONE_ORE);
}

#[test]
fn amount_text_of_whole_and_fractional_amounts() {
    assert_eq!(amount_u64_to_string(0), "0");
    assert_eq!(amount_u64_to_string(100_000_000_000), "1");
    assert_eq!(amount_u64_to_string(150_000_000_000), "1.5");
    assert_eq!(amount_u64_to_string(1), "0.00000000001");
    assert_eq!(amount_u64_to_string(2_500_000_000_000), "25");
    assert_eq!(amount_u64_to_string(1_234_567_890_123), "12.34567890123");
}

#[test]
fn amount_text_of_largest_amount() {
    assert_eq!(amount_u64_to_string(u64::MAX), "184467440.73709551615");
}

#[test]
fn amount_parse_accepts_decimal_numbers() {
    assert_eq!(amount_string_to_u64("1.5"), Some(150_000_000_000));
    assert_eq!(amount_string_to_u64("0"), Some(0));
    assert_eq!(amount_string_to_u64("007"), Some(700_000_000_000));
    assert_eq!(amount_string_to_u64("0.00000000001"), Some(1));
    assert_eq!(amount_string_to_u64("2.50"), Some(250_000_000_000));
}

#[test]
fn amount_parse_rejects_other_text() {
    assert_eq!(amount_string_to_u64(""), None);
    assert_eq!(amount_string_to_u64("."), None);
    assert_eq!(amount_string_to_u64("1."), None);
    assert_eq!(amount_string_to_u64(".5"), None);
    assert_eq!(amount_string_to_u64("1.2.3"), None);
    assert_eq!(amount_string_to_u64("-1"), None);
    assert_eq!(amount_string_to_u64("1e3"), None);
    assert_eq!(amount_string_to_u64("1.000000000001"), None);
}

#[test]
fn amount_parse_rejects_overflow() {
    assert_eq!(amount_string_to_u64("184467440.73709551615"), Some(u64::MAX));
    assert_eq!(amount_string_to_u64("184467440.73709551616"), None);
    assert_eq!(amount_string_to_u64("99999999999999999999999"), None);
}

#[test]
fn amount_round_trip_recovers_value() {
    for a in [0u64, 1, 9, 10, 99_999_999_999, 100_000_000_000, 150_000_000_000, 123_456_789_012_345, u64::MAX - 1, u64::MAX] {
        assert_eq!(amount_string_to_u64(&amount_u64_to_string(a)), Some(a));
    }
}
