use nois_oracle::digits::{u128_to_dec, u64_to_dec, u64_to_dec_padded};
use nois_oracle::sink::{coin_string, timestamp_string, Coin};

#[test]
fn decimal_rendering_is_exact() {
    assert_eq!(u64_to_dec(0).as_str(), "0");
    assert_eq!(u64_to_dec(7).as_str(), "7");
    assert_eq!(u64_to_dec(10).as_str(), "10");
    assert_eq!(u64_to_dec(72785).as_str(), "72785");
    assert_eq!(u64_to_dec(u64::MAX).as_str(), "18446744073709551615");
    assert_eq!(u128_to_dec(u128::MAX).as_str(), "340282366920938463463374607431768211455");
}

#[test]
fn padding_is_exact() {
    assert_eq!(u64_to_dec_padded(0, 9).as_str(), "000000000");
    assert_eq!(u64_to_dec_padded(42, 9).as_str(), "000000042");
    assert_eq!(u64_to_dec_padded(879305533, 9).as_str(), "879305533");
    // A width smaller than the number changes nothing.
    assert_eq!(u64_to_dec_padded(12345, 3).as_str(), "12345");
}

#[test]
fn coin_and_timestamp_text_are_exact() {
    assert_eq!(coin_string(&Coin::new(1_000, "unois")).as_str(), "1000unois");
    assert_eq!(
        timestamp_string(1_571_797_419_879_305_533).as_str(),
        "1571797419.879305533"
    );
    // Fractional parts keep their leading zeros.
    assert_eq!(timestamp_string(5_000_000_042).as_str(), "5.000000042");
    assert_eq!(timestamp_string(0).as_str(), "0.000000000");
}
