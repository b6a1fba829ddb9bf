use indexer::address::standardize_address;
use indexer::numeric::i64_to_dec;
use indexer::numeric::narrowed_xp;
use indexer::numeric::parse_i64;
use indexer::numeric::parse_u128;
use indexer::numeric::u64_to_dec;

#[test]
fn parse_u128_exact_values() {
    assert_eq!(parse_u128("0"), Some(0));
    assert_eq!(parse_u128("42"), Some(42));
    assert_eq!(parse_u128("005"), Some(5));
    assert_eq!(parse_u128("18446744073709551616"), Some(1u128 << 64));
    assert_eq!(
        parse_u128("340282366920938463463374607431768211455"),
        Some(u128::MAX)
    );
}

#[test]
fn parse_u128_rejects_non_numerals() {
    assert_eq!(parse_u128(""), None);
    assert_eq!(parse_u128("12a"), None);
    assert_eq!(parse_u128("-1"), None);
    assert_eq!(parse_u128("+1"), None);
    assert_eq!(parse_u128(" 1"), None);
    // one past u128::MAX
    assert_eq!(parse_u128("340282366920938463463374607431768211456"), None);
}

#[test]
fn parse_i64_exact_values_and_range() {
    assert_eq!(parse_i64("0"), Some(0));
    assert_eq!(parse_i64("1700000000"), Some(1_700_000_000));
    assert_eq!(parse_i64("9223372036854775807"), Some(i64::MAX));
    // one past i64::MAX is rejected rather than wrapped
    assert_eq!(parse_i64("9223372036854775808"), None);
    assert_eq!(parse_i64("banana"), None);
}

#[test]
fn narrowing_keeps_in_range_amounts_and_zeroes_the_rest() {
    assert_eq!(narrowed_xp(0), 0);
    assert_eq!(narrowed_xp(1234), 1234);
    assert_eq!(narrowed_xp(-55), -55);
    assert_eq!(narrowed_xp(i32::MAX as i64), i32::MAX);
    assert_eq!(narrowed_xp(i32::MIN as i64), i32::MIN);
    assert_eq!(narrowed_xp(i32::MAX as i64 + 1), 0);
    assert_eq!(narrowed_xp(i32::MIN as i64 - 1), 0);
    assert_eq!(narrowed_xp(i64::MAX), 0);
}

#[test]
fn formatting_is_inverse_of_parsing() {
    assert_eq!(u64_to_dec(0), "0");
    assert_eq!(u64_to_dec(7), "7");
    assert_eq!(u64_to_dec(1234567890), "1234567890");
    assert_eq!(u64_to_dec(u64::MAX), "18446744073709551615");
    assert_eq!(i64_to_dec(-42), "-42");
    assert_eq!(i64_to_dec(i64::MIN), "-9223372036854775808");
    assert_eq!(parse_i64(&i64_to_dec(1_700_000_000)), Some(1_700_000_000));
}

#[test]
fn address_normalization_pads_and_prefixes() {
    let canonical = standardize_address("0xa");
    assert_eq!(canonical.len(), 66);
    assert_eq!(
        canonical,
        "0x000000000000000000000000000000000000000000000000000000000000000a"
    );
}

#[test]
fn address_forms_of_one_address_compare_equal() {
    // with and without the 0x prefix, and with extra leading zeros
    assert_eq!(standardize_address("0xabc"), standardize_address("abc"));
    assert_eq!(standardize_address("0abc"), standardize_address("abc"));
    assert_eq!(
        standardize_address("0x00abc"),
        standardize_address("abc")
    );
}

#[test]
fn address_normalization_is_idempotent() {
    let once = standardize_address("0xdeadbeef");
    let twice = standardize_address(&once);
    assert_eq!(once, twice);
}

#[test]
fn full_width_address_is_kept_as_is() {
    let full = "0x1234567890123456789012345678901234567890123456789012345678901234";
    assert_eq!(standardize_address(full), full);
}
