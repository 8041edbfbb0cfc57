use zram_generator::text::decimal;

#[test]
fn decimal_writes_zero_as_one_digit() {
    assert_eq!(decimal(0), "0");
}

#[test]
fn decimal_writes_single_digits() {
    assert_eq!(decimal(7), "7");
    assert_eq!(decimal(9), "9");
}

#[test]
fn decimal_writes_the_most_significant_digit_first() {
    assert_eq!(decimal(10), "10");
    assert_eq!(decimal(2048), "2048");
    assert_eq!(decimal(1234567890), "1234567890");
}

#[test]
fn decimal_writes_the_largest_value() {
    assert_eq!(decimal(u64::MAX), "18446744073709551615");
}

#[test]
fn decimal_agrees_with_the_standard_library() {
    let mut value: u64 = 1;
    for _ in 0..64 {
        assert_eq!(decimal(value), value.to_string());
        assert_eq!(decimal(value - 1), (value - 1).to_string());
        value = value.wrapping_mul(2);
    }
}
