use runtime::text::{
    push_decimal, push_left_aligned, push_right_aligned, push_signed_decimal, push_zero_padded,
};

fn decimal(n: u64) -> String {
    let mut out = String::new();
    push_decimal(&mut out, n);
    out
}

fn signed(n: i64) -> String {
    let mut out = String::new();
    push_signed_decimal(&mut out, n);
    out
}

fn zero_padded(n: u64, width: usize) -> String {
    let mut out = String::new();
    push_zero_padded(&mut out, n, width);
    out
}

fn right_aligned(n: i64, width: usize) -> String {
    let mut out = String::new();
    push_right_aligned(&mut out, n, width);
    out
}

fn left_aligned(text: &str, width: usize) -> String {
    let mut out = String::new();
    push_left_aligned(&mut out, text, width);
    out
}

#[test]
fn decimal_of_small_and_large_numbers() {
    assert_eq!(decimal(0), "0");
    assert_eq!(decimal(7), "7");
    assert_eq!(decimal(10), "10");
    assert_eq!(decimal(1234567890), "1234567890");
    assert_eq!(decimal(u64::MAX), "18446744073709551615");
}

#[test]
fn decimal_agrees_with_std() {
    for n in (0..5000u64).chain([9_999, 10_000, 65_535, 4_294_967_296, u64::MAX - 1]) {
        assert_eq!(decimal(n), format!("{}", n));
    }
}

#[test]
fn signed_decimal_carries_the_sign() {
    assert_eq!(signed(0), "0");
    assert_eq!(signed(42), "42");
    assert_eq!(signed(-1), "-1");
    assert_eq!(signed(-2147483648), "-2147483648");
    assert_eq!(signed(i64::MAX), "9223372036854775807");
    assert_eq!(signed(i64::MIN), "-9223372036854775808");
}

#[test]
fn push_decimal_keeps_what_was_there() {
    let mut out = String::from("n=");
    push_decimal(&mut out, 305);
    assert_eq!(out, "n=305");
    push_signed_decimal(&mut out, -4);
    assert_eq!(out, "n=305-4");
}

#[test]
fn zero_padding_fills_up_to_the_width() {
    assert_eq!(zero_padded(0, 4), "0000");
    assert_eq!(zero_padded(7, 4), "0007");
    assert_eq!(zero_padded(42, 4), "0042");
    assert_eq!(zero_padded(255, 4), "0255");
    assert_eq!(zero_padded(9999, 4), "9999");
}

#[test]
fn zero_padding_leaves_wide_numbers_alone() {
    assert_eq!(zero_padded(10000, 4), "10000");
    assert_eq!(zero_padded(123456, 4), "123456");
    assert_eq!(zero_padded(5, 0), "5");
    assert_eq!(zero_padded(5, 1), "5");
}

#[test]
fn zero_padding_agrees_with_std() {
    for n in [0u64, 1, 9, 10, 99, 100, 999, 1000, 9999, 10000, 70000] {
        assert_eq!(zero_padded(n, 4), format!("{:04}", n));
    }
}

#[test]
fn right_alignment_fills_with_spaces() {
    assert_eq!(right_aligned(1, 4), "   1");
    assert_eq!(right_aligned(123, 4), " 123");
    assert_eq!(right_aligned(1234, 4), "1234");
    assert_eq!(right_aligned(12345, 4), "12345");
    assert_eq!(right_aligned(-5, 4), "  -5");
    assert_eq!(right_aligned(-123, 4), "-123");
    assert_eq!(right_aligned(-1234, 4), "-1234");
}

#[test]
fn right_alignment_agrees_with_std() {
    for n in [0i32, 1, -1, 12, -12, 999, -999, 1000, 9999, 10000, i32::MAX, i32::MIN] {
        assert_eq!(right_aligned(n as i64, 4), format!("{:4}", n));
    }
}

#[test]
fn left_alignment_fills_behind_the_text() {
    assert_eq!(left_aligned("ab", 4), "ab  ");
    assert_eq!(left_aligned("", 3), "   ");
    assert_eq!(left_aligned("abcd", 4), "abcd");
    assert_eq!(left_aligned("abcdef", 4), "abcdef");
    assert_eq!(left_aligned("OP_CONSTANT", 16), "OP_CONSTANT     ");
}

#[test]
fn left_alignment_counts_characters_not_bytes() {
    assert_eq!(left_aligned("é", 3), "é  ");
    assert_eq!(left_aligned("日本語", 4), format!("{:4}", "日本語"));
}

#[test]
fn left_alignment_agrees_with_std() {
    for text in ["", "x", "OP_ADD", "OP_CONSTANT", "sixteen_chars_ab", "seventeen_chars_a"] {
        assert_eq!(left_aligned(text, 16), format!("{:16}", text));
    }
}
