use txodump::lines::{push_decimal, push_line, SpendRecord};

#[test]
fn decimal_zero() {
    let mut out: Vec<u8> = Vec::new();
    push_decimal(&mut out, 0);
    assert_eq!(out, b"0".to_vec());
}

#[test]
fn decimal_single_digit() {
    let mut out: Vec<u8> = Vec::new();
    push_decimal(&mut out, 7);
    assert_eq!(out, b"7".to_vec());
}

#[test]
fn decimal_multi_digit() {
    let mut out: Vec<u8> = Vec::new();
    push_decimal(&mut out, 105);
    assert_eq!(out, b"105".to_vec());
}

#[test]
fn decimal_appends_after_existing_bytes() {
    let mut out: Vec<u8> = b"x".to_vec();
    push_decimal(&mut out, 42);
    assert_eq!(out, b"x42".to_vec());
}

#[test]
fn decimal_largest_value() {
    let mut out: Vec<u8> = Vec::new();
    push_decimal(&mut out, u64::MAX);
    assert_eq!(out, b"18446744073709551615".to_vec());
}

#[test]
fn line_format_is_four_fields() {
    let mut out: Vec<u8> = Vec::new();
    let record = SpendRecord { height: 1, coin_age: 1, fee_rate: 0, value: 5000 };
    push_line(&mut out, &record);
    assert_eq!(out, b"1;1;0;5000\n".to_vec());
}

#[test]
fn lines_concatenate_in_order() {
    let mut out: Vec<u8> = Vec::new();
    push_line(&mut out, &SpendRecord { height: 9, coin_age: 2, fee_rate: 3, value: 4 });
    push_line(&mut out, &SpendRecord { height: 10, coin_age: 0, fee_rate: 0, value: 1 });
    assert_eq!(out, b"9;2;3;4\n10;0;0;1\n".to_vec());
}
