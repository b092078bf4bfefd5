use eleel::hash::{from_be_bytes, same_bytes, to_be_bytes};
use eleel::text::{decimal_string, hex_string, joined, same_text};

#[test]
fn hex_string_of_a_hash() {
    let mut hash = [0u8; 32];
    hash[0] = 0x1d;
    hash[1] = 0xcc;
    hash[31] = 0x0f;
    assert_eq!(
        hex_string(&hash),
        "0x1dcc00000000000000000000000000000000000000000000000000000000000f"
    );
}

#[test]
fn hex_string_of_nothing() {
    assert_eq!(hex_string(&[0u8; 0]), "0x");
}

#[test]
fn decimal_string_of_numbers() {
    assert_eq!(decimal_string(0), "0");
    assert_eq!(decimal_string(7), "7");
    assert_eq!(decimal_string(10), "10");
    assert_eq!(decimal_string(30_000_000), "30000000");
    assert_eq!(decimal_string(u64::MAX), "18446744073709551615");
}

#[test]
fn texts_are_joined_and_compared() {
    assert_eq!(joined("unknown parent: ", "0x00"), "unknown parent: 0x00");
    assert!(same_text("exact", "exact"));
    assert!(!same_text("exact", "Exact"));
}

#[test]
fn numbers_as_big_endian_bytes() {
    assert_eq!(to_be_bytes(0), [0u8; 8]);
    assert_eq!(to_be_bytes(1), [0, 0, 0, 0, 0, 0, 0, 1]);
    assert_eq!(to_be_bytes(0x0102_0304_0506_0708), [1, 2, 3, 4, 5, 6, 7, 8]);
    assert_eq!(to_be_bytes(u64::MAX), [0xff; 8]);
    assert_eq!(from_be_bytes(&[1, 2, 3, 4, 5, 6, 7, 8]), 0x0102_0304_0506_0708);
    assert_eq!(from_be_bytes(&to_be_bytes(123_456_789_012)), 123_456_789_012);
}

#[test]
fn arrays_are_compared_by_their_bytes() {
    let mut a = [7u8; 32];
    let b = [7u8; 32];
    assert!(same_bytes(&a, &b));
    a[31] = 8;
    assert!(!same_bytes(&a, &b));
}
