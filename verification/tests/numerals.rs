use uniffi_bindgen::numerals::decimal_i64;
use uniffi_bindgen::numerals::decimal_u64;
use uniffi_bindgen::numerals::hex_i64;
use uniffi_bindgen::numerals::hex_u64;
use uniffi_bindgen::numerals::push_decimal;
use uniffi_bindgen::numerals::push_hex;

#[test]
fn decimal_of_unsigned_numbers() {
    assert_eq!(decimal_u64(0), "0");
    assert_eq!(decimal_u64(7), "7");
    assert_eq!(decimal_u64(10), "10");
    assert_eq!(decimal_u64(255), "255");
    assert_eq!(decimal_u64(u64::MAX), "18446744073709551615");
}

#[test]
fn decimal_of_signed_numbers() {
    assert_eq!(decimal_i64(0), "0");
    assert_eq!(decimal_i64(-1), "-1");
    assert_eq!(decimal_i64(42), "42");
    assert_eq!(decimal_i64(i64::MAX), "9223372036854775807");
    assert_eq!(decimal_i64(i64::MIN), "-9223372036854775808");
}

#[test]
fn hexadecimal_of_unsigned_numbers() {
    assert_eq!(hex_u64(0), "0x0");
    assert_eq!(hex_u64(15), "0xf");
    assert_eq!(hex_u64(16), "0x10");
    assert_eq!(hex_u64(255), "0xff");
    assert_eq!(hex_u64(0xdead_beef), "0xdeadbeef");
    assert_eq!(hex_u64(u64::MAX), "0xffffffffffffffff");
}

#[test]
fn hexadecimal_of_a_negative_number_shows_its_bits() {
    assert_eq!(hex_i64(255), "0xff");
    assert_eq!(hex_i64(-1), "0xffffffffffffffff");
    assert_eq!(hex_i64(-256), "0xffffffffffffff00");
    assert_eq!(hex_i64(i64::MIN), "0x8000000000000000");
    assert_eq!(hex_i64(i64::MAX), "0x7fffffffffffffff");
}

#[test]
fn numbers_agree_with_the_standard_formatting() {
    let samples: [i64; 12] =
        [0, 1, -1, 9, 10, 99, 100, -100, 4096, -4096, 1 << 40, -(1 << 40)];
    for i in samples {
        assert_eq!(decimal_i64(i), format!("{}", i));
        assert_eq!(hex_i64(i), format!("{:#x}", i));
        if i >= 0 {
            assert_eq!(decimal_u64(i as u64), format!("{}", i));
            assert_eq!(hex_u64(i as u64), format!("{:#x}", i));
        }
    }
}

#[test]
fn digits_are_appended_to_what_is_there() {
    let mut out = String::from("n=");
    push_decimal(&mut out, 120);
    assert_eq!(out, "n=120");
    push_hex(&mut out, 0xabc);
    assert_eq!(out, "n=120abc");
}
