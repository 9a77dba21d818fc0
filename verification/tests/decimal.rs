use rgb565_codec::decimal::{parse_i32, parse_numeral, parse_unsigned};

#[test]
fn numerals_are_read_digit_by_digit() {
    assert_eq!(parse_numeral(b"0", 10), Some(0));
    assert_eq!(parse_numeral(b"7", 10), Some(7));
    assert_eq!(parse_numeral(b"123", 1000), Some(123));
    assert_eq!(parse_numeral(b"000123", 123), Some(123));
    assert_eq!(parse_numeral(b"907", 907), Some(907));
}

#[test]
fn an_empty_numeral_is_none() {
    assert_eq!(parse_numeral(b"", 100), None);
    assert_eq!(parse_numeral(b"", 0), None);
}

#[test]
fn a_numeral_holds_digits_only() {
    assert_eq!(parse_numeral(b"+12", 100), None);
    assert_eq!(parse_numeral(b"1 2", 100), None);
    assert_eq!(parse_numeral(b"12a", 100), None);
    assert_eq!(parse_numeral(b"1/2", 100), None);
    assert_eq!(parse_numeral(b"1:2", 100), None);
    assert_eq!(parse_numeral(&[0x31, 0xFF], 100), None);
}

#[test]
fn a_numeral_above_the_limit_is_none() {
    assert_eq!(parse_numeral(b"101", 100), None);
    assert_eq!(parse_numeral(b"100", 100), Some(100));
    assert_eq!(parse_numeral(b"1", 0), None);
    assert_eq!(parse_numeral(b"0", 0), Some(0));
    assert_eq!(parse_numeral(b"99999999999999999999999999999999999999999999", u64::MAX), None);
}

#[test]
fn numerals_up_to_64_bits() {
    assert_eq!(parse_numeral(b"18446744073709551615", u64::MAX), Some(u64::MAX));
    assert_eq!(parse_numeral(b"18446744073709551616", u64::MAX), None);
    assert_eq!(parse_numeral(b"18446744073709551620", u64::MAX), None);
    assert_eq!(parse_numeral(b"28446744073709551615", u64::MAX), None);
}

#[test]
fn unsigned_numbers_may_carry_a_plus() {
    assert_eq!(parse_unsigned(b"12", 100), Some(12));
    assert_eq!(parse_unsigned(b"+12", 100), Some(12));
    assert_eq!(parse_unsigned(b"+", 100), None);
    assert_eq!(parse_unsigned(b"", 100), None);
    assert_eq!(parse_unsigned(b"-12", 100), None);
    assert_eq!(parse_unsigned(b"++12", 100), None);
    assert_eq!(parse_unsigned(b"+101", 100), None);
}

#[test]
fn signed_numbers_in_32_bits() {
    assert_eq!(parse_i32(b"0"), Some(0));
    assert_eq!(parse_i32(b"-0"), Some(0));
    assert_eq!(parse_i32(b"+15"), Some(15));
    assert_eq!(parse_i32(b"-15"), Some(-15));
    assert_eq!(parse_i32(b"2147483647"), Some(i32::MAX));
    assert_eq!(parse_i32(b"2147483648"), None);
    assert_eq!(parse_i32(b"-2147483648"), Some(i32::MIN));
    assert_eq!(parse_i32(b"-2147483649"), None);
    assert_eq!(parse_i32(b""), None);
    assert_eq!(parse_i32(b"-"), None);
    assert_eq!(parse_i32(b"+"), None);
    assert_eq!(parse_i32(b"--1"), None);
    assert_eq!(parse_i32(b"-+1"), None);
    assert_eq!(parse_i32(b"+-1"), None);
    assert_eq!(parse_i32(b"1-"), None);
}

#[test]
fn signed_numbers_agree_with_the_standard_parser() {
    let texts = [
        "", "0", "-0", "+0", "1", "-1", "+1", "007", "-007", "2147483647", "2147483648",
        "-2147483648", "-2147483649", "99999999999999999999", "-99999999999999999999", "- 1", "1.0",
        "0x1", "١",
    ];
    for text in texts {
        assert_eq!(parse_i32(text.as_bytes()), text.parse::<i32>().ok());
    }
}
