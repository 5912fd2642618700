use chain_core::error::LedgerError;
use chain_core::hashing::sha256_hex;
use chain_core::text::decimal_string;
use chain_core::util::converter::{convert_to_u16, convert_vec_of_str_to_vec_of_string};

#[test]
fn decimal_of_zero_is_a_single_digit() {
    assert_eq!(decimal_string(0), "0");
}

#[test]
fn decimal_has_no_leading_zero() {
    assert_eq!(decimal_string(7), "7");
    assert_eq!(decimal_string(10), "10");
    assert_eq!(decimal_string(1234567890), "1234567890");
}

#[test]
fn decimal_of_the_largest_number() {
    assert_eq!(decimal_string(u64::MAX), "18446744073709551615");
    assert_eq!(decimal_string(u64::MAX), u64::MAX.to_string());
}

#[test]
fn sha256_of_abc_is_the_known_digest() {
    assert_eq!(
        sha256_hex("abc"),
        "ba7816bf8f01cfea414140de5dae2223b00361a396177a9cb410ff61f20015ad"
    );
}

#[test]
fn sha256_of_the_empty_text_is_the_known_digest() {
    assert_eq!(
        sha256_hex(""),
        "e3b0c44298fc1c149afbf4c8996fb92427ae41e4649b934ca495991b7852b855"
    );
}

#[test]
fn sha256_hashes_the_utf8_bytes() {
    // U+00E9 is two bytes in UTF-8.
    assert_eq!(sha256_hex("\u{e9}").len(), 64);
    assert_ne!(sha256_hex("\u{e9}"), sha256_hex("e"));
}

#[test]
fn convert_to_u16_reads_plain_numbers() {
    assert_eq!(convert_to_u16("0".to_string()), Ok(0));
    assert_eq!(convert_to_u16("8080".to_string()), Ok(8080));
    assert_eq!(convert_to_u16("65535".to_string()), Ok(65535));
}

#[test]
fn convert_to_u16_takes_a_plus_sign_and_leading_zeros() {
    assert_eq!(convert_to_u16("+42".to_string()), Ok(42));
    assert_eq!(convert_to_u16("000123".to_string()), Ok(123));
    assert_eq!(convert_to_u16("+000".to_string()), Ok(0));
}

#[test]
fn convert_to_u16_rejects_what_is_out_of_range() {
    assert_eq!(convert_to_u16("65536".to_string()), Err(LedgerError::InvalidNumber));
    assert_eq!(convert_to_u16("99999999999999999999".to_string()), Err(LedgerError::InvalidNumber));
}

#[test]
fn convert_to_u16_rejects_what_is_no_number() {
    for text in ["", "+", "-1", "12a", " 12", "12 ", "++1", "1+", "0x10", "\u{663}"] {
        assert_eq!(convert_to_u16(text.to_string()), Err(LedgerError::InvalidNumber), "{:?}", text);
    }
}

#[test]
fn convert_to_u16_agrees_with_the_standard_parser() {
    for text in ["0", "1", "+1", "-0", "65535", "65536", "007", "", "+", "a", "1_000", "١٢"] {
        let expected = text.parse::<u16>().ok();
        assert_eq!(convert_to_u16(text.to_string()).ok(), expected, "{:?}", text);
    }
}

#[test]
fn convert_vec_keeps_every_string_in_order() {
    let converted = convert_vec_of_str_to_vec_of_string(vec!["127.0.0.1:8000", "", "peer"]);
    assert_eq!(converted, vec!["127.0.0.1:8000".to_string(), String::new(), "peer".to_string()]);
    assert!(convert_vec_of_str_to_vec_of_string(vec![]).is_empty());
}
