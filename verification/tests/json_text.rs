use evm_codec::evm::abi::abi_item_provider::has_prefix;
use evm_codec::evm::abi::codec::Param;
use evm_codec::evm::abi::event::{count_indexed, same_word};
use evm_codec::evm::abi::fullsig_abi_item_provider::same_bytes;
use evm_codec::evm::abi::word::{
    div10, fits_u32, is_zero, low_i32_of, negate, write_int_decimal, write_uint_decimal,
};
use evm_codec::json::{
    format_escaped_str_contents, write_hex, write_hex_string, write_int, write_nat,
    write_single_fragment_string, write_string,
};

fn word(low: &[u8]) -> [u8; 32] {
    let mut w = [0u8; 32];
    w[32 - low.len()..].copy_from_slice(low);
    w
}

#[test]
fn hex_string_is_prefixed_and_lowercase() {
    let mut w = Vec::new();
    write_hex_string(&mut w, &[0xAB, 0x01, 0xff]);
    assert_eq!(w, b"\"0xab01ff\"".to_vec());
    let mut w = b"x".to_vec();
    write_hex(&mut w, &[0x00, 0x9a, 0xf0]);
    assert_eq!(w, b"x009af0".to_vec());
}

#[test]
fn string_escapes_quotes_and_controls() {
    let mut w = Vec::new();
    write_string(&mut w, "a\"b\\c\n\u{1}".as_bytes());
    assert_eq!(w, b"\"a\\\"b\\\\c\\n\\u0001\"".to_vec());
    let mut w = Vec::new();
    format_escaped_str_contents(&mut w, &[0x08, 0x09, 0x0a, 0x0c, 0x0d, 0x1f, 0x7f, b'/', 0xc3, 0xa9]);
    assert_eq!(w, b"\\b\\t\\n\\f\\r\\u001f\x7f/\xc3\xa9".to_vec());
    let mut w = Vec::new();
    write_single_fragment_string(&mut w, b"a\"b");
    assert_eq!(w, b"\"a\"b\"".to_vec());
}

#[test]
fn integers_are_decimal() {
    let mut w = Vec::new();
    write_int(&mut w, -1000);
    assert_eq!(w, b"-1000".to_vec());
    let mut w = Vec::new();
    write_int(&mut w, i64::MIN);
    assert_eq!(w, b"-9223372036854775808".to_vec());
    let mut w = Vec::new();
    write_nat(&mut w, 0);
    write_nat(&mut w, 10);
    write_nat(&mut w, u64::MAX);
    assert_eq!(w, b"01018446744073709551615".to_vec());
}

#[test]
fn words_divide_by_ten() {
    assert_eq!(div10(&word(&[])), (word(&[]), 0));
    assert_eq!(div10(&word(&[9])), (word(&[]), 9));
    assert_eq!(div10(&word(&[1, 0])), (word(&[25]), 6));
    let (quotient, rem) = div10(&[0xff; 32]);
    assert_eq!(rem, 5);
    assert_eq!(quotient[0], 0x19);
    assert!(is_zero(&word(&[])));
    assert!(!is_zero(&word(&[1])));
    let mut high = [0u8; 32];
    high[0] = 1;
    assert!(!is_zero(&high));
}

#[test]
fn words_in_decimal() {
    let mut w = Vec::new();
    write_uint_decimal(&mut w, &word(&[]));
    write_uint_decimal(&mut w, &word(&[0x01, 0x00]));
    assert_eq!(w, b"0256".to_vec());
    let mut w = Vec::new();
    write_int_decimal(&mut w, &[0xff; 32]);
    write_int_decimal(&mut w, &word(&[0x7f]));
    assert_eq!(w, b"-1127".to_vec());
    let mut minus_256 = [0xff; 32];
    minus_256[31] = 0;
    let mut w = Vec::new();
    write_int_decimal(&mut w, &minus_256);
    assert_eq!(w, b"-256".to_vec());
    assert_eq!(negate(&minus_256), word(&[1, 0]));
    assert_eq!(negate(&[0xff; 32]), word(&[1]));
    let mut lowest = [0u8; 32];
    lowest[0] = 0x80;
    assert_eq!(negate(&lowest), lowest);
}

#[test]
fn small_words() {
    assert!(fits_u32(&word(&[0xff, 0xff, 0xff, 0xff])));
    assert!(!fits_u32(&word(&[1, 0, 0, 0, 0])));
    assert!(!fits_u32(&[0x80; 32]));
    assert_eq!(low_i32_of(&word(&[0x7f, 0xff, 0xff, 0xff])), 2147483647);
    assert_eq!(low_i32_of(&word(&[0x80, 0, 0, 0])), -2147483648);
    assert_eq!(low_i32_of(&[0xff; 32]), -1);
    assert_eq!(low_i32_of(&word(&[9, 0, 0, 0, 7])), 7);
}

#[test]
fn bytes_are_compared_and_counted() {
    assert!(same_word(&[7; 32], &[7; 32]));
    assert!(!same_word(&[7; 32], &word(&[7])));
    assert!(same_bytes(b"", b""));
    assert!(same_bytes(b"ab", b"ab"));
    assert!(!same_bytes(b"ab", b"abc"));
    assert!(!same_bytes(b"ab", b"ac"));
    assert!(has_prefix(b"abc", b"ab"));
    assert!(has_prefix(b"abc", b""));
    assert!(!has_prefix(b"ab", b"abc"));
    assert!(!has_prefix(b"xbc", b"ab"));
    let param = |indexed: bool| Param { name: String::new(), ty: "bool".to_string(), indexed };
    assert_eq!(count_indexed(&vec![]), 0);
    assert_eq!(count_indexed(&vec![param(true), param(false), param(true)]), 2);
}
