use rusty_lightning::hex::{hex_str, hex_to_vec};

#[test]
fn digits_of_either_case_are_read() {
    assert_eq!(hex_to_vec("00fFA5"), Some(vec![0x00, 0xff, 0xa5]));
    assert_eq!(hex_to_vec("abcdefABCDEF0123456789"), Some(vec![
        0xab, 0xcd, 0xef, 0xab, 0xcd, 0xef, 0x01, 0x23, 0x45, 0x67, 0x89,
    ]));
}

#[test]
fn no_digits_stand_for_no_bytes() {
    assert_eq!(hex_to_vec(""), Some(vec![]));
    assert_eq!(hex_str(&[]), "");
}

#[test]
fn a_digit_without_partner_is_dropped() {
    assert_eq!(hex_to_vec("a5f"), Some(vec![0xa5]));
    assert_eq!(hex_to_vec("7"), Some(vec![]));
}

#[test]
fn anything_else_is_refused() {
    assert_eq!(hex_to_vec("0g"), None);
    assert_eq!(hex_to_vec("00 "), None);
    assert_eq!(hex_to_vec("0x00"), None);
    assert_eq!(hex_to_vec("00@"), None);
    assert_eq!(hex_to_vec("00`"), None);
    assert_eq!(hex_to_vec("00/"), None);
    assert_eq!(hex_to_vec("00:"), None);
    assert_eq!(hex_to_vec("00G"), None);
    assert_eq!(hex_to_vec("é0"), None);
}

#[test]
fn bytes_are_written_in_lower_case() {
    assert_eq!(hex_str(&[0x00, 0xff, 0xa5, 0x09]), "00ffa509");
}

#[test]
fn what_was_written_is_read_back() {
    let all: Vec<u8> = (0..=255).collect();
    assert_eq!(hex_to_vec(&hex_str(&all)), Some(all));
}

#[test]
fn what_was_read_is_written_back_in_lower_case() {
    let text = "DEADbeef0123456789AbCdEf";
    assert_eq!(hex_str(&hex_to_vec(text).unwrap()), text.to_lowercase());
}

#[test]
fn what_was_read_is_written_back_without_a_digit_that_has_no_partner() {
    assert_eq!(hex_str(&hex_to_vec("ABc").unwrap()), "ab");
    assert_eq!(hex_str(&hex_to_vec("F").unwrap()), "");
}
