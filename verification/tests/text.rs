use rusty_lightning::table::Table;
use rusty_lightning::text::{contains, parse_u16, push_decimal, to_chars};

#[test]
fn numbers_are_written_in_decimal() {
    let decimal = |n: u64| {
        let mut out = "n=".to_string();
        push_decimal(&mut out, n);
        out
    };
    assert_eq!(decimal(0), "n=0");
    assert_eq!(decimal(9), "n=9");
    assert_eq!(decimal(10), "n=10");
    assert_eq!(decimal(1203), "n=1203");
    assert_eq!(decimal(u64::MAX), "n=18446744073709551615");
}

#[test]
fn numbers_are_read_as_the_standard_library_reads_them() {
    for text in [
        "", "0", "7", "+7", "-7", "+", "++1", "65535", "65536", "065535", "100000", "1a", " 1", "1 ",
        "٣", "00000000000000000001", "4294967296",
    ] {
        assert_eq!(parse_u16(text), text.parse::<u16>().ok());
    }
}

#[test]
fn every_number_that_was_written_is_read_back() {
    for n in 0..=65535u16 {
        let mut out = String::new();
        push_decimal(&mut out, n as u64);
        assert_eq!(parse_u16(&out), Some(n));
    }
}

#[test]
fn texts_are_searched_as_the_standard_library_searches_them() {
    for text in ["", "a", "aab", "aaab", "é-aab-é", "baa"] {
        for needle in ["", "a", "aab", "é", "-", "ab", "c"] {
            assert_eq!(contains(text, needle), text.contains(needle));
        }
    }
}

#[test]
fn a_text_is_its_characters() {
    assert_eq!(to_chars("aé\u{1f600}"), vec!['a', 'é', '\u{1f600}']);
    assert!(to_chars("").is_empty());
}

#[test]
fn a_table_keeps_the_last_value_of_a_key() {
    let mut table: Table<[u8; 32], u64> = Table::new();
    assert_eq!(table.get(&[1; 32]), None);
    table.insert([1; 32], 10);
    table.insert([2; 32], 20);
    table.insert([1; 32], 11);
    assert_eq!(table.get(&[1; 32]), Some(&11));
    assert_eq!(table.get(&[2; 32]), Some(&20));
    assert_eq!(table.remove(&[1; 32]), Some(11));
    assert_eq!(table.remove(&[1; 32]), None);
    assert_eq!(table.get(&[2; 32]), Some(&20));
}
