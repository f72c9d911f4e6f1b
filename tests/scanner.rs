use skan::numbers::Int;
use skan::scanner::{Scanner, ScannerError};
use std::io::{Cursor, Read};

#[test]
fn test_new_associate_function() {
    let got = Scanner::from_str("Hello, World");
    let mut cursor = Cursor::new("Hello, World");
    let mut vec = Vec::new();
    cursor.read_to_end(&mut vec).unwrap();
    assert_eq!(got, Scanner::from_bytes(vec));
}

#[test]
fn test_next_bytes_function() {
    let mut scan = Scanner::from_str("Green latern");
    scan.next(); // G
    scan.next(); // r
    scan.next(); // e
    scan.next(); // e
    scan.next(); // n
    scan.next(); // ' '
    assert_eq!(scan.next_byte(), Some(108));
}

#[test]
fn test_string_with_zero_length() {
    let scan = Scanner::from_str("");
    assert_eq!(scan.has_next(), false);
}

#[test]
fn test_string_with_single_length() {
    let scan = Scanner::from_str("1");
    assert_eq!(scan.has_next(), true);
}

#[test]
fn test_next_implmentation_function() {
    let mut scan = Scanner::from_str("java");
    assert_eq!(scan.next(), Some("java".as_bytes()[0]));
}

#[test]
fn test_number_from_stdin() {
    let mut scan = Scanner::from_str("67 -89");
    assert_eq!(
        [
            scan.next_number::<i32>().unwrap(),
            scan.next_number::<i32>().unwrap()
        ],
        [67, -89]
    );
}

#[test]
fn has_next_follows_length() {
    for s in ["", "a", "Got it.", "é", "\n"] {
        assert_eq!(Scanner::from_str(s).has_next(), s.len() > 0);
    }
}

#[test]
fn next_yields_utf8_bytes_then_nothing() {
    let s = "hé\n";
    let mut scan = Scanner::from_str(s);
    let mut got = Vec::new();
    while let Some(b) = scan.next() {
        got.push(b);
    }
    assert_eq!(got, s.as_bytes().to_vec());
    assert_eq!(got, vec![104, 195, 169, 10]);
    assert_eq!(scan.next(), None);
    assert_eq!(scan.next(), None);
    assert_eq!(scan.next_byte(), None);
    assert!(!scan.has_next());
}

#[test]
fn next_byte_peeks() {
    let scan = Scanner::from_str("Hot it.");
    assert_eq!(scan.next_byte(), Some(72));
    assert_eq!(scan.next_byte(), Some(72));
}

#[test]
fn next_word_hot_it() {
    let mut nw = Scanner::from_str("Hot it.");
    assert_eq!(nw.next_word(), Some("Hot".to_string()));
    assert_eq!(nw.next_word(), Some("it.".to_string()));
    assert_eq!(nw.next_word(), None);
    assert_eq!(nw.next_word(), None);
}

#[test]
fn next_line_hot_it() {
    let mut nw = Scanner::from_str("Hot it.\nGot it.");
    assert_eq!(nw.next_line(), Some("Hot it.".to_string()));
    assert_eq!(nw.next_line(), Some("Got it.".to_string()));
    assert_eq!(nw.next_line(), None);
}

#[test]
fn next_number_after_words() {
    let mut nw = Scanner::from_str("from 23 to 45");
    assert_eq!(nw.next_word(), Some("from".to_string()));
    assert_eq!(nw.next_word(), Some("23".to_string()));
    assert_eq!(nw.next_word(), Some("to".to_string()));
    assert_eq!(nw.next_number::<u32>().unwrap(), 45);
}

#[test]
fn next_number_reads_a_word_that_is_no_number() {
    let mut nw = Scanner::from_str("from 23 to 45");
    nw.next_word();
    nw.next_word();
    assert!(matches!(nw.next_number::<u32>(), Err(ScannerError::ParseError(_))));
    assert_eq!(nw.next_number::<u32>().unwrap(), 45);
    assert!(matches!(nw.next_number::<u32>(), Err(ScannerError::NoMoreData)));
}

#[test]
fn next_int_after_words() {
    let mut nw = Scanner::from_str("from 47 until 100");
    nw.next_word();
    nw.next_word();
    nw.next_word();
    assert_eq!(nw.next_int::<i32>().unwrap(), 100);
}

#[test]
fn has_next_leaves_state_alone() {
    let mut scan = Scanner::from_str("ab");
    for _ in 0..5 {
        assert!(scan.has_next());
    }
    assert_eq!(scan.next(), Some(b'a'));
    for _ in 0..5 {
        assert!(scan.has_next());
    }
    assert_eq!(scan.next(), Some(b'b'));
    for _ in 0..5 {
        assert!(!scan.has_next());
    }
}

#[test]
fn empty_input_is_exhausted() {
    let mut scan = Scanner::from_str("");
    assert!(!scan.has_next());
    assert_eq!(scan.next_byte(), None);
    assert_eq!(scan.next(), None);
    assert_eq!(scan.next_word(), None);
    assert_eq!(scan.next_line(), None);
    assert!(matches!(scan.next_number::<i64>(), Err(ScannerError::NoMoreData)));
    assert!(matches!(scan.next_int::<u8>(), Err(ScannerError::NoMoreData)));
    let mut from_bytes = Scanner::from_bytes(Vec::new());
    assert_eq!(from_bytes.next_word(), None);
    assert_eq!(from_bytes.next_line(), None);
}

#[test]
fn delimiters_collapse() {
    let mut w = Scanner::from_str("  a   bc  ");
    assert_eq!(w.next_word(), Some("a".to_string()));
    assert_eq!(w.next_word(), Some("bc".to_string()));
    assert_eq!(w.next_word(), None);
    let mut l = Scanner::from_str("\n\nx y\n\n\nz\n");
    assert_eq!(l.next_line(), Some("x y".to_string()));
    assert_eq!(l.next_line(), Some("z".to_string()));
    assert_eq!(l.next_line(), None);
    let only = Scanner::from_str("   ");
    assert!(only.delimiter(' ').is_empty());
}

#[test]
fn delimiter_splits_text() {
    let scan = Scanner::from_str("a b\nc d");
    assert_eq!(scan.delimiter(' '), vec!["a".to_string(), "b\nc".to_string(), "d".to_string()]);
    assert_eq!(scan.delimiter('\n'), vec!["a b".to_string(), "c d".to_string()]);
}

#[test]
fn words_and_lines_keep_their_own_positions() {
    let mut scan = Scanner::from_str("one two\nthree");
    assert_eq!(scan.next_word(), Some("one".to_string()));
    assert_eq!(scan.next_line(), Some("one two".to_string()));
    assert_eq!(scan.next_word(), Some("two\nthree".to_string()));
    assert_eq!(scan.next_line(), Some("three".to_string()));
    assert_eq!(scan.next(), Some(b'o'));
}

#[test]
fn invalid_utf8_is_replaced() {
    let mut scan = Scanner::from_bytes(vec![b'a', 0xFF, b' ', b'b']);
    assert_eq!(scan.next_word(), Some("a\u{FFFD}".to_string()));
    assert_eq!(scan.next_word(), Some("b".to_string()));
    assert_eq!(scan.next(), Some(b'a'));
    assert_eq!(scan.next(), Some(0xFF));
}

#[test]
fn numbers_are_trimmed() {
    let mut scan = Scanner::from_str("5\t 6\r\n");
    assert_eq!(scan.next_number::<u16>().unwrap(), 5);
    assert_eq!(scan.next_number::<i16>().unwrap(), 6);
}

#[test]
fn number_ranges_and_signs() {
    let mut scan = Scanner::from_str("300 -1 -0 +7 -128 18446744073709551615 x 1.5");
    assert!(matches!(scan.next_int::<u8>(), Err(ScannerError::ParseError(_))));
    assert!(matches!(scan.next_int::<u64>(), Err(ScannerError::ParseError(_))));
    assert!(matches!(scan.next_int::<u32>(), Err(ScannerError::ParseError(_))));
    assert_eq!(scan.next_int::<i8>().unwrap(), 7);
    assert_eq!(scan.next_int::<i8>().unwrap(), -128);
    assert_eq!(scan.next_int::<u64>().unwrap(), u64::MAX);
    assert!(matches!(scan.next_int::<i64>(), Err(ScannerError::ParseError(_))));
    assert!(matches!(scan.next_int::<i32>(), Err(ScannerError::ParseError(_))));
    assert!(matches!(scan.next_int::<i32>(), Err(ScannerError::NoMoreData)));
}

#[test]
fn signed_zero_reads() {
    let mut scan = Scanner::from_str("-0 +0");
    assert_eq!(scan.next_int::<i32>().unwrap(), 0);
    assert_eq!(scan.next_int::<u32>().unwrap(), 0);
}

#[test]
fn parse_decimal_on_each_type() {
    assert_eq!(<i8 as Int>::parse_decimal("-5").unwrap(), -5);
    assert_eq!(<u16 as Int>::parse_decimal("65535").unwrap(), 65535);
    assert!(<u16 as Int>::parse_decimal("65536").is_err());
    assert_eq!(<i64 as Int>::parse_decimal("-9223372036854775808").unwrap(), i64::MIN);
    assert!(<i32 as Int>::parse_decimal("").is_err());
    assert!(<i32 as Int>::parse_decimal("+").is_err());
    assert!(<i32 as Int>::parse_decimal(" 4").is_err());
}
