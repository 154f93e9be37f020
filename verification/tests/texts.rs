//! Numerals, separators and whitespace, held against the standard library.

use unifi_ups_monitor::split::{
    is_whitespace, split_pieces, split_words, starts_with, trim_line_end,
};
use unifi_ups_monitor::text::{decimal_text, parse_number, zero_padded_text, NumberError};

#[test]
fn numerals_are_decimal() {
    for n in [0u128, 1, 9, 10, 99, 100, 1095, 86_400, u64::MAX as u128, u128::MAX] {
        assert_eq!(decimal_text(n), n.to_string());
        assert_eq!(zero_padded_text(n, 4), format!("{:04}", n));
        assert_eq!(zero_padded_text(n, 2), format!("{:02}", n));
        assert_eq!(zero_padded_text(n, 0), n.to_string());
    }
    assert_eq!(zero_padded_text(7, 4), "0007");
}

const NUMBERS: [&str; 30] = [
    "",
    "+",
    "-",
    "++1",
    "+-1",
    "0",
    "00",
    "+0",
    "+7",
    "12",
    "0012",
    "682",
    "682.0",
    " 1",
    "1 ",
    "1_000",
    "x",
    "1x",
    "2147483647",
    "2147483648",
    "4294967295",
    "4294967296",
    "18446744073709551615",
    "18446744073709551616",
    "+18446744073709551615",
    "99999999999999999999999999x",
    "9x9999999999999999999999999",
    "000000000000000000000000000000000000000012",
    "\u{0661}\u{0662}",
    "1\u{0661}",
];

#[test]
fn numbers_are_read_as_the_standard_library_reads_them() {
    for raw in NUMBERS {
        match (parse_number(raw, u64::MAX), raw.parse::<u64>()) {
            (Ok(ours), Ok(theirs)) => assert_eq!(ours, theirs, "{}", raw),
            (Err(ours), Err(theirs)) => assert_eq!(ours.message(), theirs.to_string(), "{}", raw),
            _ => panic!("disagreement on {:?}", raw),
        }
        match (parse_number(raw, u32::MAX as u64), raw.parse::<u32>()) {
            (Ok(ours), Ok(theirs)) => assert_eq!(ours, theirs as u64, "{}", raw),
            (Err(ours), Err(theirs)) => assert_eq!(ours.message(), theirs.to_string(), "{}", raw),
            _ => panic!("disagreement on {:?}", raw),
        }
        if !raw.contains('-') {
            match (parse_number(raw, i32::MAX as u64), raw.parse::<i32>()) {
                (Ok(ours), Ok(theirs)) => assert_eq!(ours, theirs as u64, "{}", raw),
                (Err(ours), Err(theirs)) => {
                    assert_eq!(ours.message(), theirs.to_string(), "{}", raw)
                }
                _ => panic!("disagreement on {:?}", raw),
            }
        }
    }
}

#[test]
fn the_leftmost_fault_of_a_number_counts() {
    assert_eq!(parse_number("", 9), Err(NumberError::Empty));
    assert_eq!(parse_number("+", 9), Err(NumberError::InvalidDigit));
    assert_eq!(parse_number("1x", 9), Err(NumberError::InvalidDigit));
    assert_eq!(parse_number("10x", 9), Err(NumberError::TooLarge));
    assert_eq!(parse_number("x10", 9), Err(NumberError::InvalidDigit));
    assert_eq!(parse_number("9", 9), Ok(9));
    assert_eq!(parse_number("10", 9), Err(NumberError::TooLarge));
}

#[test]
fn numerals_are_read_back() {
    for n in [0u64, 1, 42, 999, 1_000_000, u64::MAX] {
        assert_eq!(parse_number(&decimal_text(n as u128), u64::MAX), Ok(n));
        assert_eq!(parse_number(&zero_padded_text(n as u128, 9), u64::MAX), Ok(n));
    }
}

const LINES: [&str; 12] = [
    "",
    " ",
    "-",
    "a",
    "a b",
    " a  b ",
    "VAR unifi ups.model \"Tower Pro\"",
    "2024-02-29",
    "1-2-3-4-5",
    "\tOL\u{a0}RB\n",
    "\u{3000}OB\u{2028}DISCHRG\u{85}LB",
    "\u{200b}x\u{200b}",
];

#[test]
fn pieces_are_those_of_the_standard_library() {
    for line in LINES {
        for separator in [' ', '-', 'a'] {
            for limit in 1..6 {
                let theirs: Vec<&str> = line.splitn(limit, separator).collect();
                assert_eq!(split_pieces(line, separator, limit), theirs);
            }
        }
    }
}

#[test]
fn words_are_those_of_the_standard_library() {
    for line in LINES {
        let theirs: Vec<&str> = line.split_whitespace().collect();
        assert_eq!(split_words(line), theirs);
    }
    assert_eq!(split_words(" /sbin/shutdown  -h now\n"), ["/sbin/shutdown", "-h", "now"]);
}

#[test]
fn whitespace_is_that_of_the_standard_library() {
    for c in '\0'..=char::MAX {
        assert_eq!(is_whitespace(c), c.is_whitespace(), "{:?}", c);
    }
}

#[test]
fn only_line_ends_are_trimmed() {
    for line in ["", "\n", "\r\n", "OK\r\n", "OK\n\r\n\r", "a\nb\n", "OK ", "\u{85}"] {
        assert_eq!(trim_line_end(line), line.trim_end_matches(['\r', '\n']));
    }
}

#[test]
fn prefixes_are_found() {
    for text in ["", "O", "OK", "OK ", "OK go", "ERR x", "\u{e9}R"] {
        for prefix in ["", "OK", "OK ", "ERR ", "\u{e9}"] {
            assert_eq!(starts_with(text, prefix), text.starts_with(prefix));
        }
    }
}
