//! Strings and numbers.
use ember::command::strings;
use ember::text::{
    ascii_alnum, cat2, cat3, cat8, dec_i32, dec_padded, dec_u64, find_chars, from_chars, hex_u64,
    join_strings, keep_nonempty, less, list_has, parse_hex_str, parse_uint_chars, parse_uint_str,
    split_lines, split_once, split_words, strip_prefix, to_ascii_lowercase, to_chars, trimmed,
    trimmed_end, white, IntError,
};

#[test]
fn numbers_are_written() {
    assert_eq!(dec_u64(0), "0");
    assert_eq!(dec_u64(u64::MAX), u64::MAX.to_string());
    assert_eq!(dec_i32(i32::MIN), i32::MIN.to_string());
    assert_eq!(dec_i32(-1), "-1");
    assert_eq!(dec_i32(42), "42");
    assert_eq!(hex_u64(0xab, 8), "000000ab");
    assert_eq!(hex_u64(0x0bcd, 4), "0bcd");
    assert_eq!(dec_padded(7, 3), "007");
    assert_eq!(dec_padded(234, 3), "234");
}

#[test]
fn numbers_are_read() {
    assert_eq!(parse_uint_str("0042", 100), Ok(42));
    assert_eq!(parse_uint_str("+7", 100), Ok(7));
    assert_eq!(parse_uint_str("", 100), Err(IntError::Empty));
    assert_eq!(parse_uint_str("+", 100), Err(IntError::InvalidDigit));
    assert_eq!(parse_uint_str("-1", 100), Err(IntError::InvalidDigit));
    assert_eq!(parse_uint_str("101", 100), Err(IntError::PosOverflow));
    assert_eq!(parse_uint_chars(&['1', 'x'], 100), Err(IntError::InvalidDigit));
    assert_eq!(parse_uint_str("18446744073709551615", u64::MAX), Ok(u64::MAX));
    assert_eq!(parse_uint_str("18446744073709551616", u64::MAX), Err(IntError::PosOverflow));
    assert_eq!(parse_hex_str("a3F4", u32::MAX), Some(0xa3f4));
    assert_eq!(parse_hex_str("g", u32::MAX), None);
    assert_eq!(parse_hex_str("", u32::MAX), None);
    assert_eq!(parse_hex_str("1ff", 0xff), None);
}

/// What the standard library reads as a number is read in the same way.
#[test]
fn numbers_are_read_as_the_standard_library_does() {
    for s in ["", "+", "-", "+5", "-5", "05", " 5", "5 ", "4294967295", "4294967296", "\u{661}"] {
        assert_eq!(
            parse_uint_str(s, u32::MAX as u64).ok(),
            s.parse::<u32>().ok().map(|n| n as u64),
            "{s:?}"
        );
    }
}

#[test]
fn strings_are_cut() {
    assert_eq!(split_words("  a\tb \n c "), ["a", "b", "c"]);
    assert_eq!(split_lines("a\r\nb\n\nc"), ["a", "b", "", "c"]);
    assert_eq!(split_lines("a\n"), ["a"]);
    assert!(split_lines("").is_empty());
    assert_eq!(split_once("a:b:c", ':'), Some(("a".to_string(), "b:c".to_string())));
    assert_eq!(split_once("abc", ':'), None);
    assert_eq!(strip_prefix("sha256:ab", "sha256:"), Some("ab".to_string()));
    assert_eq!(strip_prefix("ab", "sha256:"), None);
    assert_eq!(trimmed(" \u{3000}a b\n"), "a b");
    assert_eq!(trimmed_end(" a \n"), " a");
    assert_eq!(find_chars(&to_chars("abcabc"), "ca"), Some(2));
    assert_eq!(find_chars(&to_chars("abc"), "x"), None);
    assert!(white('\u{2028}') && !white('\u{200b}'));
}

#[test]
fn strings_are_put_together() {
    assert_eq!(cat2("a", "b"), "ab");
    assert_eq!(cat3("a", "", "c"), "ac");
    assert_eq!(cat8("a", "b", "c", "d", "e", "f", "g", "h"), "abcdefgh");
    assert_eq!(from_chars(&['a', '\u{1f525}']), "a\u{1f525}");
    assert_eq!(join_strings(&strings(&["a", "b", "c"]), ", "), "a, b, c");
    assert_eq!(join_strings(&vec![], ", "), "");
    assert_eq!(keep_nonempty(strings(&["", "a", ""])), ["a"]);
}

#[test]
fn strings_are_compared() {
    assert!(less("a", "ab") && less("ab", "b") && !less("b", "ab") && !less("a", "a"));
    assert!(less("Z", "a") && less("z", "\u{e9}"));
    assert!(list_has(&strings(&["a", "b"]), "b") && !list_has(&strings(&["a", "b"]), "c"));
    assert_eq!(to_ascii_lowercase("AbC\u{c9}"), "abc\u{c9}");
    assert!(ascii_alnum('7') && ascii_alnum('q') && !ascii_alnum('-') && !ascii_alnum('\u{e9}'));
}
