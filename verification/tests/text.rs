use fridge::instant::{civil_in_range, read_date, read_time};
use fridge::text::{
    char_is_digit, char_of_digit, chars_of, digits_of, parse_decimal, part, position, same_chars,
    same_text, split_first, string_of, value_of_digit,
};

fn chars(s: &str) -> Vec<char> {
    s.chars().collect()
}

#[test]
fn strings_and_characters_convert_both_ways() {
    for s in ["", "a", "root@2000-01-02_03:04:05_daily", "ünï cødé ✓"] {
        assert_eq!(chars_of(s), chars(s));
        assert_eq!(string_of(&chars(s)), s);
    }
}

#[test]
fn texts_are_the_same_where_their_characters_are() {
    assert!(same_text("", ""));
    assert!(same_text("daily", "daily"));
    assert!(!same_text("daily", "dail"));
    assert!(!same_text("daily", "Daily"));
    assert!(same_chars(&chars("ab"), &chars("ab")));
    assert!(!same_chars(&chars("ab"), &chars("ac")));
    assert!(!same_chars(&chars("ab"), &chars("abc")));
    assert!(same_chars(&chars(""), &chars("")));
}

#[test]
fn a_text_splits_at_its_first_separator() {
    assert_eq!(split_first(&chars("a@b@c"), '@'), (chars("a"), Some(chars("b@c"))));
    assert_eq!(split_first(&chars("abc"), '@'), (chars("abc"), None));
    assert_eq!(split_first(&chars("@"), '@'), (chars(""), Some(chars(""))));
    assert_eq!(split_first(&chars(""), '@'), (chars(""), None));
    assert_eq!(split_first(&chars("ab@"), '@'), (chars("ab"), Some(chars(""))));
    assert_eq!(position(&chars("a:b:c"), ':'), 1);
    assert_eq!(position(&chars("abc"), ':'), 3);
    assert_eq!(position(&chars(""), ':'), 0);
    assert_eq!(part(&chars("abcdef"), 2, 4), chars("cd"));
    assert_eq!(part(&chars("abcdef"), 3, 3), chars(""));
    assert_eq!(part(&chars("abcdef"), 0, 6), chars("abcdef"));
}

#[test]
fn digits_stand_for_their_numbers() {
    for (n, c) in ('0'..='9').enumerate() {
        assert!(char_is_digit(c));
        assert_eq!(value_of_digit(c) as usize, n);
        assert_eq!(char_of_digit(n as u8), c);
    }
    for c in ['/', ':', 'a', ' ', '٣', '+', '-'] {
        assert!(!char_is_digit(c));
    }
}

#[test]
fn decimal_numbers_are_read_up_to_a_limit() {
    assert_eq!(parse_decimal(&chars("0"), 65535), Some(0));
    assert_eq!(parse_decimal(&chars("007"), 65535), Some(7));
    assert_eq!(parse_decimal(&chars("65535"), 65535), Some(65535));
    assert_eq!(parse_decimal(&chars("65536"), 65535), None);
    assert_eq!(parse_decimal(&chars("100000000"), 100_000_000), Some(100_000_000));
    assert_eq!(parse_decimal(&chars("100000001"), 100_000_000), None);
    assert_eq!(parse_decimal(&chars("99999999999999999999"), 100_000_000), None);
    assert_eq!(parse_decimal(&chars(""), 65535), None);
    assert_eq!(parse_decimal(&chars("12a"), 65535), None);
    assert_eq!(parse_decimal(&chars("+12"), 65535), None);
    assert_eq!(parse_decimal(&chars("5"), 0), None);
    assert_eq!(parse_decimal(&chars("0"), 0), Some(0));
}

#[test]
fn numbers_are_written_without_leading_zeros() {
    for n in [0u16, 1, 9, 10, 22, 99, 100, 1234, 22222, 65535] {
        assert_eq!(string_of(&digits_of(n)), n.to_string());
    }
}

#[test]
fn dates_and_times_are_read_in_fixed_width() {
    assert_eq!(read_date(&chars("2000-01-02")), Some((2000, 1, 2)));
    assert_eq!(read_date(&chars("0000-00-99")), Some((0, 0, 99)));
    assert_eq!(read_date(&chars("9999-12-31")), Some((9999, 12, 31)));
    assert_eq!(read_date(&chars("2000-1-2")), None);
    assert_eq!(read_date(&chars("2000_01_02")), None);
    assert_eq!(read_date(&chars("20000-01-02")), None);
    assert_eq!(read_date(&chars("2OOO-01-02")), None);
    assert_eq!(read_date(&chars("")), None);
    assert_eq!(read_time(&chars("03:04:05")), Some((3, 4, 5)));
    assert_eq!(read_time(&chars("99:99:99")), Some((99, 99, 99)));
    assert_eq!(read_time(&chars("3:4:5")), None);
    assert_eq!(read_time(&chars("03-04-05")), None);
    assert_eq!(read_time(&chars("03:04:0x")), None);
    assert_eq!(read_time(&chars("03:04:05 ")), None);
}

#[test]
fn civil_fields_have_their_ranges() {
    assert!(civil_in_range(0, 1, 1, 0, 0, 0));
    assert!(civil_in_range(9999, 12, 31, 23, 59, 59));
    assert!(!civil_in_range(-1, 1, 1, 0, 0, 0));
    assert!(!civil_in_range(10000, 1, 1, 0, 0, 0));
    assert!(!civil_in_range(2000, 0, 1, 0, 0, 0));
    assert!(!civil_in_range(2000, 13, 1, 0, 0, 0));
    assert!(!civil_in_range(2000, 1, 0, 0, 0, 0));
    assert!(!civil_in_range(2000, 1, 32, 0, 0, 0));
    assert!(!civil_in_range(2000, 1, 1, 24, 0, 0));
    assert!(!civil_in_range(2000, 1, 1, 0, 60, 0));
    assert!(!civil_in_range(2000, 1, 1, 0, 0, 60));
}
