//! Texts and numerals.

use piri::text::{
    chars_of, decimal_text, is_float_numeral, parse_unsigned, same_opt_text, same_text,
    split_once, split_words, strip_suffix,
};

#[test]
fn numbers_are_written_and_read_back() {
    for n in [0u64, 1, 9, 10, 42, 255, 256, 1_000_000, u64::MAX - 1, u64::MAX] {
        assert_eq!(decimal_text(n), n.to_string());
        assert_eq!(parse_unsigned(&decimal_text(n), u64::MAX), Some(n));
    }
}

#[test]
fn numerals_read_as_the_standard_ones_do() {
    for s in [
        "", "+", "-1", "+7", "007", "255", "256", "1e3", " 1", "1 ", "４", "99999999999999999999",
        "18446744073709551615", "18446744073709551616", "+18446744073709551615", "++1", "1+",
    ] {
        assert_eq!(
            parse_unsigned(s, u8::MAX as u64),
            s.parse::<u8>().ok().map(u64::from),
            "{s:?}"
        );
        assert_eq!(parse_unsigned(s, u64::MAX), s.parse::<u64>().ok(), "{s:?}");
    }
}

#[test]
fn words_are_split_as_whitespace_splits() {
    for s in [
        "",
        "   ",
        "a",
        " a  b\tc\n",
        "a\u{a0}b\u{2003}c\u{3000}d",
        "x\u{85}y\u{200b}z",
        "1 (cmd) S 42 1",
    ] {
        let expected: Vec<&str> = s.split_whitespace().collect();
        assert_eq!(split_words(s), expected, "{s:?}");
    }
}

#[test]
fn texts_are_cut_at_the_first_mark() {
    for s in ["web@DP-1", "a@b@c", "@", "@x", "x@", "none", "", "ü@é"] {
        assert_eq!(split_once(s, '@'), s.split_once('@'), "{s:?}");
    }
}

#[test]
fn suffixes_are_stripped_once() {
    for s in ["50%", "%", "%%", "", "50", "ü%"] {
        assert_eq!(strip_suffix(s, '%'), s.strip_suffix('%'), "{s:?}");
    }
}

#[test]
fn float_numerals_are_those_that_parse() {
    for s in [
        "0", "-0", "1.5", "1.", ".1", ".", "", "inf", "infinity", "INFINITY", "nan", "-nan",
        "infin", "1e10", "1e", "1e1.5", "e1", "+1e-7", "1f", "１",
    ] {
        assert_eq!(is_float_numeral(s), s.parse::<f64>().is_ok(), "{s:?}");
    }
}

#[test]
fn equality_of_texts() {
    assert!(same_text("niri", "niri"));
    assert!(!same_text("niri", "nirI"));
    assert!(!same_text("niri", "niri "));
    assert!(same_text("", ""));
    assert!(same_opt_text(&None, &None));
    assert!(!same_opt_text(&Some("a".into()), &None));
    assert!(same_opt_text(&Some("a".into()), &Some("a".into())));
    assert_eq!(chars_of("aü"), vec!['a', 'ü']);
}
