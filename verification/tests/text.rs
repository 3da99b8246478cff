//! Operations on text, held to the standard library's own.

use yevice::text::ascii_lowercase;
use yevice::text::contains;
use yevice::text::ends_with;
use yevice::text::is_whitespace;
use yevice::text::join;
use yevice::text::split;
use yevice::text::split_once;
use yevice::text::starts_with;
use yevice::text::text_less;
use yevice::text::u64_text;
use yevice::text::writes_float;

#[test]
fn float_texts_are_those_that_parse() {
    let samples = [
        "", "0", "1", "-1", "+1", "1.5", "1.", ".5", ".", "-.5", "+.", "1e5", "1E-5", "1e+5", "1e",
        "e5", "1e5.0", "1_000", " 1", "1 ", "inf", "INF", "-Infinity", "+nan", "NaN", "infi",
        "0x10", "1.5.2", "--1", "1e-", "00012", "9999999999999999999999", "1e400", "١",
    ];
    for s in samples {
        assert_eq!(writes_float(s), s.parse::<f64>().is_ok(), "{s:?}");
    }
}

#[test]
fn splitting_agrees_with_the_standard_library() {
    for s in ["", "a", "a,b", ",a,,b,", "aXXbXX", "ééaé"] {
        for sep in [",", "XX", "é", "a,b"] {
            let pieces = split(s, sep);
            assert_eq!(pieces, s.split(sep).collect::<Vec<_>>(), "{s:?} by {sep:?}");
            assert_eq!(join(&pieces, sep), s);
            assert_eq!(contains(s, sep), s.contains(sep));
            assert_eq!(starts_with(s, sep), s.starts_with(sep));
            assert_eq!(ends_with(s, sep), s.ends_with(sep));
        }
        let once = split_once(s, ',');
        let expected = s
            .split_once(',')
            .map(|(a, b)| (a.to_string(), b.to_string()));
        assert_eq!(once, expected, "{s:?}");
    }
}

/// An empty separator stands before, between and behind all characters.
#[test]
fn empty_separator_splits_into_characters() {
    for s in ["", "a", "aé"] {
        assert_eq!(split(s, ""), s.split("").collect::<Vec<_>>(), "{s:?}");
    }
}

#[test]
fn white_space_is_that_of_the_standard_library() {
    for n in 0..=0x0010_ffff_u32 {
        if let Some(c) = char::from_u32(n) {
            assert_eq!(is_whitespace(c), c.is_whitespace(), "{n:#x}");
        }
    }
}

#[test]
fn texts_are_ordered_as_in_the_standard_library() {
    let samples = ["", "a", "B", "ab", "é", "\u{ffff}", "\u{10000}", "Z"];
    for a in samples {
        for b in samples {
            assert_eq!(text_less(a, b), a < b, "{a:?} and {b:?}");
        }
    }
    assert_eq!(u64_text(0), "0");
    assert_eq!(u64_text(u64::MAX), u64::MAX.to_string());
    assert_eq!(ascii_lowercase("AbÉ"), "AbÉ".to_ascii_lowercase());
}
