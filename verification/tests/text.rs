use cli_agent_prompt::numerals::{parse_decimal, to_decimal, to_hexadecimal};
use cli_agent_prompt::patterns::slice;
use cli_agent_prompt::text::{
    contains, contains_whitespace, is_whitespace, join, le, same, split_words, strip_prefix, trim,
    to_lower, trim_end_matches, CharClass,
};

const SAMPLES: [&str; 12] = [
    "",
    " ",
    "a",
    "  a b  ",
    "\u{3000}x\u{85}",
    "é\u{a0}é",
    "plan mode mode",
    " mode",
    "\"'q'\"",
    "a\tb\nc\r",
    "\u{200b}",
    "日本 語",
];

#[test]
fn white_space_is_the_unicode_property() {
    for code in 0..=0x10ffff_u32 {
        if let Some(c) = char::from_u32(code) {
            assert_eq!(is_whitespace(c), c.is_whitespace(), "{code:x}");
        }
    }
}

#[test]
fn agrees_with_the_standard_string_functions() {
    for s in SAMPLES {
        assert_eq!(trim(s, CharClass::White), s.trim());
        assert_eq!(trim(s, CharClass::Quote), s.trim_matches(|c| c == '"' || c == '\''));
        assert_eq!(contains_whitespace(s), s.contains(char::is_whitespace));
        assert_eq!(split_words(s), s.split_whitespace().collect::<Vec<_>>());
        assert_eq!(trim_end_matches(s, " mode"), s.trim_end_matches(" mode"));
        for t in SAMPLES {
            assert_eq!(contains(s, t), s.contains(t));
            assert_eq!(strip_prefix(s, t), s.strip_prefix(t));
            assert_eq!(le(s, t), s <= t);
            assert_eq!(same(s, t), s == t);
        }
    }
}

#[test]
fn joins_with_a_separator() {
    let list = |items: &[&str]| -> Vec<String> { items.iter().map(|s| s.to_string()).collect() };
    assert_eq!(join(&list(&["a", "b", "c"]), ", "), "a, b, c");
    assert_eq!(join(&list(&["a"]), ", "), "a");
    assert_eq!(join(&list(&[]), ", "), "");
}

#[test]
fn slices_between_characters() {
    assert_eq!(slice("aé↵b", 1, 3), "é");
    assert_eq!(slice("aé↵b", 3, 6), "↵");
    assert_eq!(slice("aé↵b", 0, 7), "aé↵b");
    assert_eq!(slice("aé↵b", 7, 7), "");
}

#[test]
fn writes_numbers() {
    for n in [0, 7, 10, 99, 100, 4294967295, u64::MAX] {
        assert_eq!(to_decimal(n), n.to_string());
        assert_eq!(to_hexadecimal(n, 16), format!("{n:016x}"));
    }
    assert_eq!(to_hexadecimal(0x1234, 2), "34");
}

#[test]
fn reads_numbers() {
    assert_eq!(parse_decimal("42", 100), Some(42));
    assert_eq!(parse_decimal("+42", 100), Some(42));
    assert_eq!(parse_decimal("000100", 100), Some(100));
    assert_eq!(parse_decimal("101", 100), None);
    assert_eq!(parse_decimal("4294967295", u32::MAX), Some(u32::MAX));
    assert_eq!(parse_decimal("4294967296", u32::MAX), None);
    assert_eq!(parse_decimal("99999999999999999999999", u32::MAX), None);
    for s in ["", "+", "-1", "1a", " 1", "４２", "++1"] {
        assert_eq!(parse_decimal(s, u32::MAX), s.parse::<u32>().ok(), "{s}");
    }
}

#[test]
fn lower_case() {
    assert_eq!(to_lower(""), "");
    assert_eq!(to_lower("ÄB c"), "äb c");
    assert_eq!(to_lower("ΟΔΟΣ"), "οδος");
    for s in SAMPLES.into_iter().chain(["İ", "ẞ", "MODE"]) {
        assert_eq!(to_lower(s), s.to_lowercase());
        assert_eq!(to_lower(s).is_empty(), s.is_empty());
    }
}
