use scraper_rs::text::collapse_whitespace;
use scraper_rs::repr::decimal_string;
use scraper_rs::repr::truncate_for_repr;
use scraper_rs::text::is_space;
use scraper_rs::text::join_fragments;
use scraper_rs::text::lowercase;
use scraper_rs::text::normalize_text;
use scraper_rs::text::to_ascii_lower;
use scraper_rs::text::trim;

fn strings(parts: &[&str]) -> Vec<String> {
    parts.iter().map(|p| p.to_string()).collect()
}

fn std_text(parts: &[&str]) -> String {
    parts.join(" ").split_whitespace().collect::<Vec<_>>().join(" ")
}

#[test]
fn is_space_agrees_with_std_on_every_char() {
    let mut code: u32 = 0;
    while code <= 0x10FFFF {
        if let Some(c) = char::from_u32(code) {
            assert_eq!(is_space(c), c.is_whitespace(), "U+{:04X}", code);
        }
        code += 1;
    }
}

#[test]
fn is_space_on_named_characters() {
    assert!(is_space(' '));
    assert!(is_space('\n'));
    assert!(is_space('\t'));
    assert!(is_space('\r'));
    assert!(is_space('\u{A0}'));
    assert!(is_space('\u{3000}'));
    assert!(!is_space('a'));
    assert!(!is_space('\u{200B}'));
    assert!(!is_space('\u{8}'));
    assert!(!is_space('\u{E}'));
}

#[test]
fn collapse_mixed_whitespace_runs() {
    assert_eq!(collapse_whitespace("  a\n\tb  "), "a b");
}

#[test]
fn collapse_keeps_single_spaces() {
    assert_eq!(collapse_whitespace("a b c"), "a b c");
}

#[test]
fn collapse_of_empty_and_blank_text_is_empty() {
    assert_eq!(collapse_whitespace(""), "");
    assert_eq!(collapse_whitespace(" \n\t\r "), "");
}

#[test]
fn collapse_turns_every_whitespace_into_a_space() {
    assert_eq!(collapse_whitespace("a\u{A0}b\u{2003}c\u{3000}d"), "a b c d");
}

#[test]
fn collapse_keeps_non_ascii_words() {
    assert_eq!(collapse_whitespace(" h\u{e9}llo \u{4e16}\u{754c} "), "h\u{e9}llo \u{4e16}\u{754c}");
}

#[test]
fn collapse_is_idempotent_on_examples() {
    for s in ["", " ", "a", "  a  b ", "\ta\n\nb\r\nc ", "x\u{2028}y"] {
        let once = collapse_whitespace(s);
        let twice = collapse_whitespace(&once);
        assert_eq!(once, twice);
    }
}

#[test]
fn collapse_has_no_outer_or_doubled_spaces() {
    for s in ["  a   b  ", "\n\n", "a\t\tb\n", " x", "y "] {
        let n = collapse_whitespace(s);
        assert!(!n.starts_with(' '));
        assert!(!n.ends_with(' '));
        assert!(!n.contains("  "));
        assert!(n.chars().all(|c| c == ' ' || !c.is_whitespace()));
    }
}

#[test]
fn collapse_agrees_with_split_whitespace() {
    for s in ["", "a", "  a\n\tb  ", "one  two\u{A0}three", " \u{1680} ", "a\u{85}b"] {
        assert_eq!(collapse_whitespace(s), std_text(&[s]));
    }
}

#[test]
fn join_fragments_puts_one_space_between() {
    assert_eq!(join_fragments(&strings(&[])), "");
    assert_eq!(join_fragments(&strings(&["a"])), "a");
    assert_eq!(join_fragments(&strings(&["a", "b", "c"])), "a b c");
    assert_eq!(join_fragments(&strings(&["", ""])), " ");
    assert_eq!(join_fragments(&strings(&[" a ", "b"])), " a  b");
}

#[test]
fn normalize_text_joins_then_collapses() {
    assert_eq!(normalize_text(&strings(&["  hello   ", "world", "  "])), "hello world");
}

#[test]
fn normalize_text_separates_adjacent_fragments() {
    assert_eq!(normalize_text(&strings(&["a", "b"])), "a b");
}

#[test]
fn normalize_text_of_no_fragments_is_empty() {
    assert_eq!(normalize_text(&strings(&[])), "");
    assert_eq!(normalize_text(&strings(&["", " ", "\n"])), "");
}

#[test]
fn normalize_text_agrees_with_std_pipeline() {
    let cases: [&[&str]; 5] = [
        &[],
        &["x"],
        &["  a", "b  ", "", "c\nd"],
        &["\t", "\u{A0}", "k"],
        &["one two", "three"],
    ];
    for parts in cases {
        assert_eq!(normalize_text(&strings(parts)), std_text(parts));
    }
}

#[test]
fn trim_drops_outer_whitespace_only() {
    assert_eq!(trim("  a  b \n"), "a  b");
    assert_eq!(trim("a"), "a");
    assert_eq!(trim(""), "");
    assert_eq!(trim(" \t "), "");
    assert_eq!(trim("\u{3000}x\u{A0}"), "x");
}

#[test]
fn trim_agrees_with_std() {
    for s in ["", " ", "a", " a", "a ", "  a b  ", "\n\u{e9}\u{2003}", "\u{4e16} \u{754c}"] {
        assert_eq!(trim(s), s.trim());
    }
}

#[test]
fn truncate_leaves_short_text_alone() {
    assert_eq!(truncate_for_repr("hello", 40), "hello");
    assert_eq!(truncate_for_repr("", 0), "");
    assert_eq!(truncate_for_repr("", 5), "");
}

#[test]
fn truncate_at_exact_length_adds_nothing() {
    assert_eq!(truncate_for_repr("abc", 3), "abc");
}

#[test]
fn truncate_cuts_and_marks_long_text() {
    assert_eq!(truncate_for_repr("abcd", 3), "abc...");
    assert_eq!(truncate_for_repr("abcdefghij", 1), "a...");
    assert_eq!(truncate_for_repr("x", 0), "...");
}

#[test]
fn truncate_counts_characters_not_bytes() {
    assert_eq!(truncate_for_repr("\u{e9}\u{e9}\u{e9}", 2), "\u{e9}\u{e9}...");
    assert_eq!(truncate_for_repr("\u{4e16}\u{754c}", 2), "\u{4e16}\u{754c}");
}

#[test]
fn truncate_at_forty_characters() {
    let long = "0123456789".repeat(5);
    let expected = format!("{}...", "0123456789".repeat(4));
    assert_eq!(truncate_for_repr(&long, 40), expected);
}

#[test]
fn lowercase_changes_ascii_capitals_only() {
    assert_eq!(lowercase("DiV"), "div");
    assert_eq!(lowercase("foreignObject"), "foreignobject");
    assert_eq!(lowercase("h1"), "h1");
    assert_eq!(lowercase("\u{c9}A"), "\u{c9}a");
    assert_eq!(lowercase(""), "");
}

#[test]
fn to_ascii_lower_agrees_with_std() {
    let mut code: u32 = 0;
    while code < 0x300 {
        if let Some(c) = char::from_u32(code) {
            assert_eq!(to_ascii_lower(c), c.to_ascii_lowercase());
        }
        code += 1;
    }
}

#[test]
fn decimal_string_writes_digits() {
    assert_eq!(decimal_string(0), "0");
    assert_eq!(decimal_string(7), "7");
    assert_eq!(decimal_string(10), "10");
    assert_eq!(decimal_string(1203), "1203");
    assert_eq!(decimal_string(usize::MAX), usize::MAX.to_string());
}
