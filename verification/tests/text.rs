use crabberbot::text::{
    ends_with, escape_html, is_whitespace, nonblank_lines, str_eq, to_chars, trim_bounds,
    u64_to_decimal,
};

fn trim(text: &str) -> String {
    let chars = to_chars(text);
    let (start, end) = trim_bounds(&chars);
    chars[start..end].iter().collect()
}

#[test]
fn decimal_numerals() {
    assert_eq!(u64_to_decimal(0), "0");
    assert_eq!(u64_to_decimal(7), "7");
    assert_eq!(u64_to_decimal(10), "10");
    assert_eq!(u64_to_decimal(1024), "1024");
    assert_eq!(u64_to_decimal(907_060), "907060");
    assert_eq!(u64_to_decimal(u64::MAX), "18446744073709551615");
}

#[test]
fn decimal_agrees_with_the_standard_rendering() {
    for n in [1u64, 9, 11, 99, 100, 101, 12_345, 999_999_999, 1 << 40] {
        assert_eq!(u64_to_decimal(n), n.to_string());
    }
}

#[test]
fn strings_compare_by_their_characters() {
    assert!(str_eq("video", "video"));
    assert!(!str_eq("video", "videos"));
    assert!(!str_eq("video", "Video"));
    assert!(str_eq("", ""));
}

#[test]
fn characters_come_out_in_order() {
    assert_eq!(to_chars("a\u{1F980}b"), vec!['a', '\u{1F980}', 'b']);
    assert_eq!(to_chars(""), Vec::<char>::new());
}

#[test]
fn escaping_replaces_the_three_markup_characters() {
    assert_eq!(escape_html("<b>R&D</b>"), "&lt;b&gt;R&amp;D&lt;/b&gt;");
    assert_eq!(escape_html("plain \"text\" 'here'"), "plain \"text\" 'here'");
    assert_eq!(escape_html(""), "");
    assert_eq!(escape_html("&amp;"), "&amp;amp;");
}

#[test]
fn white_space_is_the_unicode_property() {
    for code in 0u32..=0x3100 {
        if let Some(c) = char::from_u32(code) {
            assert_eq!(is_whitespace(c), c.is_whitespace(), "U+{:04X}", code);
        }
    }
    assert!(!is_whitespace('\u{200b}'));
    assert!(!is_whitespace('\u{feff}'));
}

#[test]
fn trimming_removes_white_space_at_both_ends_only() {
    assert_eq!(trim("  hello world \n"), "hello world");
    assert_eq!(trim("\u{a0}\tx\u{3000}"), "x");
    assert_eq!(trim("   "), "");
    assert_eq!(trim(""), "");
    assert_eq!(trim("a"), "a");
    for text in ["  a b  ", "\r\n", "x  ", "  y", "\u{2003}z\u{2003}"] {
        assert_eq!(trim(text), text.trim());
    }
}

#[test]
fn output_is_framed_into_its_nonblank_lines() {
    assert_eq!(
        nonblank_lines("{\"id\":\"1\"}\n\n  \n{\"id\":\"2\"}\r\n"),
        vec!["{\"id\":\"1\"}".to_string(), "{\"id\":\"2\"}".to_string()]
    );
    assert_eq!(nonblank_lines(""), Vec::<String>::new());
    assert_eq!(nonblank_lines("\n\n"), Vec::<String>::new());
    assert_eq!(nonblank_lines("one"), vec!["one".to_string()]);
    assert_eq!(
        nonblank_lines(" a \nb"),
        vec![" a ".to_string(), "b".to_string()]
    );
}

#[test]
fn suffixes() {
    let host = to_chars("music.youtube.com");
    assert!(ends_with(&host, &to_chars(".youtube.com")));
    assert!(ends_with(&host, &to_chars("")));
    assert!(!ends_with(&host, &to_chars("xmusic.youtube.com")));
    assert!(!ends_with(&to_chars("youtube.com"), &to_chars(".youtube.com")));
}
