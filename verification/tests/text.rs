use fts_bench::text::{
    chars_eq, chars_of, find_char, is_whitespace, join_prefixed, join_strings, range_contains,
    range_has_no_ws, str_eq, string_of, trim_bounds,
};

fn chars(s: &str) -> Vec<char> {
    s.chars().collect()
}

#[test]
fn white_space_is_unicode_white_space() {
    for c in [' ', '\t', '\n', '\r', '\u{b}', '\u{c}', '\u{85}', '\u{a0}', '\u{2003}', '\u{3000}'] {
        assert!(is_whitespace(c));
        assert_eq!(is_whitespace(c), c.is_whitespace());
    }
    for c in ['a', '+', '"', '\u{200b}', '0'] {
        assert!(!is_whitespace(c));
    }
}

#[test]
fn trimming_agrees_with_str_trim() {
    for s in ["", "   ", " a ", "\u{3000}x y\t", "abc", "\n\n+foo +bar\r\n"] {
        let v = chars(s);
        let (lo, hi) = trim_bounds(&v);
        assert_eq!(string_of(&v, lo, hi), s.trim());
    }
}

#[test]
fn character_helpers() {
    assert_eq!(chars_of("héllo"), chars("héllo"));
    assert!(str_eq("abc", "abc"));
    assert!(!str_eq("abc", "abd"));
    assert!(chars_eq(&chars("xy"), &chars("xy")));
    assert!(!chars_eq(&chars("xy"), &chars("x")));
    let v = chars("a b\tc");
    assert!(range_has_no_ws(&v, 0, 1));
    assert!(!range_has_no_ws(&v, 0, 3));
    assert!(range_contains(&v, 0, 5, '\t'));
    assert!(!range_contains(&v, 0, 3, '\t'));
    assert_eq!(find_char(&v, '\t', 0), 3);
    assert_eq!(find_char(&v, '\t', 4), 5);
}

#[test]
fn joining() {
    let parts = vec!["a".to_string(), "b".to_string(), "c".to_string()];
    assert_eq!(join_strings(&parts, " "), "a b c");
    assert_eq!(join_prefixed(&parts, "+", " "), "+a +b +c");
    assert_eq!(join_strings(&Vec::new(), ","), "");
}
