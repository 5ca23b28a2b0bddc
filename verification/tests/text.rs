use dfim::text::{
    char_is_space, chars_of, concat_text, decimal_text, ends_with, join_strings, replace_char,
    same_text, signed_decimal_text, split_text, starts_with, string_of, text_is_blank,
};

fn strings(items: &[&str]) -> Vec<String> {
    items.iter().map(|s| s.to_string()).collect()
}

#[test]
fn chars_and_strings_convert_both_ways() {
    assert_eq!(chars_of("h\u{e9}y"), vec!['h', '\u{e9}', 'y']);
    assert_eq!(string_of(&vec!['h', '\u{e9}', 'y']), "h\u{e9}y");
    assert_eq!(string_of(&vec![]), "");
    assert_eq!(concat_text("ab", "cd"), "abcd");
    assert_eq!(concat_text("", ""), "");
}

#[test]
fn split_text_agrees_with_std() {
    for text in ["", "a", "a.b", ".a", "a.", "..", "a..b", "x.y.z", "\u{e9}.\u{fc}"] {
        let expected: Vec<String> = text.split('.').map(|s| s.to_string()).collect();
        assert_eq!(split_text(text, '.'), expected, "text {text:?}");
    }
    assert_eq!(split_text("a/b", '/'), strings(&["a", "b"]));
}

#[test]
fn join_strings_agrees_with_std() {
    let cases: Vec<Vec<String>> = vec![
        vec![],
        strings(&["a"]),
        strings(&["a", "b"]),
        strings(&["", ""]),
        strings(&["x", "", "z"]),
    ];
    for parts in cases {
        assert_eq!(join_strings(&parts, ", "), parts.join(", "));
        assert_eq!(join_strings(&parts, ""), parts.join(""));
    }
}

#[test]
fn split_then_join_gives_the_text_back() {
    for text in ["", "a", "a.b", ".a.", "..", "x.y.z"] {
        assert_eq!(join_strings(&split_text(text, '.'), "."), text);
    }
}

#[test]
fn replace_char_agrees_with_std() {
    for text in ["", "a.b", "..", "a", "a.b.c."] {
        assert_eq!(replace_char(text, '.', "/"), text.replace('.', "/"));
        assert_eq!(replace_char(text, '.', "::"), text.replace('.', "::"));
        assert_eq!(replace_char(text, '.', ""), text.replace('.', ""));
    }
}

#[test]
fn prefixes_and_suffixes_agree_with_std() {
    let texts = ["", "a", "ab", "abc", "\u{e9}a"];
    for s in texts {
        for p in texts {
            assert_eq!(starts_with(s, p), s.starts_with(p), "{s:?} starts with {p:?}");
            assert_eq!(ends_with(s, p), s.ends_with(p), "{s:?} ends with {p:?}");
            assert_eq!(same_text(s, p), s == p);
        }
    }
}

#[test]
fn decimal_text_agrees_with_std() {
    for n in [0u64, 1, 9, 10, 11, 99, 100, 101, 12345, u64::MAX] {
        assert_eq!(decimal_text(n), n.to_string());
    }
    for i in [0i64, 1, -1, 10, -10, 42, -9999, i64::MAX, i64::MIN, i64::MIN + 1] {
        assert_eq!(signed_decimal_text(i), i.to_string());
    }
}

#[test]
fn blank_text_is_empty_or_white_space() {
    assert!(text_is_blank(""));
    assert!(text_is_blank(" \t\n"));
    assert!(!text_is_blank(" a "));
    assert!(char_is_space(' '));
    assert!(char_is_space('\u{2009}'));
    assert!(!char_is_space('\u{200b}'));
    assert!(!char_is_space('a'));
}
