use dfim::failure::{Failure, Target};
use dfim::shared::{
    continue_path, endswith, joinpath, lua_value_to_pathbuf, split, startswith, trim,
};
use dfim::value::{GuestValue, Kind, Table};

#[test]
fn split_agrees_with_std() {
    let texts = ["", "a", "a,b", ",a,", "a,,b", "a, b, c", "aaa", "abab", ",,"];
    let patterns = [",", ", ", "a", "aa", "ab", "", "xyz"];
    for text in texts {
        for pat in patterns {
            let all: Vec<String> = text.split(pat).map(|s| s.to_string()).collect();
            let some: Vec<String> = all.iter().filter(|s| !s.is_empty()).cloned().collect();
            assert_eq!(split(text, pat, None), all, "{text:?} by {pat:?}");
            assert_eq!(split(text, pat, Some(false)), all, "{text:?} by {pat:?}");
            assert_eq!(split(text, pat, Some(true)), some, "{text:?} by {pat:?}");
        }
    }
}

#[test]
fn split_by_the_empty_pattern_gives_each_character() {
    assert_eq!(split("rust", "", None), vec!["", "r", "u", "s", "t", ""]);
    assert_eq!(split("rust", "", Some(true)), vec!["r", "u", "s", "t"]);
    assert_eq!(split("", "", None), vec!["", ""]);
}

#[test]
fn trim_agrees_with_std() {
    for text in ["", " ", "a", " a", "a ", "  a b  ", "\t\na\u{a0}", "\u{3000}x\u{2003}", " \u{200b} "] {
        assert_eq!(trim(text), text.trim(), "text {text:?}");
    }
}

#[test]
fn prefix_and_suffix_checks() {
    assert!(startswith("foobar", "foo"));
    assert!(!startswith("foobar", "bar"));
    assert!(startswith("foobar", ""));
    assert!(endswith("foobar", "bar"));
    assert!(!endswith("foobar", "foo"));
    assert!(!endswith("ar", "bar"));
}

#[test]
fn joinpath_joins_from_left_to_right() {
    let parts = |items: &[&str]| -> Vec<GuestValue> {
        items.iter().map(|s| GuestValue::Str(s.to_string())).collect()
    };
    assert_eq!(joinpath(&parts(&["a", "b", "c"]), "/"), Ok("a/b/c".to_string()));
    assert_eq!(joinpath(&parts(&["a"]), "/"), Ok("a".to_string()));
    assert_eq!(joinpath(&parts(&["a/", "b"]), "/"), Ok("a/b".to_string()));
    assert_eq!(joinpath(&parts(&["a", "/b", "c"]), "/"), Ok("/b/c".to_string()));
    assert_eq!(joinpath(&parts(&["", "b"]), "/"), Ok("b".to_string()));
}

#[test]
fn joinpath_agrees_with_std() {
    let cases: Vec<Vec<&str>> = vec![
        vec!["a", "b"],
        vec!["/a", "b", "c"],
        vec!["a", "/b"],
        vec!["a/", "b/", "c"],
        vec!["", "a"],
        vec!["a", ""],
        vec!["/", "a"],
    ];
    for case in cases {
        let mut expected = std::path::PathBuf::from(case[0]);
        for part in &case[1..] {
            expected = expected.join(part);
        }
        let values: Vec<GuestValue> = case.iter().map(|s| GuestValue::Str(s.to_string())).collect();
        assert_eq!(
            joinpath(&values, "/"),
            Ok(expected.to_string_lossy().to_string()),
            "case {case:?}"
        );
    }
    assert_eq!(continue_path("a", "b", "/"), "a/b");
}

#[test]
fn joinpath_refuses_no_parts_and_parts_that_are_no_strings() {
    assert_eq!(joinpath(&vec![], "/"), Err(Failure::MissingPathPart));
    let mixed = vec![GuestValue::Str("a".into()), GuestValue::Integer(1), GuestValue::Nil];
    assert_eq!(
        joinpath(&mixed, "/"),
        Err(Failure::Conversion { from: Kind::Integer, to: Target::Path })
    );
    assert_eq!(
        lua_value_to_pathbuf(&GuestValue::Table(Table::new())),
        Err(Failure::Conversion { from: Kind::Table, to: Target::Path })
    );
    assert_eq!(lua_value_to_pathbuf(&GuestValue::Str("p".into())), Ok("p".to_string()));
    assert_eq!(
        Failure::Conversion { from: Kind::Table, to: Target::Path }.message(),
        "error converting Lua table to Path (expected a string value)"
    );
}
