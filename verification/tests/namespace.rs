use dfim::failure::Failure;
use dfim::namespace::{
    classify_segment, container, create_table_in, ensure_container, get_nested_field, parse_path,
    set_nested_field, Segment,
};
use dfim::value::{GuestValue, Handle, Key, Kind, Table};

fn name(s: &str) -> Key {
    Key::Name(s.into())
}

#[test]
fn ensure_container_creates_each_segment() {
    let mut root = Table::new();
    assert_eq!(ensure_container(&mut root, "a.b.c"), Ok(()));
    let mut c = Table::new();
    c.set(name("c"), GuestValue::Table(Table::new()));
    let mut b = Table::new();
    b.set(name("b"), GuestValue::Table(c));
    let mut expected = Table::new();
    expected.set(name("a"), GuestValue::Table(b));
    assert_eq!(root, expected);
    assert_eq!(container(&root, "a.b.c"), Some(&Table::new()));
}

#[test]
fn ensure_container_twice_gives_the_same_container() {
    let mut root = Table::new();
    assert_eq!(ensure_container(&mut root, "a.b.c"), Ok(()));
    set_nested_field(&mut root, "a.b.c.mark", GuestValue::Integer(7)).unwrap();
    let first = format!("{:?}", container(&root, "a.b.c"));
    let before = format!("{root:?}");
    assert_eq!(ensure_container(&mut root, "a.b.c"), Ok(()));
    assert_eq!(format!("{root:?}"), before);
    assert_eq!(format!("{:?}", container(&root, "a.b.c")), first);
    assert_eq!(container(&root, "a.b.c").unwrap().get(&name("mark")), Some(&GuestValue::Integer(7)));
}

#[test]
fn leaf_blocks_what_is_below_it_but_not_what_is_above() {
    let mut root = Table::new();
    assert_eq!(set_nested_field(&mut root, "a.b.c", GuestValue::Str("leaf".into())), Ok(()));
    assert_eq!(ensure_container(&mut root, "a.b"), Ok(()));
    let before = format!("{root:?}");
    assert_eq!(
        ensure_container(&mut root, "a.b.c.d"),
        Err(Failure::NamespaceConflict { segment: "c".into(), kind: Kind::String })
    );
    assert_eq!(format!("{root:?}"), before);
    assert_eq!(
        ensure_container(&mut root, "a.b.c"),
        Err(Failure::NamespaceConflict { segment: "c".into(), kind: Kind::String })
    );
    assert_eq!(
        set_nested_field(&mut root, "a.b.c.d", GuestValue::Integer(1)),
        Err(Failure::NamespaceConflict { segment: "c".into(), kind: Kind::String })
    );
}

#[test]
fn set_nested_overwrites_the_last_segment_whatever_it_held() {
    let mut root = Table::new();
    set_nested_field(&mut root, "a.b", GuestValue::Integer(1)).unwrap();
    set_nested_field(&mut root, "a.b", GuestValue::Boolean(true)).unwrap();
    assert_eq!(container(&root, "a").unwrap().get(&name("b")), Some(&GuestValue::Boolean(true)));
    set_nested_field(&mut root, "a", GuestValue::Integer(2)).unwrap();
    assert_eq!(root.get(&name("a")), Some(&GuestValue::Integer(2)));
    assert_eq!(root.len(), 1);
}

#[test]
fn single_segment_is_set_on_the_root() {
    let mut root = Table::new();
    assert_eq!(set_nested_field(&mut root, "x", GuestValue::Integer(5)), Ok(()));
    let mut expected = Table::new();
    expected.set(name("x"), GuestValue::Integer(5));
    assert_eq!(root, expected);
}

#[test]
fn storing_nil_removes_the_last_segment() {
    let mut root = Table::new();
    set_nested_field(&mut root, "a.b", GuestValue::Integer(1)).unwrap();
    set_nested_field(&mut root, "a.b", GuestValue::Nil).unwrap();
    assert_eq!(container(&root, "a"), Some(&Table::new()));
}

#[test]
fn empty_dotted_name_is_refused() {
    let mut root = Table::new();
    assert_eq!(ensure_container(&mut root, ""), Err(Failure::EmptyModulePath));
    assert_eq!(set_nested_field(&mut root, "", GuestValue::Nil), Err(Failure::EmptyModulePath));
    assert_eq!(root, Table::new());
    assert_eq!(container(&root, ""), None);
}

#[test]
fn empty_inner_segment_is_refused() {
    let mut root = Table::new();
    assert_eq!(
        set_nested_field(&mut root, "a..b", GuestValue::Integer(1)),
        Err(Failure::EmptyModulePath)
    );
    assert_eq!(ensure_container(&mut root, "a..b.c"), Err(Failure::EmptyModulePath));
    assert_eq!(root, Table::new());
    assert_eq!(parse_path("a.b"), Ok(vec!["a".to_string(), "b".to_string()]));
    assert_eq!(parse_path("a."), Ok(vec!["a".to_string(), "".to_string()]));
    assert_eq!(parse_path(".a"), Ok(vec!["".to_string(), "a".to_string()]));
    assert_eq!(parse_path("."), Ok(vec!["".to_string(), "".to_string()]));
    assert_eq!(parse_path(".."), Err(Failure::EmptyModulePath));
}

#[test]
fn create_table_in_does_not_split_the_name() {
    let mut root = Table::new();
    assert_eq!(create_table_in(&mut root, "a.b"), Ok(()));
    assert_eq!(root.get(&name("a.b")), Some(&GuestValue::Table(Table::new())));
    assert_eq!(root.get(&name("a")), None);
    assert_eq!(create_table_in(&mut root, "a.b"), Ok(()));
    assert_eq!(root.len(), 1);
    root.set(name("n"), GuestValue::Integer(1));
    assert_eq!(
        create_table_in(&mut root, "n"),
        Err(Failure::NamespaceConflict { segment: "n".into(), kind: Kind::Integer })
    );
    assert_eq!(
        Failure::NamespaceConflict { segment: "n".into(), kind: Kind::Integer }.message(),
        "cannot create table `n`, value exists with type `integer`"
    );
}

#[test]
fn conflict_names_the_kind_that_is_in_the_way() {
    let mut root = Table::new();
    root.set(name("f"), GuestValue::Opaque(Handle::Function));
    root.set(name("b"), GuestValue::Boolean(false));
    assert_eq!(
        ensure_container(&mut root, "f.x"),
        Err(Failure::NamespaceConflict { segment: "f".into(), kind: Kind::Function })
    );
    assert_eq!(
        ensure_container(&mut root, "b"),
        Err(Failure::NamespaceConflict { segment: "b".into(), kind: Kind::Boolean })
    );
    assert_eq!(container(&root, "f"), None);
    assert_eq!(container(&root, "missing"), None);
}

#[test]
fn existing_entries_are_kept_in_place() {
    let mut root = Table::new();
    root.set(name("first"), GuestValue::Integer(1));
    ensure_container(&mut root, "a").unwrap();
    root.set(name("last"), GuestValue::Integer(3));
    ensure_container(&mut root, "a.b").unwrap();
    assert_eq!(root.position(&name("first")), Some(0));
    assert_eq!(root.position(&name("a")), Some(1));
    assert_eq!(root.position(&name("last")), Some(2));
}

#[test]
fn stored_value_reads_back() {
    let mut root = Table::new();
    set_nested_field(&mut root, "a.b.c", GuestValue::Integer(9)).unwrap();
    set_nested_field(&mut root, "top", GuestValue::Boolean(true)).unwrap();
    assert_eq!(get_nested_field(&root, "a.b.c"), Some(&GuestValue::Integer(9)));
    assert_eq!(get_nested_field(&root, "top"), Some(&GuestValue::Boolean(true)));
    assert_eq!(get_nested_field(&root, "a.b"), container(&root, "a.b").map(|_| root.get_name("a").and_then(|a| match a {
        GuestValue::Table(t) => t.get_name("b"),
        _ => None,
    })).flatten());
    assert_eq!(get_nested_field(&root, "a.b.c.d"), None);
    assert_eq!(get_nested_field(&root, "a.x"), None);
    assert_eq!(get_nested_field(&root, ""), None);
    set_nested_field(&mut root, "a.b.c", GuestValue::Nil).unwrap();
    assert_eq!(get_nested_field(&root, "a.b.c"), None);
}

#[test]
fn segments_are_classified_by_kind() {
    assert_eq!(classify_segment(Kind::Nil), Segment::Free);
    assert_eq!(classify_segment(Kind::Table), Segment::Container);
    for kind in [
        Kind::Boolean,
        Kind::Integer,
        Kind::Number,
        Kind::String,
        Kind::Function,
        Kind::Thread,
        Kind::UserData,
        Kind::LightUserData,
        Kind::Error,
    ] {
        assert_eq!(classify_segment(kind), Segment::Taken(kind));
    }
}
