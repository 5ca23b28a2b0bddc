use dfim::value::{GuestValue, Handle, Key, Kind, Table};

#[test]
fn table_reads_back_what_was_set() {
    let mut t = Table::new();
    t.set(Key::Index(1), GuestValue::Str("a".into()));
    t.set(Key::Name("k".into()), GuestValue::Integer(2));
    assert_eq!(t.len(), 2);
    assert_eq!(t.get_index(1), Some(&GuestValue::Str("a".into())));
    assert_eq!(t.get_name("k"), Some(&GuestValue::Integer(2)));
    assert_eq!(t.get_name("1"), None);
    assert_eq!(t.get_index(2), None);
}

#[test]
fn table_set_replaces_in_place_and_nil_removes() {
    let mut t = Table::new();
    t.set(Key::Name("a".into()), GuestValue::Integer(1));
    t.set(Key::Name("b".into()), GuestValue::Integer(2));
    t.set(Key::Name("a".into()), GuestValue::Integer(3));
    assert_eq!(t.position(&Key::Name("a".into())), Some(0));
    assert_eq!(t.get_name("a"), Some(&GuestValue::Integer(3)));
    t.set(Key::Name("a".into()), GuestValue::Nil);
    assert_eq!(t.len(), 1);
    assert_eq!(t.position(&Key::Name("b".into())), Some(0));
    t.set(Key::Name("zz".into()), GuestValue::Nil);
    assert_eq!(t.len(), 1);
}

#[test]
fn capacity_does_not_show() {
    assert_eq!(Table::with_capacity(16), Table::new());
    assert_eq!(Table::with_capacity(0).len(), 0);
}

#[test]
fn keys_are_told_apart_by_kind_and_content() {
    assert!(Key::Index(1).same(&Key::Index(1)));
    assert!(!Key::Index(1).same(&Key::Index(2)));
    assert!(!Key::Index(1).same(&Key::Name("1".into())));
    assert!(Key::Name("a".into()).same(&Key::Name("a".into())));
    assert!(!Key::Name("a".into()).same(&Key::Name("ab".into())));
}

#[test]
fn kinds_and_text() {
    assert_eq!(GuestValue::Nil.kind(), Kind::Nil);
    assert_eq!(GuestValue::Number(0).kind(), Kind::Number);
    assert_eq!(GuestValue::Table(Table::new()).kind(), Kind::Table);
    assert_eq!(GuestValue::Opaque(Handle::Thread).kind(), Kind::Thread);
    assert!(GuestValue::Nil.is_nil());
    assert!(!GuestValue::Boolean(false).is_nil());
    assert_eq!(GuestValue::string("x"), GuestValue::Str("x".into()));
    assert_eq!(GuestValue::Str("x".into()).text(), Some("x".to_string()));
    assert_eq!(GuestValue::Integer(-120).text(), Some("-120".to_string()));
    assert_eq!(GuestValue::Boolean(true).text(), None);
    assert_eq!(GuestValue::Number(1).text(), None);
}
