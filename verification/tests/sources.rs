use dfim::failure::{Failure, Policy, SourceFault, Target};
use dfim::registry::Slot;
use dfim::source::Source;
use dfim::sources::Session;
use dfim::value::{GuestValue, Key, Kind, Table};

fn named(name: &str, key: &str, value: &str) -> GuestValue {
    let mut t = Table::new();
    t.set(Key::Name("name".into()), GuestValue::Str(name.into()));
    t.set(Key::Name(key.into()), GuestValue::Str(value.into()));
    GuestValue::Table(t)
}

#[test]
fn set_sources_replaces_the_collection() {
    let mut s = Session::new();
    let given = vec![
        GuestValue::Str("foo/bar".into()),
        named("x", "dir", "/tmp/x"),
        named("y", "file", "/tmp/y.lua"),
    ];
    assert_eq!(s.set_sources(&given), Ok(false));
    assert_eq!(s.sources.len(), 3);
    assert_eq!(s.sources.get("bar"), Some(&Source::Repo("foo/bar".into())));
    assert_eq!(s.sources.get("x"), Some(&Source::Directory("/tmp/x".into())));
    assert_eq!(s.sources.get("y"), Some(&Source::File("/tmp/y.lua".into())));
    assert_eq!(s.sources.entries[0].name, "bar");
    assert_eq!(s.sources.entries[2].name, "y");
    assert!(s.registry.get_registry_flag("dfim-flag-source-registered"));
    assert_eq!(s.set_sources(&vec![GuestValue::Str("only".into())]), Ok(true));
    assert_eq!(s.sources.len(), 1);
    assert!(s.sources.contains("only"));
    assert!(!s.sources.contains("bar"));
}

#[test]
fn second_source_under_one_name_is_refused() {
    let mut s = Session::new();
    s.set_sources(&vec![GuestValue::Str("keep".into())]).unwrap();
    let given = vec![named("x", "dir", "/a"), named("x", "dir", "/b")];
    assert_eq!(s.set_sources(&given), Err(Failure::DuplicateSourceName { name: "x".into() }));
    assert_eq!(s.sources.len(), 1);
    assert!(s.sources.contains("keep"));
    let derived = vec![GuestValue::Str("a/x".into()), GuestValue::Str("b/x".into())];
    assert_eq!(s.set_sources(&derived), Err(Failure::DuplicateSourceName { name: "x".into() }));
    assert_eq!(
        Failure::DuplicateSourceName { name: "x".into() }.message(),
        "source name `x` already exists"
    );
}

#[test]
fn empty_source_name_is_refused() {
    let mut s = Session::new();
    assert_eq!(s.set_sources(&vec![named("", "dir", "/a")]), Err(Failure::EmptySourceName));
    assert_eq!(s.set_sources(&vec![GuestValue::Str("foo/".into())]), Err(Failure::EmptySourceName));
    assert_eq!(s.sources.len(), 0);
    assert!(!s.registry.get_registry_flag("dfim-flag-source-registered"));
}

#[test]
fn given_name_wins_over_derived_name() {
    let mut s = Session::new();
    let mut t = Table::new();
    t.set(Key::Index(1), GuestValue::Str("foo/bar".into()));
    t.set(Key::Name("name".into()), GuestValue::Str("mine".into()));
    assert_eq!(s.set_sources(&vec![GuestValue::Table(t)]), Ok(false));
    assert_eq!(s.sources.get("mine"), Some(&Source::Repo("foo/bar".into())));
    assert_eq!(s.sources.get("bar"), None);
}

#[test]
fn replacing_fails_once_a_layer_exists() {
    let mut s = Session::new();
    let given = vec![GuestValue::Str("foo/bar".into())];
    assert_eq!(s.set_sources(&given), Ok(false));
    s.registry.set_registry_flag("dfim-flag-layer-created", true).unwrap();
    assert_eq!(s.set_sources(&given), Err(Failure::PolicyViolation(Policy::SourcesFrozen)));
    assert_eq!(s.set_sources(&vec![]), Err(Failure::PolicyViolation(Policy::SourcesFrozen)));
    assert_eq!(s.sources.len(), 1);
    assert_eq!(
        Failure::PolicyViolation(Policy::SourcesFrozen).message(),
        "sources cannot be changed after a layer has been created"
    );
    s.registry.set_registry_flag("dfim-flag-layer-created", false).unwrap();
    assert_eq!(s.set_sources(&given), Ok(true));
}

#[test]
fn value_that_is_no_source_stops_the_replacement() {
    let mut s = Session::new();
    let given = vec![GuestValue::Str("ok".into()), GuestValue::Integer(3), named("", "dir", "/")];
    assert_eq!(
        s.set_sources(&given),
        Err(Failure::Conversion { from: Kind::Integer, to: Target::Source })
    );
    let blank = vec![GuestValue::Str("  ".into())];
    assert_eq!(s.set_sources(&blank), Err(Failure::SourceParse(SourceFault::Blank)));
    assert_eq!(s.sources.len(), 0);
}

#[test]
fn flag_key_taken_by_another_value_is_reported() {
    let mut s = Session::new();
    s.registry.put("dfim-flag-source-registered", Slot::Other(Kind::String));
    assert_eq!(
        s.set_sources(&vec![GuestValue::Str("a".into())]),
        Err(Failure::RegistryTypeConflict { key: "dfim-flag-source-registered".into() })
    );
    assert_eq!(s.sources.len(), 1);
}

#[test]
fn get_sources_lists_each_source_under_its_name() {
    let mut s = Session::new();
    s.set_sources(&vec![GuestValue::Str("foo/bar".into()), named("x", "dir", "/tmp/x")]).unwrap();
    let listed = s.get_sources();
    assert_eq!(listed.len(), 2);
    assert_eq!(listed.get_name("bar"), Some(&GuestValue::Str("foo/bar".into())));
    let mut dir = Table::new();
    dir.set(Key::Name("dir".into()), GuestValue::Str("/tmp/x".into()));
    assert_eq!(listed.get_name("x"), Some(&GuestValue::Table(dir)));
    assert_eq!(Session::new().get_sources(), Table::new());
}
