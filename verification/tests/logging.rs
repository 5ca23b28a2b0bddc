use dfim::logging::{fmt_target, level_number, log, Level};
use dfim::value::{GuestValue, Key, Table};

#[test]
fn levels_have_their_numbers() {
    assert_eq!(level_number(Level::Error), 1);
    assert_eq!(level_number(Level::Warn), 2);
    assert_eq!(level_number(Level::Info), 3);
    assert_eq!(level_number(Level::Debug), 4);
    assert_eq!(level_number(Level::Trace), 5);
}

#[test]
fn numbers_stand_for_levels_and_the_rest_is_info() {
    for level in [Level::Error, Level::Warn, Level::Info, Level::Debug, Level::Trace] {
        assert_eq!(log(Some(level_number(level))), level);
    }
    assert_eq!(log(None), Level::Info);
    assert_eq!(log(Some(0)), Level::Info);
    assert_eq!(log(Some(6)), Level::Info);
    assert_eq!(log(Some(usize::MAX)), Level::Info);
}

#[test]
fn target_is_prefixed() {
    assert_eq!(fmt_target(None), "LUA");
    assert_eq!(fmt_target(Some(&Table::new())), "LUA");
    let mut opts = Table::new();
    opts.set(Key::Name("target".into()), GuestValue::Str("plugin".into()));
    assert_eq!(fmt_target(Some(&opts)), "LUA::plugin");
    opts.set(Key::Name("target".into()), GuestValue::Str("".into()));
    assert_eq!(fmt_target(Some(&opts)), "LUA");
    opts.set(Key::Name("target".into()), GuestValue::Boolean(true));
    assert_eq!(fmt_target(Some(&opts)), "LUA");
    opts.set(Key::Name("target".into()), GuestValue::Integer(7));
    assert_eq!(fmt_target(Some(&opts)), "LUA::7");
}
