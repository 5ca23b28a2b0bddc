use dfim::failure::Failure;
use dfim::registry::{Registry, Slot};
use dfim::value::Kind;

#[test]
fn unset_flag_reads_false() {
    let r = Registry::new();
    assert!(!r.get_registry_flag("dfim-flag-layer-created"));
    assert_eq!(r.get("dfim-flag-layer-created"), None);
}

#[test]
fn flag_reads_back_and_can_be_overwritten() {
    let mut r = Registry::new();
    assert_eq!(r.set_registry_flag("a", true), Ok(()));
    assert!(r.get_registry_flag("a"));
    assert!(!r.get_registry_flag("b"));
    assert_eq!(r.set_registry_flag("a", false), Ok(()));
    assert!(!r.get_registry_flag("a"));
    assert_eq!(r.get("a"), Some(Slot::Flag(false)));
    assert_eq!(r.cells.len(), 1);
}

#[test]
fn key_taken_by_another_kind_cannot_become_a_flag() {
    let mut r = Registry::new();
    r.put("dfim-sources", Slot::Other(Kind::Table));
    assert_eq!(
        r.set_registry_flag("dfim-sources", true),
        Err(Failure::RegistryTypeConflict { key: "dfim-sources".into() })
    );
    assert_eq!(r.get("dfim-sources"), Some(Slot::Other(Kind::Table)));
    assert!(r.get_registry_flag("dfim-sources"));
    assert_eq!(
        Failure::RegistryTypeConflict { key: "dfim-sources".into() }.message(),
        "registry already contains `dfim-sources` and is not a boolean value"
    );
}

#[test]
fn later_cell_for_a_key_decides() {
    let mut r = Registry::new();
    r.put("k", Slot::Flag(true));
    r.put("other", Slot::Flag(true));
    r.put("k", Slot::Flag(false));
    assert_eq!(r.get("k"), Some(Slot::Flag(false)));
    assert_eq!(r.get("other"), Some(Slot::Flag(true)));
    assert_eq!(r.cells.len(), 2);
}
