use pslxserver::server::atoms::AtomTable;
use pslxserver::server::predefined;

#[test]
fn test_predefined_atoms() {
    let table = AtomTable::new();
    assert_eq!(table.get_id("PRIMARY"), Some(predefined::PRIMARY));
    assert_eq!(table.get_id("WM_NAME"), Some(predefined::WM_NAME));
    assert_eq!(table.get_id("WM_CLASS"), Some(predefined::WM_CLASS));
    assert_eq!(table.get_name(predefined::STRING), Some("STRING".to_string()));
}

#[test]
fn test_intern_new_atom() {
    let mut table = AtomTable::new();
    let id = table.intern("_NET_WM_NAME", false).unwrap();
    assert!(id > predefined::LAST_PREDEFINED);
    assert_eq!(table.get_name(id), Some("_NET_WM_NAME".to_string()));

    // Interning again returns same ID
    let id2 = table.intern("_NET_WM_NAME", false).unwrap();
    assert_eq!(id, id2);
}

#[test]
fn test_intern_only_if_exists() {
    let mut table = AtomTable::new();
    // Predefined atom exists
    assert!(table.intern("PRIMARY", true).is_some());
    // Unknown atom with only_if_exists returns None
    assert!(table.intern("DOES_NOT_EXIST", true).is_none());
}
