use pslxserver::wm::rootless::{RootlessManager, WindowType};

#[test]
fn windows_are_registered_and_forgotten() {
    let mut m = RootlessManager::new();
    assert_eq!(m.get_native_id(7), None);
    m.register_window(7, 70);
    m.register_window(8, 80);
    assert_eq!(m.get_native_id(7), Some(70));
    assert_eq!(m.get_native_id(8), Some(80));
    m.register_window(7, 71);
    assert_eq!(m.get_native_id(7), Some(71));
    m.unregister_window(7);
    assert_eq!(m.get_native_id(7), None);
    assert_eq!(m.get_native_id(8), Some(80));
}

#[test]
fn window_types_are_kept() {
    let mut m = RootlessManager::new();
    m.register_window(7, 70);
    assert!(m.windows[&7].window_type == WindowType::Normal);
    assert!(WindowType::default() == WindowType::Normal);
    m.set_window_type(7, WindowType::Dialog);
    m.set_window_type(9, WindowType::Menu);
    assert!(m.windows[&7].window_type == WindowType::Dialog);
    assert!(!m.windows.contains_key(&9));
    assert_eq!(m.get_native_id(7), Some(70));
}
