use pslxserver::server::protocol::{event_mask, event_type};

#[test]
fn test_event_mask_bits_are_unique() {
    let masks = [
        event_mask::KEY_PRESS, event_mask::KEY_RELEASE,
        event_mask::BUTTON_PRESS, event_mask::BUTTON_RELEASE,
        event_mask::ENTER_WINDOW, event_mask::LEAVE_WINDOW,
        event_mask::POINTER_MOTION, event_mask::POINTER_MOTION_HINT,
        event_mask::BUTTON1_MOTION, event_mask::BUTTON2_MOTION,
        event_mask::BUTTON3_MOTION, event_mask::BUTTON4_MOTION,
        event_mask::BUTTON5_MOTION, event_mask::BUTTON_MOTION,
        event_mask::KEYMAP_STATE, event_mask::EXPOSURE,
        event_mask::VISIBILITY_CHANGE, event_mask::STRUCTURE_NOTIFY,
        event_mask::RESIZE_REDIRECT, event_mask::SUBSTRUCTURE_NOTIFY,
        event_mask::SUBSTRUCTURE_REDIRECT, event_mask::FOCUS_CHANGE,
        event_mask::PROPERTY_CHANGE, event_mask::COLORMAP_CHANGE,
        event_mask::OWNER_GRAB_BUTTON,
    ];
    for (i, &a) in masks.iter().enumerate() {
        assert!(a.is_power_of_two(), "Mask at index {} is not power of 2: 0x{:08x}", i, a);
        for (j, &b) in masks.iter().enumerate() {
            if i != j {
                assert_eq!(a & b, 0, "Masks at indices {} and {} overlap: 0x{:08x} & 0x{:08x}", i, j, a, b);
            }
        }
    }
}

#[test]
fn test_event_type_codes_match_spec() {
    assert_eq!(event_type::KEY_PRESS, 2);
    assert_eq!(event_type::KEY_RELEASE, 3);
    assert_eq!(event_type::BUTTON_PRESS, 4);
    assert_eq!(event_type::BUTTON_RELEASE, 5);
    assert_eq!(event_type::MOTION_NOTIFY, 6);
    assert_eq!(event_type::ENTER_NOTIFY, 7);
    assert_eq!(event_type::LEAVE_NOTIFY, 8);
    assert_eq!(event_type::FOCUS_IN, 9);
    assert_eq!(event_type::FOCUS_OUT, 10);
    assert_eq!(event_type::EXPOSE, 12);
    assert_eq!(event_type::NO_EXPOSURE, 14);
    assert_eq!(event_type::MAP_NOTIFY, 19);
    assert_eq!(event_type::CONFIGURE_NOTIFY, 22);
    assert_eq!(event_type::SELECTION_NOTIFY, 31);
    assert_eq!(event_type::CLIENT_MESSAGE, 33);
    assert_eq!(event_type::MAPPING_NOTIFY, 34);
}

#[test]
fn test_event_mask_exposure_bit() {
    assert_eq!(event_mask::EXPOSURE, 1 << 15);
    assert_eq!(event_mask::EXPOSURE, 0x8000);
}

#[test]
fn test_event_mask_structure_notify_bit() {
    assert_eq!(event_mask::STRUCTURE_NOTIFY, 1 << 17);
    assert_eq!(event_mask::STRUCTURE_NOTIFY, 0x20000);
}
