use evdev::KeyCode;

use wayclick::backend::evdev_backend::{
    is_interesting, is_keyboard, is_mouse, is_trackpad_name, key_event, names_trackpad,
    probe_permission, should_open, translate_key, DeviceCaps, EvdevBackend,
};
use wayclick::backend::windows_backend::{
    clear_sender, keyboard_hook_event, mouse_hook_event, start_sender, WindowsBackend,
};
use wayclick::backend::BackendError;
use wayclick::domain::{InputEvent, MouseButton};

#[test]
fn translate_key_maps_buttons() {
    assert_eq!(
        translate_key(KeyCode::BTN_LEFT.code()),
        InputEvent::Mouse(MouseButton::Left)
    );
    assert_eq!(
        translate_key(KeyCode::BTN_RIGHT.code()),
        InputEvent::Mouse(MouseButton::Right)
    );
    assert_eq!(
        translate_key(KeyCode::BTN_MIDDLE.code()),
        InputEvent::Mouse(MouseButton::Middle)
    );
    // SIDE/BACK and EXTRA/FORWARD collapse to Back/Forward.
    assert_eq!(
        translate_key(KeyCode::BTN_SIDE.code()),
        InputEvent::Mouse(MouseButton::Back)
    );
    assert_eq!(
        translate_key(KeyCode::BTN_BACK.code()),
        InputEvent::Mouse(MouseButton::Back)
    );
    assert_eq!(
        translate_key(KeyCode::BTN_EXTRA.code()),
        InputEvent::Mouse(MouseButton::Forward)
    );
    assert_eq!(
        translate_key(KeyCode::BTN_FORWARD.code()),
        InputEvent::Mouse(MouseButton::Forward)
    );
}

#[test]
fn translate_key_maps_keyboard() {
    // A normal keyboard keycode maps to Key(code).
    assert_eq!(
        translate_key(KeyCode::KEY_A.code()),
        InputEvent::Key(KeyCode::KEY_A.code())
    );
}

#[test]
fn translate_key_unnamed_button_and_keys() {
    assert_eq!(
        translate_key(KeyCode::BTN_TASK.code()),
        InputEvent::Mouse(MouseButton::Other(0x117))
    );
    assert_eq!(translate_key(0x118), InputEvent::Key(0x118));
    assert_eq!(translate_key(272), InputEvent::Mouse(MouseButton::Left));
}

#[test]
fn only_press_edges_are_forwarded() {
    let code = KeyCode::KEY_SPACE.code();
    assert_eq!(key_event(0, code, false, false), None);
    assert_eq!(key_event(2, code, false, false), None);
    assert_eq!(key_event(1, code, false, false), Some(InputEvent::Key(code)));
    assert_eq!(key_event(1, code, true, false), Some(InputEvent::Ignored));
    assert_eq!(key_event(1, code, true, true), Some(InputEvent::Key(code)));
    assert_eq!(
        key_event(1, 0x110, false, false),
        Some(InputEvent::Mouse(MouseButton::Left))
    );
}

#[test]
fn trackpad_names() {
    assert!(is_trackpad_name(Some("SynPS/2 Synaptics TouchPad")));
    assert!(is_trackpad_name(Some("Apple Magic TRACKPAD")));
    assert!(!is_trackpad_name(Some("Logitech USB Receiver Mouse")));
    assert!(!is_trackpad_name(Some("touch pad")));
    assert!(!is_trackpad_name(None));
    assert!(names_trackpad("my trackpad"));
    assert!(!names_trackpad("My Trackpad"));
}

#[test]
fn device_classes() {
    let kb = DeviceCaps {
        key_enter: true,
        key_space: true,
        btn_left: false,
        rel_x: false,
    };
    let mouse = DeviceCaps {
        key_enter: false,
        key_space: false,
        btn_left: true,
        rel_x: true,
    };
    let neither = DeviceCaps {
        key_enter: true,
        key_space: false,
        btn_left: true,
        rel_x: false,
    };
    assert!(is_keyboard(&kb) && !is_mouse(&kb) && is_interesting(&kb));
    assert!(!is_keyboard(&mouse) && is_mouse(&mouse) && is_interesting(&mouse));
    assert!(!is_interesting(&neither));
}

#[test]
fn permission_probe() {
    assert!(probe_permission(&vec![]).is_ok());
    assert!(probe_permission(&vec![false, true]).is_ok());
    assert!(matches!(
        probe_permission(&vec![false, false]),
        Err(BackendError::Permission)
    ));
}

#[test]
fn backends_keep_trackpad_setting() {
    assert!(EvdevBackend::new(true).enable_trackpads());
    assert!(!EvdevBackend::new(false).enable_trackpads());
    assert!(WindowsBackend::new(true).enable_trackpads());
}

#[test]
fn windows_keyboard_hook() {
    assert_eq!(keyboard_hook_event(0, 0x0100, 65), Some(InputEvent::Key(65)));
    assert_eq!(keyboard_hook_event(0, 0x0104, 18), Some(InputEvent::Key(18)));
    assert_eq!(keyboard_hook_event(0, 0x0101, 65), None);
    assert_eq!(keyboard_hook_event(-1, 0x0100, 65), None);
    assert_eq!(
        keyboard_hook_event(0, 0x0100, 0x1_0041),
        Some(InputEvent::Key(0x41))
    );
}

#[test]
fn windows_mouse_hook() {
    assert_eq!(
        mouse_hook_event(0, 0x0201, 0),
        Some(InputEvent::Mouse(MouseButton::Left))
    );
    assert_eq!(
        mouse_hook_event(0, 0x0204, 0),
        Some(InputEvent::Mouse(MouseButton::Right))
    );
    assert_eq!(
        mouse_hook_event(0, 0x0207, 0),
        Some(InputEvent::Mouse(MouseButton::Middle))
    );
    assert_eq!(
        mouse_hook_event(0, 0x020B, 0x0001_0000),
        Some(InputEvent::Mouse(MouseButton::Back))
    );
    assert_eq!(
        mouse_hook_event(0, 0x020B, 0x0002_0000),
        Some(InputEvent::Mouse(MouseButton::Forward))
    );
    assert_eq!(mouse_hook_event(0, 0x0202, 0), None);
    assert_eq!(mouse_hook_event(-3, 0x0201, 0), None);
}

#[test]
fn hotplug_opens_new_interesting_devices() {
    let kb = DeviceCaps {
        key_enter: true,
        key_space: true,
        btn_left: false,
        rel_x: false,
    };
    let other = DeviceCaps {
        key_enter: false,
        key_space: true,
        btn_left: false,
        rel_x: true,
    };
    assert!(should_open(false, &kb));
    assert!(!should_open(true, &kb));
    assert!(!should_open(false, &other));
}

#[test]
fn sender_slot_lifecycle() {
    let mut slot: Option<u8> = None;
    assert!(start_sender(&mut slot, 1).is_ok());
    assert_eq!(slot, Some(1));
    match start_sender(&mut slot, 2) {
        Err(BackendError::Start(m)) => assert_eq!(m, "backend already running"),
        other => panic!("unexpected {other:?}"),
    }
    assert_eq!(slot, Some(1));
    clear_sender(&mut slot);
    assert_eq!(slot, None);
    assert!(start_sender(&mut slot, 3).is_ok());
}
