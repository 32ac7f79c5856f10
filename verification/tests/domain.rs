use wayclick::domain::{Action, CompiledRule, InputEvent, MouseButton, SoundId};

#[test]
fn evdev_code_ladder() {
    assert_eq!(MouseButton::from_evdev_code(0x110), Some(MouseButton::Left));
    assert_eq!(
        MouseButton::from_evdev_code(0x111),
        Some(MouseButton::Right)
    );
    assert_eq!(
        MouseButton::from_evdev_code(0x112),
        Some(MouseButton::Middle)
    );
    assert_eq!(MouseButton::from_evdev_code(0x113), Some(MouseButton::Back)); // SIDE
    assert_eq!(MouseButton::from_evdev_code(0x116), Some(MouseButton::Back)); // BACK
    assert_eq!(
        MouseButton::from_evdev_code(0x114),
        Some(MouseButton::Forward)
    ); // EXTRA
    assert_eq!(
        MouseButton::from_evdev_code(0x115),
        Some(MouseButton::Forward)
    ); // FORWARD
    // A keyboard key is not a button.
    assert_eq!(MouseButton::from_evdev_code(30), None); // KEY_A
}

#[test]
fn cg_and_windows_ladders() {
    assert_eq!(MouseButton::from_cg_button_number(3), MouseButton::Back);
    assert_eq!(MouseButton::from_cg_button_number(9), MouseButton::Other(9));
    assert_eq!(MouseButton::from_windows_xbutton(1), MouseButton::Back);
    assert_eq!(MouseButton::from_windows_xbutton(2), MouseButton::Forward);
}

#[test]
fn evdev_task_button_is_unnamed() {
    assert_eq!(
        MouseButton::from_evdev_code(0x117),
        Some(MouseButton::Other(0x117))
    );
    assert_eq!(MouseButton::from_evdev_code(0x10f), None);
    assert_eq!(MouseButton::from_evdev_code(0x118), None);
}

#[test]
fn cg_buttons_named_and_truncated() {
    assert_eq!(MouseButton::from_cg_button_number(0), MouseButton::Left);
    assert_eq!(MouseButton::from_cg_button_number(1), MouseButton::Right);
    assert_eq!(MouseButton::from_cg_button_number(2), MouseButton::Middle);
    assert_eq!(MouseButton::from_cg_button_number(4), MouseButton::Forward);
    // Other numbers are cut to 16 bits.
    assert_eq!(
        MouseButton::from_cg_button_number(65536 + 7),
        MouseButton::Other(7)
    );
    assert_eq!(
        MouseButton::from_cg_button_number(-1),
        MouseButton::Other(65535)
    );
}

#[test]
fn windows_xbutton_other_ids_are_forward() {
    assert_eq!(MouseButton::from_windows_xbutton(0), MouseButton::Forward);
    assert_eq!(MouseButton::from_windows_xbutton(7), MouseButton::Forward);
}

#[test]
fn sound_id_zero_is_reserved() {
    assert_eq!(SoundId::new(0), None);
    assert_eq!(SoundId::new(1).unwrap().get(), 1);
    assert_eq!(SoundId::new(65535).unwrap().get(), 65535);
}

#[test]
fn compiled_rule_keeps_its_parts() {
    let id = SoundId::new(3).unwrap();
    let rule = CompiledRule::new(InputEvent::Key(5), vec![Action::PlaySound(id)]);
    assert_eq!(rule.trigger, InputEvent::Key(5));
    assert_eq!(rule.actions, vec![Action::PlaySound(id)]);
}
