use omarchy_hotspot::settings::{key_action, DeviceAction, Focus, Item, Key, KeyAction, Section};

#[test]
fn arrows_move_in_the_focused_list() {
    let k = |key, focus, section| key_action(key, None, false, section, focus, None, false);
    assert_eq!(k(Key::Down, Focus::Sections, Section::Radio), KeyAction::MoveSection { down: true });
    assert_eq!(k(Key::Up, Focus::Items, Section::Devices), KeyAction::MoveDevice { down: false });
    assert_eq!(k(Key::Down, Focus::Items, Section::Radio), KeyAction::MoveItem { down: true });
    assert_eq!(k(Key::Right, Focus::Sections, Section::Radio), KeyAction::OpenItems);
    assert_eq!(k(Key::Enter, Focus::Sections, Section::Devices), KeyAction::OpenItems);
    assert_eq!(k(Key::Esc, Focus::Items, Section::Radio), KeyAction::CloseItems);
    assert_eq!(k(Key::Esc, Focus::Sections, Section::Radio), KeyAction::Unhandled);
}

#[test]
fn left_and_right_change_values_of_choices_only() {
    let k = |key, item| key_action(key, None, false, Section::Radio, Focus::Items, Some(item), false);
    assert_eq!(k(Key::Right, Item::Band), KeyAction::Step { item: Item::Band, forward: true });
    assert_eq!(k(Key::Left, Item::Hidden), KeyAction::Step { item: Item::Hidden, forward: false });
    assert_eq!(k(Key::Left, Item::Log), KeyAction::CloseItems);
    assert_eq!(k(Key::Right, Item::Log), KeyAction::Nothing);
    assert_eq!(k(Key::Enter, Item::Country), KeyAction::Enter(Item::Country));
}

#[test]
fn letters_save_generate_and_act_on_devices() {
    let k = |hot, section, focus, item, busy| {
        key_action(Key::Char('x'), Some(hot), false, section, focus, item, busy)
    };
    assert_eq!(k('s', Section::Radio, Focus::Sections, None, false), KeyAction::Save);
    let pw = Some(Item::Password);
    assert_eq!(k('g', Section::Security, Focus::Items, pw, false), KeyAction::AskGenerate);
    assert_eq!(k('g', Section::Security, Focus::Items, pw, true), KeyAction::Nothing);
    assert_eq!(k('g', Section::Radio, Focus::Items, None, false), KeyAction::Unhandled);
    assert_eq!(
        k('b', Section::Devices, Focus::Items, None, false),
        KeyAction::Device(DeviceAction::ToggleBlock)
    );
    assert_eq!(k('b', Section::Devices, Focus::Sections, None, false), KeyAction::Unhandled);
    assert_eq!(
        key_action(Key::Enter, None, false, Section::Devices, Focus::Items, None, false),
        KeyAction::Device(DeviceAction::Allow)
    );
    assert_eq!(
        key_action(Key::PageUp, None, false, Section::Expert, Focus::Items, None, false),
        KeyAction::ScrollLog { older: true }
    );
    assert_eq!(
        key_action(Key::Char('s'), Some('s'), true, Section::Radio, Focus::Items, None, false),
        KeyAction::Input
    );
}
