use omarchy_hotspot::editor::{EditField, Editor};
use omarchy_hotspot::error::CoreError;
use omarchy_hotspot::password::PasswordError;
use omarchy_hotspot::ssid::SsidError;

#[test]
fn typing_goes_to_the_current_field() {
    let mut e = Editor::new("Home");
    assert_eq!(e.field, EditField::Ssid);
    e.push_char('!');
    assert_eq!(e.ssid, "Home!");
    e.toggle_field();
    assert_eq!(e.field, EditField::Password);
    e.push_char('x');
    e.push_char('y');
    e.backspace();
    assert_eq!(e.password, "x");
    assert_eq!(e.ssid, "Home!");
    e.backspace();
    e.backspace();
    assert_eq!(e.password, "");
    e.toggle_field();
    e.backspace();
    assert_eq!(e.ssid, "Home");
}

#[test]
fn submit_checks_name_then_password() {
    let mut e = Editor::new("   ");
    assert!(e.submit().is_none());
    assert!(matches!(e.error, Some(CoreError::Ssid(SsidError::Empty))));
    e.push_char('N');
    assert!(e.error.is_none(), "typing clears the refusal");
    e.toggle_field();
    for c in "short".chars() {
        e.push_char(c);
    }
    assert!(e.submit().is_none());
    assert!(matches!(e.error, Some(CoreError::Password(PasswordError::TooShort))));
    assert_eq!(e.password, "short", "a refused password stays for correction");
}

#[test]
fn submit_hands_on_trimmed_name_and_password() {
    let mut e = Editor::new("  Сеть Жени ");
    let s = e.submit().unwrap();
    assert_eq!(s.ssid, "Сеть Жени");
    assert!(s.password.is_none());
    assert!(!s.weak);

    e.toggle_field();
    for c in "abcdefgh".chars() {
        e.push_char(c);
    }
    let s = e.submit().unwrap();
    assert_eq!(s.password.unwrap().expose(), "abcdefgh");
    assert!(s.weak);
    assert_eq!(e.password, "", "the password left the editor");
}

#[test]
fn generate_only_fills_an_empty_password() {
    let mut e = Editor::new("Home");
    e.generate();
    assert_eq!(e.password, "", "not on the name field");
    e.toggle_field();
    e.generate();
    assert_eq!(e.password.chars().count(), 16);
    let first = e.password.clone();
    e.generate();
    assert_eq!(e.password, first, "a typed password is not replaced");
}
