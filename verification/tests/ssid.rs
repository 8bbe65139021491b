use omarchy_hotspot::ssid::{truncate_bytes, validate_ssid, SsidError};

#[test]
fn validates() {
    assert_eq!(validate_ssid("Omarchy-pc"), Ok(()));
    assert_eq!(validate_ssid("Сеть Жени"), Ok(()));
    assert_eq!(validate_ssid(""), Err(SsidError::Empty));
    assert_eq!(validate_ssid(&"a".repeat(32)), Ok(()));
    assert_eq!(validate_ssid(&"a".repeat(33)), Err(SsidError::TooLong));
    assert_eq!(validate_ssid(&"ж".repeat(17)), Err(SsidError::TooLong));
    assert_eq!(validate_ssid("a\nb"), Err(SsidError::ControlChars));
    assert_eq!(validate_ssid("a\u{7f}"), Err(SsidError::ControlChars));
}

#[test]
fn truncates_on_char_boundary() {
    assert_eq!(truncate_bytes("жжж", 5), "жж");
    assert_eq!(truncate_bytes("abc", 5), "abc");
}

#[test]
fn too_long_wins_over_control_chars() {
    let s = format!("{}\n", "a".repeat(40));
    assert_eq!(validate_ssid(&s), Err(SsidError::TooLong));
    assert_eq!(truncate_bytes("a€b", 2), "a");
    assert_eq!(truncate_bytes("a€b", 4), "a€");
    assert_eq!(truncate_bytes("", 0), "");
}
