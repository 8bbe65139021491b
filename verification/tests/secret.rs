use omarchy_hotspot::secret::Secret;

#[test]
fn debug_hides_value() {
    let s = Secret::new("hunter2hunter2");
    assert_eq!(s.debug_text(), "Secret(***)");
    assert_eq!(s.expose(), "hunter2hunter2");
}

#[test]
fn secret_from_string_keeps_text() {
    let s = Secret::from_string(String::from("abc"));
    assert_eq!(s.expose(), "abc");
    assert_eq!(Secret::default().expose(), "");
}
