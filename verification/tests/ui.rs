use omarchy_hotspot::ui::{qr_place, QrPlace};
use omarchy_hotspot::ui::{
    clean_line, format_uptime, hotkey, pad, spinner_char, truncate_chars, wrap_segments, wrap_words,
};

#[test]
fn log_lines_lose_control_characters() {
    assert_eq!(clean_line("a\u{1b}[31mb\tc"), "a [31mb c");
    assert_eq!(clean_line("x\u{202E}y\u{200B}z"), "xyz");
}

#[test]
fn cyrillic_layout_maps_to_latin_hotkeys() {
    assert_eq!(hotkey('у'), 'e');
    assert_eq!(hotkey('з'), 'p');
    assert_eq!(hotkey('й'), 'q');
    assert_eq!(hotkey('п'), 'g');
    assert_eq!(hotkey('E'), 'e');
    assert_eq!(hotkey('x'), 'x');
}

#[test]
fn more_hotkeys_and_other_letters() {
    assert_eq!(hotkey('І'), 's');
    assert_eq!(hotkey('Щ'), 'o');
    assert_eq!(hotkey('ж'), 'ж');
    assert_eq!(hotkey(' '), ' ');
}

#[test]
fn columns_are_cut_and_padded_by_characters() {
    assert_eq!(truncate_chars("Сеть Жени", 4), "Сеть");
    assert_eq!(truncate_chars("ab", 5), "ab");
    assert_eq!(pad("ab", 4), "ab  ");
    assert_eq!(pad("Сеть Жени", 3), "Сет");
    assert_eq!(pad("", 0), "");
}

#[test]
fn words_wrap_without_cutting() {
    assert_eq!(wrap_words("one two three four", 9), vec!["one two", "three", "four"]);
    assert_eq!(wrap_words("  a  b ", 0), vec!["a", "b"]);
    assert_eq!(wrap_words("extraordinary x", 5), vec!["extraordinary", "x"]);
    assert!(wrap_words("   ", 10).is_empty());
}

#[test]
fn hints_wrap_between_pairs() {
    let text = "Space on/off · e edit · q quit";
    assert_eq!(wrap_segments(text, 40), vec![text.to_string()]);
    assert_eq!(wrap_segments(text, 23), vec!["Space on/off · e edit", "q quit"]);
    assert_eq!(wrap_segments(text, 8), vec!["Space", "on/off", "e edit", "q quit"]);
    assert_eq!(wrap_segments("", 5), vec![String::new()]);
}

#[test]
fn uptime_and_spinner() {
    assert_eq!(format_uptime(0), "0:00:00");
    assert_eq!(format_uptime(3661), "1:01:01");
    assert_eq!(format_uptime(100 * 3600 + 59), "100:00:59");
    assert_eq!(spinner_char(0), '⠋');
    assert_eq!(spinner_char(13), '⠸');
}

#[test]
fn qr_goes_right_below_or_over() {
    assert_eq!(qr_place(false, 31, 16, 200, 60, 2, 3), QrPlace::Hidden);
    assert_eq!(qr_place(true, 31, 16, 80, 30, 2, 3), QrPlace::Right);
    assert_eq!(qr_place(true, 31, 16, 60, 30, 2, 3), QrPlace::Below);
    assert_eq!(qr_place(true, 31, 16, 60, 20, 2, 3), QrPlace::Overlay);
    assert_eq!(qr_place(true, 31, 16, 30, 60, 2, 3), QrPlace::Overlay);
}
