use omarchy_hotspot::config::{unknown_keys, KeyPath};
use omarchy_hotspot::config::FieldChange;
use omarchy_hotspot::backend::{Band, Security};
use omarchy_hotspot::config::{default_ssid, Config, UiMode, DEFAULT_SUBNET};

#[test]
fn default_ssid_from_hostname() {
    assert_eq!(default_ssid("archpc\n"), "Omarchy-archpc");
    assert_eq!(default_ssid(""), "Omarchy");
    assert_eq!(default_ssid(&"x".repeat(40)).len(), 32);
}

#[test]
fn defaults_of_every_section() {
    let c = Config::defaults_for("box");
    assert_eq!(c.hotspot.ssid, "Omarchy-box");
    assert_eq!(c.hotspot.security, Security::Wpa3);
    assert_eq!(c.hotspot.band, Band::Auto);
    assert!(c.hotspot.ap_isolation);
    assert_eq!(c.network.subnet, DEFAULT_SUBNET);
    assert!(c.access.approval_required && c.access.notifications);
    assert_eq!(c.ui.mode, UiMode::Simple);
    assert!(c.ui.close_on_focus_loss);
}

#[test]
fn default_ssid_drops_controls_and_cuts_on_a_char() {
    assert_eq!(default_ssid("  \u{7}\n "), "Omarchy");
    assert_eq!(default_ssid("a\u{1b}b"), "Omarchy-ab");
    // 8 bytes of prefix, then 12 two-byte letters: only 24 bytes fit.
    assert_eq!(default_ssid(&"ж".repeat(20)), format!("Omarchy-{}", "ж".repeat(12)));
}

#[test]
fn set_changes_one_field() {
    let mut c = Config::defaults_for("box");
    c.hotspot.channel = 36;
    let before = c.clone();
    FieldChange::Band(Band::Ghz2_4).apply_to(&mut c);
    assert_eq!((c.hotspot.band, c.hotspot.channel), (Band::Ghz2_4, 0));
    FieldChange::Ssid("Cafe".into()).apply_to(&mut c);
    assert_eq!(c.hotspot.ssid, "Cafe");
    FieldChange::IdleOff(15).apply_to(&mut c);
    assert_eq!(c.automation.idle_off_minutes, 15);
    FieldChange::Security(Security::Wpa2).apply_to(&mut c);
    assert_eq!(c.hotspot.security, Security::Wpa2);
    assert_eq!(c.network, before.network);
    assert_eq!(c.access, before.access);
}

fn key(path: &[&str], table: bool) -> KeyPath {
    KeyPath { path: path.iter().map(|s| s.to_string()).collect(), table }
}

#[test]
fn unknown_keys_are_reported_by_name() {
    let known = vec![
        key(&["version"], false),
        key(&["hotspot"], true),
        key(&["hotspot", "ssid"], false),
        key(&["hotspot", "band"], false),
        key(&["hotspot", "security"], false),
    ];
    let raw = vec![
        key(&["colour"], false),
        key(&["hotspot"], true),
        key(&["hotspot", "band"], false),
        key(&["hotspot", "magic"], false),
        key(&["hotspot", "security"], false),
        key(&["hotspot", "ssid"], false),
        key(&["language"], false),
        key(&["limits"], true),
        key(&["limits", "default_down_kbps"], false),
        key(&["limits", "per_device"], true),
        key(&["limits", "per_device", "aa:bb:cc:dd:ee:ff"], true),
        key(&["old"], true),
        key(&["old", "x"], false),
    ];
    assert_eq!(unknown_keys(&raw, &known), ["colour", "hotspot.magic", "old"]);
}
