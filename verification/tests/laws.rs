use omarchy_hotspot::access::{apply, AccessChange, HelperRunner};
use omarchy_hotspot::backend::Ipv4Net;
use omarchy_hotspot::config::{default_ssid, Config};
use omarchy_hotspot::error::CoreError;
use omarchy_hotspot::hotspot::firewall_request;
use omarchy_hotspot::ipv4::Ipv4Addr;
use omarchy_hotspot::leases::sanitize_hostname;
use omarchy_hotspot::nmcli_parse::split_terse;
use omarchy_hotspot::notify::escape_markup;
use omarchy_hotspot::password::{generate, validate_user_password, Strength};
use omarchy_hotspot::proto::{HelperRequest, Mac};
use omarchy_hotspot::settings::{merge_changed, step, Env, Item};
use omarchy_hotspot::ssid::validate_ssid;
use omarchy_hotspot::ui::{clean_line, wrap_words};

struct Quiet;

impl HelperRunner for Quiet {
    fn installed(&self) -> bool {
        true
    }

    fn call(&self, _req: &HelperRequest) -> Result<String, CoreError> {
        Ok(String::new())
    }
}

#[test]
fn mac_text_reads_back() {
    let m = Mac::parse("3C:2E:F5:0A:B2:09").unwrap();
    let again = Mac::parse(&m.as_str()).unwrap();
    assert_eq!(again, m);
    assert_eq!(m.as_str(), "3c:2e:f5:0a:b2:09");
}

#[test]
fn addresses_and_subnets_read_back() {
    let a = Ipv4Addr { bits: 0x0a2a_0001 };
    assert_eq!(Ipv4Addr::parse_str(&a.to_string()), Some(a));
    let n = Ipv4Net::parse("192.168.7.1/24").unwrap();
    assert_eq!(n.to_string(), "192.168.7.1/24");
    assert_eq!(Ipv4Net::parse(&n.to_string()), Some(n));
}

#[test]
fn default_ssid_is_always_valid() {
    for host in ["", "\n", "a\u{7}b", "очень-длинное-имя-компьютера-для-сети", "x y"] {
        let s = default_ssid(host);
        assert!(validate_ssid(&s).is_ok(), "{host:?} gave {s:?}");
    }
}

#[test]
fn generated_password_is_strong() {
    for _ in 0..50 {
        let p = generate().unwrap();
        let lower = p.expose().to_lowercase();
        if lower.contains("qwerty") || lower.contains("welcome") {
            continue;
        }
        assert_eq!(validate_user_password(p.expose()), Ok(Strength::Strong));
    }
}

#[test]
fn firewall_gets_each_mac_once() {
    let mut c = Config::defaults_for("pc");
    c.access.blocked_macs =
        vec!["aa:bb:cc:dd:ee:01".into(), "AA:BB:CC:DD:EE:01".into(), "aa:bb:cc:dd:ee:02".into()];
    match firewall_request(&c, "wlp15s0", "enp14s0", false).unwrap() {
        HelperRequest::FwApply { block, .. } => assert_eq!(block.len(), 2),
        _ => panic!("not fw-apply"),
    }
}

#[test]
fn same_access_change_twice_changes_nothing() {
    let mut c = Config::defaults_for("pc");
    let m = Mac::parse("aa:bb:cc:dd:ee:01").unwrap();
    c.access.blocked_macs = vec!["AA:BB:CC:DD:EE:01".into()];
    let change = AccessChange::Allow(m);
    assert_eq!(apply(&Quiet, None, &mut c, &change).0.unwrap(), true);
    let after_once = c.clone();
    assert_eq!(apply(&Quiet, None, &mut c, &change).0.unwrap(), false);
    assert_eq!(c, after_once);
}

#[test]
fn draft_without_edits_catches_up() {
    let base = Config::defaults_for("pc");
    let draft = base.clone();
    let mut latest = base.clone();
    latest.hotspot.channel = 11;
    latest.network.dns = vec!["9.9.9.9".into()];
    let expected = latest.clone();
    merge_changed(&mut latest, &draft, &base);
    assert_eq!(latest, expected);
}

#[test]
fn arrows_forward_then_back_return() {
    let env = Env { caps: None, uplinks: vec!["enp14s0".into(), "wg0".into()] };
    let mut c = Config::defaults_for("pc");
    c.hotspot.country = "DE".into();
    let before = c.clone();
    step(&mut c, Item::Country, true, &env);
    assert_ne!(c.hotspot.country, "DE");
    step(&mut c, Item::Country, false, &env);
    assert_eq!(c, before);
}

#[test]
fn escaped_guest_text_opens_no_tag() {
    let e = escape_markup("<b>x</b> <i>");
    assert!(!e.contains('<') && !e.contains('>'));
}

#[test]
fn wrapped_lines_fit_except_long_words() {
    let lines = wrap_words("a bb ccc dddddddddd ee", 5);
    assert_eq!(lines, ["a bb", "ccc", "dddddddddd", "ee"]);
    for l in &lines {
        assert!(l.chars().count() <= 5 || !l.contains(' '));
    }
}

#[test]
fn guest_host_name_is_clean() {
    let raw = format!("\u{1b}[31m{}\u{202e}", "x".repeat(150));
    let name = sanitize_hostname(&raw).unwrap();
    assert!(name.chars().count() <= 100);
    assert!(!name.chars().any(|c| c.is_control() || c == '\u{202e}'));
}

#[test]
fn generated_passwords_have_no_lookalikes() {
    for _ in 0..20 {
        let p = generate().unwrap();
        assert!(!p.expose().chars().any(|c| matches!(c, '0' | 'O' | '1' | 'l' | 'I')));
    }
}

#[test]
fn cleaned_log_lines_are_plain() {
    let line = clean_line("a\u{1b}[31mred\u{202e}x\ty\u{7}");
    assert_eq!(line, "a [31mredx y ");
    assert!(!line.chars().any(|c| c.is_control()));
}

#[test]
fn default_ssid_is_omarchy_or_named() {
    assert_eq!(default_ssid(""), "Omarchy");
    assert_eq!(default_ssid(" \n"), "Omarchy");
    assert!(default_ssid("pc").starts_with("Omarchy-"));
    assert!(default_ssid("очень-длинное-имя-компьютера-для-сети").starts_with("Omarchy-"));
}

#[test]
fn cleaned_host_name_cleans_to_itself() {
    for raw in ["  Kate's\tphone  ", "a\u{200b}b", "x".repeat(40).as_str()] {
        let s = sanitize_hostname(raw).unwrap();
        assert!(!s.is_empty() && s == s.trim());
        assert_eq!(sanitize_hostname(&s), Some(s.clone()));
    }
    assert_eq!(sanitize_hostname(" \u{200b}\t\u{7}"), None);
}

#[test]
fn escaped_fields_split_back() {
    let fields = ["a:b", "c\\d", "", "e"];
    let line = fields
        .iter()
        .map(|f| f.replace('\\', "\\\\").replace(':', "\\:"))
        .collect::<Vec<_>>()
        .join(":");
    assert_eq!(split_terse(&line), fields);
}

#[test]
fn wrapping_is_greedy() {
    let text = "a bb ccc dddddddddd ee f gg hhh i";
    for width in [3usize, 5, 8, 12] {
        let lines = wrap_words(text, width);
        for pair in lines.windows(2) {
            let next_word = pair[1].split(' ').next().unwrap();
            assert!(pair[0].chars().count() + 1 + next_word.chars().count() > width, "{lines:?}");
        }
    }
}
