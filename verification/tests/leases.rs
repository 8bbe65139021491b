use omarchy_hotspot::ipv4::Ipv4Addr;
use omarchy_hotspot::leases::{parse_leases, sanitize_hostname, HOSTNAME_MAX};

#[test]
fn parses_leases_file() {
    let text = "1757606400 3c:2e:f5:11:22:33 10.42.0.34 Pixel-8 01:3c:2e:f5:11:22:33\n\
                1757606400 aa:bb:cc:dd:ee:01 10.42.0.51 * 01:aa:bb:cc:dd:ee:01\n";
    let l = parse_leases(text);
    assert_eq!(l.len(), 2);
    assert_eq!(l[0].hostname.as_deref(), Some("Pixel-8"));
    assert_eq!(l[0].ip, Ipv4Addr::new(10, 42, 0, 34));
    assert_eq!(l[1].hostname, None);
}

#[test]
fn keeps_last_lease_for_mac() {
    let text = "1 3c:2e:f5:11:22:33 10.42.0.34 old x\n2 3c:2e:f5:11:22:33 10.42.0.40 new x\n";
    let l = parse_leases(text);
    assert_eq!(l.len(), 1);
    assert_eq!(l[0].hostname.as_deref(), Some("new"));
    assert_eq!(l[0].ip, Ipv4Addr::new(10, 42, 0, 40));
}

#[test]
fn skips_broken_lines() {
    let text = "\n# comment\n1 not-a-mac 10.42.0.5 name x\n1 3c:2e:f5:11:22:33 999.1.1.1 n x\n";
    assert!(parse_leases(text).is_empty());
}

#[test]
fn hostname_is_sanitized() {
    assert_eq!(
        sanitize_hostname("\u{1b}[31mEVIL\u{7}\nx"),
        Some("[31mEVILx".to_string())
    );
    assert_eq!(sanitize_hostname("a\u{202e}b\u{200b}c"), Some("abc".into()));
    assert_eq!(sanitize_hostname("\u{200b}"), None);
    assert_eq!(sanitize_hostname(""), None);
    let long = sanitize_hostname(&"x".repeat(100)).unwrap();
    assert_eq!(long.chars().count(), HOSTNAME_MAX);
}

#[test]
fn name_spaces_become_plain_and_are_trimmed() {
    assert_eq!(sanitize_hostname("\u{a0}My\u{3000}Phone "), Some("My Phone".into()));
    let l = parse_leases("1 02:00:00:00:00:01 10.42.0.2\n1 02:00:00:00:00:02 10.42.0.3 \u{200b}\n");
    assert_eq!(l.len(), 2);
    assert_eq!(l[0].hostname, None);
    assert_eq!(l[1].hostname, None);
}

#[test]
fn lease_order_follows_first_appearance() {
    let text = "1 02:00:00:00:00:01 10.42.0.2 a\n1 02:00:00:00:00:02 10.42.0.3 b\n\
                1 02:00:00:00:00:01 10.42.0.4 c\n";
    let l = parse_leases(text);
    assert_eq!(l.len(), 2);
    assert_eq!(l[0].hostname.as_deref(), Some("c"));
    assert_eq!(l[0].ip, Ipv4Addr::new(10, 42, 0, 4));
    assert_eq!(l[1].hostname.as_deref(), Some("b"));
}
