use omarchy_hotspot::ipv4::Ipv4Addr;
use omarchy_hotspot::neigh::{neighbours, RawNeigh};

fn entry(dst: &str, lladdr: Option<&str>, state: &[&str]) -> RawNeigh {
    RawNeigh {
        dst: dst.to_string(),
        lladdr: lladdr.map(str::to_string),
        state: state.iter().map(|s| s.to_string()).collect(),
    }
}

#[test]
fn parses_neigh_json() {
    let table = vec![
        entry("10.42.0.34", Some("3c:2e:f5:11:22:33"), &["REACHABLE"]),
        entry("10.42.0.51", Some("aa:bb:cc:dd:ee:01"), &["STALE"]),
        entry("10.42.0.99", None, &["FAILED"]),
        entry("10.42.0.77", Some("aa:bb:cc:dd:ee:02"), &["FAILED"]),
    ];
    let n = neighbours(&table);
    assert_eq!(n.len(), 2);
    assert_eq!(n[0].ip, Ipv4Addr::new(10, 42, 0, 34));
    assert_eq!(n[1].mac.as_str(), "aa:bb:cc:dd:ee:01");
}

#[test]
fn dead_or_unreadable_entries_are_dropped() {
    assert!(neighbours(&[]).is_empty());
    let table = vec![
        entry("10.42.0.5", Some("aa:bb:cc:dd:ee:03"), &["STALE", "NOARP"]),
        entry("10.42.0.6", Some("aa:bb:cc:dd:ee:04"), &["INCOMPLETE"]),
        entry("fe80::1", Some("aa:bb:cc:dd:ee:05"), &[]),
        entry("10.42.0.7", Some("nonsense"), &[]),
        entry("10.42.0.8", Some("AA:BB:CC:DD:EE:06"), &[]),
    ];
    let n = neighbours(&table);
    assert_eq!(n.len(), 1);
    assert_eq!(n[0].mac.as_str(), "aa:bb:cc:dd:ee:06");
}
