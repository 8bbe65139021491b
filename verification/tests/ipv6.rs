use omarchy_hotspot::ipv6::parse_ipv6_exec;
use omarchy_hotspot::proto::{DnsServer, ArgError};

fn v6(s: &str) -> Option<u128> {
    let cs: Vec<char> = s.chars().collect();
    parse_ipv6_exec(&cs)
}

#[test]
fn reads_ipv6_text() {
    assert_eq!(v6("::"), Some(0));
    assert_eq!(v6("::1"), Some(1));
    assert_eq!(v6("1::"), Some(1u128 << 112));
    assert_eq!(v6("2606:4700:4700::1111"), Some(0x2606_4700_4700_0000_0000_0000_0000_1111));
    assert_eq!(v6("1:2:3:4:5:6:7:8"), Some(0x0001_0002_0003_0004_0005_0006_0007_0008));
    assert_eq!(v6("1:2:3:4:5:6:7::"), Some(0x0001_0002_0003_0004_0005_0006_0007_0000));
    assert_eq!(v6("::1:2:3:4:5:6:7"), Some(0x0000_0001_0002_0003_0004_0005_0006_0007));
    assert_eq!(v6("::ffff:1.2.3.4"), Some(0xffff_0102_0304));
    assert_eq!(v6("1:2:3:4:5:6:1.2.3.4"), Some(0x0001_0002_0003_0004_0005_0006_0102_0304));
    assert_eq!(v6("FE80::abcd"), Some((0xfe80u128 << 112) | 0xabcd));
    assert_eq!(v6("0001:02:3::"), Some(0x0001_0002_0003u128 << 80));
    for bad in [
        "1:2:3:4:5:6:7:8:9", "1::2::3", "12345::", ":1::", "1:::2", "1.2.3.4", "::1.2.3.04",
        "::1.2.3.256", "::ffff:1.2.3.4:5", "", ":", "1:2:3:4:5:6:7", "::g",
        "1:2:3:4:5:6:7:1.2.3.4", "::1.2.3.4a", "fe80::1%eth0",
    ] {
        assert_eq!(v6(bad), None, "{bad}");
    }
}

#[test]
fn dns_servers_in_ipv6() {
    assert!(matches!(DnsServer::parse("2606:4700:4700::1111"), Ok(DnsServer::V6(_))));
    assert_eq!(DnsServer::parse("::1"), Err(ArgError::BadDns));
    assert_eq!(DnsServer::parse("ff02::1"), Err(ArgError::BadDns));
    let mapped = DnsServer::parse("::ffff:8.8.8.8").unwrap();
    assert!(mapped.is_v4_mapped());
    assert!(!DnsServer::parse("8.8.8.8").unwrap().is_v4_mapped());
}
