use omarchy_hotspot::backend::Band;
use omarchy_hotspot::config::Config;
use omarchy_hotspot::error::CoreError;
use omarchy_hotspot::hotspot::{choose_band, dns_servers, effective_width, firewall_request, parse_dns_list};
use omarchy_hotspot::iw::WifiCaps;
use omarchy_hotspot::proto::{DnsServer, HelperRequest};

fn good_caps() -> WifiCaps {
    WifiCaps {
        ap: true,
        sae: true,
        channels_2ghz: (1..=13).collect(),
        channels_5ghz: vec![36, 40, 44, 48],
    }
}

fn cfg() -> Config {
    let mut c = Config::defaults_for("testpc");
    c.hotspot.ssid = "Test".into();
    c
}

fn config_error(r: Result<Vec<DnsServer>, CoreError>) -> String {
    match r {
        Err(CoreError::Config(m)) => m,
        _ => panic!("expected a settings error"),
    }
}

#[test]
fn band_choice() {
    let caps = good_caps();
    assert_eq!(choose_band(Band::Auto, 0, &caps).unwrap(), (Band::Ghz5, 36));
    assert_eq!(choose_band(Band::Ghz2_4, 0, &caps).unwrap(), (Band::Ghz2_4, 6));
    assert_eq!(choose_band(Band::Auto, 11, &caps).unwrap(), (Band::Ghz2_4, 11));
    assert!(matches!(choose_band(Band::Ghz2_4, 36, &caps), Err(CoreError::ChannelUnavailable(36))));
    assert!(matches!(choose_band(Band::Ghz5, 52, &caps), Err(CoreError::ChannelUnavailable(52))));
    let no5 = WifiCaps { channels_5ghz: vec![], ..caps.clone() };
    assert_eq!(choose_band(Band::Auto, 0, &no5).unwrap(), (Band::Ghz2_4, 6));
    assert!(matches!(choose_band(Band::Ghz5, 0, &no5), Err(CoreError::Band5Unavailable)));
    let only149 = WifiCaps { channels_5ghz: vec![149, 153], ..caps };
    assert_eq!(choose_band(Band::Auto, 0, &only149).unwrap(), (Band::Ghz5, 149));
}

#[test]
fn two_ghz_without_channel_six_takes_the_first() {
    let caps = WifiCaps { channels_2ghz: vec![1, 11], channels_5ghz: vec![], ..good_caps() };
    assert_eq!(choose_band(Band::Auto, 0, &caps).unwrap(), (Band::Ghz2_4, 1));
    let none = WifiCaps { channels_2ghz: vec![], channels_5ghz: vec![], ..good_caps() };
    assert_eq!(choose_band(Band::Ghz2_4, 0, &none).unwrap(), (Band::Ghz2_4, 6));
}

#[test]
fn firewall_request_from_config() {
    let mut c = cfg();
    c.access.blocked_macs = vec!["AA:BB:CC:DD:EE:01".into(), "aa:bb:cc:dd:ee:01".into()];
    c.access.allowed_macs = vec!["aa:bb:cc:dd:ee:02".into()];
    c.hotspot.guests_can_reach_pc = true;
    let HelperRequest::FwApply { approval, guests_reach_pc, allow, block, .. } =
        firewall_request(&c, "wlp15s0", "enp14s0", true).unwrap()
    else {
        panic!()
    };
    assert!(approval && guests_reach_pc);
    assert_eq!(allow.len(), 1);
    assert_eq!(block.len(), 1);
    let HelperRequest::FwApply { allow, .. } =
        firewall_request(&c, "wlp15s0", "enp14s0", false).unwrap()
    else {
        panic!()
    };
    assert!(allow.is_empty());
    c.access.blocked_macs = vec!["not-a-mac".into()];
    assert!(matches!(firewall_request(&c, "wlp15s0", "enp14s0", false), Err(CoreError::Config(_))));
}

#[test]
fn firewall_request_errors_name_the_entry() {
    let mut c = cfg();
    c.access.allowed_macs = vec!["zz".into()];
    match firewall_request(&c, "wlp15s0", "enp14s0", true) {
        Err(CoreError::Config(m)) => assert_eq!(m, "access.allowed_macs: zz: bad MAC address"),
        _ => panic!(),
    }
    assert!(firewall_request(&c, "wlp15s0", "enp14s0", false).is_ok());
    match firewall_request(&c, "bad iface", "enp14s0", false) {
        Err(CoreError::Config(m)) => assert_eq!(m, "bad iface: bad interface name"),
        _ => panic!(),
    }
}

#[test]
fn channel_width_fits_the_band() {
    assert_eq!(effective_width(80, Band::Ghz5), 80);
    assert_eq!(effective_width(80, Band::Ghz2_4), 40);
    assert_eq!(effective_width(40, Band::Ghz2_4), 40);
    assert_eq!(effective_width(0, Band::Ghz5), 0);
    assert_eq!(effective_width(160, Band::Ghz5), 0);
}

#[test]
fn dns_list_is_checked() {
    let ok = parse_dns_list(&[" 1.1.1.1 ".to_string(), "2606:4700:4700::1111".to_string()]).unwrap();
    assert_eq!(ok.len(), 2);
    assert!(parse_dns_list(&[]).unwrap().is_empty());
    assert_eq!(
        config_error(parse_dns_list(&["1.1.1.1".to_string(), "1.1.1.1".to_string()])),
        "dns: repeated DNS server"
    );
    assert_eq!(config_error(parse_dns_list(&["not-an-ip".to_string()])), "dns: bad DNS server address");
    assert_eq!(
        config_error(parse_dns_list(&["::ffff:127.0.0.1".to_string()])),
        "dns: IPv4-mapped IPv6 address"
    );
    let five: Vec<String> = (1..=5).map(|i| format!("9.9.9.{i}")).collect();
    assert_eq!(config_error(parse_dns_list(&five)), "dns: too many DNS servers");
    let mut c = cfg();
    c.network.dns = vec!["127.0.0.1".into()];
    assert!(matches!(dns_servers(&c), Err(CoreError::Config(_))));
}
