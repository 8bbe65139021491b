use omarchy_hotspot::backend::{profile_args, Band, HotspotSettings, Ipv4Net, Security};

fn settings(security: Security, band: Band) -> HotspotSettings {
    HotspotSettings {
        ssid: "Test Net".into(),
        password: None,
        security,
        band,
        channel: Some(36),
        width_mhz: 0,
        hidden: false,
        ap_isolation: true,
        ap_iface: "wlp15s0".into(),
        subnet: Ipv4Net::parse("10.42.0.1/24").unwrap(),
    }
}

fn get<'a>(args: &'a [String], key: &str) -> &'a str {
    let i = args.iter().position(|a| a == key).expect(key);
    &args[i + 1]
}

#[test]
fn wpa3_profile() {
    let a = profile_args(&settings(Security::Wpa3, Band::Ghz5), "alice");
    assert_eq!(a.len() % 2, 0);
    assert_eq!(get(&a, "802-11-wireless.mode"), "ap");
    assert_eq!(get(&a, "802-11-wireless.band"), "a");
    assert_eq!(get(&a, "802-11-wireless.channel"), "36");
    assert_eq!(get(&a, "802-11-wireless.channel-width"), "auto");
    assert_eq!(get(&a, "802-11-wireless.ap-isolation"), "yes");
    assert_eq!(get(&a, "802-11-wireless-security.key-mgmt"), "sae");
    assert_eq!(get(&a, "802-11-wireless-security.pmf"), "required");
    assert_eq!(get(&a, "802-11-wireless-security.proto"), "rsn");
    assert_eq!(get(&a, "802-11-wireless-security.pairwise"), "ccmp");
    assert_eq!(get(&a, "ipv4.method"), "shared");
    assert_eq!(get(&a, "ipv4.addresses"), "10.42.0.1/24");
    assert_eq!(get(&a, "connection.autoconnect"), "no");
    assert_eq!(get(&a, "connection.permissions"), "user:alice");
    assert!(!a.iter().any(|x| x.contains("psk")));
}

#[test]
fn wpa2_profile() {
    let a = profile_args(&settings(Security::Wpa2, Band::Ghz2_4), "");
    assert_eq!(get(&a, "802-11-wireless.band"), "bg");
    assert_eq!(get(&a, "802-11-wireless-security.key-mgmt"), "wpa-psk");
    assert_eq!(get(&a, "802-11-wireless-security.pmf"), "optional");
    assert_eq!(get(&a, "connection.permissions"), "");
}

#[test]
fn width_is_named_in_megahertz() {
    let mut s = settings(Security::Wpa3, Band::Ghz5);
    s.width_mhz = 80;
    s.channel = None;
    let a = profile_args(&s, "bob");
    assert_eq!(get(&a, "802-11-wireless.channel-width"), "80mhz");
    assert_eq!(get(&a, "802-11-wireless.channel"), "0");
}
