use omarchy_hotspot::doctor::{
    any_failed, check_country, check_dnsmasq, check_firewall, check_helper,
    check_network_manager, check_uplink, check_wifi_ap, Advice, CheckId, Detail, Status,
};
use omarchy_hotspot::iw::WifiCaps;

fn ifaces() -> Vec<String> {
    vec!["wlp15s0".to_string()]
}

#[test]
fn network_manager_must_run() {
    let c = check_network_manager(Some("running\n"));
    assert_eq!((c.id, c.status, c.detail), (CheckId::NetworkManager, Status::Good, Detail::Running));
    let c = check_network_manager(Some("asleep\n"));
    assert_eq!(c.status, Status::Fail);
    assert_eq!(c.advice, Some(Advice::NmInactive));
    assert_eq!(check_network_manager(None).detail, Detail::NotRunning);
}

#[test]
fn wifi_card_must_serve_an_access_point() {
    let caps = WifiCaps { ap: true, sae: true, channels_2ghz: vec![1], channels_5ghz: vec![] };
    let c = check_wifi_ap(&ifaces(), &caps);
    assert_eq!(c.status, Status::Good);
    assert_eq!(
        c.detail,
        Detail::WifiAp { iface: "wlp15s0".into(), wpa3: true, five_ghz: false }
    );
    let c = check_wifi_ap(&[], &caps);
    assert_eq!((c.status, c.detail, c.advice), (Status::Fail, Detail::NoWifi, Some(Advice::NoWifi)));
    let c = check_wifi_ap(&ifaces(), &WifiCaps::default());
    assert_eq!((c.status, c.detail), (Status::Fail, Detail::NoAp));
}

#[test]
fn uplink_over_wifi_is_a_warning() {
    let c = check_uplink(Some("enp14s0".into()), &ifaces());
    assert_eq!((c.status, c.detail.clone(), c.advice), (Status::Good, Detail::Iface("enp14s0".into()), None));
    let c = check_uplink(Some("wlp15s0".into()), &ifaces());
    assert_eq!((c.status, c.advice), (Status::Warn, Some(Advice::UplinkIsWifi)));
    let c = check_uplink(None, &ifaces());
    assert_eq!((c.status, c.detail), (Status::Fail, Detail::NoRoute));
}

#[test]
fn other_checks_and_the_verdict() {
    let checks = vec![
        check_dnsmasq(true),
        check_firewall(Some(false)),
        check_helper(true, false),
        check_country(None),
    ];
    assert_eq!(checks[1].detail, Detail::UfwInactive);
    assert_eq!(checks[2].status, Status::Warn);
    assert_eq!(checks[3].advice, Some(Advice::CountryUnset));
    assert!(!any_failed(&checks), "warnings are not failures");
    assert_eq!(check_firewall(None).status, Status::Warn);
    assert_eq!(check_country(Some("UA".into())).detail, Detail::Country("UA".into()));
    assert!(any_failed(&[check_dnsmasq(false)]));
}

#[test]
fn findings_read_as_text() {
    let c = check_wifi_ap(
        &ifaces(),
        &WifiCaps { ap: true, sae: true, channels_2ghz: vec![1], channels_5ghz: vec![] },
    );
    assert_eq!(c.detail.text(), "wlp15s0; WPA3: yes; 5 GHz: no");
    assert_eq!(CheckId::WifiAp.title(), "Access point mode");
    assert_eq!(Detail::CountryUnset.text(), "not set");
    assert_eq!(Detail::Country("DE".to_string()).text(), "DE");
    assert_eq!(Advice::InstallDnsmasq.text(), "Install it: sudo pacman -S dnsmasq");
}
