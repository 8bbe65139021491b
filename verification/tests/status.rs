use omarchy_hotspot::backend::{Band, HotspotState};
use omarchy_hotspot::config::Config;
use omarchy_hotspot::status::{status_code, status_view, StatusState};

#[test]
fn running_hotspot_reports_its_channel_band_and_uptime() {
    let cfg = Config::defaults_for("pc");
    let state = HotspotState::On {
        since: Some(1_000),
        ap_iface: "wlan0".into(),
        uplink: Some("eth0".into()),
    };
    let v = status_view(&cfg, &state, Some(36), 1_000 + 2 * 3600 + 5 * 60 + 59);
    assert_eq!(v.state, StatusState::On);
    assert_eq!(v.band, Band::Ghz5);
    assert_eq!(v.channel, Some(36));
    assert_eq!(v.ap_iface.as_deref(), Some("wlan0"));
    assert_eq!(v.uplink.as_deref(), Some("eth0"));
    assert_eq!(v.uptime, Some((2, 5)));
    assert_eq!(status_code(&v), 0);
    let v = status_view(&cfg, &state, Some(6), 500);
    assert_eq!(v.band, Band::Ghz2_4);
    assert_eq!(v.uptime, Some((0, 0)));
}

#[test]
fn stopped_hotspot_reports_the_settings() {
    let cfg = Config::defaults_for("pc");
    let v = status_view(&cfg, &HotspotState::Error("x".into()), Some(36), 0);
    assert_eq!(v.state, StatusState::Off);
    assert_eq!(v.band, cfg.hotspot.band);
    assert_eq!(v.ssid, cfg.hotspot.ssid);
    assert!(v.channel.is_none() && v.ap_iface.is_none() && v.uptime.is_none());
    assert_eq!(status_code(&v), 1);
    let v = status_view(&cfg, &HotspotState::Starting, None, 0);
    assert_eq!(v.state, StatusState::Starting);
    assert_eq!(status_code(&v), 1);
}
