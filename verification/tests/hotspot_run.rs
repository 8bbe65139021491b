use std::cell::RefCell;

use omarchy_hotspot::access::HelperRunner;
use omarchy_hotspot::backend::{Band, HotspotSettings, HotspotState, Security};
use omarchy_hotspot::config::Config;
use omarchy_hotspot::error::CoreError;
use omarchy_hotspot::hotspot::{
    apply_target, effective_width, forced_uplink, ApplyOutcome, Hotspot, NetworkBackend,
    StartOutcome, SystemProbe,
};
use omarchy_hotspot::iw::WifiCaps;
use omarchy_hotspot::password::PasswordError;
use omarchy_hotspot::proto::HelperRequest;
use omarchy_hotspot::routes::{routes_from_raw, RawRoute, Route};
use omarchy_hotspot::secret::Secret;
use omarchy_hotspot::ssid::SsidError;

#[derive(Default)]
struct MockState {
    nm_running: bool,
    wifi_ifaces: Vec<String>,
    profile: Option<HotspotSettings>,
    password: Option<Secret>,
    active: bool,
    fail_up: bool,
    fail_down: bool,
    up_calls: usize,
    down_calls: usize,
}

struct MockBackend {
    s: RefCell<MockState>,
}

impl MockBackend {
    fn new(ifaces: &[&str]) -> MockBackend {
        MockBackend {
            s: RefCell::new(MockState {
                nm_running: true,
                wifi_ifaces: ifaces.iter().map(|s| s.to_string()).collect(),
                ..Default::default()
            }),
        }
    }

    fn with<R>(&self, f: impl FnOnce(&mut MockState) -> R) -> R {
        f(&mut self.s.borrow_mut())
    }
}

impl NetworkBackend for MockBackend {
    fn profile_exists(&self) -> Result<bool, CoreError> {
        Ok(self.with(|s| s.profile.is_some()))
    }

    fn ensure_profile(&self, new: &HotspotSettings) -> Result<(), CoreError> {
        self.with(|s| {
            if let Some(p) = &new.password {
                s.password = Some(p.clone());
            }
            let mut stored = new.clone();
            stored.password = None;
            s.profile = Some(stored);
        });
        Ok(())
    }

    fn set_password(&self, psk: &Secret) -> Result<(), CoreError> {
        self.with(|s| {
            if s.profile.is_none() {
                return Err(CoreError::NoProfile);
            }
            s.password = Some(psk.clone());
            Ok(())
        })
    }

    fn get_password(&self) -> Result<Secret, CoreError> {
        self.with(|s| s.password.clone().ok_or(CoreError::NoProfile))
    }

    fn up(&self) -> Result<(), CoreError> {
        self.with(|s| {
            s.up_calls += 1;
            if s.profile.is_none() {
                return Err(CoreError::NoProfile);
            }
            if std::mem::take(&mut s.fail_up) {
                return Err(CoreError::ActivationFailed("mock".into()));
            }
            s.active = true;
            Ok(())
        })
    }

    fn down(&self) -> Result<(), CoreError> {
        self.with(|s| {
            s.down_calls += 1;
            if std::mem::take(&mut s.fail_down) {
                return Err(CoreError::ActivationFailed("mock".into()));
            }
            s.active = false;
            Ok(())
        })
    }

    fn delete_profile(&self) -> Result<(), CoreError> {
        self.with(|s| {
            s.active = false;
            s.profile = None;
            s.password = None;
        });
        Ok(())
    }

    fn state(&self) -> Result<HotspotState, CoreError> {
        Ok(self.with(|s| match (&s.profile, s.active) {
            (Some(p), true) => HotspotState::On {
                since: Some(0),
                ap_iface: p.ap_iface.clone(),
                uplink: Some("enp14s0".into()),
            },
            _ => HotspotState::Off,
        }))
    }

    fn wifi_ifaces(&self) -> Result<Vec<String>, CoreError> {
        Ok(self.with(|s| s.wifi_ifaces.clone()))
    }

    fn client_connection(&self, _iface: &str) -> Result<Option<String>, CoreError> {
        Ok(None)
    }

    fn connected_ifaces(&self) -> Result<Vec<String>, CoreError> {
        Ok(vec!["enp14s0".into()])
    }

    fn nm_running(&self) -> Result<bool, CoreError> {
        Ok(self.with(|s| s.nm_running))
    }
}

struct FakeProbe {
    country: Option<String>,
    dns_file: bool,
    caps: WifiCaps,
    uplink: Option<String>,
    routes: Vec<Route>,
}

impl FakeProbe {
    fn good() -> FakeProbe {
        FakeProbe {
            caps: WifiCaps {
                ap: true,
                sae: true,
                channels_2ghz: (1..=13).collect(),
                channels_5ghz: vec![36, 40, 44, 48],
            },
            uplink: Some("enp14s0".into()),
            country: None,
            dns_file: false,
            routes: Vec::new(),
        }
    }
}

impl SystemProbe for FakeProbe {
    type Guard = ();

    fn wifi_caps(&self, _iface: &str) -> Result<WifiCaps, CoreError> {
        Ok(self.caps.clone())
    }

    fn uplink(&self) -> Result<Option<String>, CoreError> {
        Ok(self.uplink.clone())
    }

    fn reg_country(&self) -> Option<String> {
        self.country.clone()
    }

    fn dns_file_exists(&self) -> bool {
        self.dns_file
    }

    fn routes(&self) -> Result<Vec<Route>, CoreError> {
        Ok(self.routes.clone())
    }

    fn lock_ops(&self) -> Result<Option<()>, CoreError> {
        Ok(None)
    }
}

#[derive(Default)]
struct MockHelper {
    installed: bool,
    fail: bool,
    calls: RefCell<Vec<String>>,
}

impl MockHelper {
    fn installed() -> MockHelper {
        MockHelper { installed: true, ..Default::default() }
    }

    fn names(&self) -> Vec<String> {
        self.calls.borrow().clone()
    }
}

impl HelperRunner for MockHelper {
    fn installed(&self) -> bool {
        self.installed
    }

    fn call(&self, req: &HelperRequest) -> Result<String, CoreError> {
        if !self.installed {
            return Err(CoreError::HelperNotInstalled);
        }
        self.calls.borrow_mut().push(req.name().to_string());
        if self.fail {
            return Err(CoreError::HelperFailed("mock failure".into()));
        }
        Ok(String::new())
    }
}

fn cfg() -> Config {
    let mut c = Config::defaults_for("pc");
    c.hotspot.ssid = "Test".into();
    c
}

fn started(r: Result<StartOutcome, CoreError>) -> (HotspotSettings, String, bool) {
    match r {
        Ok(StartOutcome::Started { settings, uplink, created }) => (settings, uplink, created),
        Ok(StartOutcome::AlreadyOn) => panic!("expected Started, got AlreadyOn"),
        Err(e) => panic!("expected Started, got {e:?}"),
    }
}

fn start_error(r: Result<StartOutcome, CoreError>) -> CoreError {
    match r {
        Err(e) => e,
        Ok(_) => panic!("the hotspot started"),
    }
}

#[test]
fn first_start_creates_profile_with_generated_password() {
    let b = MockBackend::new(&["wlp15s0"]);
    let p = FakeProbe::good();
    let hp = MockHelper::installed();
    let h = Hotspot::new(&b, &p, &hp);
    let (settings, uplink, created) = started(h.start(&cfg(), false).0);
    assert!(created);
    assert_eq!(uplink, "enp14s0");
    assert!(settings.password.is_none());
    assert_eq!((settings.band, settings.channel), (Band::Ghz5, Some(36)));
    let psk = h.password().unwrap().unwrap();
    assert_eq!(psk.expose().len(), 16);
    assert!(matches!(h.state().unwrap(), HotspotState::On { .. }));
    assert!(matches!(h.start(&cfg(), false).0, Ok(StartOutcome::AlreadyOn)));
    assert_eq!(hp.names(), ["fw-apply"]);
    assert!(h.stop().0.unwrap());
    assert_eq!(hp.names(), ["fw-apply", "fw-clear"]);
    h.reset().0.unwrap();
    assert_eq!(hp.names(), ["fw-apply", "fw-clear", "fw-clear", "dns-clear"]);
}

#[test]
fn helper_failure_turns_hotspot_off() {
    let b = MockBackend::new(&["wlp15s0"]);
    let p = FakeProbe::good();
    let mut hp = MockHelper::installed();
    hp.fail = true;
    let h = Hotspot::new(&b, &p, &hp);
    assert!(matches!(start_error(h.start(&cfg(), false).0), CoreError::HelperFailed(_)));
    assert!(matches!(h.state().unwrap(), HotspotState::Off));
    assert_eq!(hp.names(), ["fw-apply", "fw-clear"]);
}

#[test]
fn forced_uplink_must_be_a_known_candidate() {
    let hp = MockHelper::installed();
    let b = MockBackend::new(&["wlp15s0"]);
    let p = FakeProbe::good();
    let h = Hotspot::new(&b, &p, &hp);
    let mut c = cfg();
    c.network.uplink_interface = "docker0".into();
    let err = start_error(h.start(&c, false).0);
    assert!(matches!(err, CoreError::Config(_)), "{err:?}");
    assert!(hp.names().is_empty());
    c.network.uplink_interface = "enp14s0".into();
    started(h.start(&c, false).0);
}

#[test]
fn without_helper_refuses_to_start() {
    let b = MockBackend::new(&["wlp15s0"]);
    let p = FakeProbe::good();
    let hp = MockHelper::default();
    let h = Hotspot::new(&b, &p, &hp);
    assert!(matches!(start_error(h.start(&cfg(), false).0), CoreError::HelperNotInstalled));
    assert!(matches!(h.state().unwrap(), HotspotState::Off));
    h.reset().0.unwrap();
}

#[test]
fn second_start_keeps_password() {
    let b = MockBackend::new(&["wlp15s0"]);
    let p = FakeProbe::good();
    let hp = MockHelper::installed();
    let h = Hotspot::new(&b, &p, &hp);
    started(h.start(&cfg(), false).0);
    let first = h.password().unwrap().unwrap();
    assert!(h.stop().0.unwrap());
    assert!(!h.stop().0.unwrap());
    let (_, _, created) = started(h.start(&cfg(), false).0);
    assert!(!created);
    assert_eq!(h.password().unwrap().unwrap().expose(), first.expose());
}

#[test]
fn start_errors() {
    let hp = MockHelper::installed();
    let b = MockBackend::new(&["wlp15s0"]);
    let mut p = FakeProbe::good();
    p.uplink = None;
    assert!(matches!(
        start_error(Hotspot::new(&b, &p, &hp).start(&cfg(), false).0),
        CoreError::NoUplink
    ));
    p.uplink = Some("wlp15s0".into());
    assert!(matches!(
        start_error(Hotspot::new(&b, &p, &hp).start(&cfg(), false).0),
        CoreError::UplinkIsAp(_)
    ));
    let mut p = FakeProbe::good();
    p.caps.sae = false;
    assert!(matches!(
        start_error(Hotspot::new(&b, &p, &hp).start(&cfg(), false).0),
        CoreError::Wpa3Unsupported
    ));
    let mut c = cfg();
    c.hotspot.security = Security::Wpa2;
    assert!(Hotspot::new(&b, &p, &hp).start(&c, false).0.is_ok());

    let mut p = FakeProbe::good();
    p.caps.ap = false;
    let b = MockBackend::new(&["wlp15s0"]);
    assert!(matches!(
        start_error(Hotspot::new(&b, &p, &hp).start(&cfg(), false).0),
        CoreError::NoApSupport
    ));
    let b = MockBackend::new(&[]);
    assert!(matches!(
        start_error(Hotspot::new(&b, &FakeProbe::good(), &hp).start(&cfg(), false).0),
        CoreError::NoWifi
    ));
    let b = MockBackend::new(&["wlp15s0"]);
    let mut c = cfg();
    c.network.ap_interface = "wlan9".into();
    assert!(matches!(
        start_error(Hotspot::new(&b, &FakeProbe::good(), &hp).start(&c, false).0),
        CoreError::IfaceNotFound(_)
    ));
    b.with(|s| s.nm_running = false);
    assert!(matches!(
        start_error(Hotspot::new(&b, &FakeProbe::good(), &hp).start(&cfg(), false).0),
        CoreError::NmNotRunning
    ));
}

#[test]
fn failed_activation_is_reported() {
    let hp = MockHelper::installed();
    let b = MockBackend::new(&["wlp15s0"]);
    b.with(|s| s.fail_up = true);
    let p = FakeProbe::good();
    assert!(matches!(
        start_error(Hotspot::new(&b, &p, &hp).start(&cfg(), false).0),
        CoreError::ActivationFailed(_)
    ));
    b.with(|s| assert_eq!(s.down_calls, 1));
    assert!(hp.names().is_empty());
}

#[test]
fn apply_refuses_to_move_a_running_hotspot_to_another_adapter() {
    let hp = MockHelper::installed();
    let b = MockBackend::new(&["wlp15s0", "wlan1"]);
    let p = FakeProbe::good();
    let h = Hotspot::new(&b, &p, &hp);
    let mut c = cfg();
    started(h.start(&c, false).0);
    c.network.ap_interface = "wlan1".into();
    let err = h.apply(&c, None).unwrap_err();
    assert!(matches!(err, CoreError::AdapterChanged { .. }), "{err:?}");
    b.with(|s| assert_eq!(s.profile.as_ref().unwrap().ap_iface, "wlp15s0"));
    h.stop().0.unwrap();
    assert_eq!(h.apply(&c, None).unwrap(), ApplyOutcome::Updated);
}

#[test]
fn apply_settings() {
    let hp = MockHelper::installed();
    let b = MockBackend::new(&["wlp15s0"]);
    let p = FakeProbe::good();
    let h = Hotspot::new(&b, &p, &hp);
    let mut c = cfg();
    assert_eq!(h.apply(&c, None).unwrap(), ApplyOutcome::Saved);
    assert!(!b.profile_exists().unwrap());
    let psk = Secret::new("MyOwnPass12345");
    assert_eq!(h.apply(&c, Some(psk.clone())).unwrap(), ApplyOutcome::Updated);
    assert_eq!(h.password().unwrap().unwrap().expose(), psk.expose());
    started(h.start(&c, false).0);
    c.hotspot.band = Band::Ghz2_4;
    assert_eq!(h.apply(&c, None).unwrap(), ApplyOutcome::Restarted);
    b.with(|s| {
        assert_eq!(s.profile.as_ref().unwrap().band, Band::Ghz2_4);
        assert_eq!(s.up_calls, 2);
    });
    assert_eq!(h.password().unwrap().unwrap().expose(), psk.expose());
    assert!(matches!(h.apply(&c, Some(Secret::new("short"))), Err(CoreError::Password(_))));
    c.hotspot.ssid = String::new();
    assert!(matches!(h.apply(&c, None), Err(CoreError::Ssid(_))));
}

#[test]
fn country_and_dns_are_set_before_start() {
    let hp = MockHelper::installed();
    let b = MockBackend::new(&["wlp15s0"]);
    let mut p = FakeProbe::good();
    p.country = Some("DE".into());
    let h = Hotspot::new(&b, &p, &hp);
    let mut c = cfg();
    c.hotspot.country = "UA".into();
    c.network.dns = vec!["1.1.1.1".into(), "9.9.9.9".into()];
    started(h.start(&c, false).0);
    assert_eq!(hp.names(), ["regdom-set", "dns-set", "fw-apply"]);

    let hp = MockHelper::installed();
    let b = MockBackend::new(&["wlp15s0"]);
    p.country = Some("UA".into());
    let h = Hotspot::new(&b, &p, &hp);
    c.network.dns.clear();
    started(h.start(&c, false).0);
    assert_eq!(hp.names(), ["fw-apply"]);

    p.dns_file = true;
    let hp = MockHelper::installed();
    let h = Hotspot::new(&b, &p, &hp);
    h.sync_dns(&c).unwrap();
    assert_eq!(hp.names(), ["dns-clear"]);
}

#[test]
fn bad_country_dns_and_subnet_are_rejected() {
    let hp = MockHelper::installed();
    let b = MockBackend::new(&["wlp15s0"]);
    let p = FakeProbe::good();
    let h = Hotspot::new(&b, &p, &hp);
    let mut c = cfg();
    c.hotspot.country = "Ukraine".into();
    assert!(matches!(start_error(h.start(&c, false).0), CoreError::Config(_)));
    c.hotspot.country.clear();
    c.network.dns = vec!["1.1.1.1".into(), "1.1.1.1".into()];
    assert!(matches!(start_error(h.start(&c, false).0), CoreError::Config(_)));
    c.network.dns = vec!["not-an-ip".into()];
    assert!(matches!(start_error(h.start(&c, false).0), CoreError::Config(_)));
    c.network.dns = vec!["1.1.1.1".into()];
    for bad in ["8.8.8.1/24", "10.42.0.0/24", "10.42.0.255/24", "192.168.1.1/8"] {
        c.network.subnet = bad.into();
        assert!(
            matches!(start_error(h.start(&c, false).0), CoreError::SubnetNotPrivate(_)),
            "{bad} was accepted"
        );
    }
    assert!(hp.names().is_empty(), "the helper was called with bad settings");
    c.network.dns = vec!["::ffff:127.0.0.1".into()];
    c.network.subnet = "192.168.77.1/24".into();
    assert!(matches!(start_error(h.start(&c, false).0), CoreError::Config(_)));
    c.network.dns.clear();
    started(h.start(&c, false).0);
}

fn raw(dst: &str, dev: &str) -> RawRoute {
    RawRoute {
        kind: None,
        dst: Some(dst.to_string()),
        dev: Some(dev.to_string()),
        nexthops: None,
    }
}

#[test]
fn subnet_overlapping_lan_or_vpn_is_rejected() {
    let hp = MockHelper::installed();
    let b = MockBackend::new(&["wlp15s0"]);
    let mut p = FakeProbe::good();
    p.routes = routes_from_raw(&[raw("192.168.1.0/24", "enp14s0"), raw("10.42.0.0/24", "wlp15s0")]);
    let h = Hotspot::new(&b, &p, &hp);
    let mut c = cfg();
    c.network.subnet = "192.168.1.200/24".into();
    let err = start_error(h.start(&c, false).0);
    match &err {
        CoreError::SubnetConflict(subnet, route) => {
            assert_eq!(subnet, "192.168.1.200/24");
            assert!(route.contains("192.168.1.0/24 (enp14s0)"), "{route}");
        }
        other => panic!("{other:?}"),
    }
    assert!(hp.names().is_empty(), "the helper was called despite the overlap");
    c.network.subnet = "10.42.0.1/24".into();
    started(h.start(&c, false).0);
}

#[test]
fn failed_stop_keeps_the_firewall_while_hotspot_runs() {
    let hp = MockHelper::installed();
    let b = MockBackend::new(&["wlp15s0"]);
    let p = FakeProbe::good();
    let h = Hotspot::new(&b, &p, &hp);
    started(h.start(&cfg(), false).0);
    b.with(|s| s.fail_down = true);
    assert!(h.stop().0.is_err());
    assert_eq!(hp.names(), ["fw-apply"], "the rules were cleared off a running hotspot");
    h.stop().0.unwrap();
    assert_eq!(hp.names(), ["fw-apply", "fw-clear"]);
}

#[test]
fn resolved_width_fits_the_band() {
    assert_eq!(effective_width(80, Band::Ghz2_4), 40);
    let hp = MockHelper::installed();
    let b = MockBackend::new(&["wlp15s0"]);
    let p = FakeProbe::good();
    let h = Hotspot::new(&b, &p, &hp);
    let mut c = cfg();
    c.hotspot.band = Band::Ghz2_4;
    c.hotspot.width_mhz = 80;
    let s = h.resolve(&c, None).ok().unwrap();
    assert_eq!(s.width_mhz, 40);
    assert_eq!(s.channel, Some(6));
}

#[test]
fn reset_is_idempotent() {
    let hp = MockHelper::installed();
    let b = MockBackend::new(&["wlp15s0"]);
    let p = FakeProbe::good();
    let h = Hotspot::new(&b, &p, &hp);
    started(h.start(&cfg(), false).0);
    h.reset().0.unwrap();
    assert!(!b.profile_exists().unwrap());
    assert!(matches!(h.state().unwrap(), HotspotState::Off));
    assert!(h.password().unwrap().is_none());
    h.reset().0.unwrap();
}

#[test]
fn resolve_checks_name_password_and_subnet_first() {
    let b = MockBackend::new(&[]);
    let p = FakeProbe::good();
    let hp = MockHelper::installed();
    let h = Hotspot::new(&b, &p, &hp);
    let mut c = cfg();
    c.hotspot.ssid = String::new();
    assert!(matches!(h.resolve(&c, None), Err(CoreError::Ssid(SsidError::Empty))));
    c.hotspot.ssid = "Test".into();
    assert!(matches!(
        h.resolve(&c, Some(Secret::new("short"))),
        Err(CoreError::Password(PasswordError::TooShort))
    ));
    c.network.subnet = "8.8.8.1/24".into();
    match h.resolve(&c, None) {
        Err(CoreError::SubnetNotPrivate(s)) => assert_eq!(s, "8.8.8.1/24"),
        _ => panic!("a public subnet was accepted"),
    }
    c.network.subnet = "10.42.0.1/24".into();
    assert!(matches!(h.resolve(&c, None), Err(CoreError::NoWifi)));
}

#[test]
fn uplink_and_adapter_decisions() {
    let cands = vec!["enp14s0".to_string(), "wg0".to_string()];
    assert_eq!(forced_uplink("wg0", &cands).unwrap(), "wg0");
    match forced_uplink("docker0", &cands) {
        Err(CoreError::Config(m)) => {
            assert_eq!(m, "uplink_interface: docker0 is not a connected non-bridge interface")
        }
        other => panic!("{other:?}"),
    }
    let on = HotspotState::On { since: None, ap_iface: "wlp15s0".into(), uplink: None };
    assert!(apply_target(&on, "wlp15s0").unwrap());
    assert!(!apply_target(&HotspotState::Off, "wlan1").unwrap());
    assert!(apply_target(&HotspotState::Starting, "wlan1").unwrap());
    match apply_target(&on, "wlan1") {
        Err(CoreError::AdapterChanged { running, wanted }) => {
            assert_eq!((running.as_str(), wanted.as_str()), ("wlp15s0", "wlan1"))
        }
        other => panic!("{other:?}"),
    }
}

#[test]
fn stop_and_reset_report_the_answers() {
    let hp = MockHelper::installed();
    let b = MockBackend::new(&["wlp15s0"]);
    let p = FakeProbe::good();
    let h = Hotspot::new(&b, &p, &hp);
    started(h.start(&cfg(), false).0);
    b.with(|s| s.fail_down = true);
    let (r, rep) = h.stop();
    assert!(r.is_err());
    assert!(matches!(rep.down, Some(Err(_))));
    assert!(matches!(rep.after, Some(Ok(HotspotState::On { .. }))));
    assert!(rep.clear.is_none(), "the rules stay while the hotspot runs");
    b.with(|s| s.fail_down = false);
    let (r, rep) = h.stop();
    assert!(r.unwrap());
    assert!(matches!(rep.down, Some(Ok(()))) && rep.after.is_none());
    assert!(matches!(rep.clear, Some(Some(Ok(())))));
    let (r, rep) = h.reset();
    r.unwrap();
    assert!(matches!(rep.nm, Ok(true)));
    assert!(rep.down.is_some() && rep.delete.is_some());
    assert!(matches!(rep.fw, Some(Ok(()))) && matches!(rep.dns, Some(Ok(()))));
}

#[test]
fn refused_settings_send_nothing() {
    let hp = MockHelper::installed();
    let b = MockBackend::new(&["wlp15s0"]);
    let p = FakeProbe::good();
    let h = Hotspot::new(&b, &p, &hp);
    let mut c = cfg();
    c.hotspot.country = "Ukraine".into();
    let (r, rep) = h.start(&c, false);
    assert!(matches!(r, Err(CoreError::Config(_))));
    assert!(rep.sent.is_empty() && !rep.activated);
    assert!(matches!(rep.installed, Some(true)));
    c.hotspot.country.clear();
    c.network.subnet = "8.8.8.1/24".into();
    let (r, rep) = h.start(&c, false);
    assert!(matches!(r, Err(CoreError::SubnetNotPrivate(_))));
    assert!(rep.sent.is_empty() && !rep.activated);
    c.network.subnet = "192.168.77.1/24".into();
    let (r, rep) = h.start(&c, false);
    started(r);
    assert!(rep.activated);
    assert_eq!(rep.sent.last().map(|q| q.name()), Some("fw-apply"));
}
