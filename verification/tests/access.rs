use std::cell::RefCell;

use omarchy_hotspot::access::{apply, AccessChange, AccessLists, HelperRunner};
use omarchy_hotspot::config::Config;
use omarchy_hotspot::devices::{merge, DeviceStatus};
use omarchy_hotspot::iw::Station;
use omarchy_hotspot::error::CoreError;
use omarchy_hotspot::proto::{HelperRequest, Iface, Mac, MAX_MAC_LIST};

struct MockHelper {
    calls: RefCell<Vec<String>>,
    fail: bool,
}

impl MockHelper {
    fn installed() -> MockHelper {
        MockHelper { calls: RefCell::new(Vec::new()), fail: false }
    }

    fn names(&self) -> Vec<String> {
        self.calls.borrow().clone()
    }
}

impl HelperRunner for MockHelper {
    fn installed(&self) -> bool {
        true
    }

    fn call(&self, req: &HelperRequest) -> Result<String, CoreError> {
        self.calls.borrow_mut().push(req.name().to_string());
        if self.fail {
            Err(CoreError::HelperFailed("mock".into()))
        } else {
            Ok(String::new())
        }
    }
}

fn mac(last: &str) -> Mac {
    Mac::parse(&format!("aa:bb:cc:dd:ee:{last}")).unwrap()
}

fn ap() -> Iface {
    Iface::parse("wlp15s0").unwrap()
}

fn config() -> Config {
    Config::defaults_for("pc")
}

#[test]
fn allow_moves_mac_from_blocked_to_allowed() {
    let h = MockHelper::installed();
    let mut cfg = config();
    cfg.access.blocked_macs = vec!["AA:BB:CC:DD:EE:01".into()];
    let changed = apply(&h, Some(&ap()), &mut cfg, &AccessChange::Allow(mac("01"))).0.unwrap();
    assert!(changed);
    assert!(cfg.access.blocked_macs.is_empty());
    assert_eq!(cfg.access.allowed_macs, ["aa:bb:cc:dd:ee:01"]);
    assert_eq!(h.names(), ["fw-unblock", "fw-allow-add"]);
    assert!(!apply(&h, Some(&ap()), &mut cfg, &AccessChange::Allow(mac("01"))).0.unwrap());
}

#[test]
fn block_kicks_and_removes_from_allowed() {
    let h = MockHelper::installed();
    let mut cfg = config();
    cfg.access.allowed_macs = vec!["aa:bb:cc:dd:ee:02".into()];
    assert!(apply(&h, Some(&ap()), &mut cfg, &AccessChange::Block(mac("02"))).0.unwrap());
    assert!(cfg.access.allowed_macs.is_empty());
    assert_eq!(cfg.access.blocked_macs, ["aa:bb:cc:dd:ee:02"]);
    assert_eq!(h.names(), ["fw-block", "fw-allow-remove", "station-kick"]);
}

#[test]
fn without_hotspot_only_config_changes() {
    let h = MockHelper::installed();
    let mut cfg = config();
    assert!(apply(&h, None, &mut cfg, &AccessChange::Block(mac("03"))).0.unwrap());
    assert!(apply(&h, None, &mut cfg, &AccessChange::Unblock(mac("03"))).0.unwrap());
    assert!(h.names().is_empty());
    assert!(cfg.access.blocked_macs.is_empty());
}

#[test]
fn helper_failure_keeps_config_untouched() {
    let mut h = MockHelper::installed();
    h.fail = true;
    let mut cfg = config();
    assert!(apply(&h, Some(&ap()), &mut cfg, &AccessChange::Allow(mac("04"))).0.is_err());
    assert!(cfg.access.allowed_macs.is_empty());
}

#[test]
fn failed_kick_still_blocks() {
    let mut h = MockHelper::installed();
    h.fail = true;
    let mut cfg = config();
    // The first step (the block rule) fails, so nothing is written.
    assert!(apply(&h, Some(&ap()), &mut cfg, &AccessChange::Block(mac("05"))).0.is_err());
    assert!(cfg.access.blocked_macs.is_empty());
    assert_eq!(h.names(), ["fw-block"]);
}

#[test]
fn statuses_follow_lists() {
    let mut cfg = config();
    cfg.access.allowed_macs = vec!["aa:bb:cc:dd:ee:01".into()];
    cfg.access.blocked_macs = vec!["aa:bb:cc:dd:ee:02".into()];
    let lists = AccessLists::from_config(&cfg, true);
    assert_eq!(lists.status(&mac("01")), DeviceStatus::Allowed);
    assert_eq!(lists.status(&mac("02")), DeviceStatus::Blocked);
    assert_eq!(lists.status(&mac("03")), DeviceStatus::Pending);
    let lists = AccessLists::from_config(&cfg, false);
    assert_eq!(lists.status(&mac("03")), DeviceStatus::Allowed);
    assert_eq!(lists.status(&mac("02")), DeviceStatus::Blocked);
}

#[test]
fn list_is_capped() {
    let mut cfg = config();
    cfg.access.blocked_macs = (0..MAX_MAC_LIST)
        .map(|i| format!("02:00:00:00:{:02x}:{:02x}", i / 256, i % 256))
        .collect();
    let h = MockHelper::installed();
    assert!(matches!(
        apply(&h, Some(&ap()), &mut cfg, &AccessChange::Block(mac("ff"))).0,
        Err(CoreError::Config(_))
    ));
    assert!(h.names().is_empty());
    let last = Mac::parse(&cfg.access.blocked_macs[0]).unwrap();
    assert!(!apply(&h, None, &mut cfg, &AccessChange::Block(last)).0.unwrap());
}

#[test]
fn annotate_sets_every_status() {
    let st = |m: Mac| Station { mac: m, signal_dbm: None, rx_bytes: 0, tx_bytes: 0, connected_secs: 1, authorized: true };
    let mut devices = merge(&[st(mac("01")), st(mac("02")), st(mac("03"))], &[], &[]);
    let mut cfg = config();
    cfg.access.allowed_macs = vec!["aa:bb:cc:dd:ee:01".into(), "junk".into()];
    cfg.access.blocked_macs = vec!["aa:bb:cc:dd:ee:02".into()];
    AccessLists::from_config(&cfg, true).annotate(&mut devices);
    let statuses: Vec<DeviceStatus> = devices.iter().map(|d| d.status).collect();
    assert_eq!(statuses, [DeviceStatus::Allowed, DeviceStatus::Blocked, DeviceStatus::Pending]);
    assert_eq!(AccessChange::Unblock(mac("07")).mac(), &mac("07"));
}

#[test]
fn report_holds_the_plan_and_the_answers() {
    let h = MockHelper::installed();
    let mut cfg = config();
    cfg.access.blocked_macs = vec!["AA:BB:CC:DD:EE:01".into()];
    let (r, report) = apply(&h, Some(&ap()), &mut cfg, &AccessChange::Allow(mac("01")));
    assert!(r.unwrap());
    let planned: Vec<&str> = report.plan.iter().map(|q| q.name()).collect();
    assert_eq!(planned, ["fw-unblock", "fw-allow-add"]);
    assert_eq!(h.names(), planned);
    assert_eq!(report.answers.len(), 2);

    let failing = MockHelper { calls: RefCell::new(Vec::new()), fail: true };
    let mut cfg = config();
    let before = cfg.clone();
    let (r, report) = apply(&failing, Some(&ap()), &mut cfg, &AccessChange::Block(mac("02")));
    assert!(matches!(r, Err(CoreError::HelperFailed(_))));
    assert_eq!(report.answers.len(), 1);
    assert_eq!(failing.names(), ["fw-block"]);
    assert_eq!(cfg, before);
}
