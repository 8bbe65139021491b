use omarchy_hotspot::access::{access_plan, device_window, devices_say_none, plan_failure, AccessChange};
use omarchy_hotspot::backend::HotspotState;
use omarchy_hotspot::config::Config;
use omarchy_hotspot::error::CoreError;
use omarchy_hotspot::hotspot::{
    apply_outcome, reset_requests, start_checks, start_gate, start_verdict, stop_step, ApplyOutcome,
    StartOutcome, StartUndo,
};
use omarchy_hotspot::proto::{HelperRequest, Iface, Mac};

fn on(iface: &str) -> HotspotState {
    HotspotState::On { since: None, ap_iface: iface.into(), uplink: None }
}

fn names(v: &[HelperRequest]) -> Vec<&'static str> {
    v.iter().map(|r| r.name()).collect()
}

fn mac(s: &str) -> Mac {
    Mac::parse(s).unwrap()
}

#[test]
fn start_gate_stops_on_a_running_hotspot_or_without_helper() {
    assert!(matches!(start_gate(&Ok(on("wlan0")), false), Some(Ok(StartOutcome::AlreadyOn))));
    assert!(matches!(start_gate(&Ok(HotspotState::Starting), true), Some(Ok(StartOutcome::AlreadyOn))));
    assert!(matches!(start_gate(&Ok(HotspotState::Off), false), Some(Err(CoreError::HelperNotInstalled))));
    assert!(matches!(
        start_gate(&Ok(HotspotState::Error("x".into())), false),
        Some(Err(CoreError::HelperNotInstalled))
    ));
    assert!(start_gate(&Ok(HotspotState::Off), true).is_none());
    assert!(matches!(start_gate(&Err(CoreError::Busy), true), Some(Err(CoreError::Busy))));
}

#[test]
fn start_undoes_a_failed_activation_or_firewall() {
    let (undo, r) = start_verdict(Err(CoreError::Busy), Ok(()));
    assert_eq!(undo, StartUndo::Down);
    assert!(matches!(r, Err(CoreError::Busy)));
    let (undo, r) = start_verdict(Ok(()), Err(CoreError::HelperDenied));
    assert_eq!(undo, StartUndo::DownAndClear);
    assert!(matches!(r, Err(CoreError::HelperDenied)));
    let (undo, r) = start_verdict(Ok(()), Ok(()));
    assert_eq!(undo, StartUndo::Nothing);
    assert!(r.is_ok());
}

#[test]
fn failed_stop_keeps_the_rules_while_the_hotspot_runs() {
    let (clear, r) = stop_step(true, &Err(CoreError::Busy), &Some(Ok(on("wlan0"))));
    assert!(!clear);
    assert!(matches!(r, Err(CoreError::Busy)));
    let (clear, _) = stop_step(true, &Err(CoreError::Busy), &Some(Ok(HotspotState::Starting)));
    assert!(!clear);
    let (clear, r) = stop_step(true, &Err(CoreError::Busy), &Some(Ok(HotspotState::Off)));
    assert!(clear);
    assert!(matches!(r, Err(CoreError::Busy)));
    let (clear, _) = stop_step(true, &Err(CoreError::Busy), &Some(Err(CoreError::NmNotRunning)));
    assert!(clear);
    let (clear, r) = stop_step(false, &Ok(()), &None);
    assert!(clear);
    assert_eq!(r.unwrap(), false);
}

#[test]
fn apply_ends_saved_updated_or_restarted() {
    assert_eq!(apply_outcome(false, false, false, Ok(())).unwrap(), ApplyOutcome::Saved);
    assert_eq!(apply_outcome(true, false, false, Ok(())).unwrap(), ApplyOutcome::Updated);
    assert_eq!(apply_outcome(false, true, false, Ok(())).unwrap(), ApplyOutcome::Updated);
    assert_eq!(apply_outcome(true, true, true, Ok(())).unwrap(), ApplyOutcome::Restarted);
    assert!(matches!(apply_outcome(true, false, true, Err(CoreError::Busy)), Err(CoreError::Busy)));
}

#[test]
fn reset_clears_rules_then_dns() {
    assert_eq!(names(&reset_requests()), ["fw-clear", "dns-clear"]);
}

#[test]
fn allow_from_blocked_unblocks_first() {
    let mut cfg = Config::defaults_for("pc");
    cfg.access.blocked_macs = vec!["AA:BB:CC:DD:EE:01".into()];
    let ap = Iface::parse("wlp15s0").unwrap();
    let change = AccessChange::Allow(mac("aa:bb:cc:dd:ee:01"));
    assert_eq!(names(&access_plan(&cfg, &change, Some(&ap))), ["fw-unblock", "fw-allow-add"]);
    assert!(access_plan(&cfg, &change, None).is_empty());
    let block = AccessChange::Block(mac("aa:bb:cc:dd:ee:02"));
    assert_eq!(names(&access_plan(&cfg, &block, Some(&ap))), ["fw-block", "station-kick"]);
}

#[test]
fn failed_kick_is_not_a_failure() {
    let ap = Iface::parse("wlp15s0").unwrap();
    let m = mac("aa:bb:cc:dd:ee:02");
    let plan = vec![HelperRequest::FwBlock { mac: m }, HelperRequest::StationKick { ap, mac: m }];
    assert!(plan_failure(&plan, &[Ok(()), Err(CoreError::Busy)]).is_none());
    assert!(matches!(plan_failure(&plan, &[Err(CoreError::HelperDenied)]), Some(CoreError::HelperDenied)));
    assert!(plan_failure(&plan, &[]).is_none());
}

#[test]
fn start_refuses_an_uplink_that_is_the_access_point() {
    let mut cfg = Config::defaults_for("pc");
    assert!(matches!(start_checks(&cfg, "wlan0", "wlan0", false), Err(CoreError::UplinkIsAp(u)) if u == "wlan0"));
    assert!(start_checks(&cfg, "wlan0", "eth0", false).is_ok());
    assert!(matches!(start_checks(&cfg, "wlan0", "bad name", false), Err(CoreError::Config(_))));
    cfg.access.blocked_macs = vec!["zz".into()];
    assert!(matches!(start_checks(&cfg, "wlan0", "eth0", false), Err(CoreError::Config(_))));
}

#[test]
fn device_list_keeps_the_selected_row_in_view() {
    // 12 rows tall, 2 header lines, no details: 10 rows for the list.
    assert_eq!(device_window(4, Some(0), 12, 2, false), (0, 4));
    assert_eq!(device_window(30, Some(3), 12, 2, false), (0, 10));
    assert_eq!(device_window(30, Some(15), 12, 2, false), (6, 16));
    // With the selected device's details only 3 rows are left.
    assert_eq!(device_window(30, Some(15), 12, 2, true), (13, 16));
    // No room at all still shows one row.
    assert_eq!(device_window(30, Some(5), 1, 2, true), (5, 6));
    assert_eq!(device_window(0, None, 10, 2, false), (0, 0));
    assert!(devices_say_none(true, 0));
    assert!(devices_say_none(false, 2));
    assert!(!devices_say_none(false, 0));
}
