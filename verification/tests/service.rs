use omarchy_hotspot::access::AccessChange;
use omarchy_hotspot::backend::HotspotState;
use omarchy_hotspot::config::Config;
use omarchy_hotspot::daemon::{
    ask_pending, change_event, forget_asked, kick_due, leases_due, request_change, retry_delay,
    rules_key, session_change, state_response, RulesWatch, SessionChange, MAX_ASKED,
    MAX_NEW_DEVICE_NOTIFICATIONS,
};
use omarchy_hotspot::devices::{Device, DeviceStatus};
use omarchy_hotspot::ipc::{Event, Request, Response, WireState};
use omarchy_hotspot::proto::Mac;

fn mac(n: u64) -> Mac {
    Mac { bits: 0x3c2e_f511_2200 + n }
}

fn device(n: u64, status: DeviceStatus) -> Device {
    Device {
        mac: mac(n),
        ip: None,
        hostname: None,
        signal_dbm: None,
        rx_bytes: 0,
        tx_bytes: 0,
        connected_secs: 120,
        status,
    }
}

fn on() -> HotspotState {
    HotspotState::On { since: Some(1_700_000_000), ap_iface: "wlan0".into(), uplink: Some("eth0".into()) }
}

#[test]
fn rules_wait_for_the_start_then_apply_once() {
    let cfg = Config::defaults_for("pc");
    let want = rules_key(&cfg);
    let mut w = RulesWatch::new();
    assert!(!w.due(true, 1, 100, &want));
    assert!(!w.due(false, 5, 100, &want));
    assert!(w.due(true, 2, 100, &want));
    w.applied(want.clone());
    assert!(!w.due(true, 9, 100, &want));
    assert_eq!(w.approval_active(), cfg.access.approval_required);
    let mut other = want.clone();
    other.approval = !other.approval;
    assert!(w.due(true, 9, 100, &other));
}

#[test]
fn failed_rules_wait_longer_each_time_and_give_up_without_helper() {
    let want = rules_key(&Config::defaults_for("pc"));
    let mut w = RulesWatch::new();
    w.failed(false, 100);
    assert_eq!(w.retry_at, Some(101));
    assert!(!w.due(true, 5, 100, &want));
    assert!(w.due(true, 5, 101, &want));
    w.failed(false, 101);
    w.failed(false, 103);
    w.failed(false, 108);
    w.failed(false, 123);
    assert_eq!(w.retry_at, Some(153));
    assert_eq!((retry_delay(0), retry_delay(4), retry_delay(40)), (1, 30, 30));
    w.failed(true, 200);
    assert!(!w.due(true, 5, 10_000, &want));
    w.restart();
    assert!(w.due(true, 5, 10_000, &want));
    w.applied(want.clone());
    w.end();
    assert_eq!(w, RulesWatch::new());
}

#[test]
fn rules_uplink_is_the_trimmed_setting() {
    let mut cfg = Config::defaults_for("pc");
    cfg.network.uplink_interface = "  eth0 ".into();
    assert_eq!(rules_key(&cfg).uplink, "eth0");
}

#[test]
fn new_devices_are_asked_about_once_within_the_limits() {
    let devices = vec![
        device(1, DeviceStatus::Pending),
        device(2, DeviceStatus::Allowed),
        device(3, DeviceStatus::Pending),
        device(4, DeviceStatus::Blocked),
    ];
    let mut asked = vec![mac(3)];
    let mut notes = MAX_NEW_DEVICE_NOTIFICATIONS - 1;
    let q = ask_pending(&devices, &mut asked, &mut notes);
    assert_eq!(q.len(), 1);
    assert_eq!((q[0].0.mac, q[0].1), (mac(1), true));
    assert_eq!(asked, vec![mac(3), mac(1)]);
    assert_eq!(notes, MAX_NEW_DEVICE_NOTIFICATIONS);
    // Asked already: not again; a new one is asked about without a notification.
    let more = vec![device(1, DeviceStatus::Pending), device(5, DeviceStatus::Pending)];
    let q = ask_pending(&more, &mut asked, &mut notes);
    assert_eq!(q.len(), 1);
    assert_eq!((q[0].0.mac, q[0].1), (mac(5), false));
    assert_eq!(notes, MAX_NEW_DEVICE_NOTIFICATIONS);
    // A device that left is asked about again when it comes back.
    forget_asked(&mut asked, mac(1));
    assert_eq!(asked, vec![mac(3), mac(5)]);
}

#[test]
fn the_session_stops_asking_past_its_limit() {
    let mut asked: Vec<Mac> = (100..100 + MAX_ASKED as u64 - 1).map(mac).collect();
    let mut notes = 0;
    let devices = vec![device(1, DeviceStatus::Pending), device(2, DeviceStatus::Pending)];
    let q = ask_pending(&devices, &mut asked, &mut notes);
    assert_eq!(q.len(), 1);
    assert_eq!(asked.len(), MAX_ASKED);
    assert!(ask_pending(&devices, &mut asked, &mut notes).is_empty());
}

#[test]
fn pauses_between_kicks_and_lease_readings() {
    assert!(kick_due(None, 5));
    assert!(!kick_due(Some(100), 109));
    assert!(kick_due(Some(100), 110));
    assert!(!kick_due(Some(100), 50));
    let mut fresh = device(1, DeviceStatus::Allowed);
    fresh.connected_secs = 10;
    assert!(leases_due(true, &[fresh.clone()], true, Some(100), 115));
    assert!(!leases_due(true, &[fresh.clone()], true, Some(100), 114));
    assert!(!leases_due(true, &[device(2, DeviceStatus::Allowed)], true, Some(100), 115));
    assert!(leases_due(true, &[device(2, DeviceStatus::Allowed)], true, Some(100), 220));
    assert!(!leases_due(true, &[], true, None, 0));
    assert!(!leases_due(true, &[fresh.clone()], false, None, 0));
    assert!(!leases_due(false, &[fresh], true, None, 0));
}

#[test]
fn requests_become_changes_and_events() {
    assert_eq!(request_change(&Request::Deny { mac: mac(1) }), Some(AccessChange::Block(mac(1))));
    assert_eq!(request_change(&Request::Approve { mac: mac(1) }), Some(AccessChange::Allow(mac(1))));
    assert_eq!(request_change(&Request::Ping), None);
    assert_eq!(change_event(&AccessChange::Unblock(mac(2))), Event::DeviceUnblocked { mac: mac(2) });
    assert_eq!(
        state_response(&on(), 3, true),
        Response::State {
            state: WireState::On,
            uplink: Some("eth0".into()),
            since: Some(1_700_000_000),
            devices_count: 3,
            approval: true,
        }
    );
    assert_eq!(
        state_response(&HotspotState::Starting, 0, false),
        Response::State { state: WireState::Starting, uplink: None, since: None, devices_count: 0, approval: false }
    );
}

#[test]
fn a_hotspot_that_comes_on_starts_a_session() {
    assert_eq!(session_change(&HotspotState::Off, &on()), (Some(WireState::On), SessionChange::Begin));
    assert_eq!(session_change(&on(), &HotspotState::Off), (Some(WireState::Off), SessionChange::End));
    assert_eq!(session_change(&on(), &on()), (None, SessionChange::Same));
    assert_eq!(
        session_change(&HotspotState::Off, &HotspotState::Error("x".into())),
        (Some(WireState::Error), SessionChange::Same)
    );
}
