use std::time::{Duration, UNIX_EPOCH};

use omarchy_hotspot::backend::HotspotState;
use omarchy_hotspot::daemon::{
    diff_devices, idle_step, timer_base, timer_step, wire_state, IdleWatch, Known, TimerWatch,
    WatchAction,
};
use omarchy_hotspot::devices::{Device, DeviceStatus};
use omarchy_hotspot::ipc::{Response, WireState};
use omarchy_hotspot::proto::Mac;

fn mac(last: &str) -> Mac {
    Mac::parse(&format!("3c:2e:f5:11:22:{last}")).unwrap()
}

fn device(last: &str) -> Device {
    Device {
        mac: mac(last),
        ip: None,
        hostname: Some(format!("Phone-{last}")),
        signal_dbm: Some(-50),
        rx_bytes: 0,
        tx_bytes: 0,
        connected_secs: 5,
        status: DeviceStatus::Allowed,
    }
}

#[test]
fn diff_finds_new_and_gone() {
    let known = vec![Known { mac: mac("01"), name: "Phone-01".to_string() }];
    let devices = [device("02")];
    let (gone, fresh) = diff_devices(&known, &devices);
    assert_eq!(gone, [Known { mac: mac("01"), name: "Phone-01".to_string() }]);
    assert_eq!(fresh.len(), 1);
    assert_eq!(fresh[0].mac, mac("02"));
    let known = vec![Known { mac: mac("02"), name: "Phone-02".to_string() }];
    let (gone, fresh) = diff_devices(&known, &devices);
    assert!(gone.is_empty() && fresh.is_empty());
}

#[test]
fn idle_watch_warns_then_stops() {
    let w = IdleWatch { since: None, warned: false };
    let (w, a) = idle_step(w, 5, true, true, true, 1000);
    assert_eq!((w, a), (IdleWatch { since: Some(1000), warned: false }, WatchAction::Nothing));
    let (w, a) = idle_step(w, 5, true, true, true, 1000 + 4 * 60);
    assert_eq!((w.warned, a), (true, WatchAction::Warn));
    let (w2, a) = idle_step(w, 5, true, true, true, 1000 + 4 * 60 + 30);
    assert_eq!((w2.warned, a), (true, WatchAction::Nothing), "the warning goes out once");
    let (w3, a) = idle_step(w, 5, true, true, true, 1000 + 5 * 60);
    assert_eq!((w3, a), (IdleWatch { since: None, warned: false }, WatchAction::Stop));
    let (w4, a) = idle_step(w, 5, true, false, true, 1000 + 9 * 60);
    assert_eq!((w4.since, a), (None, WatchAction::Nothing), "someone came: no switching off");
    let (_, a) = idle_step(w, 5, true, true, false, 1000 + 9 * 60);
    assert_eq!(a, WatchAction::Nothing, "an unreadable list is not nobody");
}

#[test]
fn timer_switches_off_after_its_minutes() {
    let w = TimerWatch { timer: None, warned: false };
    let (w, a) = timer_step(w, 30, true, Some(1_000), 1_000 + 10 * 60);
    assert_eq!((w.timer, a), (Some((30, 1_000)), WatchAction::Nothing));
    let (w, a) = timer_step(w, 30, true, Some(1_000), 1_000 + 29 * 60);
    assert_eq!(a, WatchAction::Warn);
    let (_, a) = timer_step(w, 30, true, Some(1_000), 1_000 + 30 * 60);
    assert_eq!(a, WatchAction::Stop);
    let (w, a) = timer_step(w, 60, true, Some(1_000), 1_000 + 40 * 60);
    assert_eq!((w.timer, w.warned, a), (Some((60, 1_000 + 40 * 60)), false, WatchAction::Nothing));
    let (w, _) = timer_step(w, 0, true, Some(1_000), 5_000);
    assert_eq!(w.timer, Some((0, 5_000)));
    let (w, a) = timer_step(w, 0, false, None, 6_000);
    assert_eq!((w.timer, a), (None, WatchAction::Nothing));
}

#[test]
fn timer_counts_from_start_or_from_the_change() {
    let start = UNIX_EPOCH + Duration::from_secs(1_000);
    let now = UNIX_EPOCH + Duration::from_secs(10_000);
    assert_eq!(timer_base(None, 30, Some(start), now), start);
    assert_eq!(timer_base(None, 30, None, now), now);
    assert_eq!(timer_base(Some((30, start)), 30, Some(start), now), start);
    assert_eq!(timer_base(Some((30, start)), 60, Some(start), now), now);
    assert_eq!(timer_base(Some((0, start)), 30, Some(start), now), now);
}

#[test]
fn wire_states_match_hotspot_states() {
    assert_eq!(wire_state(&HotspotState::Off), WireState::Off);
    assert_eq!(wire_state(&HotspotState::Starting), WireState::Starting);
    assert_eq!(
        wire_state(&HotspotState::On { since: None, ap_iface: "wlp15s0".into(), uplink: None }),
        WireState::On
    );
    assert_eq!(wire_state(&HotspotState::Error("x".into())), WireState::Error);
}

#[test]
fn error_answers_carry_code_and_message() {
    assert_eq!(
        Response::err("failed", "no"),
        Response::Failed { code: "failed".into(), msg: "no".into() }
    );
}
