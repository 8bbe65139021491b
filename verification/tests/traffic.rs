use omarchy_hotspot::devices::{Device, DeviceStatus};
use omarchy_hotspot::ipv4::Ipv4Addr;
use omarchy_hotspot::proto::Mac;
use omarchy_hotspot::traffic::{TrafficMeter, HISTORY_LEN};

const SEC: u64 = 1_000_000_000;
const MS: u64 = 1_000_000;

fn device(last: &str, down: u64, up: u64) -> Device {
    Device {
        mac: Mac::parse(&format!("3c:2e:f5:11:22:{last}")).unwrap(),
        ip: Some(Ipv4Addr { bits: 0x0a2a_0022 }),
        hostname: None,
        signal_dbm: Some(-50),
        rx_bytes: up,
        tx_bytes: down,
        connected_secs: 5,
        status: DeviceStatus::Allowed,
    }
}

#[test]
fn counts_rate_and_total() {
    let t0 = 7 * SEC;
    let mut m = TrafficMeter::new();
    m.update(&[device("01", 1000, 500)], t0);
    assert_eq!(m.total_down, 1000);
    assert_eq!(m.total_up, 500);
    assert_eq!(m.down_bps, 0);

    m.update(&[device("01", 3000, 1500)], t0 + 2 * SEC);
    assert_eq!(m.total_down, 3000);
    assert_eq!(m.down_bps, 1000);
    assert_eq!(m.up_bps, 500);
    assert_eq!(m.history(), [1500]);
    assert_eq!(m.total_bytes(), 4500);
}

#[test]
fn rate_per_device() {
    let t0 = SEC;
    let mut m = TrafficMeter::new();
    let mac = device("01", 0, 0).mac;
    m.update(&[device("01", 0, 0)], t0);
    m.update(&[device("01", 4000, 1000)], t0 + 2 * SEC);
    assert_eq!(m.rate_of(&mac), (2000, 500));
    assert_eq!(m.rate_of(&device("09", 0, 0).mac), (0, 0));
}

#[test]
fn device_left_keeps_its_bytes() {
    let t0 = SEC;
    let mut m = TrafficMeter::new();
    m.update(&[device("01", 1000, 0)], t0);
    m.update(&[], t0 + SEC);
    assert_eq!(m.total_down, 1000);
    m.update(&[device("01", 40, 0)], t0 + 2 * SEC);
    assert_eq!(m.total_down, 1040);
}

#[test]
fn counter_reset_is_not_negative() {
    let t0 = SEC;
    let mut m = TrafficMeter::new();
    m.update(&[device("01", 5000, 0)], t0);
    m.update(&[device("01", 100, 0)], t0 + SEC);
    assert_eq!(m.total_down, 5100);
    assert_eq!(m.down_bps, 100);
    let mac = device("01", 0, 0).mac;
    assert_eq!(m.rate_of(&mac), (0, 0), "a counter that went back is no rate of its own");
}

#[test]
fn too_frequent_updates_are_skipped() {
    let t0 = SEC;
    let mut m = TrafficMeter::new();
    m.update(&[device("01", 1000, 0)], t0);
    m.update(&[device("01", 9000, 0)], t0 + 10 * MS);
    assert_eq!(m.total_down, 1000, "a poll too soon must be skipped");
    m.update(&[device("01", 9000, 0)], t0 + 200 * MS);
    assert_eq!(m.total_down, 9000);
    assert_eq!(m.down_bps, 40000);
}

#[test]
fn history_is_capped() {
    let t0 = 0;
    let mut m = TrafficMeter::new();
    for i in 0..(HISTORY_LEN as u64 + 10) {
        m.update(&[device("01", i * 100, 0)], t0 + (i + 1) * SEC);
    }
    assert_eq!(m.history().len(), HISTORY_LEN);
    assert_eq!(*m.history().last().unwrap(), 100);
}

#[test]
fn reset_clears_session() {
    let t0 = SEC;
    let mut m = TrafficMeter::new();
    m.update(&[device("01", 1000, 100)], t0);
    m.reset();
    assert_eq!(m.total_bytes(), 0);
    assert!(m.history().is_empty());
}

#[test]
fn rates_round_down_and_clock_going_back_is_skipped() {
    let mut m = TrafficMeter::new();
    m.update(&[device("01", 0, 0)], 10 * SEC);
    m.update(&[device("01", 10, 7)], 13 * SEC);
    assert_eq!((m.down_bps, m.up_bps), (3, 2));
    assert_eq!(m.history(), [5]);
    m.update(&[device("01", 100, 100)], 5 * SEC);
    assert_eq!(m.total_down, 10, "a clock that went back gives no time: the poll is skipped");
}
