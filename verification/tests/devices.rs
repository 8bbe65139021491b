use omarchy_hotspot::devices::{bars_str, merge, signal_bars};
use omarchy_hotspot::ipv4::Ipv4Addr;
use omarchy_hotspot::iw::Station;
use omarchy_hotspot::leases::Lease;
use omarchy_hotspot::neigh::Neigh;
use omarchy_hotspot::proto::Mac;

fn mac(last: &str) -> Mac {
    Mac::parse(&format!("3c:2e:f5:11:22:{last}")).unwrap()
}

fn station(last: &str, secs: u64) -> Station {
    Station {
        mac: mac(last),
        signal_dbm: Some(-50),
        rx_bytes: 100,
        tx_bytes: 200,
        connected_secs: secs,
        authorized: true,
    }
}

#[test]
fn bars_by_signal() {
    assert_eq!(signal_bars(-40), 4);
    assert_eq!(signal_bars(-55), 3);
    assert_eq!(signal_bars(-56), 3);
    assert_eq!(signal_bars(-70), 2);
    assert_eq!(signal_bars(-90), 1);
    assert_eq!(bars_str(4), "▂▄▆█");
    assert_eq!(bars_str(2), "▂▄  ");
    assert_eq!(bars_str(0).chars().count(), 4);
}

#[test]
fn merges_lease_and_neigh() {
    let st = [station("01", 10), station("02", 99)];
    let ng = [Neigh { mac: mac("01"), ip: Ipv4Addr::new(10, 42, 0, 34) }];
    let ls = [Lease {
        mac: mac("02"),
        ip: Ipv4Addr::new(10, 42, 0, 51),
        hostname: Some("Pixel-8".into()),
    }];
    let d = merge(&st, &ng, &ls);
    assert_eq!(d[0].mac, mac("02"));
    assert_eq!(d[0].hostname.as_deref(), Some("Pixel-8"));
    assert_eq!(d[0].display_name(), "Pixel-8");
    assert_eq!(d[1].ip, Some(Ipv4Addr::new(10, 42, 0, 34)));
    assert_eq!(d[1].display_name(), "10.42.0.34");
    assert_eq!(d[0].down_bytes(), 200);
    assert_eq!(d[0].up_bytes(), 100);
}

#[test]
fn lease_ip_wins_over_neigh() {
    let st = [station("01", 1)];
    let ng = [Neigh { mac: mac("01"), ip: Ipv4Addr::new(10, 42, 0, 9) }];
    let ls = [Lease { mac: mac("01"), ip: Ipv4Addr::new(10, 42, 0, 34), hostname: None }];
    let d = merge(&st, &ng, &ls);
    assert_eq!(d[0].ip, Some(Ipv4Addr::new(10, 42, 0, 34)));
    assert_eq!(d[0].display_name(), "10.42.0.34");
}

#[test]
fn no_stations_no_devices() {
    assert!(merge(&[], &[], &[]).is_empty());
}

#[test]
fn equal_times_sort_by_mac_and_unknown_shows_mac() {
    let st = [station("0c", 5), station("0a", 5), station("0b", 7)];
    let d = merge(&st, &[], &[]);
    assert_eq!(d[0].mac, mac("0b"));
    assert_eq!(d[1].mac, mac("0a"));
    assert_eq!(d[2].mac, mac("0c"));
    assert_eq!(d[1].display_name(), "3c:2e:f5:11:22:0a");
    assert_eq!(signal_bars(-75), 1);
    assert_eq!(bars_str(9), "▂▄▆█");
}
