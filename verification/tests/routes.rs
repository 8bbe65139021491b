use omarchy_hotspot::backend::Ipv4Net;
use omarchy_hotspot::routes::{
    find_conflict, parse_route_get, parse_routes, routes_from_raw, RawRoute, Route,
};

fn s(v: &str) -> Option<String> {
    Some(v.to_string())
}

fn raw(kind: Option<&str>, dst: Option<&str>, dev: Option<&str>) -> RawRoute {
    RawRoute {
        kind: kind.map(str::to_string),
        dst: dst.map(str::to_string),
        dev: dev.map(str::to_string),
        nexthops: None,
    }
}

fn net(v: &str) -> Ipv4Net {
    Ipv4Net::parse(v).unwrap()
}

#[test]
fn parses_unicast_only() {
    let j = r#"[
        {"dst":"default","gateway":"192.168.1.1","dev":"enp14s0","protocol":"dhcp"},
        {"dst":"192.168.1.0/24","dev":"enp14s0","protocol":"kernel","scope":"link"},
        {"dst":"10.8.0.1","dev":"wg0"},
        {"type":"local","dst":"10.2.0.2","dev":"wg1","table":"local"},
        {"type":"local","dst":"127.0.0.1","dev":"lo","table":"local"},
        {"type":"broadcast","dst":"192.168.1.255","dev":"enp14s0","table":"local"},
        {"type":"blackhole","dst":"10.99.0.0/16"},
        {"dst":"172.20.0.0/16","nexthops":[{"gateway":"10.0.0.1","dev":"tun1"},{"gateway":"10.0.1.1","dev":"tun2"}]},
        {"dst":"10.0.0.0/33","dev":"x"}
    ]"#;
    let r: Vec<String> = parse_routes(j).unwrap().iter().map(Route::to_string).collect();
    assert_eq!(
        r,
        [
            "192.168.1.0/24 (enp14s0)",
            "10.8.0.1/32 (wg0)",
            "10.2.0.2/32 (wg1)",
            "172.20.0.0/16 (tun1)",
            "172.20.0.0/16 (tun2)",
        ]
    );
    assert!(parse_routes("oops").is_err());
}

#[test]
fn conflicts() {
    let routes = parse_routes(
        r#"[
        {"dst":"192.168.1.0/24","dev":"enp14s0"},
        {"dst":"10.8.0.0/24","dev":"wg0"},
        {"dst":"0.0.0.0/1","dev":"tun0"},
        {"dst":"128.0.0.0/1","dev":"tun0"},
        {"dst":"10.42.0.0/24","dev":"wlp15s0"}
    ]"#,
    )
    .unwrap();
    let hit = |v: &str| find_conflict(&net(v), &routes, "wlp15s0").map(|r| r.dev.clone());
    assert_eq!(hit("10.42.0.1/24"), None);
    assert_eq!(hit("192.168.2.1/24"), None);
    assert_eq!(hit("192.168.1.77/24"), Some("enp14s0".into()));
    assert_eq!(hit("192.168.1.1/30"), Some("enp14s0".into()));
    assert_eq!(hit("192.168.0.1/16"), Some("enp14s0".into()));
    assert_eq!(hit("10.0.0.1/8"), Some("wg0".into()));
    let vpn = parse_routes(r#"[{"type":"local","dst":"10.2.0.2","dev":"wg1"}]"#).unwrap();
    assert!(find_conflict(&net("10.2.0.1/24"), &vpn, "wlp15s0").is_some());
    assert!(find_conflict(&net("10.3.0.1/24"), &vpn, "wlp15s0").is_none());
    assert_eq!(find_conflict(&net("10.42.0.1/24"), &routes, "other"), routes.get(4));
}

#[test]
fn parses_dev() {
    let j = r#"[{"dst":"1.1.1.1","gateway":"192.168.1.1","dev":"enp14s0","prefsrc":"192.168.1.5"}]"#;
    assert_eq!(parse_route_get(j).unwrap(), Some("enp14s0".into()));
    assert_eq!(parse_route_get("[]").unwrap(), None);
    assert!(parse_route_get("not json").is_err());
}

#[test]
fn route_get_reads_only_an_array() {
    assert_eq!(parse_route_get(r#"{"dev":"eth0"}"#).unwrap(), None);
    assert_eq!(parse_route_get(r#"[{"dev":7}]"#).unwrap(), None);
    assert_eq!(parse_route_get(r#"[{"x":1},{"dev":"eth1"}]"#).unwrap(), None);
}

#[test]
fn routes_need_an_array() {
    assert!(parse_routes(r#"{"dst":"10.0.0.0/8","dev":"a"}"#).is_err());
    assert!(parse_routes("[]").unwrap().is_empty());
    let r: Vec<String> = parse_routes(r#"[{"dst":"10.1.0.0/16","dev":"a","nexthops":[{"dev":"lo"},{"gw":1},{"dev":"tun3"}]}, 5, "x"]"#)
        .unwrap()
        .iter()
        .map(Route::to_string)
        .collect();
    assert_eq!(r, ["10.1.0.0/16 (tun3)"]);
}

#[test]
fn hops_without_dev_and_lo_are_dropped() {
    let table = vec![RawRoute {
        kind: s("unicast"),
        dst: s("10.1.0.0/16"),
        dev: s("ignored"),
        nexthops: Some(vec![None, s("lo"), s("tun3")]),
    }];
    let r: Vec<String> = routes_from_raw(&table).iter().map(Route::to_string).collect();
    assert_eq!(r, ["10.1.0.0/16 (tun3)"]);
    assert!(routes_from_raw(&[raw(None, None, Some("x"))]).is_empty());
}
