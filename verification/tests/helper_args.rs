use omarchy_hotspot::proto::{CountryCode, DnsServer, HelperRequest, Iface, Mac};

fn mac(s: &str) -> Mac {
    Mac::parse(s).unwrap()
}

#[test]
fn firewall_request_becomes_arguments() {
    let req = HelperRequest::FwApply {
        ap: Iface::parse("wlp15s0").unwrap(),
        uplink: Iface::parse("enp14s0").unwrap(),
        approval: true,
        guests_reach_pc: false,
        allow: vec![mac("AA:BB:CC:DD:EE:02")],
        block: vec![mac("aa:bb:cc:dd:ee:04"), mac("aa:bb:cc:dd:ee:06")],
    };
    assert_eq!(
        req.to_args(),
        [
            "fw-apply",
            "--ap",
            "wlp15s0",
            "--uplink",
            "enp14s0",
            "--approval",
            "yes",
            "--guests-reach-pc",
            "no",
            "--allow",
            "aa:bb:cc:dd:ee:02",
            "--block",
            "aa:bb:cc:dd:ee:04",
            "--block",
            "aa:bb:cc:dd:ee:06",
        ]
    );
}

#[test]
fn small_requests_become_arguments() {
    assert_eq!(HelperRequest::FwClear.to_args(), ["fw-clear"]);
    assert_eq!(HelperRequest::DnsClear.to_args(), ["dns-clear"]);
    assert_eq!(
        HelperRequest::StationKick { ap: Iface::parse("wlp15s0").unwrap(), mac: mac("aa:bb:cc:dd:ee:02") }
            .to_args(),
        ["station-kick", "wlp15s0", "aa:bb:cc:dd:ee:02"]
    );
    assert_eq!(
        HelperRequest::RegdomSet { country: CountryCode::parse("ua").unwrap() }.to_args(),
        ["regdom-set", "UA"]
    );
    assert_eq!(
        HelperRequest::LeasesRead { ap: Iface::parse("wlan0").unwrap() }.to_args(),
        ["leases-read", "wlan0"]
    );
}

#[test]
fn dns_servers_are_written_out() {
    let v4 = DnsServer::parse("1.1.1.1").unwrap();
    let v6 = DnsServer::parse("2606:4700:4700::1111").unwrap();
    assert_eq!(v4.text(), "1.1.1.1");
    assert_eq!(v6.text(), "2606:4700:4700:0:0:0:0:1111");
    assert_eq!(DnsServer::parse(&v6.text()).unwrap(), v6);
    assert_eq!(
        HelperRequest::DnsSet { servers: vec![v4, v6] }.to_args(),
        ["dns-set", "1.1.1.1", "2606:4700:4700:0:0:0:0:1111"]
    );
}
