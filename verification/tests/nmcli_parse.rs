use omarchy_hotspot::nmcli_parse::{
    active_connection_of, active_entry, connected_devices, devices_of_type, profile_uuids,
    single_value, split_terse,
};

#[test]
fn connected_devices_skip_loopback_and_hotspot() {
    let text = "enp14s0:ethernet:connected:Wired 1\nwlp15s0:wifi:connected:omarchy-hotspot\n\
                lo:loopback:connected (externally):lo\nwg0:wireguard:connected:wg0\n\
                docker0:bridge:connected (externally):docker0\n";
    assert_eq!(
        connected_devices(text, "omarchy-hotspot"),
        ["enp14s0", "wg0"]
    );
}

#[test]
fn splits_with_escapes() {
    assert_eq!(split_terse("a:b\\:c:d\\\\"), vec!["a", "b:c", "d\\"]);
    assert_eq!(split_terse(""), vec![""]);
}

#[test]
fn filters_wifi() {
    let out = "enp14s0:ethernet\nlo:loopback\nwlp15s0:wifi\np2p-dev-wlp15s0:wifi-p2p\n";
    assert_eq!(devices_of_type(out, "wifi"), vec!["wlp15s0"]);
}

#[test]
fn finds_client_connection() {
    let out = "enp14s0:connected:Проводное 1\n\
               wlp15s0:connected:Home\\:Net\n\
               p2p-dev-wlp15s0:disconnected:\n";
    assert_eq!(
        active_connection_of(out, "wlp15s0", "omarchy-hotspot").as_deref(),
        Some("Home:Net")
    );
    let ours = "wlp15s0:connected:omarchy-hotspot\n";
    assert_eq!(
        active_connection_of(ours, "wlp15s0", "omarchy-hotspot"),
        None
    );
    let off = "wlp15s0:disconnected:\n";
    assert_eq!(
        active_connection_of(off, "wlp15s0", "omarchy-hotspot"),
        None
    );
}

#[test]
fn single_value_unescapes_and_keeps_spaces() {
    assert_eq!(single_value("pa\\:ss\\\\wo;rd\"x \n"), "pa:ss\\wo;rd\"x ");
    assert_eq!(single_value(""), "");
}

#[test]
fn finds_profile_and_active_state() {
    let list = "Проводное подключение 1:eae0:802-3-ethernet\n\
                omarchy-hotspot:7a59:802-11-wireless\n\
                omarchy-hotspot:dead:802-3-ethernet\n";
    let uuids = profile_uuids(list, "omarchy-hotspot");
    assert_eq!(uuids, vec!["7a59"]);
    let active = "eae0:enp14s0:activated\n7a59:wlp15s0:activating\n";
    assert_eq!(
        active_entry(active, &uuids),
        Some(("wlp15s0".into(), "activating".into()))
    );
    assert_eq!(active_entry("eae0:enp14s0:activated\n", &uuids), None);
}

#[test]
fn terse_line_with_trailing_backslash_drops_it() {
    assert_eq!(split_terse("a:b\\"), vec!["a", "b"]);
}

#[test]
fn crlf_lines_are_read_like_plain_ones() {
    assert_eq!(devices_of_type("wlp1s0:wifi\r\nlo:loopback\r\n", "wifi"), vec!["wlp1s0"]);
}
