use omarchy_hotspot::error::CoreError;
use omarchy_hotspot::hotspot::{named_iface, nm_verdict, reset_verdict, route_uplink, stop_verdict};
use omarchy_hotspot::password::{accept_candidate, draw_char, ALPHABET, ZONE};

fn is(e: &Result<impl std::fmt::Debug, CoreError>, want: &str) -> bool {
    format!("{e:?}").contains(want)
}

#[test]
fn network_manager_must_answer_running() {
    assert!(nm_verdict(Ok(true)).is_ok());
    assert!(is(&nm_verdict(Ok(false)), "NmNotRunning"));
    assert!(is(&nm_verdict(Err(CoreError::Busy)), "Busy"));
}

#[test]
fn no_route_means_no_uplink() {
    assert_eq!(route_uplink(Ok(Some("eth0".into()))).unwrap(), "eth0");
    assert!(is(&route_uplink(Ok(None)), "NoUplink"));
    assert!(is(&route_uplink(Err(CoreError::Busy)), "Busy"));
}

#[test]
fn the_named_adapter_must_be_there() {
    let ifaces = vec!["wlan0".to_string(), "wlan1".to_string()];
    assert!(named_iface(&ifaces, "wlan1").is_ok());
    assert!(is(&named_iface(&ifaces, "wlan7"), "IfaceNotFound(\"wlan7\")"));
    assert!(is(&named_iface(&[], "wlan0"), "NoWifi"));
}

#[test]
fn stopping_reports_the_first_failure() {
    assert_eq!(stop_verdict(true, Ok(()), Ok(())).unwrap(), true);
    assert_eq!(stop_verdict(false, Ok(()), Ok(())).unwrap(), false);
    assert!(is(&stop_verdict(true, Err(CoreError::Busy), Err(CoreError::HelperDenied)), "Busy"));
    assert!(is(&stop_verdict(true, Ok(()), Err(CoreError::HelperDenied)), "HelperDenied"));
}

#[test]
fn reset_reports_the_first_failure_in_order() {
    let ok = || Ok(());
    assert!(reset_verdict(ok(), ok(), ok(), ok(), ok()).is_ok());
    let r = reset_verdict(ok(), Err(CoreError::Busy), ok(), Err(CoreError::HelperDenied), ok());
    assert!(is(&r, "Busy"));
    let r = reset_verdict(ok(), ok(), ok(), ok(), Err(CoreError::HelperNotInstalled));
    assert!(is(&r, "HelperNotInstalled"));
}

#[test]
fn draws_map_to_the_alphabet_and_the_tail_is_thrown_away() {
    let alphabet: Vec<char> = ALPHABET.chars().collect();
    assert_eq!(draw_char(0, &alphabet), Some('a'));
    assert_eq!(draw_char(58, &alphabet), Some('b'));
    assert_eq!(draw_char(56, &alphabet), Some('9'));
    assert_eq!(draw_char(ZONE, &alphabet), None);
    assert_eq!(draw_char(u32::MAX, &alphabet), None);
}

#[test]
fn candidates_need_all_three_classes() {
    let good: Vec<char> = "abcdEFGH2345mnop".chars().collect();
    assert_eq!(accept_candidate(&good).unwrap().expose(), "abcdEFGH2345mnop");
    let lower: Vec<char> = "abcdefghijkmnopq".chars().collect();
    assert!(accept_candidate(&lower).is_none());
}
