use omarchy_hotspot::doctor::Advice;
use omarchy_hotspot::error::CoreError;
use omarchy_hotspot::password::PasswordError;
use omarchy_hotspot::ssid::SsidError;

#[test]
fn errors_with_something_to_do_carry_the_advice() {
    let text = CoreError::NmNotRunning.user_message();
    assert_eq!(
        text,
        format!("NetworkManager is not running.\n{}", Advice::NmInactive.text())
    );
    assert_eq!(CoreError::NoApSupport.user_message(), Advice::NoAp.text());
    assert_eq!(
        CoreError::UplinkIsAp("wlan0".to_string()).user_message(),
        Advice::UplinkIsWifi.text()
    );
}

#[test]
fn error_messages_name_what_they_are_about() {
    assert_eq!(
        CoreError::ChannelUnavailable(149).user_message(),
        "Channel 149 is not available on this adapter."
    );
    assert_eq!(
        CoreError::AdapterChanged { running: "wlan0".into(), wanted: "wlan1".into() }.user_message(),
        "The hotspot runs on wlan0; switch it off before moving it to wlan1."
    );
    assert_eq!(
        CoreError::SubnetConflict("10.42.0.1/24".into(), "10.42.0.0/16 (eth0)".into()).user_message(),
        "The subnet 10.42.0.1/24 overlaps 10.42.0.0/16 (eth0); choose another one."
    );
    assert_eq!(
        CoreError::Config("bad".into()).user_message(),
        "The settings are not valid: bad"
    );
    assert_eq!(CoreError::Ssid(SsidError::Empty).user_message(), "The network name is empty.");
    assert_eq!(
        CoreError::Password(PasswordError::TooShort).user_message(),
        "The password is shorter than 8 characters."
    );
}

#[test]
fn technical_failures_hide_their_details() {
    let e = CoreError::ToolFailed { tool: "nmcli".into(), code: 4, stderr: "secret".into() };
    assert!(!e.user_message().contains("secret"));
    assert_eq!(e.user_message(), CoreError::Io("x".into()).user_message());
}
