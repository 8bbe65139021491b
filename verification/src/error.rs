//! Errors of the hotspot logic.

use vstd::prelude::*;
use crate::password::PasswordError;
use crate::ssid::SsidError;
use crate::doctor::Advice;
use crate::num::{decimal, decimal_chars};
use crate::text::{chars_to_string, lit, str_chars};

verus! {

#[derive(Debug, Clone)]
pub enum CoreError {
    /// A needed program is missing (for example `iw`).
    MissingTool(String),
    ToolFailed { tool: String, code: i32, stderr: String },
    Parse { tool: String, reason: String },
    Io(String),
    Config(String),
    NmNotRunning,
    NoWifi,
    IfaceNotFound(String),
    NoApSupport,
    Wpa3Unsupported,
    Band5Unavailable,
    ChannelUnavailable(u8),
    NoUplink,
    UplinkIsAp(String),
    SubnetNotPrivate(String),
    /// The hotspot subnet overlaps the network of another interface: subnet, that route.
    SubnetConflict(String, String),
    /// Another hotspot action did not finish in time.
    Busy,
    /// The hotspot runs on one adapter and the settings name another.
    AdapterChanged { running: String, wanted: String },
    NoProfile,
    ActivationFailed(String),
    HelperNotInstalled,
    HelperDenied,
    HelperFailed(String),
    NmDbus(String),
    Ssid(SsidError),
    Password(PasswordError),
}

impl CoreError {
    /// A copy of the error, field for field.
    pub fn duplicate(&self) -> (r: CoreError)
        ensures
            r == *self,
    {
        match self {
            CoreError::MissingTool(t) => CoreError::MissingTool(t.clone()),
            CoreError::ToolFailed { tool, code, stderr } => CoreError::ToolFailed {
                tool: tool.clone(),
                code: *code,
                stderr: stderr.clone(),
            },
            CoreError::Parse { tool, reason } => CoreError::Parse { tool: tool.clone(), reason: reason.clone() },
            CoreError::Io(m) => CoreError::Io(m.clone()),
            CoreError::Config(m) => CoreError::Config(m.clone()),
            CoreError::NmNotRunning => CoreError::NmNotRunning,
            CoreError::NoWifi => CoreError::NoWifi,
            CoreError::IfaceNotFound(i) => CoreError::IfaceNotFound(i.clone()),
            CoreError::NoApSupport => CoreError::NoApSupport,
            CoreError::Wpa3Unsupported => CoreError::Wpa3Unsupported,
            CoreError::Band5Unavailable => CoreError::Band5Unavailable,
            CoreError::ChannelUnavailable(c) => CoreError::ChannelUnavailable(*c),
            CoreError::NoUplink => CoreError::NoUplink,
            CoreError::UplinkIsAp(u) => CoreError::UplinkIsAp(u.clone()),
            CoreError::SubnetNotPrivate(s) => CoreError::SubnetNotPrivate(s.clone()),
            CoreError::SubnetConflict(a, b) => CoreError::SubnetConflict(a.clone(), b.clone()),
            CoreError::Busy => CoreError::Busy,
            CoreError::AdapterChanged { running, wanted } => CoreError::AdapterChanged {
                running: running.clone(),
                wanted: wanted.clone(),
            },
            CoreError::NoProfile => CoreError::NoProfile,
            CoreError::ActivationFailed(m) => CoreError::ActivationFailed(m.clone()),
            CoreError::HelperNotInstalled => CoreError::HelperNotInstalled,
            CoreError::HelperDenied => CoreError::HelperDenied,
            CoreError::HelperFailed(m) => CoreError::HelperFailed(m.clone()),
            CoreError::NmDbus(m) => CoreError::NmDbus(m.clone()),
            CoreError::Ssid(e) => CoreError::Ssid(*e),
            CoreError::Password(e) => CoreError::Password(*e),
        }
    }
}

// ---------------------------------------------------------------------------------------
// The message for a person
// ---------------------------------------------------------------------------------------
pub open spec fn with_advice(text: Seq<char>, advice: Advice) -> Seq<char> {
    text + seq!['\n'] + advice.advice_text()
}

impl CoreError {
    /// What a person is told: no technical details; where there is something to do, the
    /// advice follows on a second line (the same advice as the readiness checks give).
    pub open spec fn message(self) -> Seq<char> {
        match self {
            CoreError::NmNotRunning => with_advice("NetworkManager is not running."@, Advice::NmInactive),
            CoreError::NoWifi => with_advice("No Wi-Fi adapter was found."@, Advice::NoWifi),
            CoreError::IfaceNotFound(i) => "The Wi-Fi adapter "@ + i@ + " was not found."@,
            CoreError::NoApSupport => Advice::NoAp.advice_text(),
            CoreError::Wpa3Unsupported =>
                "The adapter does not support WPA3; choose WPA2 for older devices."@,
            CoreError::Band5Unavailable =>
                "5 GHz is not available on this adapter here; choose 2.4 GHz or automatic."@,
            CoreError::ChannelUnavailable(c) => "Channel "@ + decimal(c as nat)
                + " is not available on this adapter."@,
            CoreError::NoUplink => with_advice(
                "There is no internet connection to share."@,
                Advice::NoUplink,
            ),
            CoreError::UplinkIsAp(_) => Advice::UplinkIsWifi.advice_text(),
            CoreError::NoProfile => "The hotspot has not been set up yet: switch it on once."@,
            CoreError::Busy => "Another hotspot action is still running; try again later."@,
            CoreError::AdapterChanged { running, wanted } => "The hotspot runs on "@ + running@
                + "; switch it off before moving it to "@ + wanted@ + "."@,
            CoreError::SubnetNotPrivate(s) => "The subnet "@ + s@
                + " is not a private network address."@,
            CoreError::SubnetConflict(s, other) => "The subnet "@ + s@ + " overlaps "@ + other@
                + "; choose another one."@,
            CoreError::ActivationFailed(_) => "NetworkManager could not start the hotspot."@,
            CoreError::Ssid(SsidError::Empty) => "The network name is empty."@,
            CoreError::Ssid(SsidError::TooLong) => "The network name is longer than 32 bytes."@,
            CoreError::Ssid(SsidError::ControlChars) =>
                "The network name holds control characters."@,
            CoreError::Password(PasswordError::TooShort) =>
                "The password is shorter than 8 characters."@,
            CoreError::Password(PasswordError::TooLong) =>
                "The password is longer than 63 characters."@,
            CoreError::Password(PasswordError::NotAscii) =>
                "The password may hold only printable ASCII characters."@,
            CoreError::Config(d) => "The settings are not valid: "@ + d@,
            CoreError::MissingTool(t) => "The program "@ + t@ + " is not installed."@,
            CoreError::HelperNotInstalled =>
                "The system helper is not installed; the firewall rules cannot be set."@,
            CoreError::HelperDenied =>
                "Permission was not given (the administrator dialog was closed)."@,
            CoreError::HelperFailed(_) => "The system helper failed."@,
            CoreError::NmDbus(_) => "The password could not be saved in NetworkManager."@,
            CoreError::ToolFailed { .. } | CoreError::Parse { .. } | CoreError::Io(_) =>
                "Something went wrong; run with --verbose for the details."@,
        }
    }

    /// The message for a person (see `message`).
    pub fn user_message(&self) -> (r: String)
        ensures
            r@ == self.message(),
    {
        match self {
            CoreError::NmNotRunning => advised("NetworkManager is not running.", Advice::NmInactive),
            CoreError::NoWifi => advised("No Wi-Fi adapter was found.", Advice::NoWifi),
            CoreError::IfaceNotFound(i) => around("The Wi-Fi adapter ", i.as_str(), " was not found."),
            CoreError::NoApSupport => Advice::NoAp.text().to_string(),
            CoreError::Wpa3Unsupported =>
                "The adapter does not support WPA3; choose WPA2 for older devices.".to_string(),
            CoreError::Band5Unavailable =>
                "5 GHz is not available on this adapter here; choose 2.4 GHz or automatic.".to_string(),
            CoreError::ChannelUnavailable(c) => {
                let mut v = lit("Channel ");
                v.append(&mut decimal_chars(*c as u64));
                v.append(&mut lit(" is not available on this adapter."));
                chars_to_string(v.as_slice())
            },
            CoreError::NoUplink => advised("There is no internet connection to share.", Advice::NoUplink),
            CoreError::UplinkIsAp(_) => Advice::UplinkIsWifi.text().to_string(),
            CoreError::NoProfile => "The hotspot has not been set up yet: switch it on once.".to_string(),
            CoreError::Busy => "Another hotspot action is still running; try again later.".to_string(),
            CoreError::AdapterChanged { running, wanted } => {
                let mut v = lit("The hotspot runs on ");
                v.append(&mut str_chars(running.as_str()));
                v.append(&mut lit("; switch it off before moving it to "));
                v.append(&mut str_chars(wanted.as_str()));
                v.append(&mut lit("."));
                chars_to_string(v.as_slice())
            },
            CoreError::SubnetNotPrivate(s) => around(
                "The subnet ",
                s.as_str(),
                " is not a private network address.",
            ),
            CoreError::SubnetConflict(s, other) => {
                let mut v = lit("The subnet ");
                v.append(&mut str_chars(s.as_str()));
                v.append(&mut lit(" overlaps "));
                v.append(&mut str_chars(other.as_str()));
                v.append(&mut lit("; choose another one."));
                chars_to_string(v.as_slice())
            },
            CoreError::ActivationFailed(_) => "NetworkManager could not start the hotspot.".to_string(),
            CoreError::Ssid(SsidError::Empty) => "The network name is empty.".to_string(),
            CoreError::Ssid(SsidError::TooLong) => "The network name is longer than 32 bytes.".to_string(),
            CoreError::Ssid(SsidError::ControlChars) =>
                "The network name holds control characters.".to_string(),
            CoreError::Password(PasswordError::TooShort) =>
                "The password is shorter than 8 characters.".to_string(),
            CoreError::Password(PasswordError::TooLong) =>
                "The password is longer than 63 characters.".to_string(),
            CoreError::Password(PasswordError::NotAscii) =>
                "The password may hold only printable ASCII characters.".to_string(),
            CoreError::Config(d) => {
                let mut v = lit("The settings are not valid: ");
                v.append(&mut str_chars(d.as_str()));
                chars_to_string(v.as_slice())
            },
            CoreError::MissingTool(t) => around("The program ", t.as_str(), " is not installed."),
            CoreError::HelperNotInstalled =>
                "The system helper is not installed; the firewall rules cannot be set.".to_string(),
            CoreError::HelperDenied =>
                "Permission was not given (the administrator dialog was closed).".to_string(),
            CoreError::HelperFailed(_) => "The system helper failed.".to_string(),
            CoreError::NmDbus(_) => "The password could not be saved in NetworkManager.".to_string(),
            CoreError::ToolFailed { .. } | CoreError::Parse { .. } | CoreError::Io(_) =>
                "Something went wrong; run with --verbose for the details.".to_string(),
        }
    }
}

fn advised(text: &str, advice: Advice) -> (r: String)
    ensures
        r@ == with_advice(text@, advice),
{
    let mut v = lit(text);
    v.push('\n');
    v.append(&mut lit(advice.text()));
    chars_to_string(v.as_slice())
}

fn around(a: &str, x: &str, b: &str) -> (r: String)
    ensures
        r@ == a@ + x@ + b@,
{
    let mut v = lit(a);
    v.append(&mut str_chars(x));
    v.append(&mut lit(b));
    chars_to_string(v.as_slice())
}

} // verus!
