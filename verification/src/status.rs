//! What `omarchy-hotspot status` reports: the settings' network, and, for a running hotspot,
//! its adapter, channel, uplink and time since the start.

use vstd::prelude::*;
use crate::backend::{Band, HotspotState, Security};
use crate::config::Config;

verus! {

#[derive(Clone, Copy, Debug, PartialEq, Eq, Structural)]
pub enum StatusState {
    Off,
    Starting,
    On,
}

/// The status of the hotspot as reported.
pub struct StatusView {
    pub state: StatusState,
    pub ssid: String,
    pub security: Security,
    /// The band in use when the channel is known, else the settings' band.
    pub band: Band,
    pub channel: Option<u8>,
    pub ap_iface: Option<String>,
    pub uplink: Option<String>,
    /// The start, in Unix seconds.
    pub since: Option<u64>,
    /// Time since the start as hours and minutes; `None` without a start time.
    pub uptime: Option<(u64, u64)>,
}

/// The band a channel lies in: 1–14 is 2.4 GHz, above is 5 GHz.
pub open spec fn band_of_channel(ch: u8) -> Band {
    if ch <= 14 {
        Band::Ghz2_4
    } else {
        Band::Ghz5
    }
}

/// Whole minutes from `since` to `now` (none when the start lies ahead), as hours and
/// minutes.
pub open spec fn uptime_of(since: u64, now: u64) -> (u64, u64) {
    let mins = if now >= since {
        ((now - since) / 60) as u64
    } else {
        0
    };
    ((mins / 60) as u64, (mins % 60) as u64)
}

/// The status from the settings, NetworkManager's state, the channel read on the access
/// point's adapter (`channel`, asked only for a running hotspot) and the time now (Unix
/// seconds). A failed or broken activation counts as off.
pub fn status_view(cfg: &Config, state: &HotspotState, channel: Option<u8>, now: u64) -> (v: StatusView)
    ensures
        v.ssid@ == cfg.hotspot.ssid@,
        v.security == cfg.hotspot.security,
        match state {
            HotspotState::On { since, ap_iface, uplink } => {
                &&& v.state == StatusState::On
                &&& v.channel == channel
                &&& v.band == (match channel {
                    Some(c) => band_of_channel(c),
                    None => cfg.hotspot.band,
                })
                &&& v.ap_iface matches Some(a) && a@ == ap_iface@
                &&& (match uplink {
                    Some(u) => v.uplink matches Some(x) && x@ == u@,
                    None => v.uplink is None,
                })
                &&& v.since == *since
                &&& v.uptime == (match since {
                    Some(s) => Some(uptime_of(*s, now)),
                    None => None,
                })
            },
            _ => {
                &&& v.state == (if state is Starting {
                    StatusState::Starting
                } else {
                    StatusState::Off
                })
                &&& v.band == cfg.hotspot.band
                &&& v.channel is None
                &&& v.ap_iface is None
                &&& v.uplink is None
                &&& v.since is None
                &&& v.uptime is None
            },
        },
{
    let mut v = StatusView {
        state: StatusState::Off,
        ssid: cfg.hotspot.ssid.clone(),
        security: cfg.hotspot.security,
        band: cfg.hotspot.band,
        channel: None,
        ap_iface: None,
        uplink: None,
        since: None,
        uptime: None,
    };
    match state {
        HotspotState::Off | HotspotState::Error(_) => {},
        HotspotState::Starting => {
            v.state = StatusState::Starting;
        },
        HotspotState::On { since, ap_iface, uplink } => {
            v.state = StatusState::On;
            v.channel = channel;
            match channel {
                Some(ch) => {
                    v.band = if ch <= 14 {
                        Band::Ghz2_4
                    } else {
                        Band::Ghz5
                    };
                },
                None => {},
            }
            v.ap_iface = Some(ap_iface.clone());
            v.uplink = match uplink {
                Some(u) => Some(u.clone()),
                None => None,
            };
            v.since = *since;
            v.uptime = match since {
                Some(s) => {
                    let mins: u64 = if now >= *s {
                        (now - *s) / 60
                    } else {
                        0
                    };
                    Some((mins / 60, mins % 60))
                },
                None => None,
            };
        },
    }
    v
}

/// The exit code of `status`: 0 only for a running hotspot.
pub fn status_code(v: &StatusView) -> (c: i32)
    ensures
        c == (if v.state == StatusState::On {
            0i32
        } else {
            1i32
        }),
{
    if v.state == StatusState::On {
        0
    } else {
        1
    }
}

} // verus!
