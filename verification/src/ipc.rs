//! The protocol of the socket between the window and the service: requests, the service's
//! answers and the events it sends to subscribed clients. The password never travels here.

use vstd::prelude::*;
use crate::devices::Device;
use crate::proto::Mac;

verus! {

/// Longest request or answer line.
pub const MAX_LINE: usize = 65536;

/// A request to the service.
#[derive(Debug, Clone, Copy, PartialEq, Eq, Structural)]
pub enum Request {
    Ping,
    GetState,
    GetDevices,
    /// Switch the hotspot on (the service decides about approval mode).
    Start,
    Stop,
    /// Let a device out to the internet (and remember it).
    Approve { mac: Mac },
    /// Refuse a new device: block it and drop it from the network.
    Deny { mac: Mac },
    Block { mac: Mac },
    Unblock { mac: Mac },
    Kick { mac: Mac },
    ReloadConfig,
    /// From now on the client gets events too.
    Subscribe,
}

/// The hotspot state for clients.
#[derive(Debug, Clone, Copy, PartialEq, Eq, Structural)]
pub enum WireState {
    Off,
    Starting,
    On,
    Error,
}

/// An answer of the service.
#[derive(Debug, Clone, PartialEq, Eq)]
pub enum Response {
    Pong,
    State {
        state: WireState,
        uplink: Option<String>,
        /// When the hotspot was switched on, Unix seconds.
        since: Option<u64>,
        devices_count: usize,
        /// Approval mode really works (the hotspot runs with an allow list).
        approval: bool,
    },
    Devices { list: Vec<Device> },
    /// The request was carried out (`ok` on the wire).
    Done,
    /// The request failed (`err` on the wire): a code and a message.
    Failed { code: String, msg: String },
}

/// An event of the service (only to subscribed clients).
#[derive(Debug, Clone, PartialEq, Eq)]
pub enum Event {
    StateChanged { state: WireState },
    DeviceJoined { device: Device },
    DeviceLeft { mac: Mac },
    /// A new device waits for approval.
    DevicePending { device: Device },
    DeviceApproved { mac: Mac },
    DeviceBlocked { mac: Mac },
    DeviceUnblocked { mac: Mac },
    /// Minutes left before the switch-off for idleness.
    IdleWarning { minutes_left: u32 },
    /// Minutes left before the timer switches the hotspot off.
    TimerWarning { minutes_left: u32 },
    /// The service switched the hotspot off itself (`reason`: `idle` or `timer`).
    Stopped { reason: String },
}

/// What the service writes to the socket: answers and events, told apart by their `type`.
#[derive(Debug, Clone, PartialEq, Eq)]
pub enum ServerMsg {
    Response(Response),
    Event(Event),
}

/// Error codes of `Response::Failed`.
pub const ERR_BAD_REQUEST: &'static str = "bad_request";

pub const ERR_NOT_SUPPORTED: &'static str = "not_supported";

pub const ERR_FAILED: &'static str = "failed";

pub const ERR_NO_DEVICE: &'static str = "no_device";

impl Response {
    pub fn err(code: &str, msg: &str) -> (r: Response)
        ensures
            r matches Response::Failed { code: c, msg: m } && c@ == code@ && m@ == msg@,
    {
        Response::Failed { code: code.to_owned(), msg: msg.to_owned() }
    }
}

} // verus!
