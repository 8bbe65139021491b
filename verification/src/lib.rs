//! Hotspot management logic for Omarchy: parsers for NetworkManager, `iw` and `ip` output,
//! validation of network names and passwords, the root helper's requests, access lists,
//! channel choice, turning the hotspot on and off, the background service's decisions and
//! the window's models. Every function states its result and is proved by Verus.

pub mod text;
pub mod num;
pub mod ipv4;
pub mod ipv6;
pub mod proto;
pub mod nmcli_parse;
pub mod utf8len;
pub mod ssid;
pub mod secret;
pub mod backend;
pub mod qr;
pub mod error;
pub mod password;
pub mod iw;
pub mod leases;
pub mod neigh;
pub mod devices;
pub mod json;
pub mod routes;
pub mod config;
pub mod hotspot;
pub mod access;
pub mod ui;
pub mod fit;
pub mod notify;
pub mod ipc;
pub mod daemon;
pub mod settings;
pub mod traffic;
pub mod editor;
pub mod mouse;
pub mod window;
pub mod doctor;
pub mod status;
pub mod expert;
