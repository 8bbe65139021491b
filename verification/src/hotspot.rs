//! Turning the hotspot on and off, applying settings and resetting, over NetworkManager, the
//! system's probes and the root helper; and the choices made on the way: channel width, band
//! and channel, the guests' DNS servers and the firewall request.

use vstd::prelude::*;
use crate::access::HelperRunner;
use crate::backend::{
    Band, HotspotSettings, HotspotState, Ipv4Net, Security, net_text, parse_net, private_host,
};
use crate::config::Config;
use crate::error::CoreError;
use crate::iw::WifiCaps;
use crate::leases::{Lease, lease_models, parse_leases, unique_macs};
use crate::password::{generate, validate_spec, validate_user_password};
use crate::proto::{
    ArgError, CountryCode, DnsServer, HelperRequest, Iface, Mac, check_dns_list, dns_list_ok,
    iface_ok, parse_country, parse_dns, parse_mac,
};
use crate::routes::{Route, conflicts_with, find_conflict, route_models, route_text};
use crate::secret::Secret;
use crate::ssid::{ssid_check, validate_ssid};
use crate::text::{chars_eq, chars_to_string, first_some, str_chars, strs, trim, trim_exec};

verus! {

broadcast use vstd::slice::group_slice_axioms;

/// `a` followed by `b`.
fn joined(a: &str, b: &str) -> (s: String)
    ensures
        s@ == a@ + b@,
{
    let mut v = str_chars(a);
    let mut w = str_chars(b);
    v.append(&mut w);
    chars_to_string(v.as_slice())
}

// ---------------------------------------------------------------------------------------
// Channel width
// ---------------------------------------------------------------------------------------
/// A width the band allows: 80 MHz only on 5 GHz (on 2.4 GHz it becomes 40), anything
/// unknown becomes automatic (0).
pub open spec fn width_for(width_mhz: u16, band: Band) -> u16 {
    if width_mhz == 80 && band == Band::Ghz2_4 {
        40
    } else if width_mhz == 20 || width_mhz == 40 || width_mhz == 80 {
        width_mhz
    } else {
        0
    }
}

pub fn effective_width(width_mhz: u16, band: Band) -> (r: u16)
    ensures
        r == width_for(width_mhz, band),
{
    match (width_mhz, band) {
        (80, Band::Ghz2_4) => 40,
        (20, _) | (40, _) | (80, _) => width_mhz,
        _ => 0,
    }
}

// ---------------------------------------------------------------------------------------
// Band and channel
// ---------------------------------------------------------------------------------------
/// The 2.4 GHz channel taken when the card allows it (or lists none).
pub const DEFAULT_2GHZ: u8 = 6;

/// The automatic 5 GHz channel: the first of 36, 40, 44, 48 (without DFS in many countries)
/// that the card allows, else the first the card lists.
pub open spec fn pick5(ch5: Seq<u8>) -> Option<u8> {
    if ch5.contains(36) {
        Some(36)
    } else if ch5.contains(40) {
        Some(40)
    } else if ch5.contains(44) {
        Some(44)
    } else if ch5.contains(48) {
        Some(48)
    } else if ch5.len() > 0 {
        Some(ch5[0])
    } else {
        None
    }
}

/// The automatic 2.4 GHz channel: 6 when allowed or when nothing is listed, else the first.
pub open spec fn pick2(ch2: Seq<u8>) -> u8 {
    if ch2.len() == 0 || ch2.contains(DEFAULT_2GHZ) {
        DEFAULT_2GHZ
    } else {
        ch2[0]
    }
}

/// Concrete band and channel. A chosen channel (not 0) must be listed for its band (1–14 is
/// 2.4 GHz, above is 5 GHz) and agree with a chosen band; 0 picks one: automatic prefers
/// 5 GHz.
pub open spec fn band_choice(band: Band, channel: u8, ch2: Seq<u8>, ch5: Seq<u8>) -> Result<
    (Band, u8),
    CoreError,
> {
    if channel != 0 {
        let b = if channel <= 14 {
            Band::Ghz2_4
        } else {
            Band::Ghz5
        };
        let list = if channel <= 14 {
            ch2
        } else {
            ch5
        };
        if (band != Band::Auto && band != b) || !list.contains(channel) {
            Err(CoreError::ChannelUnavailable(channel))
        } else {
            Ok((b, channel))
        }
    } else {
        match band {
            Band::Auto => match pick5(ch5) {
                Some(c) => Ok((Band::Ghz5, c)),
                None => Ok((Band::Ghz2_4, pick2(ch2))),
            },
            Band::Ghz5 => match pick5(ch5) {
                Some(c) => Ok((Band::Ghz5, c)),
                None => Err(CoreError::Band5Unavailable),
            },
            Band::Ghz2_4 => Ok((Band::Ghz2_4, pick2(ch2))),
        }
    }
}

fn has_channel(list: &Vec<u8>, c: u8) -> (r: bool)
    ensures
        r == list@.contains(c),
{
    let mut i: usize = 0;
    while i < list.len()
        invariant
            i <= list@.len(),
            forall|k: int| 0 <= k < i ==> list@[k] != c,
        decreases list.len() - i,
    {
        if list[i] == c {
            assert(list@[i as int] == c);
            return true;
        }
        i = i + 1;
    }
    false
}

fn pick5_exec(ch5: &Vec<u8>) -> (r: Option<u8>)
    ensures
        r == pick5(ch5@),
{
    if has_channel(ch5, 36) {
        Some(36)
    } else if has_channel(ch5, 40) {
        Some(40)
    } else if has_channel(ch5, 44) {
        Some(44)
    } else if has_channel(ch5, 48) {
        Some(48)
    } else if ch5.len() > 0 {
        Some(ch5[0])
    } else {
        None
    }
}

fn pick2_exec(ch2: &Vec<u8>) -> (r: u8)
    ensures
        r == pick2(ch2@),
{
    if ch2.len() == 0 || has_channel(ch2, DEFAULT_2GHZ) {
        DEFAULT_2GHZ
    } else {
        ch2[0]
    }
}

/// Concrete band and channel for the card (see `band_choice`).
pub fn choose_band(band: Band, channel: u8, caps: &WifiCaps) -> (r: Result<(Band, u8), CoreError>)
    ensures
        r == band_choice(band, channel, caps.channels_2ghz@, caps.channels_5ghz@),
{
    if channel != 0 {
        let (b, ok) = if channel <= 14 {
            (Band::Ghz2_4, has_channel(&caps.channels_2ghz, channel))
        } else {
            (Band::Ghz5, has_channel(&caps.channels_5ghz, channel))
        };
        if (band != Band::Auto && band != b) || !ok {
            return Err(CoreError::ChannelUnavailable(channel));
        }
        return Ok((b, channel));
    }
    match band {
        Band::Auto => match pick5_exec(&caps.channels_5ghz) {
            Some(c) => Ok((Band::Ghz5, c)),
            None => Ok((Band::Ghz2_4, pick2_exec(&caps.channels_2ghz))),
        },
        Band::Ghz5 => match pick5_exec(&caps.channels_5ghz) {
            Some(c) => Ok((Band::Ghz5, c)),
            None => Err(CoreError::Band5Unavailable),
        },
        Band::Ghz2_4 => Ok((Band::Ghz2_4, pick2_exec(&caps.channels_2ghz))),
    }
}

// ---------------------------------------------------------------------------------------
// DNS servers for guests
// ---------------------------------------------------------------------------------------
/// The settings' DNS list, checked: every entry (trimmed) an address that can serve guests,
/// no IPv4 address written inside IPv6 (it would slip past the loopback check), and, when
/// there are any, one to four without repeats. The error is the message of the refusal.
pub open spec fn dns_list_result(list: Seq<Seq<char>>) -> Result<Seq<DnsServer>, Seq<char>> {
    if exists|i: int| 0 <= i < list.len() && (#[trigger] parse_dns(trim(list[i]))) is None {
        Err("dns: "@ + ArgError::BadDns.spec_text())
    } else {
        let servers = Seq::new(list.len(), |i: int| parse_dns(trim(list[i])).unwrap());
        if exists|i: int| 0 <= i < servers.len() && (#[trigger] servers[i]).spec_is_v4_mapped() {
            Err("dns: IPv4-mapped IPv6 address"@)
        } else if servers.len() > 0 && !dns_list_ok(servers) {
            if servers.len() > crate::proto::MAX_DNS {
                Err("dns: "@ + ArgError::TooManyDns.spec_text())
            } else {
                Err("dns: "@ + ArgError::DuplicateDns.spec_text())
            }
        } else {
            Ok(servers)
        }
    }
}

/// Some server is an IPv4 address written inside IPv6.
fn any_v4_mapped(servers: &[DnsServer]) -> (b: bool)
    ensures
        b == exists|i: int| 0 <= i < servers@.len() && (#[trigger] servers@[i]).spec_is_v4_mapped(),
{
    let mut k: usize = 0;
    while k < servers.len()
        invariant
            k <= servers@.len(),
            forall|j: int| 0 <= j < k ==> !(#[trigger] servers@[j]).spec_is_v4_mapped(),
        decreases servers.len() - k,
    {
        if servers[k].is_v4_mapped() {
            return true;
        }
        k = k + 1;
    }
    false
}

/// Reads and checks the DNS list (see `dns_list_result`).
#[verifier::spinoff_prover]
#[verifier::rlimit(40)]
pub fn parse_dns_list(list: &[String]) -> (r: Result<Vec<DnsServer>, CoreError>)
    ensures
        match r {
            Ok(v) => dns_list_result(strs(list@)) == Ok::<Seq<DnsServer>, Seq<char>>(v@),
            Err(e) => e matches CoreError::Config(m) && dns_list_result(strs(list@)) == Err::<
                Seq<DnsServer>,
                Seq<char>,
            >(m@),
        },
{
    let ghost l = strs(list@);
    let mut servers: Vec<DnsServer> = Vec::new();
    let mut i: usize = 0;
    while i < list.len()
        invariant
            i <= list@.len(),
            l == strs(list@),
            servers@.len() == i,
            forall|k: int| 0 <= k < i ==> (#[trigger] parse_dns(trim(l[k]))) == Some(servers@[k]),
        decreases list.len() - i,
    {
        let cs = str_chars(list[i].as_str());
        let t = trim_exec(cs.as_slice());
        let ts = chars_to_string(t.as_slice());
        assert(l[i as int] == list@[i as int]@);
        match DnsServer::parse(ts.as_str()) {
            Ok(d) => servers.push(d),
            Err(e) => {
                assert(parse_dns(trim(l[i as int])) is None);
                return Err(CoreError::Config(joined("dns: ", e.text())));
            },
        }
        i = i + 1;
    }
    let ghost sv = Seq::new(l.len(), |k: int| parse_dns(trim(l[k])).unwrap());
    assert(sv =~= servers@);
    assert(!exists|i: int| 0 <= i < l.len() && (#[trigger] parse_dns(trim(l[i]))) is None);
    if any_v4_mapped(servers.as_slice()) {
        return Err(CoreError::Config("dns: IPv4-mapped IPv6 address".to_owned()));
    }
    if servers.len() > 0 {
        match check_dns_list(servers.as_slice()) {
            Ok(()) => {},
            Err(e) => {
                return Err(CoreError::Config(joined("dns: ", e.text())));
            },
        }
    }
    Ok(servers)
}

/// The guests' DNS servers from the settings (see `dns_list_result`).
pub fn dns_servers(cfg: &Config) -> (r: Result<Vec<DnsServer>, CoreError>)
    ensures
        match r {
            Ok(v) => dns_list_result(strs(cfg.network.dns@)) == Ok::<Seq<DnsServer>, Seq<char>>(v@),
            Err(e) => e matches CoreError::Config(m) && dns_list_result(strs(cfg.network.dns@))
                == Err::<Seq<DnsServer>, Seq<char>>(m@),
        },
{
    parse_dns_list(cfg.network.dns.as_slice())
}

// ---------------------------------------------------------------------------------------
// The firewall request
// ---------------------------------------------------------------------------------------
/// Adds `v` at the end unless it is there already.
pub open spec fn mac_step(d: Seq<u64>, v: u64) -> Seq<u64> {
    if d.contains(v) {
        d
    } else {
        d.push(v)
    }
}

/// The MACs of a settings list, each once, in the order they first appear; or the first
/// entry that is not a MAC address.
pub open spec fn macs_scan(list: Seq<Seq<char>>) -> Result<Seq<u64>, Seq<char>>
    decreases list.len(),
{
    if list.len() == 0 {
        Ok(seq![])
    } else {
        match macs_scan(list.drop_last()) {
            Err(m) => Err(m),
            Ok(d) => match parse_mac(list.last()) {
                None => Err(list.last()),
                Some(v) => Ok(mac_step(d, v)),
            },
        }
    }
}

/// Some entry of the list is the text of the MAC `v`.
pub open spec fn listed(list: Seq<Seq<char>>, v: u64) -> bool {
    exists|k: int| 0 <= k < list.len() && parse_mac(list[k]) == Some(v)
}

/// The firewall gets each MAC once: a list read from the settings has no repeats, and
/// every MAC in it is written in the list.
pub proof fn lemma_macs_once(list: Seq<Seq<char>>)
    requires
        macs_scan(list) is Ok,
    ensures
        macs_scan(list)->Ok_0.no_duplicates(),
        forall|i: int|
            0 <= i < macs_scan(list)->Ok_0.len() ==> #[trigger] listed(
                list,
                macs_scan(list)->Ok_0[i],
            ),
    decreases list.len(),
{
    if list.len() > 0 {
        lemma_macs_once(list.drop_last());
        let d = macs_scan(list.drop_last())->Ok_0;
        let v = parse_mac(list.last()).unwrap();
        let out = mac_step(d, v);
        assert forall|i: int| 0 <= i < out.len() implies #[trigger] listed(list, out[i]) by {
            if i < d.len() {
                assert(listed(list.drop_last(), d[i]));
                let k = choose|k: int|
                    0 <= k < list.drop_last().len() && parse_mac(list.drop_last()[k]) == Some(d[i]);
                assert(list[k] == list.drop_last()[k]);
            } else {
                assert(list[list.len() - 1] == list.last());
            }
        }
    }
}

/// The guests' DNS list that passes has one to four servers, none twice, each one that can
/// serve guests; or it is empty (the PC's own DNS).
pub proof fn lemma_dns_list_passes(list: Seq<Seq<char>>)
    requires
        dns_list_result(list) is Ok,
    ensures
        dns_list_result(list)->Ok_0.len() == list.len(),
        dns_list_result(list)->Ok_0.len() <= crate::proto::MAX_DNS,
        forall|i: int, j: int|
            0 <= i < j < dns_list_result(list)->Ok_0.len() ==> dns_list_result(list)->Ok_0[i]
                != dns_list_result(list)->Ok_0[j],
        forall|i: int|
            0 <= i < dns_list_result(list)->Ok_0.len() ==> crate::proto::dns_allowed(
                #[trigger] dns_list_result(list)->Ok_0[i],
            ) && parse_dns(trim(list[i])) == Some(dns_list_result(list)->Ok_0[i]),
{
    let servers = Seq::new(list.len(), |i: int| parse_dns(trim(list[i])).unwrap());
    assert forall|i: int| 0 <= i < servers.len() implies crate::proto::dns_allowed(
        #[trigger] servers[i],
    ) && parse_dns(trim(list[i])) == Some(servers[i]) by {
        assert(parse_dns(trim(list[i])) is Some);
    }
}

/// `<key>: <entry>: bad MAC address`.
pub open spec fn bad_mac_text(key: Seq<char>, m: Seq<char>) -> Seq<char> {
    key + ": "@ + m + ": "@ + ArgError::BadMac.spec_text()
}

/// Once an entry is refused, longer lists are refused for it too.
proof fn lemma_macs_scan_err(l: Seq<Seq<char>>, i: int, m: Seq<char>)
    requires
        0 <= i <= l.len(),
        macs_scan(l.take(i)) == Err::<Seq<u64>, Seq<char>>(m),
    ensures
        macs_scan(l) == Err::<Seq<u64>, Seq<char>>(m),
    decreases l.len() - i,
{
    if i < l.len() {
        assert(l.take(i + 1).drop_last() =~= l.take(i));
        lemma_macs_scan_err(l, i + 1, m);
    } else {
        assert(l.take(i) =~= l);
    }
}

fn bad_mac_message(key: &str, m: &str) -> (s: String)
    ensures
        s@ == bad_mac_text(key@, m@),
{
    let a = joined(key, ": ");
    let b = joined(a.as_str(), m);
    let c = joined(b.as_str(), ": ");
    joined(c.as_str(), ArgError::BadMac.text())
}

pub open spec fn mac_bits(v: Seq<Mac>) -> Seq<u64> {
    v.map_values(|m: Mac| m.bits)
}

/// The `fw-apply` request from the settings: the two interfaces, the approval mode, whether
/// guests may reach this PC, the allowed MACs (only in approval mode) and the blocked ones.
/// The error is the message of the first refusal, in that order.
pub open spec fn firewall_result(
    ap: Seq<char>,
    uplink: Seq<char>,
    approval: bool,
    allowed: Seq<Seq<char>>,
    blocked: Seq<Seq<char>>,
) -> Result<(Seq<u64>, Seq<u64>), Seq<char>> {
    if !iface_ok(ap) {
        Err(ap + ": "@ + ArgError::BadIface.spec_text())
    } else if !iface_ok(uplink) {
        Err(uplink + ": "@ + ArgError::BadIface.spec_text())
    } else {
        let allow = if approval {
            macs_scan(allowed)
        } else {
            Ok(seq![])
        };
        match allow {
            Err(m) => Err(bad_mac_text("access.allowed_macs"@, m)),
            Ok(a) => match macs_scan(blocked) {
                Err(m) => Err(bad_mac_text("access.blocked_macs"@, m)),
                Ok(b) => Ok((a, b)),
            },
        }
    }
}

fn has_mac(out: &Vec<Mac>, bits: u64) -> (r: bool)
    ensures
        r == mac_bits(out@).contains(bits),
{
    let mut j: usize = 0;
    while j < out.len()
        invariant
            j <= out@.len(),
            forall|k: int| 0 <= k < j ==> out@[k].bits != bits,
        decreases out.len() - j,
    {
        if out[j].bits == bits {
            assert(mac_bits(out@)[j as int] == bits);
            return true;
        }
        j = j + 1;
    }
    assert(!mac_bits(out@).contains(bits)) by {
        if mac_bits(out@).contains(bits) {
            let k = choose|k: int| 0 <= k < mac_bits(out@).len() && mac_bits(out@)[k] == bits;
            assert(out@[k].bits == bits);
        }
    }
    false
}

/// Adds a MAC unless it is there already.
fn add_mac(out: &mut Vec<Mac>, mac: Mac)
    ensures
        mac_bits(final(out)@) == mac_step(mac_bits(old(out)@), mac.bits),
{
    if !has_mac(out, mac.bits) {
        let ghost before = mac_bits(out@);
        out.push(mac);
        assert(mac_bits(out@) =~= before.push(mac.bits));
    }
}

#[verifier::spinoff_prover]
fn macs_of(list: &Vec<String>, key: &str) -> (r: Result<Vec<Mac>, CoreError>)
    ensures
        match r {
            Ok(v) => macs_scan(strs(list@)) == Ok::<Seq<u64>, Seq<char>>(mac_bits(v@)),
            Err(e) => macs_scan(strs(list@)) matches Err(m) && e matches CoreError::Config(t) && t@
                == bad_mac_text(key@, m),
        },
{
    let ghost l = strs(list@);
    let mut out: Vec<Mac> = Vec::new();
    let mut i: usize = 0;
    proof {
        assert(l.take(0).len() == 0);
        assert(mac_bits(out@) =~= Seq::<u64>::empty());
    }
    while i < list.len()
        invariant
            i <= list@.len(),
            l == strs(list@),
            macs_scan(l.take(i as int)) == Ok::<Seq<u64>, Seq<char>>(mac_bits(out@)),
        decreases list.len() - i,
    {
        proof {
            assert(l.take(i + 1).drop_last() =~= l.take(i as int));
            assert(l[i as int] == list@[i as int]@);
        }
        match Mac::parse(list[i].as_str()) {
            Ok(mac) => add_mac(&mut out, mac),
            Err(_) => {
                proof {
                    lemma_macs_scan_err(l, i + 1, l[i as int]);
                }
                return Err(CoreError::Config(bad_mac_message(key, list[i].as_str())));
            },
        }
        i = i + 1;
    }
    proof {
        assert(l.take(list.len() as int) =~= l);
    }
    Ok(out)
}

/// The `fw-apply` request from the settings (see `firewall_result`).
#[verifier::rlimit(30)]
pub fn firewall_request(cfg: &Config, ap: &str, uplink: &str, approval: bool) -> (r: Result<
    HelperRequest,
    CoreError,
>)
    ensures
        match r {
            Ok(req) => firewall_result(
                ap@,
                uplink@,
                approval,
                strs(cfg.access.allowed_macs@),
                strs(cfg.access.blocked_macs@),
            ) matches Ok((allow, block)) && req matches HelperRequest::FwApply {
                ap: a,
                uplink: u,
                approval: ap2,
                guests_reach_pc: g,
                allow: al,
                block: bl,
            } && a@ == ap@ && u@ == uplink@ && ap2 == approval && g
                == cfg.hotspot.guests_can_reach_pc && mac_bits(al@) == allow && mac_bits(bl@) == block,
            Err(e) => firewall_result(
                ap@,
                uplink@,
                approval,
                strs(cfg.access.allowed_macs@),
                strs(cfg.access.blocked_macs@),
            ) matches Err(t) && e matches CoreError::Config(m) && m@ == t,
        },
{
    let a = match Iface::parse(ap) {
        Ok(i) => i,
        Err(e) => {
            let x = joined(ap, ": ");
            return Err(CoreError::Config(joined(x.as_str(), e.text())));
        },
    };
    let u = match Iface::parse(uplink) {
        Ok(i) => i,
        Err(e) => {
            let x = joined(uplink, ": ");
            return Err(CoreError::Config(joined(x.as_str(), e.text())));
        },
    };
    let allow = if approval {
        match macs_of(&cfg.access.allowed_macs, "access.allowed_macs") {
            Ok(v) => v,
            Err(e) => return Err(e),
        }
    } else {
        let v: Vec<Mac> = Vec::new();
        assert(mac_bits(v@) =~= Seq::<u64>::empty());
        v
    };
    let block = match macs_of(&cfg.access.blocked_macs, "access.blocked_macs") {
        Ok(v) => v,
        Err(e) => return Err(e),
    };
    Ok(
        HelperRequest::FwApply {
            ap: a,
            uplink: u,
            approval,
            guests_reach_pc: cfg.hotspot.guests_can_reach_pc,
            allow,
            block,
        },
    )
}

// ---------------------------------------------------------------------------------------
// What the hotspot runs on
// ---------------------------------------------------------------------------------------
/// NetworkManager as the hotspot uses it. Nothing is promised of what a method returns: the
/// system can change between two calls.
pub trait NetworkBackend {
    fn profile_exists(&self) -> Result<bool, CoreError>;

    /// Creates the profile or updates the one there is.
    fn ensure_profile(&self, s: &HotspotSettings) -> Result<(), CoreError>;

    fn set_password(&self, psk: &Secret) -> Result<(), CoreError>;

    fn get_password(&self) -> Result<Secret, CoreError>;

    fn up(&self) -> Result<(), CoreError>;

    fn down(&self) -> Result<(), CoreError>;

    fn delete_profile(&self) -> Result<(), CoreError>;

    fn state(&self) -> Result<HotspotState, CoreError>;

    fn wifi_ifaces(&self) -> Result<Vec<String>, CoreError>;

    /// The network the Wi-Fi adapter is connected to as a client (not our profile): it drops
    /// when the hotspot starts.
    fn client_connection(&self, iface: &str) -> Result<Option<String>, CoreError>;

    /// Connected interfaces (without loopback and our access point): where the internet for
    /// guests can come from.
    fn connected_ifaces(&self) -> Result<Vec<String>, CoreError>;

    fn nm_running(&self) -> Result<bool, CoreError>;
}

/// What the hotspot needs to know of the system besides NetworkManager.
pub trait SystemProbe {
    /// Holds the lock on hotspot actions while it lives.
    type Guard;

    fn wifi_caps(&self, iface: &str) -> Result<WifiCaps, CoreError>;

    /// The interface of the route to the internet; `None`: there is none.
    fn uplink(&self) -> Result<Option<String>, CoreError>;

    /// The Wi-Fi country now; `None`: not set or not readable.
    fn reg_country(&self) -> Option<String>;

    /// Our DNS file for guests exists.
    fn dns_file_exists(&self) -> bool;

    /// The system's IPv4 routes.
    fn routes(&self) -> Result<Vec<Route>, CoreError>;

    /// The lock on turning on, off, applying and resetting, across programs; `None`: no lock
    /// can be had here and the action runs without one.
    fn lock_ops(&self) -> Result<Option<Self::Guard>, CoreError>;
}

// ---------------------------------------------------------------------------------------
// The profile from the settings
// ---------------------------------------------------------------------------------------
pub open spec fn secret_view(p: Option<Secret>) -> Option<Seq<char>> {
    match p {
        Some(s) => Some(s@),
        None => None,
    }
}

/// The subnet of the settings is a private address of the PC.
pub open spec fn subnet_ok(s: Seq<char>) -> bool {
    parse_net(s) matches Some(n) && private_host(n)
}

/// A new password, where there is one, passes the checks for typed passwords.
pub open spec fn password_ok(p: Option<Seq<char>>) -> bool {
    p matches Some(v) ==> validate_spec(v) is Ok
}

/// The profile `s` is the settings' one on that adapter, with that subnet, band and channel.
pub open spec fn settings_of(
    s: HotspotSettings,
    cfg: Config,
    password: Option<Seq<char>>,
    ap_iface: Seq<char>,
    subnet: Ipv4Net,
    band: Band,
    channel: u8,
) -> bool {
    &&& s.ssid@ == cfg.hotspot.ssid@
    &&& secret_view(s.password) == password
    &&& s.security == cfg.hotspot.security
    &&& s.band == band
    &&& s.channel == Some(channel)
    &&& s.width_mhz == width_for(cfg.hotspot.width_mhz, band)
    &&& s.hidden == cfg.hotspot.hidden
    &&& s.ap_isolation == cfg.hotspot.ap_isolation
    &&& s.ap_iface@ == ap_iface
    &&& s.subnet == subnet
}

/// The profile on the chosen adapter, once the name, the password and the subnet are
/// checked: the subnet must not overlap a route of another interface (`conflicts_with`),
/// WPA3 needs SAE on the card, and the band and channel come from `band_choice`.
pub fn settings_for(
    cfg: &Config,
    password: Option<Secret>,
    subnet: Ipv4Net,
    ap_iface: String,
    caps: &WifiCaps,
    routes: &[Route],
) -> (r: Result<HotspotSettings, CoreError>)
    ensures
        match first_some(route_models(routes@), conflicts_with(subnet, ap_iface@)) {
            Some(route) => r matches Err(CoreError::SubnetConflict(a, b)) && a@ == net_text(subnet)
                && b@ == route_text(route),
            None => if cfg.hotspot.security == Security::Wpa3 && !caps.sae {
                r matches Err(CoreError::Wpa3Unsupported)
            } else {
                match band_choice(
                    cfg.hotspot.band,
                    cfg.hotspot.channel,
                    caps.channels_2ghz@,
                    caps.channels_5ghz@,
                ) {
                    Ok((band, channel)) => r matches Ok(s) && settings_of(
                        s,
                        *cfg,
                        secret_view(password),
                        ap_iface@,
                        subnet,
                        band,
                        channel,
                    ),
                    Err(e) => r == Err::<HotspotSettings, CoreError>(e),
                }
            },
        },
{
    match find_conflict(&subnet, routes, ap_iface.as_str()) {
        Some(route) => {
            return Err(CoreError::SubnetConflict(subnet.to_string(), route.to_string()));
        },
        None => {},
    }
    let h = &cfg.hotspot;
    if h.security == Security::Wpa3 && !caps.sae {
        return Err(CoreError::Wpa3Unsupported);
    }
    let (band, channel) = match choose_band(h.band, h.channel, caps) {
        Ok(x) => x,
        Err(e) => return Err(e),
    };
    Ok(
        HotspotSettings {
            ssid: h.ssid.clone(),
            password,
            security: h.security,
            band,
            channel: Some(channel),
            width_mhz: effective_width(h.width_mhz, band),
            hidden: h.hidden,
            ap_isolation: h.ap_isolation,
            ap_iface,
            subnet,
        },
    )
}

/// `a` and `b` hold the same text.
fn same_str(a: &str, b: &str) -> (r: bool)
    ensures
        r == (a@ == b@),
{
    let x = str_chars(a);
    let y = str_chars(b);
    chars_eq(x.as_slice(), y.as_slice())
}

// ---------------------------------------------------------------------------------------
// Decisions on what the system answered
// ---------------------------------------------------------------------------------------
/// The uplink named in the settings is taken only from the candidates the window offers
/// (connected, no bridges): a typo or `docker0` would send guests into containers.
pub open spec fn forced_uplink_result(forced: Seq<char>, candidates: Seq<Seq<char>>) -> Result<
    Seq<char>,
    Seq<char>,
> {
    if candidates.contains(forced) {
        Ok(forced)
    } else {
        Err("uplink_interface: "@ + forced + " is not a connected non-bridge interface"@)
    }
}

/// The uplink named in the settings, checked against the candidates (see
/// `forced_uplink_result`).
pub fn forced_uplink(forced: &str, candidates: &[String]) -> (r: Result<String, CoreError>)
    ensures
        match forced_uplink_result(forced@, strs(candidates@)) {
            Ok(u) => r matches Ok(v) && v@ == u,
            Err(m) => r matches Err(CoreError::Config(t)) && t@ == m,
        },
{
    let ghost c = strs(candidates@);
    let mut i: usize = 0;
    while i < candidates.len()
        invariant
            i <= candidates@.len(),
            c == strs(candidates@),
            forall|k: int| 0 <= k < i ==> (#[trigger] c[k]) != forced@,
        decreases candidates.len() - i,
    {
        if same_str(candidates[i].as_str(), forced) {
            assert(c[i as int] == forced@);
            return Ok(forced.to_string());
        }
        i = i + 1;
    }
    assert(!c.contains(forced@));
    let a = joined("uplink_interface: ", forced);
    Err(CoreError::Config(joined(a.as_str(), " is not a connected non-bridge interface")))
}

/// The request that sets the Wi-Fi country: none when the country is already the wanted one.
/// A country that is not two letters is an error of the settings.
pub fn country_request(wanted: &str, current: Option<String>) -> (r: Result<
    Option<HelperRequest>,
    CoreError,
>)
    ensures
        match parse_country(wanted@) {
            None => r matches Err(CoreError::Config(m)) && m@ == "country: "@
                + ArgError::BadCountry.spec_text(),
            Some(cc) => if current matches Some(c) && c@ == cc {
                r matches Ok(None)
            } else {
                r matches Ok(Some(HelperRequest::RegdomSet { country })) && country@ == cc
            },
        },
{
    let cc = match CountryCode::parse(wanted) {
        Ok(c) => c,
        Err(e) => return Err(CoreError::Config(joined("country: ", e.text()))),
    };
    match current {
        Some(c) => {
            if same_str(c.as_str(), cc.as_str()) {
                return Ok(None);
            }
        },
        None => {},
    }
    Ok(Some(HelperRequest::RegdomSet { country: cc }))
}

/// The request that brings the guests' DNS file in line with the settings: a list is
/// written, an empty list removes the file if there is one.
pub fn dns_request(cfg: &Config, file_exists: bool) -> (r: Result<
    Option<HelperRequest>,
    CoreError,
>)
    ensures
        match dns_list_result(strs(cfg.network.dns@)) {
            Err(m) => r matches Err(CoreError::Config(t)) && t@ == m,
            Ok(servers) => if servers.len() == 0 {
                if file_exists {
                    r matches Ok(Some(HelperRequest::DnsClear))
                } else {
                    r matches Ok(None)
                }
            } else {
                r matches Ok(Some(HelperRequest::DnsSet { servers: v })) && v@ == servers
            },
        },
{
    let servers = match dns_servers(cfg) {
        Ok(v) => v,
        Err(e) => return Err(e),
    };
    if servers.len() == 0 {
        if file_exists {
            return Ok(Some(HelperRequest::DnsClear));
        }
        return Ok(None);
    }
    Ok(Some(HelperRequest::DnsSet { servers }))
}

/// Whether new settings may go to the profile while the hotspot is in `state`: the firewall
/// rules belong to the adapter, so a running hotspot cannot move to another one. `Ok` tells
/// whether the hotspot was running (or starting).
pub fn apply_target(state: &HotspotState, wanted: &str) -> (r: Result<bool, CoreError>)
    ensures
        match state {
            HotspotState::On { ap_iface, .. } => if ap_iface@ != wanted@ {
                r matches Err(CoreError::AdapterChanged { running, wanted: w }) && running@
                    == ap_iface@ && w@ == wanted@
            } else {
                r matches Ok(true)
            },
            HotspotState::Off => r matches Ok(false),
            _ => r matches Ok(true),
        },
{
    match state {
        HotspotState::On { ap_iface, .. } => {
            if !same_str(ap_iface.as_str(), wanted) {
                return Err(
                    CoreError::AdapterChanged {
                        running: ap_iface.clone(),
                        wanted: wanted.to_string(),
                    },
                );
            }
            Ok(true)
        },
        HotspotState::Off => Ok(false),
        _ => Ok(true),
    }
}

/// The hotspot is running or starting, by what NetworkManager answered.
pub open spec fn running(state: Result<HotspotState, CoreError>) -> bool {
    state matches Ok(s) && (s is On || s is Starting)
}

fn still_running(state: &Result<HotspotState, CoreError>) -> (b: bool)
    ensures
        b == running(*state),
{
    match state {
        Ok(HotspotState::On { .. }) | Ok(HotspotState::Starting) => true,
        _ => false,
    }
}

/// What NetworkManager's answer to "running?" means for the next step.
pub open spec fn nm_verdict_spec(answer: Result<bool, CoreError>) -> Result<(), CoreError> {
    match answer {
        Ok(true) => Ok(()),
        Ok(false) => Err(CoreError::NmNotRunning),
        Err(e) => Err(e),
    }
}

pub fn nm_verdict(answer: Result<bool, CoreError>) -> (r: Result<(), CoreError>)
    ensures
        r == nm_verdict_spec(answer),
{
    match answer {
        Ok(true) => Ok(()),
        Ok(false) => Err(CoreError::NmNotRunning),
        Err(e) => Err(e),
    }
}

/// The uplink from the route to the internet: no route means no internet to share.
pub open spec fn route_uplink_spec(route: Result<Option<String>, CoreError>) -> Result<String, CoreError> {
    match route {
        Ok(Some(u)) => Ok(u),
        Ok(None) => Err(CoreError::NoUplink),
        Err(e) => Err(e),
    }
}

pub fn route_uplink(route: Result<Option<String>, CoreError>) -> (r: Result<String, CoreError>)
    ensures
        r == route_uplink_spec(route),
{
    match route {
        Ok(Some(u)) => Ok(u),
        Ok(None) => Err(CoreError::NoUplink),
        Err(e) => Err(e),
    }
}

/// The adapter named in the settings (`wanted`) among NetworkManager's Wi-Fi adapters: no
/// adapter at all, or not that one, is an error.
pub fn named_iface(ifaces: &[String], wanted: &str) -> (r: Result<(), CoreError>)
    ensures
        strs(ifaces@).len() == 0 ==> r == Err::<(), CoreError>(CoreError::NoWifi),
        strs(ifaces@).len() > 0 && strs(ifaces@).contains(wanted@) ==> r is Ok,
        strs(ifaces@).len() > 0 && !strs(ifaces@).contains(wanted@) ==> (r matches Err(
            CoreError::IfaceNotFound(w),
        ) && w@ == wanted@),
{
    if ifaces.len() == 0 {
        return Err(CoreError::NoWifi);
    }
    let ghost c = strs(ifaces@);
    let mut i: usize = 0;
    while i < ifaces.len()
        invariant
            i <= ifaces@.len(),
            c == strs(ifaces@),
            forall|k: int| 0 <= k < i ==> (#[trigger] c[k]) != wanted@,
        decreases ifaces.len() - i,
    {
        if same_str(ifaces[i].as_str(), wanted) {
            assert(c[i as int] == wanted@);
            return Ok(());
        }
        i = i + 1;
    }
    Err(CoreError::IfaceNotFound(wanted.to_string()))
}

/// How stopping ends: the failure to turn the hotspot down first, then the failure to clear
/// the rules; otherwise whether it was running.
pub open spec fn stop_verdict_spec(
    was_on: bool,
    down: Result<(), CoreError>,
    clear: Result<(), CoreError>,
) -> Result<bool, CoreError> {
    match down {
        Err(e) => Err(e),
        Ok(()) => match clear {
            Err(e) => Err(e),
            Ok(()) => Ok(was_on),
        },
    }
}

pub fn stop_verdict(was_on: bool, down: Result<(), CoreError>, clear: Result<(), CoreError>) -> (r: Result<
    bool,
    CoreError,
>)
    ensures
        r == stop_verdict_spec(was_on, down, clear),
{
    match down {
        Err(e) => Err(e),
        Ok(()) => match clear {
            Err(e) => Err(e),
            Ok(()) => Ok(was_on),
        },
    }
}

/// How a reset ends: every step ran; the first failure in their order counts.
pub open spec fn reset_verdict_spec(
    nm: Result<(), CoreError>,
    down: Result<(), CoreError>,
    delete: Result<(), CoreError>,
    fw: Result<(), CoreError>,
    dns: Result<(), CoreError>,
) -> Result<(), CoreError> {
    if nm is Err {
        nm
    } else if down is Err {
        down
    } else if delete is Err {
        delete
    } else if fw is Err {
        fw
    } else {
        dns
    }
}

pub fn reset_verdict(
    nm: Result<(), CoreError>,
    down: Result<(), CoreError>,
    delete: Result<(), CoreError>,
    fw: Result<(), CoreError>,
    dns: Result<(), CoreError>,
) -> (r: Result<(), CoreError>)
    ensures
        r == reset_verdict_spec(nm, down, delete, fw, dns),
{
    if nm.is_err() {
        nm
    } else if down.is_err() {
        down
    } else if delete.is_err() {
        delete
    } else if fw.is_err() {
        fw
    } else {
        dns
    }
}

/// What stopping does after the attempt to turn the hotspot down (`down`) and, where that
/// failed, the state read right after (`after`): the rules are cleared unless the hotspot could
/// not be turned down and still runs (a hotspot never runs unprotected).
pub open spec fn stop_clears(down: Result<(), CoreError>, after: Option<Result<HotspotState, CoreError>>) -> bool {
    !(down is Err && (after matches Some(a) && running(a)))
}

/// The step of stopping after the turn-down: whether to clear the firewall rules, and the
/// answer if the rules stay or their clearing succeeds.
pub fn stop_step(
    was_on: bool,
    down: &Result<(), CoreError>,
    after: &Option<Result<HotspotState, CoreError>>,
) -> (r: (bool, Result<bool, CoreError>))
    ensures
        r.0 == stop_clears(*down, *after),
        r.1 == stop_verdict_spec(was_on, *down, Ok(())),
{
    let clear = match after {
        Some(a) => !(down.is_err() && still_running(a)),
        None => true,
    };
    let d = match down {
        Ok(()) => Ok(()),
        Err(e) => Err(e.duplicate()),
    };
    (clear, stop_verdict(was_on, d, Ok(())))
}

fn copy_answer(a: &Result<(), CoreError>) -> (r: Result<(), CoreError>)
    ensures
        r == *a,
{
    match a {
        Ok(u) => Ok(*u),
        Err(e) => Err(e.duplicate()),
    }
}

/// What the systems answered while stopping, in the order asked; `None`: not asked.
pub struct StopReport {
    /// Taking the action lock.
    pub lock: Result<(), CoreError>,
    /// NetworkManager runs?
    pub nm: Option<Result<bool, CoreError>>,
    /// The hotspot's state before.
    pub state: Option<Result<HotspotState, CoreError>>,
    /// Turning the hotspot down.
    pub down: Option<Result<(), CoreError>>,
    /// The state read again after a failed turn-down.
    pub after: Option<Result<HotspotState, CoreError>>,
    /// Clearing the firewall rules: `Some(None)`: no helper is installed, nothing was sent.
    pub clear: Option<Option<Result<(), CoreError>>>,
}

/// Each question of a stop is asked exactly when the answers before it let the stop go on:
/// NetworkManager after the lock, the state once it runs, the turn-down after a good state,
/// the state again after a failed turn-down, and the clearing where `stop_clears` says so.
pub open spec fn stop_asked(rep: StopReport) -> bool {
    match rep.lock {
        Err(_) => rep.nm is None && rep.state is None && rep.down is None && rep.after is None
            && rep.clear is None,
        Ok(()) => match rep.nm {
            None => false,
            Some(n) => if nm_verdict_spec(n) is Err {
                rep.state is None && rep.down is None && rep.after is None && rep.clear is None
            } else {
                match rep.state {
                    None => false,
                    Some(Err(_)) => rep.down is None && rep.after is None && rep.clear is None,
                    Some(Ok(_)) => match rep.down {
                        None => false,
                        Some(d) => (rep.after is Some <==> d is Err) && (rep.clear is Some
                            <==> stop_clears(d, rep.after)),
                    },
                }
            },
        },
    }
}

/// The result of a stop from its answers: the first failure among the lock, NetworkManager
/// and the state; then whether it was on (see `stop_verdict_spec`), the clearing's answer
/// counting only where the rules were cleared.
pub open spec fn stop_result(rep: StopReport) -> Result<bool, CoreError> {
    match rep.lock {
        Err(e) => Err(e),
        Ok(()) => match nm_verdict_spec(rep.nm.unwrap()) {
            Err(e) => Err(e),
            Ok(()) => match rep.state.unwrap() {
                Err(e) => Err(e),
                Ok(s) => {
                    let was_on = !(s is Off);
                    let cleared = match rep.clear {
                        Some(Some(c)) => c,
                        _ => Ok(()),
                    };
                    stop_verdict_spec(was_on, rep.down.unwrap(), cleared)
                },
            },
        },
    }
}

fn stop_result_of(rep: &StopReport) -> (r: Result<bool, CoreError>)
    requires
        stop_asked(*rep),
    ensures
        r == stop_result(*rep),
{
    match &rep.lock {
        Err(e) => return Err(e.duplicate()),
        Ok(()) => {},
    }
    let nm = match &rep.nm {
        Some(n) => n,
        None => return Ok(false),
    };
    match nm {
        Ok(true) => {},
        Ok(false) => return Err(CoreError::NmNotRunning),
        Err(e) => return Err(e.duplicate()),
    }
    let was_on = match &rep.state {
        Some(Ok(HotspotState::Off)) => false,
        Some(Ok(_)) => true,
        Some(Err(e)) => return Err(e.duplicate()),
        None => return Ok(false),
    };
    let down = match &rep.down {
        Some(d) => d,
        None => return Ok(false),
    };
    let (_, verdict) = stop_step(was_on, down, &rep.after);
    let cleared = match &rep.clear {
        Some(Some(c)) => copy_answer(c),
        _ => Ok(()),
    };
    match verdict {
        Err(e) => Err(e),
        Ok(b) => match cleared {
            Err(e) => Err(e),
            Ok(()) => Ok(b),
        },
    }
}

/// What the systems answered during a reset. `down` and `delete` are asked only while
/// NetworkManager runs; `fw` and `dns` are the answers to `reset_requests`, `None` where no
/// helper is installed (nothing was sent).
pub struct ResetReport {
    pub nm: Result<bool, CoreError>,
    pub down: Option<Result<(), CoreError>>,
    pub delete: Option<Result<(), CoreError>>,
    pub fw: Option<Result<(), CoreError>>,
    pub dns: Option<Result<(), CoreError>>,
}

pub open spec fn reset_asked(rep: ResetReport) -> bool {
    (rep.down is Some <==> nm_verdict_spec(rep.nm) is Ok) && (rep.delete is Some <==> nm_verdict_spec(
        rep.nm,
    ) is Ok)
}

/// An answer, or success where nothing was asked.
pub open spec fn or_done(a: Option<Result<(), CoreError>>) -> Result<(), CoreError> {
    match a {
        Some(x) => x,
        None => Ok(()),
    }
}

/// The result of a reset from its answers: the first failure in the order of the steps (see
/// `reset_verdict_spec`).
pub open spec fn reset_result(rep: ResetReport) -> Result<(), CoreError> {
    reset_verdict_spec(
        nm_verdict_spec(rep.nm),
        or_done(rep.down),
        or_done(rep.delete),
        or_done(rep.fw),
        or_done(rep.dns),
    )
}

fn copy_or_done(a: &Option<Result<(), CoreError>>) -> (r: Result<(), CoreError>)
    ensures
        r == or_done(*a),
{
    match a {
        Some(x) => copy_answer(x),
        None => Ok(()),
    }
}

fn reset_result_of(rep: &ResetReport) -> (r: Result<(), CoreError>)
    ensures
        r == reset_result(*rep),
{
    let nm = match &rep.nm {
        Ok(b) => Ok(*b),
        Err(e) => Err(e.duplicate()),
    };
    reset_verdict(
        nm_verdict(nm),
        copy_or_done(&rep.down),
        copy_or_done(&rep.delete),
        copy_or_done(&rep.fw),
        copy_or_done(&rep.dns),
    )
}

/// The requests a reset sends to the helper, in order: the firewall rules, then the guests'
/// DNS file.
pub fn reset_requests() -> (v: Vec<HelperRequest>)
    ensures
        v@ == seq![HelperRequest::FwClear, HelperRequest::DnsClear],
{
    let mut v: Vec<HelperRequest> = Vec::new();
    v.push(HelperRequest::FwClear);
    v.push(HelperRequest::DnsClear);
    assert(v@ =~= seq![HelperRequest::FwClear, HelperRequest::DnsClear]);
    v
}

/// What undoes a start that failed after the profile was made.
#[derive(Clone, Copy, Debug, PartialEq, Eq, Structural)]
pub enum StartUndo {
    /// Nothing was activated.
    Nothing,
    /// The activation failed: NetworkManager could still bring it up later, so it is turned
    /// down.
    Down,
    /// The firewall rules could not be set: the hotspot is turned down and the rules that
    /// were set are cleared.
    DownAndClear,
}

/// The start before any check of the settings: the state NetworkManager answered and whether
/// the helper is installed decide whether it ends here. A running or starting hotspot is
/// already on; without the helper the hotspot does not start; `None`: go on.
pub open spec fn start_gate_spec(state: Result<HotspotState, CoreError>, installed: bool) -> Option<
    Result<StartOutcome, CoreError>,
> {
    match state {
        Err(e) => Some(Err(e)),
        Ok(s) => if s is On || s is Starting {
            Some(Ok(StartOutcome::AlreadyOn))
        } else if !installed {
            Some(Err(CoreError::HelperNotInstalled))
        } else {
            None
        },
    }
}

/// Whether the helper's presence is asked at all after this state (only to go on).
pub open spec fn gate_asks_helper(state: Result<HotspotState, CoreError>) -> bool {
    state matches Ok(s) && !(s is On || s is Starting)
}

pub fn start_gate(state: &Result<HotspotState, CoreError>, installed: bool) -> (r: Option<
    Result<StartOutcome, CoreError>,
>)
    ensures
        r == start_gate_spec(*state, installed),
{
    match state {
        Err(e) => Some(Err(e.duplicate())),
        Ok(HotspotState::On { .. }) | Ok(HotspotState::Starting) => Some(Ok(StartOutcome::AlreadyOn)),
        Ok(_) => if !installed {
            Some(Err(CoreError::HelperNotInstalled))
        } else {
            None
        },
    }
}

/// The end of a start, from the activation's answer (`up`) and, after a successful one, the
/// answer to the firewall request (`fw`): what is undone and the result. A failed activation
/// is turned down; failed rules turn the hotspot down and clear them.
pub open spec fn start_verdict_spec(up: Result<(), CoreError>, fw: Result<(), CoreError>) -> (
    StartUndo,
    Result<(), CoreError>,
) {
    match up {
        Err(e) => (StartUndo::Down, Err(e)),
        Ok(()) => match fw {
            Err(e) => (StartUndo::DownAndClear, Err(e)),
            Ok(()) => (StartUndo::Nothing, Ok(())),
        },
    }
}

pub fn start_verdict(up: Result<(), CoreError>, fw: Result<(), CoreError>) -> (r: (
    StartUndo,
    Result<(), CoreError>,
))
    ensures
        r == start_verdict_spec(up, fw),
{
    match up {
        Err(e) => (StartUndo::Down, Err(e)),
        Ok(()) => match fw {
            Err(e) => (StartUndo::DownAndClear, Err(e)),
            Ok(()) => (StartUndo::Nothing, Ok(())),
        },
    }
}

/// How applying ends: without a profile and a new password the settings are only saved;
/// a running hotspot is restarted (its reactivation's answer `up` decides); else the profile
/// was updated.
pub open spec fn apply_outcome_spec(
    exists: bool,
    password_given: bool,
    was_on: bool,
    up: Result<(), CoreError>,
) -> Result<ApplyOutcome, CoreError> {
    if !exists && !password_given {
        Ok(ApplyOutcome::Saved)
    } else if was_on {
        match up {
            Ok(()) => Ok(ApplyOutcome::Restarted),
            Err(e) => Err(e),
        }
    } else {
        Ok(ApplyOutcome::Updated)
    }
}

pub fn apply_outcome(exists: bool, password_given: bool, was_on: bool, up: Result<(), CoreError>) -> (r:
    Result<ApplyOutcome, CoreError>)
    ensures
        r == apply_outcome_spec(exists, password_given, was_on, up),
{
    if !exists && !password_given {
        Ok(ApplyOutcome::Saved)
    } else if was_on {
        match up {
            Ok(()) => Ok(ApplyOutcome::Restarted),
            Err(e) => Err(e),
        }
    } else {
        Ok(ApplyOutcome::Updated)
    }
}

/// The checks a start makes once the adapter and the uplink are known, before anything in the
/// system changes: the uplink must not be the access point's adapter, and the firewall request
/// must be possible (valid interface names and MAC lists; see `firewall_result`).
pub fn start_checks(cfg: &Config, ap: &str, uplink: &str, approval: bool) -> (r: Result<(), CoreError>)
    ensures
        uplink@ == ap@ ==> (r matches Err(CoreError::UplinkIsAp(u)) && u@ == uplink@),
        uplink@ != ap@ ==> match firewall_result(
            ap@,
            uplink@,
            approval,
            strs(cfg.access.allowed_macs@),
            strs(cfg.access.blocked_macs@),
        ) {
            Ok(_) => r is Ok,
            Err(t) => r matches Err(CoreError::Config(m)) && m@ == t,
        },
{
    if same_str(uplink, ap) {
        return Err(CoreError::UplinkIsAp(uplink.to_string()));
    }
    match firewall_request(cfg, ap, uplink, approval) {
        Ok(_) => Ok(()),
        Err(e) => Err(e),
    }
}

/// What a start was answered and what it sent, in order; `None`: not asked.
pub struct StartReport {
    /// Taking the action lock.
    pub lock: Result<(), CoreError>,
    /// NetworkManager runs?
    pub nm: Option<Result<bool, CoreError>>,
    /// The hotspot's state.
    pub state: Option<Result<HotspotState, CoreError>>,
    /// The helper is installed? Asked only where the state lets the start go on.
    pub installed: Option<bool>,
    /// The requests sent to the helper, in order.
    pub sent: Vec<HelperRequest>,
    /// The profile was written and its activation asked for.
    pub activated: bool,
}

/// The answers before the settings are looked at let the start go on.
pub open spec fn start_goes_on(rep: StartReport) -> bool {
    &&& rep.lock is Ok
    &&& rep.nm matches Some(n) && nm_verdict_spec(n) is Ok
    &&& rep.state matches Some(st) && (rep.installed matches Some(i) && start_gate_spec(st, i) is None)
}

/// The start ended before the settings were looked at, with result `r`: the lock, then
/// NetworkManager, then `start_gate_spec` on the state and, where asked, the helper.
pub open spec fn start_stopped_early(rep: StartReport, r: Result<StartOutcome, CoreError>) -> bool {
    match rep.lock {
        Err(e) => r == Err::<StartOutcome, CoreError>(e),
        Ok(()) => match rep.nm {
            None => false,
            Some(n) => match nm_verdict_spec(n) {
                Err(e) => r == Err::<StartOutcome, CoreError>(e),
                Ok(()) => match rep.state {
                    None => false,
                    Some(st) => (rep.installed is Some <==> gate_asks_helper(st)) && match start_gate_spec(
                        st,
                        match rep.installed {
                            Some(i) => i,
                            None => true,
                        },
                    ) {
                        Some(x) => r == x,
                        None => false,
                    },
                },
            },
        },
    }
}

/// A bad network name, subnet or country is refused before the helper is asked for anything.
pub open spec fn refused_before_requests(cfg: Config) -> bool {
    ||| ssid_check(cfg.hotspot.ssid@) is Err
    ||| !subnet_ok(cfg.network.subnet@)
    ||| (trim(cfg.hotspot.country@).len() > 0 && parse_country(trim(cfg.hotspot.country@)) is None)
}

/// Settings a start refuses whatever the system answers: a bad network name or subnet, a bad
/// list of DNS servers for the guests, a country that is no two-letter code.
pub open spec fn settings_refused(cfg: Config) -> bool {
    ||| ssid_check(cfg.hotspot.ssid@) is Err
    ||| !subnet_ok(cfg.network.subnet@)
    ||| dns_list_result(strs(cfg.network.dns@)) is Err
    ||| (trim(cfg.hotspot.country@).len() > 0 && parse_country(trim(cfg.hotspot.country@)) is None)
}

// ---------------------------------------------------------------------------------------
// Turning on and off
// ---------------------------------------------------------------------------------------
#[derive(Clone)]
pub enum StartOutcome {
    AlreadyOn,
    Started {
        /// The settings, without the password.
        settings: HotspotSettings,
        uplink: String,
        /// The profile was made now (with a new generated password).
        created: bool,
    },
}

#[derive(Clone, Copy, Debug, PartialEq, Eq, Structural)]
pub enum ApplyOutcome {
    /// There is no profile yet: the settings apply at the first start.
    Saved,
    /// The profile was updated; the hotspot is off.
    Updated,
    /// The hotspot was running and restarted with the new settings.
    Restarted,
}

/// The checks made before any system is asked pass: the network name, a new password, and
/// the subnet.
pub open spec fn checks_pass(cfg: Config, password: Option<Seq<char>>) -> bool {
    &&& ssid_check(cfg.hotspot.ssid@) is Ok
    &&& password_ok(password)
    &&& subnet_ok(cfg.network.subnet@)
}

/// The profile `s` was resolved from the settings: the checks passed, the subnet is the
/// settings' one, the band and channel are concrete and keep what the settings fixed, and an
/// adapter named in the settings is the one taken.
pub open spec fn resolved(s: HotspotSettings, cfg: Config, password: Option<Seq<char>>) -> bool {
    &&& checks_pass(cfg, password)
    &&& parse_net(cfg.network.subnet@) == Some(s.subnet)
    &&& s.band != Band::Auto
    &&& (cfg.hotspot.band != Band::Auto ==> s.band == cfg.hotspot.band)
    &&& (cfg.hotspot.channel != 0 ==> s.channel == Some(cfg.hotspot.channel))
    &&& (trim(cfg.network.ap_interface@).len() > 0 ==> s.ap_iface@ == trim(
        cfg.network.ap_interface@,
    ))
    &&& s.channel matches Some(c) && settings_of(
        s,
        cfg,
        password,
        s.ap_iface@,
        s.subnet,
        s.band,
        c,
    )
}

/// What a started hotspot has been checked for: its profile was resolved from the settings
/// (and carries no password), the firewall request for its adapter and uplink could be made,
/// the guests' DNS list and a country in the settings are valid, and an uplink named in the
/// settings is the one used.
pub open spec fn started_ok(
    settings: HotspotSettings,
    uplink: Seq<char>,
    cfg: Config,
    approval: bool,
) -> bool {
    &&& resolved(settings, cfg, None)
    &&& firewall_result(
        settings.ap_iface@,
        uplink,
        approval,
        strs(cfg.access.allowed_macs@),
        strs(cfg.access.blocked_macs@),
    ) is Ok
    &&& dns_list_result(strs(cfg.network.dns@)) is Ok
    &&& (trim(cfg.hotspot.country@).len() > 0 ==> parse_country(trim(cfg.hotspot.country@)) is Some)
    &&& (trim(cfg.network.uplink_interface@).len() > 0 ==> uplink == trim(
        cfg.network.uplink_interface@,
    ))
}

/// A concrete band and channel keep what the settings fixed.
proof fn lemma_band_choice_keeps(band: Band, channel: u8, ch2: Seq<u8>, ch5: Seq<u8>)
    ensures
        band_choice(band, channel, ch2, ch5) matches Ok((b, c)) ==> (b != Band::Auto && (band
            != Band::Auto ==> b == band) && (channel != 0 ==> c == channel)),
{
}

/// The checks of the settings made before any system is asked, in order: the network name,
/// a new password, the subnet. `Ok` is the subnet.
fn prechecks(cfg: &Config, password: &Option<Secret>) -> (r: Result<Ipv4Net, CoreError>)
    ensures
        ssid_check(cfg.hotspot.ssid@) is Err ==> r == Err::<Ipv4Net, CoreError>(
            CoreError::Ssid(ssid_check(cfg.hotspot.ssid@)->Err_0),
        ),
        (ssid_check(cfg.hotspot.ssid@) is Ok && !password_ok(secret_view(*password))) ==> r
            == Err::<Ipv4Net, CoreError>(
            CoreError::Password(validate_spec(password.unwrap()@)->Err_0),
        ),
        (ssid_check(cfg.hotspot.ssid@) is Ok && password_ok(secret_view(*password)) && !subnet_ok(
            cfg.network.subnet@,
        )) ==> (r matches Err(CoreError::SubnetNotPrivate(s)) && s@ == cfg.network.subnet@),
        r matches Ok(n) ==> (checks_pass(*cfg, secret_view(*password)) && parse_net(
            cfg.network.subnet@,
        ) == Some(n)),
{
    match validate_ssid(cfg.hotspot.ssid.as_str()) {
        Ok(()) => {},
        Err(e) => return Err(CoreError::Ssid(e)),
    }
    match password {
        Some(p) => match validate_user_password(p.expose()) {
            Ok(_) => {},
            Err(e) => return Err(CoreError::Password(e)),
        },
        None => {},
    }
    match Ipv4Net::parse(cfg.network.subnet.as_str()) {
        Some(n) => {
            if n.is_private_host() {
                Ok(n)
            } else {
                Err(CoreError::SubnetNotPrivate(cfg.network.subnet.clone()))
            }
        },
        None => Err(CoreError::SubnetNotPrivate(cfg.network.subnet.clone())),
    }
}

/// The hotspot over NetworkManager, the system's probes and the root helper. Those traits
/// carry no contracts: what they answer is known only as it comes back. `start`, `stop` and
/// `reset` report those answers beside their result and state the result (and the helper
/// requests sent) as a function of them; each decision is also one of the step functions
/// above, with an exact contract.
pub struct Hotspot<'a, B: NetworkBackend, P: SystemProbe, H: HelperRunner> {
    pub backend: &'a B,
    pub probe: &'a P,
    pub helper: &'a H,
}

impl<'a, B: NetworkBackend, P: SystemProbe, H: HelperRunner> Hotspot<'a, B, P, H> {
    pub fn new(backend: &'a B, probe: &'a P, helper: &'a H) -> (h: Self)
        ensures
            h.backend == backend,
            h.probe == probe,
            h.helper == helper,
    {
        Hotspot { backend, probe, helper }
    }

    fn require_nm(&self) -> (r: Result<(), CoreError>) {
        nm_verdict(self.backend.nm_running())
    }

    /// The Wi-Fi adapter for the access point and its card's capabilities: the one named in
    /// the settings, else the first that can be an access point.
    fn pick_iface(&self, cfg: &Config) -> (r: Result<(String, WifiCaps), CoreError>)
        ensures
            r matches Ok((iface, caps)) ==> (caps.ap && (trim(cfg.network.ap_interface@).len() > 0
                ==> iface@ == trim(cfg.network.ap_interface@))),
    {
        let ifaces = match self.backend.wifi_ifaces() {
            Ok(v) => v,
            Err(e) => return Err(e),
        };
        if ifaces.len() == 0 {
            return Err(CoreError::NoWifi);
        }
        let wc = str_chars(cfg.network.ap_interface.as_str());
        let wanted_chars = trim_exec(wc.as_slice());
        if wanted_chars.len() > 0 {
            let wanted = chars_to_string(wanted_chars.as_slice());
            match named_iface(ifaces.as_slice(), wanted.as_str()) {
                Ok(()) => {},
                Err(e) => return Err(e),
            }
            let caps = match self.probe.wifi_caps(wanted.as_str()) {
                Ok(c) => c,
                Err(e) => return Err(e),
            };
            if caps.ap {
                return Ok((wanted, caps));
            }
            return Err(CoreError::NoApSupport);
        }
        let mut i: usize = 0;
        while i < ifaces.len()
            invariant
                i <= ifaces@.len(),
                trim(cfg.network.ap_interface@).len() == 0,
            decreases ifaces.len() - i,
        {
            match self.probe.wifi_caps(ifaces[i].as_str()) {
                Ok(caps) => {
                    if caps.ap {
                        return Ok((ifaces[i].clone(), caps));
                    }
                },
                Err(_) => {},
            }
            i = i + 1;
        }
        Err(CoreError::NoApSupport)
    }

    /// The profile from the settings (see `resolved`). The name, a new password and the
    /// subnet are checked first, in that order, before any system is asked; then the adapter,
    /// the routes and the card decide (see `settings_for`).
    #[verifier::spinoff_prover]
    pub fn resolve(&self, cfg: &Config, password: Option<Secret>) -> (r: Result<
        HotspotSettings,
        CoreError,
    >)
        ensures
            ssid_check(cfg.hotspot.ssid@) is Err ==> r == Err::<HotspotSettings, CoreError>(
                CoreError::Ssid(ssid_check(cfg.hotspot.ssid@)->Err_0),
            ),
            (ssid_check(cfg.hotspot.ssid@) is Ok && !password_ok(secret_view(password))) ==> r
                == Err::<HotspotSettings, CoreError>(
                CoreError::Password(validate_spec(password.unwrap()@)->Err_0),
            ),
            (ssid_check(cfg.hotspot.ssid@) is Ok && password_ok(secret_view(password))
                && !subnet_ok(cfg.network.subnet@)) ==> (r matches Err(
                CoreError::SubnetNotPrivate(s),
            ) && s@ == cfg.network.subnet@),
            r matches Ok(s) ==> resolved(s, *cfg, secret_view(password)),
    {
        let subnet = match prechecks(cfg, &password) {
            Ok(n) => n,
            Err(e) => return Err(e),
        };
        let (ap_iface, caps) = match self.pick_iface(cfg) {
            Ok(x) => x,
            Err(e) => return Err(e),
        };
        let routes = match self.probe.routes() {
            Ok(v) => v,
            Err(e) => return Err(e),
        };
        let ghost pv = secret_view(password);
        let ghost ap = ap_iface@;
        let r = settings_for(cfg, password, subnet, ap_iface, &caps, routes.as_slice());
        proof {
            if r is Ok {
                lemma_band_choice_keeps(
                    cfg.hotspot.band,
                    cfg.hotspot.channel,
                    caps.channels_2ghz@,
                    caps.channels_5ghz@,
                );
            }
        }
        r
    }

    pub fn state(&self) -> (r: Result<HotspotState, CoreError>) {
        match self.require_nm() {
            Ok(()) => {},
            Err(e) => return Err(e),
        }
        self.backend.state()
    }

    /// Turns the hotspot on (see `started_ok`). `approval`: devices need approval (an allow
    /// list in the firewall). The check "already on?" and the start run under one lock. The
    /// hotspot never starts without the helper; all checks run before the country or the DNS
    /// file change; a failed activation is turned down again; and if the firewall rules cannot
    /// be set, the hotspot goes down and the rules are cleared. The report beside the result
    /// holds the answers before the settings are looked at and the helper requests sent.
    pub fn start(&self, cfg: &Config, approval: bool) -> (r: (Result<StartOutcome, CoreError>, StartReport))
        ensures
            !start_goes_on(r.1) ==> (start_stopped_early(r.1, r.0) && r.1.sent@.len() == 0
                && !r.1.activated),
            start_goes_on(r.1) && ssid_check(cfg.hotspot.ssid@) is Err ==> r.0 == Err::<
                StartOutcome,
                CoreError,
            >(CoreError::Ssid(ssid_check(cfg.hotspot.ssid@)->Err_0)),
            start_goes_on(r.1) && ssid_check(cfg.hotspot.ssid@) is Ok && !subnet_ok(
                cfg.network.subnet@,
            ) ==> (r.0 matches Err(CoreError::SubnetNotPrivate(s)) && s@ == cfg.network.subnet@),
            settings_refused(*cfg) ==> ((r.0 is Err || r.0 matches Ok(StartOutcome::AlreadyOn))
                && !r.1.activated && r.1.sent@.len() <= 1 && (forall|i: int|
                0 <= i < r.1.sent@.len() ==> #[trigger] r.1.sent@[i] is RegdomSet)),
            refused_before_requests(*cfg) ==> r.1.sent@.len() == 0,
            r.0 matches Ok(StartOutcome::Started { settings, uplink, .. }) ==> (started_ok(
                settings,
                uplink@,
                *cfg,
                approval,
            ) && r.1.activated && r.1.sent@.len() > 0 && r.1.sent@.last() is FwApply),
    {
        let mut rep = StartReport {
            lock: Ok(()),
            nm: None,
            state: None,
            installed: None,
            sent: Vec::new(),
            activated: false,
        };
        let r = self.start_reporting(cfg, approval, &mut rep);
        (r, rep)
    }

    fn start_reporting(&self, cfg: &Config, approval: bool, rep: &mut StartReport) -> (r: Result<
        StartOutcome,
        CoreError,
    >)
        requires
            old(rep).lock is Ok,
            old(rep).nm is None,
            old(rep).state is None,
            old(rep).installed is None,
            old(rep).sent@.len() == 0,
            !old(rep).activated,
        ensures
            !start_goes_on(*final(rep)) ==> (start_stopped_early(*final(rep), r) && final(rep).sent@.len()
                == 0 && !final(rep).activated),
            start_goes_on(*final(rep)) && ssid_check(cfg.hotspot.ssid@) is Err ==> r == Err::<
                StartOutcome,
                CoreError,
            >(CoreError::Ssid(ssid_check(cfg.hotspot.ssid@)->Err_0)),
            start_goes_on(*final(rep)) && ssid_check(cfg.hotspot.ssid@) is Ok && !subnet_ok(
                cfg.network.subnet@,
            ) ==> (r matches Err(CoreError::SubnetNotPrivate(s)) && s@ == cfg.network.subnet@),
            settings_refused(*cfg) ==> ((r is Err || r matches Ok(StartOutcome::AlreadyOn))
                && !final(rep).activated && final(rep).sent@.len() <= 1 && (forall|i: int|
                0 <= i < final(rep).sent@.len() ==> #[trigger] final(rep).sent@[i] is RegdomSet)),
            refused_before_requests(*cfg) ==> final(rep).sent@.len() == 0,
            r matches Ok(StartOutcome::Started { settings, uplink, .. }) ==> (started_ok(
                settings,
                uplink@,
                *cfg,
                approval,
            ) && final(rep).activated && final(rep).sent@.len() > 0 && final(rep).sent@.last() is FwApply),
    {
        let _ops = match self.probe.lock_ops() {
            Ok(g) => g,
            Err(e) => {
                rep.lock = Err(e.duplicate());
                return Err(e);
            },
        };
        let nm = self.backend.nm_running();
        let nm_v = match &nm {
            Ok(b) => nm_verdict(Ok(*b)),
            Err(e) => nm_verdict(Err(e.duplicate())),
        };
        rep.nm = Some(nm);
        match nm_v {
            Ok(()) => {},
            Err(e) => return Err(e),
        }
        let state = self.backend.state();
        // The helper is asked about only where the state lets the start go on.
        let asks = match &state {
            Ok(HotspotState::On { .. }) | Ok(HotspotState::Starting) | Err(_) => false,
            Ok(_) => true,
        };
        let installed = if asks {
            let i = self.helper.installed();
            rep.installed = Some(i);
            i
        } else {
            true
        };
        let gate = start_gate(&state, installed);
        rep.state = Some(state);
        match gate {
            Some(r) => return r,
            None => {},
        }
        assert(start_goes_on(*rep));
        let mut activated = false;
        let r = self.start_settled(cfg, approval, &mut rep.sent, &mut activated);
        rep.activated = activated;
        r
    }

    /// The start once the answers let it go on: the settings are checked before anything in
    /// the system changes; then the country, the DNS file, the profile, the activation and
    /// the firewall rules.
    #[verifier::spinoff_prover]
    #[verifier::rlimit(40)]
    fn start_settled(
        &self,
        cfg: &Config,
        approval: bool,
        sent: &mut Vec<HelperRequest>,
        activated: &mut bool,
    ) -> (r: Result<StartOutcome, CoreError>)
        requires
            old(sent)@.len() == 0,
            !*old(activated),
        ensures
            ssid_check(cfg.hotspot.ssid@) is Err ==> r == Err::<StartOutcome, CoreError>(
                CoreError::Ssid(ssid_check(cfg.hotspot.ssid@)->Err_0),
            ),
            ssid_check(cfg.hotspot.ssid@) is Ok && !subnet_ok(cfg.network.subnet@) ==> (r matches Err(
                CoreError::SubnetNotPrivate(s),
            ) && s@ == cfg.network.subnet@),
            settings_refused(*cfg) ==> (r is Err && !*final(activated) && final(sent)@.len() <= 1
                && (forall|i: int| 0 <= i < final(sent)@.len() ==> #[trigger] final(sent)@[i] is RegdomSet)),
            refused_before_requests(*cfg) ==> final(sent)@.len() == 0,
            r is Ok ==> r matches Ok(StartOutcome::Started { .. }),
            r matches Ok(StartOutcome::Started { settings, uplink, .. }) ==> (started_ok(
                settings,
                uplink@,
                *cfg,
                approval,
            ) && *final(activated) && final(sent)@.len() > 0 && final(sent)@.last() is FwApply),
    {
        let checked = match self.resolve(cfg, None) {
            Ok(s) => s,
            Err(e) => return Err(e),
        };
        let uplink = match self.uplink_for(cfg) {
            Ok(u) => u,
            Err(e) => return Err(e),
        };
        match start_checks(cfg, checked.ap_iface.as_str(), uplink.as_str(), approval) {
            Ok(()) => {},
            Err(e) => return Err(e),
        }
        match self.set_country(cfg, sent) {
            Ok(()) => {},
            Err(e) => return Err(e),
        }
        match self.write_dns(cfg, sent) {
            Ok(()) => {},
            Err(e) => return Err(e),
        }
        let created = match self.backend.profile_exists() {
            Ok(b) => !b,
            Err(e) => return Err(e),
        };
        let password = if created {
            match generate() {
                Ok(p) => Some(p),
                Err(e) => return Err(e),
            }
        } else {
            None
        };
        let mut settings = match self.resolve(cfg, password) {
            Ok(s) => s,
            Err(e) => return Err(e),
        };
        let firewall = match firewall_request(
            cfg,
            settings.ap_iface.as_str(),
            uplink.as_str(),
            approval,
        ) {
            Ok(f) => f,
            Err(e) => return Err(e),
        };
        *activated = true;
        match self.backend.ensure_profile(&settings) {
            Ok(()) => {},
            Err(e) => return Err(e),
        }
        settings.password = None;
        let up = self.backend.up();
        // The rules are asked for only once the activation succeeded.
        let fw = if up.is_ok() {
            let answer = match self.helper.call(&firewall) {
                Ok(_) => Ok(()),
                Err(e) => Err(e),
            };
            sent.push(firewall);
            answer
        } else {
            Ok(())
        };
        let (undo, verdict) = start_verdict(up, fw);
        match undo {
            StartUndo::Nothing => {},
            StartUndo::Down => {
                let _ = self.backend.down();
            },
            StartUndo::DownAndClear => {
                let _ = self.backend.down();
                let _ = self.helper.call(&HelperRequest::FwClear);
                sent.push(HelperRequest::FwClear);
            },
        }
        match verdict {
            Ok(()) => Ok(StartOutcome::Started { settings, uplink, created }),
            Err(e) => Err(e),
        }
    }

    /// Where the internet for guests comes from: the route to the internet, or the interface
    /// named in the settings if it is a connected candidate (see `forced_uplink_result`).
    fn uplink_for(&self, cfg: &Config) -> (r: Result<String, CoreError>)
        ensures
            r matches Ok(u) ==> (trim(cfg.network.uplink_interface@).len() > 0 ==> u@ == trim(
                cfg.network.uplink_interface@,
            )),
    {
        let uc = str_chars(cfg.network.uplink_interface.as_str());
        let t = trim_exec(uc.as_slice());
        if t.len() == 0 {
            return route_uplink(self.probe.uplink());
        }
        let forced = chars_to_string(t.as_slice());
        let candidates = match self.uplink_candidates() {
            Ok(v) => v,
            Err(e) => return Err(e),
        };
        forced_uplink(forced.as_str(), candidates.as_slice())
    }

    /// Turns the hotspot off; `Ok(true)`: it was running. If it cannot be turned off and still
    /// runs, the firewall rules stay (a hotspot never runs unprotected); otherwise they are
    /// cleared even after an error (see `stop_step` and `stop_verdict`). The report beside
    /// the result holds what the systems answered; the result is `stop_result` of it.
    pub fn stop(&self) -> (r: (Result<bool, CoreError>, StopReport))
        ensures
            stop_asked(r.1),
            r.0 == stop_result(r.1),
    {
        let mut rep = StopReport { lock: Ok(()), nm: None, state: None, down: None, after: None, clear: None };
        let _ops = match self.probe.lock_ops() {
            Ok(g) => g,
            Err(e) => {
                rep.lock = Err(e);
                let r = stop_result_of(&rep);
                return (r, rep);
            },
        };
        let nm = self.backend.nm_running();
        let nm_ok = match &nm {
            Ok(true) => true,
            _ => false,
        };
        rep.nm = Some(nm);
        if !nm_ok {
            let r = stop_result_of(&rep);
            return (r, rep);
        }
        let state = self.backend.state();
        let state_ok = state.is_ok();
        rep.state = Some(state);
        if !state_ok {
            let r = stop_result_of(&rep);
            return (r, rep);
        }
        let down = self.backend.down();
        // The state is read again only after a failed turn-down.
        let after = if down.is_err() {
            Some(self.backend.state())
        } else {
            None
        };
        let (clear, _) = stop_step(false, &down, &after);
        rep.down = Some(down);
        rep.after = after;
        if clear {
            let answer = if self.helper.installed() {
                match self.helper.call(&HelperRequest::FwClear) {
                    Ok(_) => Some(Ok(())),
                    Err(e) => Some(Err(e)),
                }
            } else {
                None
            };
            rep.clear = Some(answer);
        }
        let r = stop_result_of(&rep);
        (r, rep)
    }

    /// Applies changed settings (and a new password, if given) to the profile. Without a
    /// profile and a password the settings are only checked (`Saved`). A running hotspot is
    /// restarted with them, but cannot move to another adapter (see `apply_target`).
    pub fn apply(&self, cfg: &Config, password: Option<Secret>) -> (r: Result<
        ApplyOutcome,
        CoreError,
    >)
        ensures
            r is Ok ==> checks_pass(*cfg, secret_view(password)),
            r matches Ok(ApplyOutcome::Saved) ==> password is None,
    {
        let _ops = match self.probe.lock_ops() {
            Ok(g) => g,
            Err(e) => return Err(e),
        };
        match self.require_nm() {
            Ok(()) => {},
            Err(e) => return Err(e),
        }
        let exists = match self.backend.profile_exists() {
            Ok(b) => b,
            Err(e) => return Err(e),
        };
        let password_given = password.is_some();
        if !exists && !password_given {
            return match self.resolve(cfg, None) {
                Ok(_) => apply_outcome(exists, password_given, false, Ok(())),
                Err(e) => Err(e),
            };
        }
        let ghost pv = secret_view(password);
        let settings = match self.resolve(cfg, password) {
            Ok(s) => s,
            Err(e) => return Err(e),
        };
        assert(checks_pass(*cfg, pv));
        let state = match self.backend.state() {
            Ok(s) => s,
            Err(e) => return Err(e),
        };
        let was_on = match apply_target(&state, settings.ap_iface.as_str()) {
            Ok(b) => b,
            Err(e) => return Err(e),
        };
        match self.backend.ensure_profile(&settings) {
            Ok(()) => {},
            Err(e) => return Err(e),
        }
        let up = if was_on {
            self.backend.up()
        } else {
            Ok(())
        };
        apply_outcome(exists, password_given, was_on, up)
    }

    /// Sets the Wi-Fi country from the settings when one is given and differs from the
    /// current one. Without the helper nothing is done: the country improves the hotspot but
    /// is no condition for it.
    pub fn sync_country(&self, cfg: &Config) -> (r: Result<(), CoreError>)
        ensures
            trim(cfg.hotspot.country@).len() == 0 ==> r is Ok,
            (trim(cfg.hotspot.country@).len() > 0 && parse_country(trim(cfg.hotspot.country@))
                is None) ==> (r is Ok || (r matches Err(CoreError::Config(m)) && m@ == "country: "@
                + ArgError::BadCountry.spec_text())),
    {
        let wc = str_chars(cfg.hotspot.country.as_str());
        let t = trim_exec(wc.as_slice());
        if t.len() == 0 || !self.helper.installed() {
            return Ok(());
        }
        let mut sent: Vec<HelperRequest> = Vec::new();
        self.set_country(cfg, &mut sent)
    }

    /// `sync_country` once the helper is known to be there.
    fn set_country(&self, cfg: &Config, sent: &mut Vec<HelperRequest>) -> (r: Result<(), CoreError>)
        ensures
            final(sent)@ == old(sent)@ || (final(sent)@.len() == old(sent)@.len() + 1
                && final(sent)@.drop_last() == old(sent)@ && final(sent)@.last() is RegdomSet),
            (trim(cfg.hotspot.country@).len() > 0 && parse_country(trim(cfg.hotspot.country@))
                is None) ==> final(sent)@ == old(sent)@,
            trim(cfg.hotspot.country@).len() == 0 ==> r is Ok,
            (trim(cfg.hotspot.country@).len() > 0 && parse_country(trim(cfg.hotspot.country@))
                is None) ==> (r matches Err(CoreError::Config(m)) && m@ == "country: "@
                + ArgError::BadCountry.spec_text()),
            (r is Ok && trim(cfg.hotspot.country@).len() > 0) ==> parse_country(
                trim(cfg.hotspot.country@),
            ) is Some,
    {
        let wc = str_chars(cfg.hotspot.country.as_str());
        let t = trim_exec(wc.as_slice());
        if t.len() == 0 {
            return Ok(());
        }
        let wanted = chars_to_string(t.as_slice());
        // The current country is read only for a valid wanted one.
        let current = match CountryCode::parse(wanted.as_str()) {
            Ok(_) => self.probe.reg_country(),
            Err(_) => None,
        };
        match country_request(wanted.as_str(), current) {
            Err(e) => Err(e),
            Ok(None) => Ok(()),
            Ok(Some(req)) => {
                let answer = match self.helper.call(&req) {
                    Ok(_) => Ok(()),
                    Err(e) => Err(e),
                };
                let ghost before = sent@;
                sent.push(req);
                assert(sent@.drop_last() =~= before);
                answer
            },
        }
    }

    /// Brings the guests' DNS file in line with the settings: a list is written, an empty
    /// list removes the file if there is one. It takes effect at the next start. Without the
    /// helper nothing is done.
    pub fn sync_dns(&self, cfg: &Config) -> (r: Result<(), CoreError>)
        ensures
            dns_list_result(strs(cfg.network.dns@)) matches Err(m) ==> (r is Ok || (r matches Err(
                CoreError::Config(t),
            ) && t@ == m)),
    {
        if !self.helper.installed() {
            return Ok(());
        }
        let mut sent: Vec<HelperRequest> = Vec::new();
        self.write_dns(cfg, &mut sent)
    }

    /// `sync_dns` once the helper is known to be there.
    fn write_dns(&self, cfg: &Config, sent: &mut Vec<HelperRequest>) -> (r: Result<(), CoreError>)
        ensures
            final(sent)@ == old(sent)@ || (final(sent)@.len() == old(sent)@.len() + 1
                && final(sent)@.drop_last() == old(sent)@ && (final(sent)@.last() is DnsSet
                || final(sent)@.last() is DnsClear)),
            dns_list_result(strs(cfg.network.dns@)) is Err ==> final(sent)@ == old(sent)@,
            dns_list_result(strs(cfg.network.dns@)) matches Err(m) ==> (r matches Err(
                CoreError::Config(t),
            ) && t@ == m),
            r is Ok ==> dns_list_result(strs(cfg.network.dns@)) is Ok,
    {
        // Whether the file is there matters only for an empty list.
        let exists = match dns_servers(cfg) {
            Ok(v) => v.len() == 0 && self.probe.dns_file_exists(),
            Err(_) => false,
        };
        match dns_request(cfg, exists) {
            Err(e) => Err(e),
            Ok(None) => Ok(()),
            Ok(Some(req)) => {
                let answer = match self.helper.call(&req) {
                    Ok(_) => Ok(()),
                    Err(e) => Err(e),
                };
                let ghost before = sent@;
                sent.push(req);
                assert(sent@.drop_last() =~= before);
                answer
            },
        }
    }

    /// The adapter for the hotspot and its card's capabilities (channels, WPA3), for the
    /// settings.
    pub fn wifi_caps(&self, cfg: &Config) -> (r: Result<(String, WifiCaps), CoreError>)
        ensures
            r matches Ok((iface, caps)) ==> (caps.ap && (trim(cfg.network.ap_interface@).len() > 0
                ==> iface@ == trim(cfg.network.ap_interface@))),
    {
        self.pick_iface(cfg)
    }

    /// Interfaces the internet can come from now (the uplink choice in the settings).
    pub fn uplink_candidates(&self) -> (r: Result<Vec<String>, CoreError>) {
        match self.require_nm() {
            Ok(()) => {},
            Err(e) => return Err(e),
        }
        self.backend.connected_ifaces()
    }

    /// The password stored in NetworkManager; no profile gives `None`.
    pub fn password(&self) -> (r: Result<Option<Secret>, CoreError>) {
        match self.require_nm() {
            Ok(()) => {},
            Err(e) => return Err(e),
        }
        match self.backend.profile_exists() {
            Ok(true) => {},
            Ok(false) => return Ok(None),
            Err(e) => return Err(e),
        }
        match self.backend.get_password() {
            Ok(p) => Ok(Some(p)),
            Err(e) => Err(e),
        }
    }

    /// The network the Wi-Fi adapter leaves when the hotspot starts (one card cannot be an
    /// access point and a client at once); `None`: the adapter is free.
    pub fn client_connection(&self, cfg: &Config) -> (r: Result<Option<String>, CoreError>) {
        let (iface, _) = match self.pick_iface(cfg) {
            Ok(x) => x,
            Err(e) => return Err(e),
        };
        self.backend.client_connection(iface.as_str())
    }

    /// The dnsmasq leases (guests' names and addresses), read by the helper: the directory is
    /// root's. Without the helper the list is empty, not an error.
    pub fn leases(&self, ap_iface: &str) -> (r: Result<Vec<Lease>, CoreError>)
        ensures
            r matches Ok(v) ==> unique_macs(lease_models(v@)),
            !iface_ok(ap_iface@) ==> ((r matches Ok(v) && v@.len() == 0) || (r matches Err(
                CoreError::Config(m),
            ) && m@ == ArgError::BadIface.spec_text())),
    {
        if !self.helper.installed() {
            let v: Vec<Lease> = Vec::new();
            assert(lease_models(v@) =~= Seq::empty());
            return Ok(v);
        }
        let ap = match Iface::parse(ap_iface) {
            Ok(i) => i,
            Err(e) => return Err(CoreError::Config(e.text().to_string())),
        };
        let out = match self.helper.call(&HelperRequest::LeasesRead { ap }) {
            Ok(o) => o,
            Err(e) => return Err(e),
        };
        Ok(parse_leases(out.as_str()))
    }

    /// Turns off, deletes the profile and all the helper set up. Every step runs, whatever
    /// the others gave; the first error is returned. The helper's steps do not need
    /// NetworkManager. Calling it again is safe. If the lock cannot be had, the reset runs
    /// without it: it is the last resort. The helper's requests are `reset_requests`; the
    /// report beside the result holds the answers, and the result is `reset_result` of it.
    pub fn reset(&self) -> (r: (Result<(), CoreError>, ResetReport))
        ensures
            reset_asked(r.1),
            r.0 == reset_result(r.1),
    {
        let _ops = self.probe.lock_ops();
        let nm = self.backend.nm_running();
        let nm_ok = match &nm {
            Ok(true) => true,
            _ => false,
        };
        let (down, delete) = if nm_ok {
            (Some(self.backend.down()), Some(self.backend.delete_profile()))
        } else {
            (None, None)
        };
        let requests = reset_requests();
        let fw = self.helper_answer(&requests[0]);
        let dns = self.helper_answer(&requests[1]);
        let rep = ResetReport { nm, down, delete, fw, dns };
        let r = reset_result_of(&rep);
        (r, rep)
    }

    /// The helper's answer to a request; `None`: no helper is installed, nothing was sent.
    fn helper_answer(&self, req: &HelperRequest) -> (r: Option<Result<(), CoreError>>) {
        if self.helper.installed() {
            match self.helper.call(req) {
                Ok(_) => Some(Ok(())),
                Err(e) => Some(Err(e)),
            }
        } else {
            None
        }
    }
}


/// The channel width kept: 20 and 40 MHz stay as asked on every band, 80 MHz stays on 5 GHz
/// and becomes 40 on 2.4 GHz (never 80 there), and anything else is automatic (0). The result
/// is always one of 0, 20, 40, 80 and never wider than asked.
pub proof fn lemma_width_kept(width_mhz: u16, band: Band)
    ensures
        width_mhz == 20 ==> width_for(width_mhz, band) == 20,
        width_mhz == 40 ==> width_for(width_mhz, band) == 40,
        width_mhz == 80 && band != Band::Ghz2_4 ==> width_for(width_mhz, band) == 80,
        band == Band::Ghz2_4 ==> width_for(width_mhz, band) != 80,
        width_for(width_mhz, band) == 0 || width_for(width_mhz, band) == 20 || width_for(width_mhz, band)
            == 40 || width_for(width_mhz, band) == 80,
        width_for(width_mhz, band) <= width_mhz,
        width_mhz != 20 && width_mhz != 40 && width_mhz != 80 ==> width_for(width_mhz, band) == 0,
{
}

} // verus!
