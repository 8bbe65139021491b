//! Hotspot settings and state, as NetworkManager sees them.

use vstd::prelude::*;
use crate::ipv4::{Ipv4Addr, ipv4_text, lemma_ipv4_round_trip, octet, parse_ipv4};
use crate::num::{decimal, decimal_chars, lemma_decimal, parse_unsigned, parse_u8};
use crate::secret::Secret;
use crate::text::{
    chars_to_string, is_ascii_digit, lemma_split_once_at, occurs_at, split_once, split_once_exec,
    str_chars, strs,
};

verus! {

/// Wpa3: `sae` with PMF required. Wpa2: `wpa-psk` with PMF optional; NetworkManager adds SAE
/// too, so new devices use WPA3 and old ones WPA2. Always RSN/CCMP.
#[derive(Clone, Copy, Debug, PartialEq, Eq, Structural)]
pub enum Security {
    Wpa3,
    Wpa2,
}

#[derive(Clone, Copy, Debug, PartialEq, Eq, Structural)]
pub enum Band {
    Auto,
    Ghz2_4,
    Ghz5,
}

/// The hotspot's subnet: the PC's own address and the prefix length (10.42.0.1/24).
#[derive(Clone, Copy, Debug, PartialEq, Eq, Structural)]
pub struct Ipv4Net {
    pub addr: Ipv4Addr,
    pub prefix: u8,
}

/// `a.b.c.d/p` with a prefix from 8 to 30.
pub open spec fn parse_net(s: Seq<char>) -> Option<Ipv4Net> {
    match split_once(s, seq!['/']) {
        Some((a, p)) => match (parse_unsigned(p, 255), parse_ipv4(a)) {
            (Some(pv), Some(bits)) => if 8 <= pv <= 30 {
                Some(Ipv4Net { addr: Ipv4Addr { bits }, prefix: pv as u8 })
            } else {
                None
            },
            _ => None,
        },
        None => None,
    }
}

/// The private range of the address (10/8, 172.16/12, 192.168/16) and its own prefix.
pub open spec fn private_range_prefix(bits: u32) -> Option<nat> {
    let o0 = bits / 0x100_0000;
    let o1 = (bits / 0x1_0000) % 256;
    if o0 == 10 {
        Some(8)
    } else if o0 == 172 && 16 <= o1 <= 31 {
        Some(12)
    } else if o0 == 192 && o1 == 168 {
        Some(16)
    } else {
        None
    }
}

/// The host part of the address under the prefix's mask.
pub open spec fn host_part(bits: u32, prefix: u8) -> u32 {
    bits & (0xffff_ffffu32 >> prefix)
}

/// The PC's address is in a private range no wider than the subnet, and it is neither the
/// subnet's own address nor its broadcast address.
pub open spec fn private_host(n: Ipv4Net) -> bool {
    match private_range_prefix(n.addr.bits) {
        Some(min) => n.prefix >= min && host_part(n.addr.bits, n.prefix) != 0 && host_part(
            n.addr.bits,
            n.prefix,
        ) != (0xffff_ffffu32 >> n.prefix),
        None => false,
    }
}

/// `a.b.c.d/p`.
pub open spec fn net_text(n: Ipv4Net) -> Seq<char> {
    ipv4_text(n.addr.bits) + seq!['/'] + decimal(n.prefix as nat)
}

/// An address's text has no slash.
proof fn lemma_ipv4_text_no_slash(bits: u32)
    ensures
        forall|k: int| 0 <= k < ipv4_text(bits).len() ==> ipv4_text(bits)[k] != '/',
{
    let d0 = decimal(octet(bits, 0));
    let d1 = decimal(octet(bits, 1));
    let d2 = decimal(octet(bits, 2));
    let d3 = decimal(octet(bits, 3));
    lemma_decimal(octet(bits, 0));
    lemma_decimal(octet(bits, 1));
    lemma_decimal(octet(bits, 2));
    lemma_decimal(octet(bits, 3));
    let t = ipv4_text(bits);
    assert forall|k: int| 0 <= k < t.len() implies t[k] != '/' by {
        let a = d0.len() as int;
        let b = a + 1 + d1.len();
        let c = b + 1 + d2.len();
        if k < a {
            assert(t[k] == d0[k] && is_ascii_digit(d0[k]));
        } else if k == a || k == b || k == c {
            assert(t[k] == '.');
        } else if k < b {
            assert(t[k] == d1[k - a - 1] && is_ascii_digit(d1[k - a - 1]));
        } else if k < c {
            assert(t[k] == d2[k - b - 1] && is_ascii_digit(d2[k - b - 1]));
        } else {
            assert(t[k] == d3[k - c - 1] && is_ascii_digit(d3[k - c - 1]));
        }
    }
}

/// A subnet printed and read back is the same subnet (for the prefixes the settings accept,
/// 8 to 30).
pub proof fn lemma_net_round_trip(n: Ipv4Net)
    requires
        8 <= n.prefix <= 30,
    ensures
        parse_net(net_text(n)) == Some(n),
{
    let a = ipv4_text(n.addr.bits);
    let p = decimal(n.prefix as nat);
    let s = net_text(n);
    assert(s =~= a + seq!['/'] + p);
    lemma_ipv4_text_no_slash(n.addr.bits);
    lemma_ipv4_round_trip(n.addr.bits);
    lemma_decimal(n.prefix as nat);
    let i = a.len() as int;
    assert(s.subrange(i, i + 1) =~= seq!['/']);
    assert forall|k: int| 0 <= k < i implies !occurs_at(s, seq!['/'], k) by {
        assert(s[k] == a[k]);
        if occurs_at(s, seq!['/'], k) {
            assert(s.subrange(k, k + 1)[0] == s[k]);
        }
    }
    lemma_split_once_at(s, seq!['/'], i);
    assert(s.take(i) =~= a);
    assert(s.skip(i + 1) =~= p);
    assert(is_ascii_digit(p[0]));
    assert(crate::num::unsigned_digits(p) == p);
}

impl Ipv4Net {
    pub fn parse_chars(s: &[char]) -> (r: Option<Ipv4Net>)
        ensures
            r == parse_net(s@),
    {
        let slash: [char; 1] = ['/'];
        assert(slash@ =~= seq!['/']);
        let (a, p) = match split_once_exec(s, slash.as_slice()) {
            Some(x) => x,
            None => return None,
        };
        let prefix = match parse_u8(p.as_slice()) {
            Some(v) => v,
            None => return None,
        };
        if prefix < 8 || prefix > 30 {
            return None;
        }
        let addr = match Ipv4Addr::parse(a.as_slice()) {
            Some(x) => x,
            None => return None,
        };
        Some(Ipv4Net { addr, prefix })
    }

    pub fn parse(s: &str) -> (r: Option<Ipv4Net>)
        ensures
            r == parse_net(s@),
    {
        let cs = str_chars(s);
        Ipv4Net::parse_chars(cs.as_slice())
    }

    /// A prefix of 32 or more on an address of a private range has no host part to shift
    /// out: that input is left out.
    pub fn is_private_host(&self) -> (b: bool)
        requires
            private_range_prefix(self.addr.bits) is Some ==> self.prefix < 32,
        ensures
            b == private_host(*self),
    {
        let bits = self.addr.bits;
        let o0 = bits / 0x100_0000;
        let o1 = (bits / 0x1_0000) % 256;
        let min: u8 = if o0 == 10 {
            8
        } else if o0 == 172 && 16 <= o1 && o1 <= 31 {
            12
        } else if o0 == 192 && o1 == 168 {
            16
        } else {
            return false;
        };
        if self.prefix < min {
            return false;
        }
        let host_mask = 0xffff_ffffu32 >> self.prefix;
        let host = bits & host_mask;
        host != 0 && host != host_mask
    }

    pub fn to_string(&self) -> (r: String)
        ensures
            r@ == net_text(*self),
    {
        let mut v = self.addr.text_chars();
        v.push('/');
        let mut p = decimal_chars(self.prefix as u64);
        v.append(&mut p);
        assert(v@ =~= net_text(*self));
        chars_to_string(v.as_slice())
    }
}

/// Profile settings. Band and channel are concrete here (auto was resolved before).
#[derive(Clone)]
pub struct HotspotSettings {
    pub ssid: String,
    /// `None`: keep the password stored in NetworkManager.
    pub password: Option<Secret>,
    pub security: Security,
    pub band: Band,
    pub channel: Option<u8>,
    /// Channel width in MHz; 0 lets NetworkManager decide (the narrowest).
    pub width_mhz: u16,
    pub hidden: bool,
    pub ap_isolation: bool,
    pub ap_iface: String,
    pub subnet: Ipv4Net,
}

#[derive(Clone, Debug)]
pub enum HotspotState {
    Off,
    Starting,
    On {
        /// Start time in Unix seconds; `None` when someone else started it.
        since: Option<u64>,
        ap_iface: String,
        uplink: Option<String>,
    },
    Error(String),
}

// ---------------------------------------------------------------------------------------
// The NetworkManager profile
// ---------------------------------------------------------------------------------------
/// The name of the NetworkManager profile.
pub const PROFILE_NAME: &'static str = "omarchy-hotspot";

pub open spec fn yes_no(b: bool) -> Seq<char> {
    if b {
        "yes"@
    } else {
        "no"@
    }
}

/// `a` is 5 GHz; anything else is 2.4 GHz (auto is resolved before a profile is made).
pub open spec fn band_text(b: Band) -> Seq<char> {
    match b {
        Band::Ghz5 => "a"@,
        _ => "bg"@,
    }
}

pub open spec fn channel_text(c: Option<u8>) -> Seq<char> {
    match c {
        Some(x) => decimal(x as nat),
        None => "0"@,
    }
}

/// 20, 40 or 80 MHz; anything else lets NetworkManager choose (the narrowest).
pub open spec fn width_text(w: u16) -> Seq<char> {
    if w == 20 || w == 40 || w == 80 {
        decimal(w as nat) + "mhz"@
    } else {
        "auto"@
    }
}

/// WPA3: SAE with protected management frames required; WPA2: PSK with them optional.
pub open spec fn key_mgmt_text(s: Security) -> Seq<char> {
    match s {
        Security::Wpa3 => "sae"@,
        Security::Wpa2 => "wpa-psk"@,
    }
}

pub open spec fn pmf_text(s: Security) -> Seq<char> {
    match s {
        Security::Wpa3 => "required"@,
        Security::Wpa2 => "optional"@,
    }
}

/// The profile belongs to its user (its password is not readable by other users of the PC);
/// an empty owner makes a shared profile.
pub open spec fn permissions_text(owner: Seq<char>) -> Seq<char> {
    if owner.len() == 0 {
        ""@
    } else {
        "user:"@ + owner
    }
}

/// The profile's properties as `nmcli` arguments, name and value in turn; the password is
/// never among them (it goes over D-Bus). Always RSN with CCMP, shared IPv4 on the subnet,
/// no IPv6, no autoconnect.
pub open spec fn profile_args_spec(s: HotspotSettings, owner: Seq<char>) -> Seq<Seq<char>> {
    seq![
        "connection.interface-name"@,
        s.ap_iface@,
        "connection.autoconnect"@,
        "no"@,
        "connection.permissions"@,
        permissions_text(owner),
        "802-11-wireless.mode"@,
        "ap"@,
        "802-11-wireless.ssid"@,
        s.ssid@,
        "802-11-wireless.band"@,
        band_text(s.band),
        "802-11-wireless.channel"@,
        channel_text(s.channel),
        "802-11-wireless.channel-width"@,
        width_text(s.width_mhz),
        "802-11-wireless.hidden"@,
        yes_no(s.hidden),
        "802-11-wireless.ap-isolation"@,
        yes_no(s.ap_isolation),
        "802-11-wireless-security.key-mgmt"@,
        key_mgmt_text(s.security),
        "802-11-wireless-security.proto"@,
        "rsn"@,
        "802-11-wireless-security.pairwise"@,
        "ccmp"@,
        "802-11-wireless-security.group"@,
        "ccmp"@,
        "802-11-wireless-security.pmf"@,
        pmf_text(s.security),
        "ipv4.method"@,
        "shared"@,
        "ipv4.addresses"@,
        net_text(s.subnet),
        "ipv6.method"@,
        "disabled"@,
    ]
}

fn push_text(v: &mut Vec<String>, s: &str)
    ensures
        strs(final(v)@) == strs(old(v)@).push(s@),
{
    let ghost before = strs(v@);
    v.push(s.to_string());
    assert(strs(v@) =~= before.push(s@));
}

fn push_string(v: &mut Vec<String>, s: String)
    ensures
        strs(final(v)@) == strs(old(v)@).push(s@),
{
    let ghost before = strs(v@);
    v.push(s);
    assert(strs(v@) =~= before.push(s@));
}

fn width_string(w: u16) -> (r: String)
    ensures
        r@ == width_text(w),
{
    if w == 20 || w == 40 || w == 80 {
        let mut v = decimal_chars(w as u64);
        let mut m = str_chars("mhz");
        v.append(&mut m);
        chars_to_string(v.as_slice())
    } else {
        "auto".to_string()
    }
}

fn permissions_string(owner: &str) -> (r: String)
    ensures
        r@ == permissions_text(owner@),
{
    let o = str_chars(owner);
    if o.len() == 0 {
        return "".to_string();
    }
    let mut v = str_chars("user:");
    let mut w = o;
    v.append(&mut w);
    chars_to_string(v.as_slice())
}

/// The profile's properties as `nmcli` arguments (see `profile_args_spec`).
#[verifier::spinoff_prover]
#[verifier::rlimit(40)]
pub fn profile_args(s: &HotspotSettings, owner: &str) -> (out: Vec<String>)
    ensures
        strs(out@) == profile_args_spec(*s, owner@),
{
    let mut a: Vec<String> = Vec::new();
    push_text(&mut a, "connection.interface-name");
    push_text(&mut a, s.ap_iface.as_str());
    push_text(&mut a, "connection.autoconnect");
    push_text(&mut a, "no");
    push_text(&mut a, "connection.permissions");
    push_string(&mut a, permissions_string(owner));
    push_text(&mut a, "802-11-wireless.mode");
    push_text(&mut a, "ap");
    push_text(&mut a, "802-11-wireless.ssid");
    push_text(&mut a, s.ssid.as_str());
    push_text(&mut a, "802-11-wireless.band");
    push_text(
        &mut a,
        match s.band {
            Band::Ghz5 => "a",
            _ => "bg",
        },
    );
    push_text(&mut a, "802-11-wireless.channel");
    push_string(
        &mut a,
        match s.channel {
            Some(c) => chars_to_string(decimal_chars(c as u64).as_slice()),
            None => "0".to_string(),
        },
    );
    push_text(&mut a, "802-11-wireless.channel-width");
    push_string(&mut a, width_string(s.width_mhz));
    push_text(&mut a, "802-11-wireless.hidden");
    push_text(
        &mut a,
        if s.hidden {
            "yes"
        } else {
            "no"
        },
    );
    push_text(&mut a, "802-11-wireless.ap-isolation");
    push_text(
        &mut a,
        if s.ap_isolation {
            "yes"
        } else {
            "no"
        },
    );
    push_text(&mut a, "802-11-wireless-security.key-mgmt");
    push_text(
        &mut a,
        match s.security {
            Security::Wpa3 => "sae",
            Security::Wpa2 => "wpa-psk",
        },
    );
    push_text(&mut a, "802-11-wireless-security.proto");
    push_text(&mut a, "rsn");
    push_text(&mut a, "802-11-wireless-security.pairwise");
    push_text(&mut a, "ccmp");
    push_text(&mut a, "802-11-wireless-security.group");
    push_text(&mut a, "ccmp");
    push_text(&mut a, "802-11-wireless-security.pmf");
    push_text(
        &mut a,
        match s.security {
            Security::Wpa3 => "required",
            Security::Wpa2 => "optional",
        },
    );
    push_text(&mut a, "ipv4.method");
    push_text(&mut a, "shared");
    push_text(&mut a, "ipv4.addresses");
    push_string(&mut a, s.subnet.to_string());
    push_text(&mut a, "ipv6.method");
    push_text(&mut a, "disabled");
    assert(strs(a@) =~= profile_args_spec(*s, owner@));
    a
}

} // verus!
