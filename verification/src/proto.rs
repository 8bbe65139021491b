//! Arguments and requests of the root helper: MAC addresses, interface names, country codes,
//! DNS servers. Each value is checked when it is read, so a request only ever carries values
//! that passed these rules.

use vstd::prelude::*;
use crate::ipv4::{Ipv4Addr, ipv4_text, parse_ipv4};
use crate::ipv6::{parse_ipv6, parse_ipv6_exec, pow2_16};
use crate::text::{
    chars_to_string, is_ascii_hexdigit, is_ascii_lower, is_ascii_upper, is_ascii_digit, str_chars,
    strs,
};

verus! {

broadcast use vstd::slice::group_slice_axioms;

/// Most MAC addresses one allow or block list may hold.
pub const MAX_MAC_LIST: usize = 256;

/// Most DNS servers handed to guests.
pub const MAX_DNS: usize = 4;

// ---------------------------------------------------------------------------------------
// MAC addresses
// ---------------------------------------------------------------------------------------
pub open spec fn hex_val(c: char) -> nat {
    if is_ascii_digit(c) {
        ((c as u32) - ('0' as u32)) as nat
    } else if 'a' <= c <= 'f' {
        ((c as u32) - ('a' as u32) + 10) as nat
    } else {
        ((c as u32) - ('A' as u32) + 10) as nat
    }
}

/// Lowercase hexadecimal digit for `d < 16`.
pub open spec fn hex_char(d: nat) -> char {
    if d < 10 {
        (('0' as u32) + d) as char
    } else {
        (('a' as u32) + d - 10) as char
    }
}

pub open spec fn mac_pair(s: Seq<char>, i: int) -> nat {
    hex_val(s[i]) * 16 + hex_val(s[i + 1])
}

/// `xx:xx:xx:xx:xx:xx` with hexadecimal digits of either case.
pub open spec fn mac_syntax(s: Seq<char>) -> bool {
    &&& s.len() == 17
    &&& is_ascii_hexdigit(s[0]) && is_ascii_hexdigit(s[1]) && s[2] == ':'
    &&& is_ascii_hexdigit(s[3]) && is_ascii_hexdigit(s[4]) && s[5] == ':'
    &&& is_ascii_hexdigit(s[6]) && is_ascii_hexdigit(s[7]) && s[8] == ':'
    &&& is_ascii_hexdigit(s[9]) && is_ascii_hexdigit(s[10]) && s[11] == ':'
    &&& is_ascii_hexdigit(s[12]) && is_ascii_hexdigit(s[13]) && s[14] == ':'
    &&& is_ascii_hexdigit(s[15]) && is_ascii_hexdigit(s[16])
}

/// The 48-bit value written in a MAC address text.
pub open spec fn mac_value(s: Seq<char>) -> nat {
    mac_pair(s, 0) * 0x100_0000_0000 + mac_pair(s, 3) * 0x1_0000_0000 + mac_pair(s, 6)
        * 0x100_0000 + mac_pair(s, 9) * 0x1_0000 + mac_pair(s, 12) * 0x100 + mac_pair(s, 15)
}

/// A MAC address names one device: the group bit of the first octet is clear (so neither
/// multicast nor broadcast) and the address is not all zeros.
#[verifier::opaque]
pub open spec fn parse_mac(s: Seq<char>) -> Option<u64> {
    if mac_syntax(s) && mac_pair(s, 0) % 2 == 0 && mac_value(s) != 0 {
        Some(mac_value(s) as u64)
    } else {
        None
    }
}

pub open spec fn mac_octet(v: u64, k: int) -> nat {
    ((v as nat) / pow256(5 - k)) % 256
}

pub open spec fn pow256(k: int) -> nat
    decreases k,
{
    if k <= 0 {
        1
    } else {
        256 * pow256(k - 1)
    }
}

/// The text of a MAC address: lowercase hexadecimal octets separated by colons.
pub open spec fn mac_text(v: u64) -> Seq<char> {
    Seq::new(
        17,
        |i: int|
            if i % 3 == 2 {
                ':'
            } else if i % 3 == 0 {
                hex_char(mac_octet(v, i / 3) / 16)
            } else {
                hex_char(mac_octet(v, i / 3) % 16)
            },
    )
}

/// A hexadecimal digit written by `hex_char` reads back as itself.
proof fn lemma_hex_char(d: nat)
    requires
        d < 16,
    ensures
        is_ascii_hexdigit(hex_char(d)),
        hex_val(hex_char(d)) == d,
{
}

/// The six octets of a 48-bit value put back together give the value.
proof fn lemma_octets(v: u64)
    requires
        v < 0x1_0000_0000_0000,
    ensures
        v == mac_octet(v, 0) * 0x100_0000_0000 + mac_octet(v, 1) * 0x1_0000_0000 + mac_octet(v, 2)
            * 0x100_0000 + mac_octet(v, 3) * 0x1_0000 + mac_octet(v, 4) * 0x100 + mac_octet(v, 5),
{
    reveal_with_fuel(pow256, 6);
    assert(v == ((v / 0x100_0000_0000) % 256) * 0x100_0000_0000 + ((v / 0x1_0000_0000) % 256)
        * 0x1_0000_0000 + ((v / 0x100_0000) % 256) * 0x100_0000 + ((v / 0x1_0000) % 256) * 0x1_0000
        + ((v / 0x100) % 256) * 0x100 + ((v / 1) % 256)) by (bit_vector)
        requires
            v < 0x1_0000_0000_0000,
    ;
}

/// What a MAC address's text says, octet by octet.
proof fn lemma_mac_text_pairs(v: u64)
    ensures
        mac_syntax(mac_text(v)),
        forall|k: int| 0 <= k < 6 ==> #[trigger] mac_pair(mac_text(v), 3 * k) == mac_octet(v, k),
{
    let t = mac_text(v);
    assert forall|k: int| 0 <= k < 6 implies is_ascii_hexdigit(#[trigger] t[3 * k]) && is_ascii_hexdigit(
        t[3 * k + 1],
    ) && mac_pair(t, 3 * k) == mac_octet(v, k) by {
        let o = mac_octet(v, k);
        assert((3 * k) % 3 == 0 && (3 * k) / 3 == k && (3 * k + 1) % 3 == 1 && (3 * k + 1) / 3 == k);
        lemma_hex_char(o / 16);
        lemma_hex_char(o % 16);
    }
    assert(is_ascii_hexdigit(t[3 * 0int]) && is_ascii_hexdigit(t[3 * 0int + 1]));
    assert(is_ascii_hexdigit(t[3 * 1int]) && is_ascii_hexdigit(t[3 * 1int + 1]));
    assert(is_ascii_hexdigit(t[3 * 2int]) && is_ascii_hexdigit(t[3 * 2int + 1]));
    assert(is_ascii_hexdigit(t[3 * 3int]) && is_ascii_hexdigit(t[3 * 3int + 1]));
    assert(is_ascii_hexdigit(t[3 * 4int]) && is_ascii_hexdigit(t[3 * 4int + 1]));
    assert(is_ascii_hexdigit(t[3 * 5int]) && is_ascii_hexdigit(t[3 * 5int + 1]));
}

/// The text of a 48-bit value is a MAC address text with that value.
proof fn lemma_mac_value_of_text(v: u64)
    requires
        v < 0x1_0000_0000_0000,
    ensures
        mac_syntax(mac_text(v)),
        mac_value(mac_text(v)) == v,
{
    lemma_octets(v);
    lemma_mac_text_pairs(v);
    let t = mac_text(v);
    assert(mac_pair(t, 3 * 0int) == mac_octet(v, 0));
    assert(mac_pair(t, 3 * 1int) == mac_octet(v, 1));
    assert(mac_pair(t, 3 * 2int) == mac_octet(v, 2));
    assert(mac_pair(t, 3 * 3int) == mac_octet(v, 3));
    assert(mac_pair(t, 3 * 4int) == mac_octet(v, 4));
    assert(mac_pair(t, 3 * 5int) == mac_octet(v, 5));
}

proof fn lemma_top_octet(p0: nat, rest: nat)
    requires
        p0 < 256,
        rest < 0x100_0000_0000,
    ensures
        ((p0 * 0x100_0000_0000 + rest) / 0x100_0000_0000) % 256 == p0,
{
    assert((p0 * 0x100_0000_0000 + rest) / 0x100_0000_0000 == p0) by (nonlinear_arith)
        requires
            rest < 0x100_0000_0000,
    ;
}

/// A MAC address printed and read back is the same address: every address that was read
/// from some text reads back from its own lowercase text.
pub proof fn lemma_mac_round_trip(s: Seq<char>)
    requires
        parse_mac(s) is Some,
    ensures
        parse_mac(mac_text(parse_mac(s).unwrap())) == parse_mac(s),
{
    reveal(parse_mac);
    let v = parse_mac(s).unwrap();
    let rest = mac_pair(s, 3) * 0x1_0000_0000 + mac_pair(s, 6) * 0x100_0000 + mac_pair(s, 9)
        * 0x1_0000 + mac_pair(s, 12) * 0x100 + mac_pair(s, 15);
    assert(mac_pair(s, 0) < 256 && mac_pair(s, 3) < 256 && mac_pair(s, 6) < 256 && mac_pair(s, 9)
        < 256 && mac_pair(s, 12) < 256 && mac_pair(s, 15) < 256);
    assert(rest < 0x100_0000_0000);
    assert(v == mac_pair(s, 0) * 0x100_0000_0000 + rest);
    lemma_mac_value_of_text(v);
    lemma_top_octet(mac_pair(s, 0), rest);
    lemma_mac_text_pairs(v);
    assert(mac_pair(mac_text(v), 3 * 0int) == mac_octet(v, 0));
    assert(mac_octet(v, 0) == (v as nat / 0x100_0000_0000) % 256) by {
        reveal_with_fuel(pow256, 6);
    }
}

/// MAC address of one device.
#[derive(Clone, Copy, Debug, PartialEq, Eq, Structural, Hash, PartialOrd, Ord)]
pub struct Mac {
    pub bits: u64,
}

/// Why an argument of the root helper was refused.
#[derive(Clone, Copy, Debug, PartialEq, Eq, Structural)]
pub enum ArgError {
    BadMac,
    BadIface,
    BadCountry,
    BadDns,
    DuplicateDns,
    TooManyDns,
    NoDns,
}

impl ArgError {
    pub open spec fn spec_text(self) -> Seq<char> {
        match self {
            ArgError::BadMac => "bad MAC address"@,
            ArgError::BadIface => "bad interface name"@,
            ArgError::BadCountry => "bad country code"@,
            ArgError::BadDns => "bad DNS server address"@,
            ArgError::DuplicateDns => "repeated DNS server"@,
            ArgError::TooManyDns => "too many DNS servers"@,
            ArgError::NoDns => "no DNS server"@,
        }
    }

    /// The reason in words.
    pub fn text(&self) -> (r: &'static str)
        ensures
            r@ == self.spec_text(),
    {
        match self {
            ArgError::BadMac => "bad MAC address",
            ArgError::BadIface => "bad interface name",
            ArgError::BadCountry => "bad country code",
            ArgError::BadDns => "bad DNS server address",
            ArgError::DuplicateDns => "repeated DNS server",
            ArgError::TooManyDns => "too many DNS servers",
            ArgError::NoDns => "no DNS server",
        }
    }
}

fn hex_val_exec(c: char) -> (r: Option<u64>)
    ensures
        r.is_some() == is_ascii_hexdigit(c),
        r.is_some() ==> r.unwrap() == hex_val(c),
{
    if '0' <= c && c <= '9' {
        Some(((c as u32) - ('0' as u32)) as u64)
    } else if 'a' <= c && c <= 'f' {
        Some(((c as u32) - ('a' as u32) + 10) as u64)
    } else if 'A' <= c && c <= 'F' {
        Some(((c as u32) - ('A' as u32) + 10) as u64)
    } else {
        None
    }
}

fn pair_exec(s: &[char], i: usize) -> (r: Option<u64>)
    requires
        i + 1 < s.len(),
    ensures
        r.is_some() == (is_ascii_hexdigit(s@[i as int]) && is_ascii_hexdigit(s@[i + 1])),
        r.is_some() ==> r.unwrap() == mac_pair(s@, i as int),
        r.is_some() ==> r.unwrap() < 256,
{
    let hi = match hex_val_exec(s[i]) {
        Some(v) => v,
        None => return None,
    };
    let lo = match hex_val_exec(s[i + 1]) {
        Some(v) => v,
        None => return None,
    };
    Some(hi * 16 + lo)
}

fn hex_char_exec(d: u64) -> (c: char)
    requires
        d < 16,
    ensures
        c == hex_char(d as nat),
{
    if d < 10 {
        ((48u8 + d as u8) as char)
    } else {
        ((97u8 + (d - 10) as u8) as char)
    }
}

impl Mac {
    /// Reads a MAC address (`aa:bb:cc:dd:ee:ff`, digits of either case).
    pub fn parse_chars(s: &[char]) -> (r: Result<Mac, ArgError>)
        ensures
            r.is_ok() == parse_mac(s@).is_some(),
            r.is_ok() ==> r.unwrap().bits == parse_mac(s@).unwrap(),
            r.is_err() ==> r == Err::<Mac, ArgError>(ArgError::BadMac),
    {
        reveal(parse_mac);
        if s.len() != 17 || s[2] != ':' || s[5] != ':' || s[8] != ':' || s[11] != ':' || s[14]
            != ':' {
            return Err(ArgError::BadMac);
        }
        let o0 = match pair_exec(s, 0) {
            Some(v) => v,
            None => return Err(ArgError::BadMac),
        };
        let o1 = match pair_exec(s, 3) {
            Some(v) => v,
            None => return Err(ArgError::BadMac),
        };
        let o2 = match pair_exec(s, 6) {
            Some(v) => v,
            None => return Err(ArgError::BadMac),
        };
        let o3 = match pair_exec(s, 9) {
            Some(v) => v,
            None => return Err(ArgError::BadMac),
        };
        let o4 = match pair_exec(s, 12) {
            Some(v) => v,
            None => return Err(ArgError::BadMac),
        };
        let o5 = match pair_exec(s, 15) {
            Some(v) => v,
            None => return Err(ArgError::BadMac),
        };
        let v: u64 = o0 * 0x100_0000_0000 + o1 * 0x1_0000_0000 + o2 * 0x100_0000 + o3 * 0x1_0000
            + o4 * 0x100 + o5;
        if o0 % 2 == 1 || v == 0 {
            return Err(ArgError::BadMac);
        }
        Ok(Mac { bits: v })
    }

    /// Reads a MAC address from a string.
    pub fn parse(s: &str) -> (r: Result<Mac, ArgError>)
        ensures
            r.is_ok() == parse_mac(s@).is_some(),
            r.is_ok() ==> r.unwrap().bits == parse_mac(s@).unwrap(),
            r.is_err() ==> r == Err::<Mac, ArgError>(ArgError::BadMac),
    {
        let cs = str_chars(s);
        Mac::parse_chars(cs.as_slice())
    }

    /// The address as lowercase text.
    #[verifier::spinoff_prover]
    pub fn text_chars(&self) -> (out: Vec<char>)
        ensures
            out@ == mac_text(self.bits),
    {
        let v = self.bits;
        let mut out: Vec<char> = Vec::new();
        let divs: [u64; 6] = [0x100_0000_0000, 0x1_0000_0000, 0x100_0000, 0x1_0000, 0x100, 1];
        let mut k: usize = 0;
        while k < 6
            invariant
                k <= 6,
                divs@ == seq![0x100_0000_0000u64, 0x1_0000_0000u64, 0x100_0000u64, 0x1_0000u64, 0x100u64, 1u64],
                out@.len() == if k == 0 { 0 } else { 3 * k - 1 },
                forall|j: int| 0 <= j < k ==> #[trigger] out@[3 * j] == hex_char(mac_octet(v, j) / 16)
                    && out@[3 * j + 1] == hex_char(mac_octet(v, j) % 16),
                forall|j: int| 0 <= j < k - 1 ==> #[trigger] out@[3 * j + 2] == ':',
            decreases 6 - k,
        {
            assert(divs@[k as int] == pow256(5 - k as int)) by {
                reveal_with_fuel(pow256, 6);
            }
            let o = (v / divs[k]) % 256;
            if k > 0 {
                out.push(':');
            }
            out.push(hex_char_exec(o / 16));
            out.push(hex_char_exec(o % 16));
            k = k + 1;
        }
        assert forall|i: int| 0 <= i < 17 implies out@[i] == mac_text(v)[i] by {
            let j = i / 3;
            assert(i == 3 * j + i % 3 && 0 <= j < 6) by (nonlinear_arith)
                requires
                    j == i / 3,
                    0 <= i < 17,
            ;
            if i % 3 == 0 {
                assert(out@[3 * j] == hex_char(mac_octet(v, j) / 16));
            } else if i % 3 == 1 {
                assert(out@[3 * j] == hex_char(mac_octet(v, j) / 16));
                assert(out@[3 * j + 1] == hex_char(mac_octet(v, j) % 16));
            } else {
                assert(out@[3 * j + 2] == ':');
            }
        }
        assert(out@ =~= mac_text(v));
        out
    }

    /// The address as lowercase text (`aa:bb:cc:dd:ee:ff`).
    pub fn as_str(&self) -> (out: String)
        ensures
            out@ == mac_text(self.bits),
    {
        let v = self.text_chars();
        chars_to_string(v.as_slice())
    }
}


// ---------------------------------------------------------------------------------------
// Interface names
// ---------------------------------------------------------------------------------------
pub open spec fn iface_char(c: char) -> bool {
    is_ascii_lower(c) || is_ascii_upper(c) || is_ascii_digit(c) || c == '-' || c == '_' || c == '.'
}

/// A network interface name the helper accepts: 1 to 15 characters (the kernel's limit),
/// only letters, digits, `-`, `_` and `.`, and neither `.` nor `..`.
pub open spec fn iface_ok(s: Seq<char>) -> bool {
    &&& 1 <= s.len() <= 15
    &&& forall|i: int| 0 <= i < s.len() ==> iface_char(#[trigger] s[i])
    &&& s != seq!['.']
    &&& s != seq!['.', '.']
}

fn iface_char_exec(c: char) -> (b: bool)
    ensures
        b == iface_char(c),
{
    ('a' <= c && c <= 'z') || ('A' <= c && c <= 'Z') || ('0' <= c && c <= '9') || c == '-' || c
        == '_' || c == '.'
}

/// A checked network interface name.
#[derive(Clone, Debug)]
pub struct Iface {
    name: String,
}

impl View for Iface {
    type V = Seq<char>;

    closed spec fn view(&self) -> Seq<char> {
        self.name@
    }
}

impl Iface {
    pub fn parse_chars(s: &[char]) -> (r: Result<Iface, ArgError>)
        ensures
            r.is_ok() == iface_ok(s@),
            r.is_ok() ==> r.unwrap()@ == s@,
            r.is_err() ==> r == Err::<Iface, ArgError>(ArgError::BadIface),
    {
        if s.len() < 1 || s.len() > 15 {
            return Err(ArgError::BadIface);
        }
        let mut i: usize = 0;
        while i < s.len()
            invariant
                i <= s.len(),
                forall|k: int| 0 <= k < i ==> iface_char(#[trigger] s@[k]),
            decreases s.len() - i,
        {
            if !iface_char_exec(s[i]) {
                assert(!iface_char(s@[i as int]));
                return Err(ArgError::BadIface);
            }
            i = i + 1;
        }
        if s.len() == 1 && s[0] == '.' {
            assert(s@ =~= seq!['.']);
            return Err(ArgError::BadIface);
        }
        if s.len() == 2 && s[0] == '.' && s[1] == '.' {
            assert(s@ =~= seq!['.', '.']);
            return Err(ArgError::BadIface);
        }
        assert(s@ != seq!['.'] && s@ != seq!['.', '.']) by {
            if s@ == seq!['.'] {
                assert(s@[0] == '.');
            }
            if s@ == seq!['.', '.'] {
                assert(s@[0] == '.' && s@[1] == '.');
            }
        }
        Ok(Iface { name: chars_to_string(s) })
    }

    /// Checks an interface name.
    pub fn parse(s: &str) -> (r: Result<Iface, ArgError>)
        ensures
            r.is_ok() == iface_ok(s@),
            r.is_ok() ==> r.unwrap()@ == s@,
            r.is_err() ==> r == Err::<Iface, ArgError>(ArgError::BadIface),
    {
        let cs = str_chars(s);
        Iface::parse_chars(cs.as_slice())
    }

    pub fn as_str(&self) -> (r: &str)
        ensures
            r@ == self@,
    {
        self.name.as_str()
    }

    /// A copy of the name.
    pub fn duplicate(&self) -> (r: Iface)
        ensures
            r == *self,
    {
        Iface { name: self.name.clone() }
    }
}

// ---------------------------------------------------------------------------------------
// Country codes
// ---------------------------------------------------------------------------------------
pub open spec fn upper(c: char) -> char {
    if is_ascii_lower(c) {
        ((c as u32) - 32) as char
    } else {
        c
    }
}

/// A two-letter country code (either case), kept in upper case.
pub open spec fn parse_country(s: Seq<char>) -> Option<Seq<char>> {
    if s.len() == 2 && (is_ascii_lower(s[0]) || is_ascii_upper(s[0])) && (is_ascii_lower(s[1])
        || is_ascii_upper(s[1])) {
        Some(seq![upper(s[0]), upper(s[1])])
    } else {
        None
    }
}

fn upper_exec(c: char) -> (r: char)
    ensures
        r == upper(c),
{
    if 'a' <= c && c <= 'z' {
        (((c as u32) - 32) as u8) as char
    } else {
        c
    }
}

/// A checked Wi-Fi country code.
#[derive(Clone, Debug)]
pub struct CountryCode {
    code: String,
}

impl View for CountryCode {
    type V = Seq<char>;

    closed spec fn view(&self) -> Seq<char> {
        self.code@
    }
}

impl CountryCode {
    pub fn parse(s: &str) -> (r: Result<CountryCode, ArgError>)
        ensures
            r.is_ok() == parse_country(s@).is_some(),
            r.is_ok() ==> r.unwrap()@ == parse_country(s@).unwrap(),
            r.is_err() ==> r == Err::<CountryCode, ArgError>(ArgError::BadCountry),
    {
        let cs = str_chars(s);
        if cs.len() != 2 {
            return Err(ArgError::BadCountry);
        }
        let a = cs[0];
        let b = cs[1];
        if !(('a' <= a && a <= 'z') || ('A' <= a && a <= 'Z')) || !(('a' <= b && b <= 'z') || (
        'A' <= b && b <= 'Z')) {
            return Err(ArgError::BadCountry);
        }
        let mut v: Vec<char> = Vec::new();
        v.push(upper_exec(a));
        v.push(upper_exec(b));
        assert(v@ =~= parse_country(s@).unwrap());
        Ok(CountryCode { code: chars_to_string(v.as_slice()) })
    }

    pub fn as_str(&self) -> (r: &str)
        ensures
            r@ == self@,
    {
        self.code.as_str()
    }
}

// ---------------------------------------------------------------------------------------
// DNS servers
// ---------------------------------------------------------------------------------------
/// A DNS server for guests.
#[derive(Clone, Copy, Debug, PartialEq, Eq, Structural)]
pub enum DnsServer {
    V4(Ipv4Addr),
    V6(u128),
}

/// The address can serve guests: not unspecified, not loopback, not multicast and not the
/// IPv4 broadcast address.
pub open spec fn dns_allowed(d: DnsServer) -> bool {
    match d {
        DnsServer::V4(a) => a.bits != 0 && a.bits / 0x100_0000 != 127 && !(224 <= a.bits
            / 0x100_0000 <= 239) && a.bits != 0xffff_ffff,
        DnsServer::V6(v) => v != 0 && v != 1 && v / 0x0100_0000_0000_0000_0000_0000_0000_0000
            != 0xff,
    }
}

/// `IpAddr::from_str`: an IPv4 address, otherwise an IPv6 one.
pub open spec fn parse_ip(s: Seq<char>) -> Option<DnsServer> {
    match parse_ipv4(s) {
        Some(b) => Some(DnsServer::V4(Ipv4Addr { bits: b })),
        None => match parse_ipv6(s) {
            Some(v) => Some(DnsServer::V6(v)),
            None => None,
        },
    }
}

pub open spec fn parse_dns(s: Seq<char>) -> Option<DnsServer> {
    match parse_ip(s) {
        Some(d) => if dns_allowed(d) {
            Some(d)
        } else {
            None
        },
        None => None,
    }
}

fn dns_allowed_exec(d: DnsServer) -> (b: bool)
    ensures
        b == dns_allowed(d),
{
    match d {
        DnsServer::V4(a) => a.bits != 0 && a.bits / 0x100_0000 != 127 && !(224 <= a.bits
            / 0x100_0000 && a.bits / 0x100_0000 <= 239) && a.bits != 0xffff_ffff,
        DnsServer::V6(v) => v != 0 && v != 1 && v / 0x0100_0000_0000_0000_0000_0000_0000_0000
            != 0xff,
    }
}

impl DnsServer {
    pub fn parse(s: &str) -> (r: Result<DnsServer, ArgError>)
        ensures
            r.is_ok() == parse_dns(s@).is_some(),
            r.is_ok() ==> r.unwrap() == parse_dns(s@).unwrap(),
            r.is_err() ==> r == Err::<DnsServer, ArgError>(ArgError::BadDns),
    {
        let cs = str_chars(s);
        let ip = match Ipv4Addr::parse(cs.as_slice()) {
            Some(a) => DnsServer::V4(a),
            None => match parse_ipv6_exec(cs.as_slice()) {
                Some(v) => DnsServer::V6(v),
                None => return Err(ArgError::BadDns),
            },
        };
        if dns_allowed_exec(ip) {
            Ok(ip)
        } else {
            Err(ArgError::BadDns)
        }
    }

    /// An IPv4 address written inside IPv6 (`::ffff:a.b.c.d`).
    pub open spec fn spec_is_v4_mapped(self) -> bool {
        match self {
            DnsServer::V4(_) => false,
            DnsServer::V6(v) => v / 0x1_0000_0000 == 0xffff,
        }
    }

    pub fn is_v4_mapped(&self) -> (b: bool)
        ensures
            b == self.spec_is_v4_mapped(),
    {
        match self {
            DnsServer::V4(_) => false,
            DnsServer::V6(v) => *v / 0x1_0000_0000 == 0xffff,
        }
    }
}

/// A list of DNS servers the helper accepts: one to four, none twice.
pub open spec fn dns_list_ok(s: Seq<DnsServer>) -> bool {
    &&& 1 <= s.len() <= MAX_DNS
    &&& forall|i: int, j: int| 0 <= i < j < s.len() ==> s[i] != s[j]
}

/// Checks a DNS list for the helper.
pub fn check_dns_list(s: &[DnsServer]) -> (r: Result<(), ArgError>)
    ensures
        r.is_ok() == dns_list_ok(s@),
        r.is_err() ==> (r == Err::<(), ArgError>(ArgError::NoDns) && s@.len() == 0) || (r == Err::<
            (),
            ArgError,
        >(ArgError::TooManyDns) && s@.len() > MAX_DNS) || (r == Err::<(), ArgError>(
            ArgError::DuplicateDns,
        ) && 1 <= s@.len() <= MAX_DNS),
{
    if s.len() == 0 {
        return Err(ArgError::NoDns);
    }
    if s.len() > MAX_DNS {
        return Err(ArgError::TooManyDns);
    }
    let mut i: usize = 0;
    while i < s.len()
        invariant
            1 <= s.len() <= MAX_DNS,
            i <= s.len(),
            forall|a: int, b: int| 0 <= a < b < s@.len() && a < i ==> s@[a] != s@[b],
        decreases s.len() - i,
    {
        let mut j: usize = i + 1;
        while j < s.len()
            invariant
                1 <= s.len() <= MAX_DNS,
                i < s.len(),
                i + 1 <= j <= s.len(),
                forall|a: int, b: int| 0 <= a < b < s@.len() && a < i ==> s@[a] != s@[b],
                forall|b: int| i < b < j ==> s@[i as int] != s@[b],
            decreases s.len() - j,
        {
            if s[i] == s[j] {
                return Err(ArgError::DuplicateDns);
            }
            j = j + 1;
        }
        i = i + 1;
    }
    Ok(())
}

// ---------------------------------------------------------------------------------------
// Requests to the root helper
// ---------------------------------------------------------------------------------------
/// One action of the root helper.
#[derive(Clone, Debug)]
pub enum HelperRequest {
    /// Firewall rules for a running hotspot.
    FwApply {
        ap: Iface,
        uplink: Iface,
        approval: bool,
        guests_reach_pc: bool,
        allow: Vec<Mac>,
        block: Vec<Mac>,
    },
    FwClear,
    FwAllowAdd { mac: Mac },
    FwAllowRemove { mac: Mac },
    FwBlock { mac: Mac },
    FwUnblock { mac: Mac },
    StationKick { ap: Iface, mac: Mac },
    RegdomSet { country: CountryCode },
    DnsSet { servers: Vec<DnsServer> },
    DnsClear,
    LeasesRead { ap: Iface },
}

impl HelperRequest {
    pub open spec fn spec_name(&self) -> Seq<char> {
        match self {
            HelperRequest::FwApply { .. } => "fw-apply"@,
            HelperRequest::FwClear => "fw-clear"@,
            HelperRequest::FwAllowAdd { .. } => "fw-allow-add"@,
            HelperRequest::FwAllowRemove { .. } => "fw-allow-remove"@,
            HelperRequest::FwBlock { .. } => "fw-block"@,
            HelperRequest::FwUnblock { .. } => "fw-unblock"@,
            HelperRequest::StationKick { .. } => "station-kick"@,
            HelperRequest::RegdomSet { .. } => "regdom-set"@,
            HelperRequest::DnsSet { .. } => "dns-set"@,
            HelperRequest::DnsClear => "dns-clear"@,
            HelperRequest::LeasesRead { .. } => "leases-read"@,
        }
    }

    /// The action's name on the helper's command line.
    pub fn name(&self) -> (r: &'static str)
        ensures
            r@ == self.spec_name(),
    {
        match self {
            HelperRequest::FwApply { .. } => "fw-apply",
            HelperRequest::FwClear => "fw-clear",
            HelperRequest::FwAllowAdd { .. } => "fw-allow-add",
            HelperRequest::FwAllowRemove { .. } => "fw-allow-remove",
            HelperRequest::FwBlock { .. } => "fw-block",
            HelperRequest::FwUnblock { .. } => "fw-unblock",
            HelperRequest::StationKick { .. } => "station-kick",
            HelperRequest::RegdomSet { .. } => "regdom-set",
            HelperRequest::DnsSet { .. } => "dns-set",
            HelperRequest::DnsClear => "dns-clear",
            HelperRequest::LeasesRead { .. } => "leases-read",
        }
    }
}

// ---------------------------------------------------------------------------------------
// The helper's command line
// ---------------------------------------------------------------------------------------
/// Lowercase hexadecimal text of `n` without leading zeros.
pub open spec fn hex_text(n: nat) -> Seq<char>
    decreases n,
{
    if n < 16 {
        seq![hex_char(n)]
    } else {
        hex_text(n / 16).push(hex_char(n % 16))
    }
}

/// The `k`-th 16-bit group of an IPv6 address, from the left.
pub open spec fn v6_group(v: u128, k: nat) -> nat {
    ((v as nat) / pow2_16((7 - k) as nat)) % 0x1_0000
}

/// The groups from `k` on, separated by colons.
pub open spec fn v6_groups_text(v: u128, k: nat) -> Seq<char>
    decreases 8 - k,
{
    if k >= 7 {
        hex_text(v6_group(v, 7))
    } else {
        hex_text(v6_group(v, k)) + seq![':'] + v6_groups_text(v, k + 1)
    }
}

/// An IPv6 address as eight groups of hexadecimal digits, unshortened.
pub open spec fn ipv6_text(v: u128) -> Seq<char> {
    v6_groups_text(v, 0)
}

pub open spec fn dns_text(d: DnsServer) -> Seq<char> {
    match d {
        DnsServer::V4(a) => ipv4_text(a.bits),
        DnsServer::V6(v) => ipv6_text(v),
    }
}

fn hex_text_exec(n: u64) -> (out: Vec<char>)
    ensures
        out@ == hex_text(n as nat),
    decreases n,
{
    if n < 16 {
        let mut v: Vec<char> = Vec::new();
        v.push(hex_char_exec(n));
        assert(v@ =~= seq![hex_char(n as nat)]);
        v
    } else {
        let mut v = hex_text_exec(n / 16);
        v.push(hex_char_exec(n % 16));
        v
    }
}

fn v6_text_exec(v: u128) -> (out: Vec<char>)
    ensures
        out@ == ipv6_text(v),
{
    let divs: [u128; 8] = [
        0x1_0000_0000_0000_0000_0000_0000_0000,
        0x1_0000_0000_0000_0000_0000_0000,
        0x1_0000_0000_0000_0000_0000,
        0x1_0000_0000_0000_0000,
        0x1_0000_0000_0000,
        0x1_0000_0000,
        0x1_0000,
        1,
    ];
    assert(divs@[0] == pow2_16(7) && divs@[1] == pow2_16(6) && divs@[2] == pow2_16(5) && divs@[3]
        == pow2_16(4) && divs@[4] == pow2_16(3) && divs@[5] == pow2_16(2) && divs@[6] == pow2_16(1)
        && divs@[7] == pow2_16(0)) by {
        reveal_with_fuel(pow2_16, 8);
    }
    let mut out: Vec<char> = Vec::new();
    let mut k: usize = 8;
    while k > 0
        invariant
            k <= 8,
            forall|j: int| 0 <= j < 8 ==> divs@[j] == pow2_16((7 - j) as nat),
            forall|j: int| 0 <= j < 8 ==> divs@[j] > 0,
            k < 8 ==> out@ == v6_groups_text(v, k as nat),
            k == 8 ==> out@.len() == 0,
        decreases k,
    {
        k = k - 1;
        let g = (v / divs[k]) % 0x1_0000;
        assert(g == v6_group(v, k as nat));
        let mut t = hex_text_exec(g as u64);
        if k < 7 {
            t.push(':');
            t.append(&mut out);
        }
        out = t;
    }
    out
}

impl DnsServer {
    /// The address as the helper reads it (see `dns_text`).
    pub fn text(&self) -> (r: String)
        ensures
            r@ == dns_text(*self),
    {
        match self {
            DnsServer::V4(a) => a.to_string(),
            DnsServer::V6(v) => chars_to_string(v6_text_exec(*v).as_slice()),
        }
    }
}

pub open spec fn mac_texts(v: Seq<Mac>, flag: Seq<char>) -> Seq<Seq<char>>
    decreases v.len(),
{
    if v.len() == 0 {
        seq![]
    } else {
        mac_texts(v.drop_last(), flag).push(flag).push(mac_text(v.last().bits))
    }
}

pub open spec fn dns_texts(v: Seq<DnsServer>) -> Seq<Seq<char>>
    decreases v.len(),
{
    if v.len() == 0 {
        seq![]
    } else {
        dns_texts(v.drop_last()).push(dns_text(v.last()))
    }
}

/// The helper's arguments: the action's name, then its values. Interfaces follow `--ap` and
/// `--uplink`, switches are `yes` or `no`, and each allowed or blocked MAC follows its own
/// `--allow` or `--block`.
pub open spec fn request_args(r: HelperRequest) -> Seq<Seq<char>> {
    let name = r.spec_name();
    match r {
        HelperRequest::FwApply { ap, uplink, approval, guests_reach_pc, allow, block } => seq![
            name,
            "--ap"@,
            ap@,
            "--uplink"@,
            uplink@,
            "--approval"@,
            crate::backend::yes_no(approval),
            "--guests-reach-pc"@,
            crate::backend::yes_no(guests_reach_pc),
        ] + mac_texts(allow@, "--allow"@) + mac_texts(block@, "--block"@),
        HelperRequest::FwAllowAdd { mac } => seq![name, mac_text(mac.bits)],
        HelperRequest::FwAllowRemove { mac } => seq![name, mac_text(mac.bits)],
        HelperRequest::FwBlock { mac } => seq![name, mac_text(mac.bits)],
        HelperRequest::FwUnblock { mac } => seq![name, mac_text(mac.bits)],
        HelperRequest::StationKick { ap, mac } => seq![name, ap@, mac_text(mac.bits)],
        HelperRequest::RegdomSet { country } => seq![name, country@],
        HelperRequest::DnsSet { servers } => seq![name] + dns_texts(servers@),
        HelperRequest::LeasesRead { ap } => seq![name, ap@],
        _ => seq![name],
    }
}

fn push_owned(v: &mut Vec<String>, s: String)
    ensures
        strs(final(v)@) == strs(old(v)@).push(s@),
{
    let ghost before = strs(v@);
    v.push(s);
    assert(strs(v@) =~= before.push(s@));
}

fn push_macs(v: &mut Vec<String>, macs: &Vec<Mac>, flag: &str)
    ensures
        strs(final(v)@) == strs(old(v)@) + mac_texts(macs@, flag@),
{
    let ghost start = strs(v@);
    let mut i: usize = 0;
    while i < macs.len()
        invariant
            i <= macs@.len(),
            strs(v@) == start + mac_texts(macs@.take(i as int), flag@),
        decreases macs.len() - i,
    {
        assert(macs@.take(i + 1).drop_last() =~= macs@.take(i as int));
        push_owned(v, flag.to_string());
        push_owned(v, macs[i].as_str());
        proof {
            assert(start + mac_texts(macs@.take(i as int), flag@).push(flag@).push(
                mac_text(macs@[i as int].bits),
            ) =~= start + mac_texts(macs@.take(i + 1), flag@));
        }
        i = i + 1;
    }
    assert(macs@.take(macs@.len() as int) =~= macs@);
}

fn yes_no_str(b: bool) -> (r: String)
    ensures
        r@ == crate::backend::yes_no(b),
{
    if b {
        "yes".to_string()
    } else {
        "no".to_string()
    }
}

impl HelperRequest {
    /// The helper's command line for the request (see `request_args`).
    #[verifier::spinoff_prover]
    pub fn to_args(&self) -> (out: Vec<String>)
        ensures
            strs(out@) == request_args(*self),
    {
        let mut a: Vec<String> = Vec::new();
        push_owned(&mut a, self.name().to_string());
        match self {
            HelperRequest::FwApply { ap, uplink, approval, guests_reach_pc, allow, block } => {
                push_owned(&mut a, "--ap".to_string());
                push_owned(&mut a, ap.as_str().to_string());
                push_owned(&mut a, "--uplink".to_string());
                push_owned(&mut a, uplink.as_str().to_string());
                push_owned(&mut a, "--approval".to_string());
                push_owned(&mut a, yes_no_str(*approval));
                push_owned(&mut a, "--guests-reach-pc".to_string());
                push_owned(&mut a, yes_no_str(*guests_reach_pc));
                let ghost head = strs(a@);
                push_macs(&mut a, allow, "--allow");
                push_macs(&mut a, block, "--block");
                assert(strs(a@) =~= request_args(*self));
            },
            HelperRequest::FwAllowAdd { mac }
            | HelperRequest::FwAllowRemove { mac }
            | HelperRequest::FwBlock { mac }
            | HelperRequest::FwUnblock { mac } => {
                push_owned(&mut a, mac.as_str());
                assert(strs(a@) =~= request_args(*self));
            },
            HelperRequest::StationKick { ap, mac } => {
                push_owned(&mut a, ap.as_str().to_string());
                push_owned(&mut a, mac.as_str());
                assert(strs(a@) =~= request_args(*self));
            },
            HelperRequest::RegdomSet { country } => {
                push_owned(&mut a, country.as_str().to_string());
                assert(strs(a@) =~= request_args(*self));
            },
            HelperRequest::DnsSet { servers } => {
                let ghost start = strs(a@);
                let mut i: usize = 0;
                while i < servers.len()
                    invariant
                        i <= servers@.len(),
                        strs(a@) == start + dns_texts(servers@.take(i as int)),
                    decreases servers.len() - i,
                {
                    assert(servers@.take(i + 1).drop_last() =~= servers@.take(i as int));
                    push_owned(&mut a, servers[i].text());
                    proof {
                        assert(start + dns_texts(servers@.take(i as int)).push(
                            dns_text(servers@[i as int]),
                        ) =~= start + dns_texts(servers@.take(i + 1)));
                    }
                    i = i + 1;
                }
                assert(servers@.take(servers@.len() as int) =~= servers@);
                assert(strs(a@) =~= request_args(*self));
            },
            HelperRequest::LeasesRead { ap } => {
                push_owned(&mut a, ap.as_str().to_string());
                assert(strs(a@) =~= request_args(*self));
            },
            _ => {
                assert(strs(a@) =~= request_args(*self));
            },
        }
        a
    }
}

} // verus!
