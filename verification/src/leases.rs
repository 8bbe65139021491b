//! The dnsmasq lease file (`/var/lib/NetworkManager/dnsmasq-<ap>.leases`), as the root helper
//! hands it over. Line format: `<expiry> <MAC> <IP> <name> <client-id>`.
//!
//! The name is sent by the device itself over DHCP: it is foreign data and is always cleaned
//! (`sanitize_hostname`), or a device could draw anything it likes in the window.

use vstd::prelude::*;
use crate::ipv4::{Ipv4Addr, parse_ipv4};
use crate::proto::{Mac, parse_mac};
use crate::text::{
    chars_to_string, filter_map, is_control, is_control_exec, is_ws, is_ws_exec, lemma_filter_map_all,
    lemma_filter_map_step, lines, seqs, slice_of, split_lines, split_words, str_chars, trim, trim_exec,
    words, lit, chars_eq, lemma_trim_keeps, lemma_filter_map_member, lemma_trim_idempotent,
    lemma_trim_all_ws,
};

verus! {

broadcast use vstd::slice::group_slice_axioms;

/// How many characters of a name are shown: a long one would spread over the whole row.
pub const HOSTNAME_MAX: usize = 24;

#[derive(Debug, Clone, PartialEq, Eq)]
pub struct Lease {
    pub mac: Mac,
    pub ip: Ipv4Addr,
    pub hostname: Option<String>,
}

/// A lease as plain values: the MAC and the address as numbers, the name as characters.
pub ghost struct LeaseModel {
    pub mac: u64,
    pub ip: u32,
    pub hostname: Option<Seq<char>>,
}

pub open spec fn opt_text(o: Option<String>) -> Option<Seq<char>> {
    match o {
        Some(s) => Some(s@),
        None => None,
    }
}

impl View for Lease {
    type V = LeaseModel;

    open spec fn view(&self) -> LeaseModel {
        LeaseModel { mac: self.mac.bits, ip: self.ip.bits, hostname: opt_text(self.hostname) }
    }
}

pub open spec fn lease_models(v: Seq<Lease>) -> Seq<LeaseModel> {
    v.map_values(|l: Lease| l@)
}

// ---------------------------------------------------------------------------------------
// Names
// ---------------------------------------------------------------------------------------
/// Zero-width characters and writing-direction controls: invisible, but they break a line.
pub open spec fn is_invisible(c: char) -> bool {
    ||| c == '\u{ad}'
    ||| ('\u{200b}' <= c <= '\u{200f}')
    ||| ('\u{2028}' <= c <= '\u{202e}')
    ||| ('\u{2060}' <= c <= '\u{2064}')
    ||| ('\u{2066}' <= c <= '\u{206f}')
    ||| c == '\u{feff}'
    ||| ('\u{fff9}' <= c <= '\u{fffb}')
}

pub fn is_invisible_exec(c: char) -> (b: bool)
    ensures
        b == is_invisible(c),
{
    c == '\u{ad}' || ('\u{200b}' <= c && c <= '\u{200f}') || ('\u{2028}' <= c && c <= '\u{202e}')
        || ('\u{2060}' <= c && c <= '\u{2064}') || ('\u{2066}' <= c && c <= '\u{206f}') || c
        == '\u{feff}' || ('\u{fff9}' <= c && c <= '\u{fffb}')
}

/// What a character of a device name becomes: control and invisible characters are dropped,
/// any whitespace (a no-break space too) becomes a plain space.
pub open spec fn name_char(c: char) -> Option<char> {
    if is_control(c) || is_invisible(c) {
        None
    } else if is_ws(c) {
        Some(' ')
    } else {
        Some(c)
    }
}

pub open spec fn name_chars() -> spec_fn(char) -> Option<char> {
    |c: char| name_char(c)
}

/// No character a name keeps is a control or an invisible character.
proof fn lemma_name_chars_clean(s: Seq<char>)
    ensures
        forall|i: int|
            0 <= i < filter_map(s, name_chars()).len() ==> !is_control(
                #[trigger] filter_map(s, name_chars())[i],
            ) && !is_invisible(filter_map(s, name_chars())[i]),
        filter_map(s, name_chars()).len() <= s.len(),
    decreases s.len(),
{
    if s.len() > 0 {
        lemma_name_chars_clean(s.drop_last());
        let p = filter_map(s.drop_last(), name_chars());
        let m = filter_map(s, name_chars());
        match name_char(s.last()) {
            Some(c) => {
                assert(m == p.push(c));
                assert forall|i: int| 0 <= i < m.len() implies !is_control(#[trigger] m[i])
                    && !is_invisible(m[i]) by {
                    if i < p.len() {
                        assert(m[i] == p[i]);
                    }
                }
            },
            None => {
                assert(m == p);
            },
        }
    }
}

/// The cleaned name: kept characters, at most `HOSTNAME_MAX` of them, trimmed; nothing left
/// means no name.
pub open spec fn sanitized(raw: Seq<char>) -> Option<Seq<char>> {
    let kept = filter_map(raw, name_chars());
    let head = if kept.len() <= HOSTNAME_MAX {
        kept
    } else {
        kept.take(HOSTNAME_MAX as int)
    };
    let t = trim(head);
    if t.len() == 0 {
        None
    } else {
        Some(t)
    }
}

/// A guest's host name as shown has no control or invisible characters (no terminal
/// escapes, no text turned around) and at most `HOSTNAME_MAX` characters.
pub proof fn lemma_sanitized_clean(raw: Seq<char>)
    requires
        sanitized(raw) is Some,
    ensures
        sanitized(raw)->Some_0.len() <= HOSTNAME_MAX,
        forall|i: int|
            0 <= i < sanitized(raw)->Some_0.len() ==> !is_control(#[trigger] sanitized(raw)->Some_0[i])
                && !is_invisible(sanitized(raw)->Some_0[i]),
{
    let kept = filter_map(raw, name_chars());
    lemma_name_chars_clean(raw);
    let head = if kept.len() <= HOSTNAME_MAX {
        kept
    } else {
        kept.take(HOSTNAME_MAX as int)
    };
    let ok = |c: char| !is_control(c) && !is_invisible(c);
    assert forall|i: int| 0 <= i < head.len() implies ok(#[trigger] head[i]) by {
        assert(head[i] == kept[i]);
    }
    lemma_trim_keeps(head, ok);
    assert forall|i: int| 0 <= i < trim(head).len() implies !is_control(#[trigger] trim(head)[i])
        && !is_invisible(trim(head)[i]) by {
        assert(ok(trim(head)[i]));
    }
}

/// A character a cleaned name may hold: neither a control nor an invisible character, and
/// no whitespace but the plain space.
pub open spec fn clean_name_char(c: char) -> bool {
    !is_control(c) && !is_invisible(c) && (!is_ws(c) || c == ' ')
}

proof fn lemma_kept_clean(raw: Seq<char>)
    ensures
        forall|i: int|
            0 <= i < filter_map(raw, name_chars()).len() ==> clean_name_char(
                #[trigger] filter_map(raw, name_chars())[i],
            ),
{
    let kept = filter_map(raw, name_chars());
    assert forall|i: int| 0 <= i < kept.len() implies clean_name_char(#[trigger] kept[i]) by {
        lemma_filter_map_member(raw, name_chars(), i);
    }
}

proof fn lemma_clean_kept_as_is(s: Seq<char>)
    requires
        forall|i: int| 0 <= i < s.len() ==> clean_name_char(#[trigger] s[i]),
    ensures
        filter_map(s, name_chars()) == s,
    decreases s.len(),
{
    if s.len() > 0 {
        assert forall|i: int| 0 <= i < s.drop_last().len() implies clean_name_char(
            #[trigger] s.drop_last()[i],
        ) by {
            assert(s.drop_last()[i] == s[i]);
        }
        lemma_clean_kept_as_is(s.drop_last());
        assert(name_char(s.last()) == Some(s.last()));
        assert(s.drop_last().push(s.last()) =~= s);
    }
}

/// Cleaning a name: a name of nothing but control, invisible and blank characters is no
/// name; a cleaned name is not empty, trimmed, at most `HOSTNAME_MAX` characters long, holds
/// only plain spaces as whitespace, and cleaning it again changes nothing.
pub proof fn lemma_sanitized_laws(raw: Seq<char>)
    ensures
        (forall|i: int| 0 <= i < raw.len() ==> is_control(#[trigger] raw[i]) || is_invisible(raw[i])
            || is_ws(raw[i])) ==> sanitized(raw) is None,
        sanitized(raw) matches Some(s) ==> {
            &&& s.len() > 0
            &&& trim(s) == s
            &&& s.len() <= HOSTNAME_MAX
            &&& forall|i: int| 0 <= i < s.len() ==> clean_name_char(#[trigger] s[i])
            &&& sanitized(s) == Some(s)
        },
{
    let kept = filter_map(raw, name_chars());
    let head = if kept.len() <= HOSTNAME_MAX {
        kept
    } else {
        kept.take(HOSTNAME_MAX as int)
    };
    lemma_kept_clean(raw);
    if forall|i: int| 0 <= i < raw.len() ==> is_control(#[trigger] raw[i]) || is_invisible(raw[i])
        || is_ws(raw[i]) {
        assert forall|i: int| 0 <= i < head.len() implies is_ws(#[trigger] head[i]) by {
            assert(head[i] == kept[i]);
            lemma_filter_map_member(raw, name_chars(), i);
            let j = choose|j: int|
                0 <= j < raw.len() && name_chars()(#[trigger] raw[j]) == Some(kept[i]);
            assert(kept[i] == ' ');
        }
        lemma_trim_all_ws(head);
    }
    assert forall|i: int| 0 <= i < head.len() implies clean_name_char(#[trigger] head[i]) by {
        assert(head[i] == kept[i]);
    }
    lemma_trim_keeps(head, |c: char| clean_name_char(c));
    let t = trim(head);
    assert forall|i: int| 0 <= i < t.len() implies clean_name_char(#[trigger] t[i]) by {
        assert((|c: char| clean_name_char(c))(t[i]));
    }
    lemma_trim_idempotent(head);
    lemma_clean_kept_as_is(t);
}

/// Cleans a name sent by a device (see `sanitized`).
pub fn sanitize_hostname(raw: &str) -> (r: Option<String>)
    ensures
        opt_text(r) == sanitized(raw@),
{
    let cs = str_chars(raw);
    let ghost f = name_chars();
    let mut kept: Vec<char> = Vec::new();
    let mut i: usize = 0;
    while i < cs.len()
        invariant
            i <= cs.len(),
            cs@ == raw@,
            f == name_chars(),
            kept@ == filter_map(cs@.take(i as int), f),
        decreases cs.len() - i,
    {
        proof {
            lemma_filter_map_step(cs@, f, i as int);
        }
        let c = cs[i];
        if !(is_control_exec(c) || is_invisible_exec(c)) {
            if is_ws_exec(c) {
                kept.push(' ');
            } else {
                kept.push(c);
            }
        }
        i = i + 1;
    }
    proof {
        lemma_filter_map_all(cs@, f);
    }
    let n = if kept.len() <= HOSTNAME_MAX {
        kept.len()
    } else {
        HOSTNAME_MAX
    };
    let head = slice_of(kept.as_slice(), 0, n);
    assert(kept.len() <= HOSTNAME_MAX ==> head@ =~= kept@);
    let t = trim_exec(head.as_slice());
    if t.len() == 0 {
        None
    } else {
        Some(chars_to_string(t.as_slice()))
    }
}

// ---------------------------------------------------------------------------------------
// Lines
// ---------------------------------------------------------------------------------------
/// One line of the file: expiry, MAC and address are needed; `*` (or nothing) as the name
/// means the device gave none.
pub open spec fn line_lease(line: Seq<char>) -> Option<LeaseModel> {
    let w = words(line);
    if w.len() < 3 {
        None
    } else {
        match (parse_mac(w[1]), parse_ipv4(w[2])) {
            (Some(mac), Some(ip)) => Some(
                LeaseModel {
                    mac,
                    ip,
                    hostname: if w.len() < 4 || w[3] == "*"@ {
                        None
                    } else {
                        sanitized(w[3])
                    },
                },
            ),
            _ => None,
        }
    }
}

/// The first position of a lease for `mac`.
pub open spec fn mac_index(out: Seq<LeaseModel>, mac: u64) -> Option<int>
    decreases out.len(),
{
    if out.len() == 0 {
        None
    } else {
        match mac_index(out.drop_last(), mac) {
            Some(i) => Some(i),
            None => if out.last().mac == mac {
                Some(out.len() - 1)
            } else {
                None
            },
        }
    }
}

/// A new lease replaces the one for the same MAC, or goes to the end.
pub open spec fn lease_step(out: Seq<LeaseModel>, l: LeaseModel) -> Seq<LeaseModel> {
    match mac_index(out, l.mac) {
        Some(i) => out.update(i, l),
        None => out.push(l),
    }
}

pub open spec fn leases_scan(ls: Seq<Seq<char>>) -> Seq<LeaseModel>
    decreases ls.len(),
{
    if ls.len() == 0 {
        seq![]
    } else {
        let out = leases_scan(ls.drop_last());
        match line_lease(ls.last()) {
            Some(l) => lease_step(out, l),
            None => out,
        }
    }
}

/// The leases of the whole file: bad lines are skipped, for one MAC the last line counts.
pub open spec fn leases_spec(text: Seq<char>) -> Seq<LeaseModel> {
    leases_scan(lines(text))
}

/// No MAC occurs twice.
pub open spec fn unique_macs(s: Seq<LeaseModel>) -> bool {
    forall|i: int, j: int| 0 <= i < j < s.len() ==> s[i].mac != s[j].mac
}

proof fn lemma_mac_index(out: Seq<LeaseModel>, mac: u64)
    ensures
        mac_index(out, mac) matches Some(i) ==> 0 <= i < out.len() && out[i].mac == mac,
        mac_index(out, mac) is None ==> forall|k: int| 0 <= k < out.len() ==> out[k].mac != mac,
    decreases out.len(),
{
    if out.len() > 0 {
        lemma_mac_index(out.drop_last(), mac);
        if mac_index(out, mac) is None {
            assert forall|k: int| 0 <= k < out.len() implies out[k].mac != mac by {
                if k < out.len() - 1 {
                    assert(out.drop_last()[k] == out[k]);
                }
            }
        }
    }
}

/// The first position holding `mac` is what `mac_index` names.
proof fn lemma_mac_index_at(out: Seq<LeaseModel>, mac: u64, i: int)
    requires
        0 <= i < out.len(),
        out[i].mac == mac,
        forall|k: int| 0 <= k < i ==> out[k].mac != mac,
    ensures
        mac_index(out, mac) == Some(i),
    decreases out.len(),
{
    if i < out.len() - 1 {
        assert(out.drop_last()[i] == out[i]);
        assert forall|k: int| 0 <= k < i implies out.drop_last()[k].mac != mac by {
            assert(out.drop_last()[k] == out[k]);
        }
        lemma_mac_index_at(out.drop_last(), mac, i);
    } else {
        assert forall|k: int| 0 <= k < out.drop_last().len() implies out.drop_last()[k].mac != mac by {
            assert(out.drop_last()[k] == out[k]);
        }
        lemma_mac_index_absent(out.drop_last(), mac);
    }
}

proof fn lemma_mac_index_absent(out: Seq<LeaseModel>, mac: u64)
    requires
        forall|k: int| 0 <= k < out.len() ==> out[k].mac != mac,
    ensures
        mac_index(out, mac) is None,
    decreases out.len(),
{
    if out.len() > 0 {
        assert forall|k: int| 0 <= k < out.drop_last().len() implies out.drop_last()[k].mac != mac by {
            assert(out.drop_last()[k] == out[k]);
        }
        lemma_mac_index_absent(out.drop_last(), mac);
        assert(out[out.len() - 1].mac != mac);
    }
}

/// Each step keeps the MACs unique.
pub proof fn lemma_lease_step_unique(out: Seq<LeaseModel>, l: LeaseModel)
    requires
        unique_macs(out),
    ensures
        unique_macs(lease_step(out, l)),
{
    lemma_mac_index(out, l.mac);
}

proof fn lemma_leases_scan_unique(ls: Seq<Seq<char>>)
    ensures
        unique_macs(leases_scan(ls)),
    decreases ls.len(),
{
    if ls.len() > 0 {
        lemma_leases_scan_unique(ls.drop_last());
        match line_lease(ls.last()) {
            Some(l) => lemma_lease_step_unique(leases_scan(ls.drop_last()), l),
            None => {},
        }
    }
}

/// The lease file never yields two leases for one device.
pub proof fn lemma_leases_unique(text: Seq<char>)
    ensures
        unique_macs(leases_spec(text)),
{
    lemma_leases_scan_unique(lines(text));
}

fn parse_line(line: &[char]) -> (r: Option<Lease>)
    ensures
        r matches Some(l) ==> line_lease(line@) == Some(l@),
        r is None ==> line_lease(line@) is None,
{
    let w = split_words(line);
    if w.len() < 3 {
        return None;
    }
    assert(seqs(w@)[1] == w@[1]@ && seqs(w@)[2] == w@[2]@);
    let mac = match Mac::parse_chars(w[1].as_slice()) {
        Ok(m) => m,
        Err(_) => return None,
    };
    let ip = match Ipv4Addr::parse(w[2].as_slice()) {
        Some(a) => a,
        None => return None,
    };
    let hostname = if w.len() < 4 {
        None
    } else {
        assert(seqs(w@)[3] == w@[3]@);
        let star = lit("*");
        if chars_eq(w[3].as_slice(), star.as_slice()) {
            None
        } else {
            let name = chars_to_string(w[3].as_slice());
            sanitize_hostname(name.as_str())
        }
    };
    Some(Lease { mac, ip, hostname })
}

fn find_mac(out: &Vec<Lease>, mac: Mac) -> (r: Option<usize>)
    ensures
        r matches Some(i) ==> i < out.len() && mac_index(lease_models(out@), mac.bits) == Some(
            i as int,
        ),
        r is None ==> mac_index(lease_models(out@), mac.bits) is None,
{
    let ghost m = lease_models(out@);
    let mut i: usize = 0;
    while i < out.len()
        invariant
            i <= out.len(),
            m == lease_models(out@),
            forall|k: int| 0 <= k < i ==> m[k].mac != mac.bits,
        decreases out.len() - i,
    {
        if out[i].mac.bits == mac.bits {
            proof {
                lemma_mac_index_at(m, mac.bits, i as int);
            }
            return Some(i);
        }
        i = i + 1;
    }
    proof {
        lemma_mac_index_absent(m, mac.bits);
    }
    None
}

/// Adds one lease: it replaces the lease for the same MAC, or goes to the end.
fn add_lease(out: &mut Vec<Lease>, lease: Lease)
    ensures
        lease_models(final(out)@) == lease_step(lease_models(old(out)@), lease@),
{
    let ghost before = out@;
    match find_mac(out, lease.mac) {
        Some(k) => {
            out.set(k, lease);
            assert(lease_models(out@) =~= lease_models(before).update(k as int, lease@));
        },
        None => {
            out.push(lease);
            assert(lease_models(out@) =~= lease_models(before).push(lease@));
        },
    }
}

/// Reads the whole lease file (see `leases_spec`); no MAC occurs twice in the result.
pub fn parse_leases(text: &str) -> (out: Vec<Lease>)
    ensures
        lease_models(out@) == leases_spec(text@),
        unique_macs(lease_models(out@)),
{
    let cs = str_chars(text);
    let ls = split_lines(cs.as_slice());
    let ghost lv = seqs(ls@);
    let mut out: Vec<Lease> = Vec::new();
    let mut i: usize = 0;
    while i < ls.len()
        invariant
            i <= ls.len(),
            lv == seqs(ls@),
            lv == lines(text@),
            lease_models(out@) == leases_scan(lv.take(i as int)),
        decreases ls.len() - i,
    {
        assert(lv[i as int] == ls@[i as int]@);
        assert(lv.take(i + 1).drop_last() =~= lv.take(i as int));
        match parse_line(ls[i].as_slice()) {
            Some(lease) => add_lease(&mut out, lease),
            None => {},
        }
        i = i + 1;
    }
    assert(lv.take(ls.len() as int) =~= lv);
    proof {
        lemma_leases_unique(text@);
    }
    out
}

} // verus!
