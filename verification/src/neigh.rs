//! MAC → IP pairs from the kernel's neighbour table (`ip -j -4 neigh show dev <ap>`).
//! A fallback source of addresses: names and reliable addresses come from the dnsmasq leases.

use vstd::prelude::*;
use crate::ipv4::{Ipv4Addr, parse_ipv4};
use crate::proto::{Mac, parse_mac};
use crate::text::{chars_eq, filter_map, lemma_filter_map_all, lemma_filter_map_step, lit, str_chars};

verus! {

broadcast use vstd::slice::group_slice_axioms;

#[derive(Debug, Clone, Copy, PartialEq, Eq, Structural)]
pub struct Neigh {
    pub mac: Mac,
    pub ip: Ipv4Addr,
}

/// One entry of the JSON that `ip -j` prints: the fields that are read (others are ignored).
#[derive(Debug, Clone, PartialEq, Eq, Default)]
pub struct RawNeigh {
    pub dst: String,
    pub lladdr: Option<String>,
    pub state: Vec<String>,
}

/// States of entries that are not usable: the address did not answer or has no MAC.
pub open spec fn dead_state(s: Seq<char>) -> bool {
    s == "FAILED"@ || s == "INCOMPLETE"@ || s == "NOARP"@
}

/// The usable pair of one entry: a live entry with a MAC and an address that both parse.
pub open spec fn neigh_of(r: RawNeigh) -> Option<Neigh> {
    if exists|i: int| 0 <= i < r.state@.len() && dead_state(#[trigger] r.state@[i]@) {
        None
    } else {
        match r.lladdr {
            None => None,
            Some(l) => match (parse_mac(l@), parse_ipv4(r.dst@)) {
                (Some(m), Some(ip)) => Some(Neigh { mac: Mac { bits: m }, ip: Ipv4Addr { bits: ip } }),
                _ => None,
            },
        }
    }
}

pub open spec fn neigh_fn() -> spec_fn(RawNeigh) -> Option<Neigh> {
    |r: RawNeigh| neigh_of(r)
}

fn is_dead(s: &String) -> (b: bool)
    ensures
        b == dead_state(s@),
{
    let cs = str_chars(s.as_str());
    chars_eq(cs.as_slice(), lit("FAILED").as_slice()) || chars_eq(
        cs.as_slice(),
        lit("INCOMPLETE").as_slice(),
    ) || chars_eq(cs.as_slice(), lit("NOARP").as_slice())
}

fn entry_of(r: &RawNeigh) -> (out: Option<Neigh>)
    ensures
        out == neigh_of(*r),
{
    let mut i: usize = 0;
    while i < r.state.len()
        invariant
            i <= r.state@.len(),
            forall|k: int| 0 <= k < i ==> !dead_state(#[trigger] r.state@[k]@),
        decreases r.state.len() - i,
    {
        if is_dead(&r.state[i]) {
            assert(dead_state(r.state@[i as int]@));
            return None;
        }
        i = i + 1;
    }
    let l = match &r.lladdr {
        Some(l) => l,
        None => return None,
    };
    let mac = match Mac::parse(l.as_str()) {
        Ok(m) => m,
        Err(_) => return None,
    };
    let dst = str_chars(r.dst.as_str());
    match Ipv4Addr::parse(dst.as_slice()) {
        Some(ip) => Some(Neigh { mac, ip }),
        None => None,
    }
}

/// The usable pairs of the table, in its order: entries without a MAC and dead ones
/// (FAILED, INCOMPLETE, NOARP) are dropped.
pub fn neighbours(raw: &[RawNeigh]) -> (out: Vec<Neigh>)
    ensures
        out@ == filter_map(raw@, neigh_fn()),
{
    let ghost f = neigh_fn();
    let mut out: Vec<Neigh> = Vec::new();
    let mut i: usize = 0;
    while i < raw.len()
        invariant
            i <= raw@.len(),
            f == neigh_fn(),
            out@ == filter_map(raw@.take(i as int), f),
        decreases raw.len() - i,
    {
        proof {
            lemma_filter_map_step(raw@, f, i as int);
        }
        match entry_of(&raw[i]) {
            Some(n) => out.push(n),
            None => {},
        }
        i = i + 1;
    }
    proof {
        lemma_filter_map_all(raw@, f);
    }
    out
}

} // verus!
