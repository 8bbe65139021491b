//! IPv4 routes (`ip -j -4 route show table all`), so that the hotspot subnet does not cover a
//! LAN or a VPN: the PC's traffic to that network would otherwise go to the guests.

use vstd::prelude::*;
use crate::backend::Ipv4Net;
use crate::error::CoreError;
use crate::json::{Json, get_field, json_array_of, json_value_of, parse_json_array, parse_json_value, text_field, field, text_of};
use crate::ipv4::{Ipv4Addr, ipv4_text, parse_ipv4};
use crate::leases::opt_text;
use crate::num::{decimal, decimal_chars, parse_u8, parse_unsigned};
use crate::text::{
    chars_eq, chars_to_string, filter_map, first_some, lemma_filter_map_all, lemma_filter_map_step,
    lemma_first_some_prefix, lit, split_once, split_once_exec, str_chars,
};

verus! {

broadcast use vstd::slice::group_slice_axioms;

/// A route to a network through an interface.
#[derive(Clone, Debug, PartialEq, Eq)]
pub struct Route {
    pub addr: Ipv4Addr,
    pub prefix: u8,
    pub dev: String,
}

pub ghost struct RouteModel {
    pub addr: u32,
    pub prefix: u8,
    pub dev: Seq<char>,
}

impl View for Route {
    type V = RouteModel;

    open spec fn view(&self) -> RouteModel {
        RouteModel { addr: self.addr.bits, prefix: self.prefix, dev: self.dev@ }
    }
}

pub open spec fn route_models(v: Seq<Route>) -> Seq<RouteModel> {
    v.map_values(|r: Route| r@)
}

/// One entry of the JSON that `ip -j` prints, as far as it is read: the string values of
/// `type`, `dst` and `dev`, and, where `nexthops` is an array, the `dev` of each hop.
#[derive(Clone, Debug, PartialEq, Eq, Default)]
pub struct RawRoute {
    pub kind: Option<String>,
    pub dst: Option<String>,
    pub dev: Option<String>,
    pub nexthops: Option<Vec<Option<String>>>,
}

/// Routes wider than /8 are the default route in pieces (a VPN sets 0.0.0.0/1 and
/// 128.0.0.0/1); a narrower hotspot subnet may rightly overlap them.
pub const MIN_PREFIX: u8 = 8;

/// `a.b.c.d/p (dev)`.
pub open spec fn route_text(r: RouteModel) -> Seq<char> {
    ipv4_text(r.addr) + seq!['/'] + decimal(r.prefix as nat) + seq![' ', '('] + r.dev + seq![')']
}

impl Route {
    pub fn to_string(&self) -> (s: String)
        ensures
            s@ == route_text(self@),
    {
        let mut v = self.addr.text_chars();
        v.push('/');
        let mut p = decimal_chars(self.prefix as u64);
        v.append(&mut p);
        v.push(' ');
        v.push('(');
        let mut d = str_chars(self.dev.as_str());
        v.append(&mut d);
        v.push(')');
        assert(v@ =~= route_text(self@));
        chars_to_string(v.as_slice())
    }
}

// ---------------------------------------------------------------------------------------
// Reading the table
// ---------------------------------------------------------------------------------------
/// Interfaces other than `lo`.
pub open spec fn not_lo(o: Option<String>) -> Option<Seq<char>> {
    match o {
        Some(s) => if s@ == "lo"@ {
            None
        } else {
            Some(s@)
        },
        None => None,
    }
}

pub open spec fn not_lo_fn() -> spec_fn(Option<String>) -> Option<Seq<char>> {
    |o: Option<String>| not_lo(o)
}

/// The interfaces of a route: those of every path where there are several, else its own;
/// `lo` is never one.
pub open spec fn route_devs(r: RawRoute) -> Seq<Seq<char>> {
    match r.nexthops {
        Some(h) => filter_map(h@, not_lo_fn()),
        None => filter_map(seq![r.dev], not_lo_fn()),
    }
}

/// The `dst` of a wanted route as address and prefix (no prefix is /32). Only ordinary
/// (`unicast`, or no type) routes and own addresses (`local`) are wanted.
pub open spec fn route_dst(r: RawRoute) -> Option<(u32, u8)> {
    let wanted = match r.kind {
        Some(t) => t@ == "unicast"@ || t@ == "local"@,
        None => true,
    };
    match r.dst {
        Some(d) => if wanted {
            let (a, p) = match split_once(d@, seq!['/']) {
                Some((a, p)) => (a, p),
                None => (d@, seq!['3', '2']),
            };
            match (parse_ipv4(a), parse_unsigned(p, 255)) {
                (Some(addr), Some(prefix)) => if prefix <= 32 {
                    Some((addr, prefix as u8))
                } else {
                    None
                },
                _ => None,
            }
        } else {
            None
        },
        None => None,
    }
}

/// The routes one entry gives: one per interface.
pub open spec fn route_entries(r: RawRoute) -> Seq<RouteModel> {
    match route_dst(r) {
        Some((addr, prefix)) => Seq::new(
            route_devs(r).len(),
            |k: int| RouteModel { addr, prefix, dev: route_devs(r)[k] },
        ),
        None => seq![],
    }
}

pub open spec fn routes_scan(raw: Seq<RawRoute>) -> Seq<RouteModel>
    decreases raw.len(),
{
    if raw.len() == 0 {
        seq![]
    } else {
        routes_scan(raw.drop_last()) + route_entries(raw.last())
    }
}

fn not_lo_exec(o: &Option<String>) -> (r: Option<String>)
    ensures
        opt_text(r) == not_lo(*o),
{
    match o {
        Some(s) => {
            let cs = str_chars(s.as_str());
            if chars_eq(cs.as_slice(), lit("lo").as_slice()) {
                None
            } else {
                Some(s.clone())
            }
        },
        None => None,
    }
}

fn devs_of(list: &Vec<Option<String>>) -> (out: Vec<String>)
    ensures
        out@.len() == filter_map(list@, not_lo_fn()).len(),
        forall|k: int| 0 <= k < out@.len() ==> #[trigger] out@[k]@ == filter_map(list@, not_lo_fn())[k],
{
    let ghost f = not_lo_fn();
    let mut out: Vec<String> = Vec::new();
    let mut i: usize = 0;
    while i < list.len()
        invariant
            i <= list@.len(),
            f == not_lo_fn(),
            out@.len() == filter_map(list@.take(i as int), f).len(),
            forall|k: int| 0 <= k < out@.len() ==> #[trigger] out@[k]@ == filter_map(list@.take(i as int), f)[k],
        decreases list.len() - i,
    {
        proof {
            lemma_filter_map_step(list@, f, i as int);
        }
        match not_lo_exec(&list[i]) {
            Some(d) => out.push(d),
            None => {},
        }
        i = i + 1;
    }
    proof {
        lemma_filter_map_all(list@, f);
    }
    out
}

fn route_devs_exec(r: &RawRoute) -> (out: Vec<String>)
    ensures
        out@.len() == route_devs(*r).len(),
        forall|k: int| 0 <= k < out@.len() ==> #[trigger] out@[k]@ == route_devs(*r)[k],
{
    match &r.nexthops {
        Some(h) => devs_of(h),
        None => {
            let mut one: Vec<Option<String>> = Vec::new();
            let d = match &r.dev {
                Some(s) => Some(s.clone()),
                None => None,
            };
            one.push(d);
            assert(one@ =~= seq![r.dev]);
            devs_of(&one)
        },
    }
}

fn route_dst_exec(r: &RawRoute) -> (out: Option<(Ipv4Addr, u8)>)
    ensures
        out matches Some((a, p)) ==> route_dst(*r) == Some((a.bits, p)),
        out is None ==> route_dst(*r) is None,
{
    let wanted = match &r.kind {
        Some(t) => {
            let cs = str_chars(t.as_str());
            chars_eq(cs.as_slice(), lit("unicast").as_slice()) || chars_eq(
                cs.as_slice(),
                lit("local").as_slice(),
            )
        },
        None => true,
    };
    let d = match &r.dst {
        Some(d) => d,
        None => return None,
    };
    if !wanted {
        return None;
    }
    let cs = str_chars(d.as_str());
    let slash: [char; 1] = ['/'];
    assert(slash@ =~= seq!['/']);
    let (a, p) = match split_once_exec(cs.as_slice(), slash.as_slice()) {
        Some((a, p)) => (a, p),
        None => {
            let mut p: Vec<char> = Vec::new();
            p.push('3');
            p.push('2');
            assert(p@ =~= seq!['3', '2']);
            (cs, p)
        },
    };
    let addr = match Ipv4Addr::parse(a.as_slice()) {
        Some(x) => x,
        None => return None,
    };
    let prefix = match parse_u8(p.as_slice()) {
        Some(x) => x,
        None => return None,
    };
    if prefix > 32 {
        return None;
    }
    Some((addr, prefix))
}

/// The routes of the table (see `route_entries`), in its order; `default` and other entries
/// without an address are skipped.
pub fn routes_from_raw(raw: &[RawRoute]) -> (out: Vec<Route>)
    ensures
        route_models(out@) == routes_scan(raw@),
{
    let mut out: Vec<Route> = Vec::new();
    let mut i: usize = 0;
    while i < raw.len()
        invariant
            i <= raw@.len(),
            route_models(out@) == routes_scan(raw@.take(i as int)),
        decreases raw.len() - i,
    {
        let r = &raw[i];
        assert(raw@.take(i + 1).drop_last() =~= raw@.take(i as int));
        let ghost before = route_models(out@);
        match route_dst_exec(r) {
            Some((addr, prefix)) => {
                let devs = route_devs_exec(r);
                let mut k: usize = 0;
                while k < devs.len()
                    invariant
                        k <= devs@.len(),
                        devs@.len() == route_devs(*r).len(),
                        forall|j: int| 0 <= j < devs@.len() ==> #[trigger] devs@[j]@ == route_devs(*r)[j],
                        route_dst(*r) == Some((addr.bits, prefix)),
                        route_models(out@) == before + route_entries(*r).take(k as int),
                    decreases devs.len() - k,
                {
                    let dv = devs[k].clone();
                    assert(dv@ == route_devs(*r)[k as int]);
                    assert(route_entries(*r)[k as int] == (RouteModel {
                        addr: addr.bits,
                        prefix,
                        dev: route_devs(*r)[k as int],
                    }));
                    let ghost mid = route_models(out@);
                    out.push(Route { addr, prefix, dev: dv });
                    assert(route_models(out@) =~= mid.push(route_entries(*r)[k as int]));
                    assert(route_entries(*r).take(k + 1) =~= route_entries(*r).take(k as int).push(
                        route_entries(*r)[k as int],
                    ));
                    assert(route_models(out@) =~= before + route_entries(*r).take(k + 1));
                    k = k + 1;
                }
                assert(route_entries(*r).take(k as int) =~= route_entries(*r));
            },
            None => {
                assert(route_entries(*r) =~= Seq::<RouteModel>::empty());
                assert(route_models(out@) =~= before + route_entries(*r));
            },
        }
        i = i + 1;
    }
    assert(raw@.take(raw.len() as int) =~= raw@);
    out
}

// ---------------------------------------------------------------------------------------
// Overlaps
// ---------------------------------------------------------------------------------------
/// The network mask of a prefix (a prefix past 32 masks every bit).
pub open spec fn prefix_mask(p: u8) -> u32 {
    if p == 0 {
        0
    } else if p >= 32 {
        0xffff_ffff
    } else {
        (0xffff_ffffu32 << ((32 - p) as u32)) as u32
    }
}

/// Two networks overlap when they agree under the shorter of their two masks.
pub open spec fn overlaps(a: u32, a_prefix: u8, b: u32, b_prefix: u8) -> bool {
    let p = if a_prefix <= b_prefix {
        a_prefix
    } else {
        b_prefix
    };
    a & prefix_mask(p) == b & prefix_mask(p)
}

fn overlaps_exec(a: u32, a_prefix: u8, b: u32, b_prefix: u8) -> (r: bool)
    ensures
        r == overlaps(a, a_prefix, b, b_prefix),
{
    let p = if a_prefix <= b_prefix {
        a_prefix
    } else {
        b_prefix
    };
    let mask: u32 = if p == 0 {
        0
    } else if p >= 32 {
        0xffff_ffff
    } else {
        0xffff_ffffu32 << ((32 - p) as u32)
    };
    a & mask == b & mask
}

/// A route of another interface, at least /8, that overlaps the hotspot subnet. Routes of the
/// access point's own adapter do not count: that is the hotspot itself (or the connection it
/// replaces).
pub open spec fn conflicts_with(subnet: Ipv4Net, ap: Seq<char>) -> spec_fn(RouteModel) -> Option<
    RouteModel,
> {
    |r: RouteModel|
        if r.dev != ap && r.prefix >= MIN_PREFIX && overlaps(
            subnet.addr.bits,
            subnet.prefix,
            r.addr,
            r.prefix,
        ) {
            Some(r)
        } else {
            None
        }
}

/// The first route in conflict with the subnet (see `conflicts_with`).
pub fn find_conflict<'a>(subnet: &Ipv4Net, routes: &'a [Route], ap_iface: &str) -> (r: Option<
    &'a Route,
>)
    ensures
        match r {
            Some(x) => first_some(route_models(routes@), conflicts_with(*subnet, ap_iface@)) == Some(x@),
            None => first_some(route_models(routes@), conflicts_with(*subnet, ap_iface@)) is None,
        },
{
    let ghost m = route_models(routes@);
    let ghost f = conflicts_with(*subnet, ap_iface@);
    let ap = str_chars(ap_iface);
    let mut i: usize = 0;
    while i < routes.len()
        invariant
            i <= routes@.len(),
            m == route_models(routes@),
            f == conflicts_with(*subnet, ap_iface@),
            ap@ == ap_iface@,
            filter_map(m.take(i as int), f).len() == 0,
        decreases routes.len() - i,
    {
        proof {
            lemma_filter_map_step(m, f, i as int);
        }
        let r = &routes[i];
        let dev = str_chars(r.dev.as_str());
        if !chars_eq(dev.as_slice(), ap.as_slice()) && r.prefix >= MIN_PREFIX && overlaps_exec(
            subnet.addr.bits,
            subnet.prefix,
            r.addr.bits,
            r.prefix,
        ) {
            proof {
                lemma_first_some_prefix(m, f, i + 1);
            }
            return Some(r);
        }
        i = i + 1;
    }
    proof {
        lemma_filter_map_all(m, f);
    }
    None
}


// ---------------------------------------------------------------------------------------
// The JSON of `ip -j`
// ---------------------------------------------------------------------------------------
/// The hops' interfaces as `RawRoute` keeps them.
pub open spec fn hop_devs(hops: Seq<Json>) -> Seq<Option<String>> {
    hops.map_values(|h: Json| text_field(h, "dev"@))
}

/// `raw` is what is read of one entry of the table: the string values of `type`, `dst` and
/// `dev`, and, where `nexthops` is an array, the `dev` of each hop.
pub open spec fn raw_of(raw: RawRoute, j: Json) -> bool {
    &&& raw.kind == text_field(j, "type"@)
    &&& raw.dst == text_field(j, "dst"@)
    &&& raw.dev == text_field(j, "dev"@)
    &&& match get_field(j, "nexthops"@) {
        Some(Json::Array(h)) => raw.nexthops matches Some(v) && v@ == hop_devs(h@),
        _ => raw.nexthops is None,
    }
}

/// The routes a table gives: those of its entries read as `raw_of` says (see `routes_scan`).
pub open spec fn table_routes(items: Seq<Json>, routes: Seq<RouteModel>) -> bool {
    exists|raws: Seq<RawRoute>|
        raws.len() == items.len() && (forall|i: int| 0 <= i < items.len() ==> #[trigger] raw_of(
            raws[i],
            items[i],
        )) && routes == routes_scan(raws)
}

fn raw_route(j: &Json) -> (r: RawRoute)
    ensures
        raw_of(r, *j),
{
    let kind = text_of(j, "type");
    let dst = text_of(j, "dst");
    let dev = text_of(j, "dev");
    let nexthops = match field(j, "nexthops") {
        Some(Json::Array(h)) => {
            let mut v: Vec<Option<String>> = Vec::new();
            let mut i: usize = 0;
            while i < h.len()
                invariant
                    i <= h@.len(),
                    v@ == hop_devs(h@.take(i as int)),
                decreases h.len() - i,
            {
                let d = text_of(&h[i], "dev");
                v.push(d);
                assert(hop_devs(h@.take(i + 1)) =~= hop_devs(h@.take(i as int)).push(d));
                i = i + 1;
            }
            assert(h@.take(h@.len() as int) =~= h@);
            Some(v)
        },
        _ => None,
    };
    RawRoute { kind, dst, dev, nexthops }
}

/// The error for output of `ip` that is no JSON of the expected shape.
fn ip_parse_error(reason: String) -> (e: CoreError)
    ensures
        e matches CoreError::Parse { tool, reason: r } && tool@ == "ip"@ && r == reason,
{
    CoreError::Parse { tool: "ip".to_string(), reason }
}

/// The routes of `ip -j -4 route show table all` (see `routes_scan`): the output must be a
/// JSON array, else it is a parse error with `serde_json`'s message.
pub fn parse_routes(json: &str) -> (r: Result<Vec<Route>, CoreError>)
    ensures
        match json_array_of(json@) {
            Ok(items) => r matches Ok(v) && table_routes(items, route_models(v@)),
            Err(m) => r matches Err(CoreError::Parse { tool, reason }) && tool@ == "ip"@
                && reason@ == m,
        },
{
    let items = match parse_json_array(json) {
        Ok(v) => v,
        Err(m) => return Err(ip_parse_error(m)),
    };
    let mut raws: Vec<RawRoute> = Vec::new();
    let mut i: usize = 0;
    while i < items.len()
        invariant
            i <= items@.len(),
            raws@.len() == i,
            forall|k: int| 0 <= k < i ==> #[trigger] raw_of(raws@[k], items@[k]),
        decreases items.len() - i,
    {
        let r = raw_route(&items[i]);
        raws.push(r);
        i = i + 1;
    }
    let out = routes_from_raw(raws.as_slice());
    assert(table_routes(items@, route_models(out@))) by {
        assert(forall|k: int| 0 <= k < items@.len() ==> #[trigger] raw_of(raws@[k], items@[k]));
    }
    Ok(out)
}

/// The interface of the route `ip -j route get` printed: the `dev` string of the first
/// element of an array; anything else gives none.
pub open spec fn first_dev(j: Json) -> Option<String> {
    match j {
        Json::Array(items) => if items@.len() > 0 {
            text_field(items@[0], "dev"@)
        } else {
            None
        },
        _ => None,
    }
}

/// The uplink in the output of `ip -j route get 1.1.1.1` (see `first_dev`); text that is no
/// JSON is a parse error with `serde_json`'s message.
pub fn parse_route_get(json: &str) -> (r: Result<Option<String>, CoreError>)
    ensures
        match json_value_of(json@) {
            Ok(j) => r == Ok::<Option<String>, CoreError>(first_dev(j)),
            Err(m) => r matches Err(CoreError::Parse { tool, reason }) && tool@ == "ip"@
                && reason@ == m,
        },
{
    let v = match parse_json_value(json) {
        Ok(v) => v,
        Err(m) => return Err(ip_parse_error(m)),
    };
    let dev = match &v {
        Json::Array(items) => {
            if items.len() > 0 {
                text_of(&items[0], "dev")
            } else {
                None
            }
        },
        _ => None,
    };
    Ok(dev)
}

} // verus!
