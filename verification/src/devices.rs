//! The list of connected devices: stations from `iw station dump`, addresses from the
//! neighbour table and names and addresses from the dnsmasq leases, put together.

use vstd::prelude::*;
use crate::ipv4::{Ipv4Addr, ipv4_text};
use crate::iw::Station;
use crate::leases::{Lease, LeaseModel, lease_models, opt_text};
use crate::neigh::Neigh;
use crate::proto::{Mac, mac_text};
use crate::text::{chars_to_string, filter_map, first_some, lemma_filter_map_all, lemma_filter_map_step, lemma_first_some_prefix};

verus! {

broadcast use vstd::slice::group_slice_axioms, vstd::seq_lib::group_to_multiset_ensures;

/// A device's standing with the firewall; `AccessLists::annotate` sets it.
#[derive(Debug, Clone, Copy, PartialEq, Eq, Structural, Default)]
pub enum DeviceStatus {
    #[default]
    Allowed,
    /// Waiting for approval: on the Wi-Fi, but not let out to the internet.
    Pending,
    Blocked,
}

/// One device as shown in the list. Bytes are counted on the access point's side.
#[derive(Debug, Clone, PartialEq, Eq)]
pub struct Device {
    pub mac: Mac,
    pub ip: Option<Ipv4Addr>,
    pub hostname: Option<String>,
    pub signal_dbm: Option<i32>,
    /// Received from the device (the guest's upload).
    pub rx_bytes: u64,
    /// Sent to the device (the guest's download).
    pub tx_bytes: u64,
    pub connected_secs: u64,
    pub status: DeviceStatus,
}

/// A device as plain values.
pub ghost struct DeviceModel {
    pub mac: u64,
    pub ip: Option<u32>,
    pub hostname: Option<Seq<char>>,
    pub signal_dbm: Option<i32>,
    pub rx_bytes: u64,
    pub tx_bytes: u64,
    pub connected_secs: u64,
    pub status: DeviceStatus,
}

pub open spec fn opt_ip(o: Option<Ipv4Addr>) -> Option<u32> {
    match o {
        Some(a) => Some(a.bits),
        None => None,
    }
}

impl View for Device {
    type V = DeviceModel;

    open spec fn view(&self) -> DeviceModel {
        DeviceModel {
            mac: self.mac.bits,
            ip: opt_ip(self.ip),
            hostname: opt_text(self.hostname),
            signal_dbm: self.signal_dbm,
            rx_bytes: self.rx_bytes,
            tx_bytes: self.tx_bytes,
            connected_secs: self.connected_secs,
            status: self.status,
        }
    }
}

pub open spec fn device_models(v: Seq<Device>) -> Seq<DeviceModel> {
    v.map_values(|d: Device| d@)
}

/// The name to show: the lease's name, else the address, else the MAC.
pub open spec fn display_name_spec(d: DeviceModel) -> Seq<char> {
    match d.hostname {
        Some(n) => n,
        None => match d.ip {
            Some(ip) => ipv4_text(ip),
            None => mac_text(d.mac),
        },
    }
}

impl Device {
    /// What the device downloaded (the ↓ arrow).
    pub fn down_bytes(&self) -> (r: u64)
        ensures
            r == self.tx_bytes,
    {
        self.tx_bytes
    }

    /// What the device uploaded (the ↑ arrow).
    pub fn up_bytes(&self) -> (r: u64)
        ensures
            r == self.rx_bytes,
    {
        self.rx_bytes
    }

    /// The same device with another standing.
    pub fn with_status(&self, status: DeviceStatus) -> (r: Device)
        ensures
            r@ == (DeviceModel { status, ..self@ }),
    {
        Device {
            mac: self.mac,
            ip: self.ip,
            hostname: match &self.hostname {
                Some(h) => Some(h.clone()),
                None => None,
            },
            signal_dbm: self.signal_dbm,
            rx_bytes: self.rx_bytes,
            tx_bytes: self.tx_bytes,
            connected_secs: self.connected_secs,
            status,
        }
    }

    /// The name to show (see `display_name_spec`).
    pub fn display_name(&self) -> (r: String)
        ensures
            r@ == display_name_spec(self@),
    {
        match (&self.hostname, self.ip) {
            (Some(name), _) => name.clone(),
            (None, Some(ip)) => ip.to_string(),
            (None, None) => self.mac.as_str(),
        }
    }
}

// ---------------------------------------------------------------------------------------
// Signal
// ---------------------------------------------------------------------------------------
/// Signal bars: stronger than −55 dBm is 4, than −65 is 3, than −75 is 2, weaker is 1.
pub open spec fn bars_of(dbm: i32) -> u8 {
    if dbm > -55 {
        4
    } else if dbm > -65 {
        3
    } else if dbm > -75 {
        2
    } else {
        1
    }
}

pub fn signal_bars(dbm: i32) -> (r: u8)
    ensures
        r == bars_of(dbm),
{
    if dbm > -55 {
        4
    } else if dbm > -65 {
        3
    } else if dbm > -75 {
        2
    } else {
        1
    }
}

/// The `i`-th bar glyph: `▂▄▆█`.
pub open spec fn bar_glyph(i: int) -> char {
    if i == 0 {
        '▂'
    } else if i == 1 {
        '▄'
    } else if i == 2 {
        '▆'
    } else {
        '█'
    }
}

/// Bars as text, always four characters: the filled glyphs, then spaces.
pub open spec fn bars_text(bars: u8) -> Seq<char> {
    Seq::new(4, |i: int| if i < bars { bar_glyph(i) } else { ' ' })
}

pub fn bars_str(bars: u8) -> (r: String)
    ensures
        r@ == bars_text(bars),
{
    let mut cs: Vec<char> = Vec::new();
    let mut i: u8 = 0;
    while i < 4
        invariant
            i <= 4,
            cs@.len() == i,
            forall|k: int| 0 <= k < i ==> #[trigger] cs@[k] == bars_text(bars)[k],
        decreases 4 - i,
    {
        let c = if i < bars {
            if i == 0 {
                '▂'
            } else if i == 1 {
                '▄'
            } else if i == 2 {
                '▆'
            } else {
                '█'
            }
        } else {
            ' '
        };
        cs.push(c);
        i = i + 1;
    }
    assert(cs@ =~= bars_text(bars));
    chars_to_string(cs.as_slice())
}

// ---------------------------------------------------------------------------------------
// Putting the sources together
// ---------------------------------------------------------------------------------------
pub open spec fn lease_for(mac: u64) -> spec_fn(LeaseModel) -> Option<LeaseModel> {
    |l: LeaseModel| if l.mac == mac { Some(l) } else { None }
}

pub open spec fn neigh_for(mac: u64) -> spec_fn(Neigh) -> Option<u32> {
    |n: Neigh| if n.mac.bits == mac { Some(n.ip.bits) } else { None }
}

/// One station with its address (the lease's wins over the neighbour table's) and name.
pub open spec fn device_of(st: Station, neigh: Seq<Neigh>, leases: Seq<LeaseModel>) -> DeviceModel {
    let lease = first_some(leases, lease_for(st.mac.bits));
    DeviceModel {
        mac: st.mac.bits,
        ip: match lease {
            Some(l) => Some(l.ip),
            None => first_some(neigh, neigh_for(st.mac.bits)),
        },
        hostname: match lease {
            Some(l) => l.hostname,
            None => None,
        },
        signal_dbm: st.signal_dbm,
        rx_bytes: st.rx_bytes,
        tx_bytes: st.tx_bytes,
        connected_secs: st.connected_secs,
        status: DeviceStatus::Allowed,
    }
}

pub open spec fn devices_of(stations: Seq<Station>, neigh: Seq<Neigh>, leases: Seq<LeaseModel>) -> Seq<
    DeviceModel,
> {
    Seq::new(stations.len(), |i: int| device_of(stations[i], neigh, leases))
}

/// `a` may stand above `b`: connected longer, or as long and with a MAC not greater.
pub open spec fn goes_before(a: DeviceModel, b: DeviceModel) -> bool {
    a.connected_secs > b.connected_secs || (a.connected_secs == b.connected_secs && a.mac <= b.mac)
}

/// Longest connected first; equal times by MAC, so the list does not jump.
pub open spec fn device_order(s: Seq<DeviceModel>) -> bool {
    forall|i: int, j: int| 0 <= i < j < s.len() ==> goes_before(s[i], s[j])
}

fn goes_before_exec(a: &Device, b: &Device) -> (r: bool)
    ensures
        r == goes_before(a@, b@),
{
    a.connected_secs > b.connected_secs || (a.connected_secs == b.connected_secs && a.mac.bits
        <= b.mac.bits)
}

fn find_lease(leases: &[Lease], mac: u64) -> (r: Option<usize>)
    ensures
        r matches Some(k) ==> k < leases@.len() && first_some(lease_models(leases@), lease_for(mac))
            == Some(leases@[k as int]@),
        r is None ==> first_some(lease_models(leases@), lease_for(mac)) is None,
{
    let ghost m = lease_models(leases@);
    let ghost f = lease_for(mac);
    let mut i: usize = 0;
    while i < leases.len()
        invariant
            i <= leases@.len(),
            m == lease_models(leases@),
            f == lease_for(mac),
            filter_map(m.take(i as int), f).len() == 0,
        decreases leases.len() - i,
    {
        proof {
            lemma_filter_map_step(m, f, i as int);
        }
        if leases[i].mac.bits == mac {
            proof {
                lemma_first_some_prefix(m, f, i + 1);
            }
            return Some(i);
        }
        i = i + 1;
    }
    proof {
        lemma_filter_map_all(m, f);
    }
    None
}

fn find_neigh(neigh: &[Neigh], mac: u64) -> (r: Option<Ipv4Addr>)
    ensures
        opt_ip(r) == first_some(neigh@, neigh_for(mac)),
{
    let ghost f = neigh_for(mac);
    let mut i: usize = 0;
    while i < neigh.len()
        invariant
            i <= neigh@.len(),
            f == neigh_for(mac),
            filter_map(neigh@.take(i as int), f).len() == 0,
        decreases neigh.len() - i,
    {
        proof {
            lemma_filter_map_step(neigh@, f, i as int);
        }
        if neigh[i].mac.bits == mac {
            proof {
                lemma_first_some_prefix(neigh@, f, i + 1);
            }
            return Some(neigh[i].ip);
        }
        i = i + 1;
    }
    proof {
        lemma_filter_map_all(neigh@, f);
    }
    None
}

fn device_for(st: &Station, neigh: &[Neigh], leases: &[Lease]) -> (d: Device)
    ensures
        d@ == device_of(*st, neigh@, lease_models(leases@)),
{
    let (ip, hostname) = match find_lease(leases, st.mac.bits) {
        Some(k) => {
            let l = &leases[k];
            let name = match &l.hostname {
                Some(h) => Some(h.clone()),
                None => None,
            };
            (Some(l.ip), name)
        },
        None => (find_neigh(neigh, st.mac.bits), None),
    };
    Device {
        mac: st.mac,
        ip,
        hostname,
        signal_dbm: st.signal_dbm,
        rx_bytes: st.rx_bytes,
        tx_bytes: st.tx_bytes,
        connected_secs: st.connected_secs,
        status: DeviceStatus::Allowed,
    }
}

/// Putting `d` before the first device it must precede keeps the order.
proof fn lemma_insert_in_order(s: Seq<DeviceModel>, p: int, d: DeviceModel)
    requires
        device_order(s),
        0 <= p <= s.len(),
        forall|k: int| 0 <= k < p ==> goes_before(s[k], d),
        p < s.len() ==> !goes_before(s[p], d),
    ensures
        device_order(s.insert(p, d)),
{
    let t = s.insert(p, d);
    assert forall|a: int, b: int| 0 <= a < b < t.len() implies goes_before(t[a], t[b]) by {
        if b < p {
            assert(t[a] == s[a] && t[b] == s[b]);
        } else if b == p {
            assert(t[a] == s[a] && t[b] == d);
        } else if a < p {
            assert(t[a] == s[a] && t[b] == s[b - 1]);
            assert(goes_before(s[a], s[b - 1]));
        } else if a == p {
            assert(t[a] == d && t[b] == s[b - 1]);
            if b - 1 > p {
                assert(goes_before(s[p], s[b - 1]));
            }
        } else {
            assert(t[a] == s[a - 1] && t[b] == s[b - 1]);
            assert(goes_before(s[a - 1], s[b - 1]));
        }
    }
}

/// Adds one device where its connection time and MAC put it.
fn insert_device(out: &mut Vec<Device>, d: Device)
    requires
        device_order(device_models(old(out)@)),
    ensures
        device_order(device_models(final(out)@)),
        device_models(final(out)@).to_multiset() == device_models(old(out)@).to_multiset().insert(d@),
{
    let ghost m = device_models(out@);
    let mut p: usize = 0;
    while p < out.len() && goes_before_exec(&out[p], &d)
        invariant
            p <= out@.len(),
            out@ == old(out)@,
            m == device_models(out@),
            forall|k: int| 0 <= k < p ==> goes_before(m[k], d@),
        decreases out.len() - p,
    {
        p = p + 1;
    }
    proof {
        lemma_insert_in_order(m, p as int, d@);
    }
    let ghost dv = d@;
    out.insert(p, d);
    assert(device_models(out@) =~= m.insert(p as int, dv));
}

/// The stations with addresses and names, sorted: connected longest first, then by MAC.
pub fn merge(stations: &[Station], neigh: &[Neigh], leases: &[Lease]) -> (out: Vec<Device>)
    ensures
        device_order(device_models(out@)),
        device_models(out@).to_multiset() == devices_of(stations@, neigh@, lease_models(leases@)).to_multiset(),
{
    let ghost all = devices_of(stations@, neigh@, lease_models(leases@));
    let mut out: Vec<Device> = Vec::new();
    let mut i: usize = 0;
    while i < stations.len()
        invariant
            i <= stations@.len(),
            all == devices_of(stations@, neigh@, lease_models(leases@)),
            device_order(device_models(out@)),
            device_models(out@).to_multiset() == all.take(i as int).to_multiset(),
        decreases stations.len() - i,
    {
        let d = device_for(&stations[i], neigh, leases);
        assert(all.take(i + 1) =~= all.take(i as int).push(d@));
        insert_device(&mut out, d);
        i = i + 1;
    }
    assert(all.take(stations.len() as int) =~= all);
    out
}

} // verus!
