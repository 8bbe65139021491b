//! Traffic rate and session total, from the growth of byte counters between polls. The
//! counters are the stations' (`iw station dump`), so the session total is the guests'
//! traffic, not the whole machine's. Poll times are monotonic nanoseconds; rates are whole
//! bytes per second, rounded down.

use vstd::prelude::*;
use crate::devices::{Device, DeviceModel, device_models};
use crate::proto::Mac;
use crate::text::{filter_map, lemma_filter_map_all, lemma_filter_map_step};

verus! {

broadcast use vstd::slice::group_slice_axioms;

/// How many polls the graph keeps (about two minutes at one poll a second).
pub const HISTORY_LEN: usize = 120;

/// Polls closer than this (0.2 s) are skipped: the byte difference divided by almost zero
/// would spike the graph.
pub const MIN_INTERVAL_NS: u64 = 200_000_000;

pub const NS_PER_SEC: u64 = 1_000_000_000;

/// `v`, or the largest `u64` where it does not fit.
pub open spec fn cap(v: int) -> u64 {
    if v > u64::MAX {
        u64::MAX
    } else {
        v as u64
    }
}

/// `bytes` over `ns` nanoseconds as bytes per second, rounded down.
pub open spec fn per_sec(bytes: int, ns: u64) -> u64 {
    cap(bytes * NS_PER_SEC / (ns as int))
}

/// What a counter grew by. A counter below the last one means the device reconnected and
/// counts from zero again: then all of it is new.
pub open spec fn gain(now: u64, before: u64) -> u64 {
    if now < before {
        now
    } else {
        (now - before) as u64
    }
}

/// The growth used for a device's own rate: a counter that went back counts as none.
pub open spec fn growth(now: u64, before: u64) -> u64 {
    if now < before {
        0
    } else {
        (now - before) as u64
    }
}

/// A device's counters at the last poll and its rate then.
#[derive(Clone, Copy)]
struct Seen {
    mac: Mac,
    down: u64,
    up: u64,
    down_bps: u64,
    up_bps: u64,
}

pub ghost struct SeenModel {
    pub mac: u64,
    pub down: u64,
    pub up: u64,
    pub down_bps: u64,
    pub up_bps: u64,
}

impl View for Seen {
    type V = SeenModel;

    closed spec fn view(&self) -> SeenModel {
        SeenModel {
            mac: self.mac.bits,
            down: self.down,
            up: self.up,
            down_bps: self.down_bps,
            up_bps: self.up_bps,
        }
    }
}

spec fn seen_models(v: Seq<Seen>) -> Seq<SeenModel> {
    v.map_values(|s: Seen| s@)
}

/// The meter as plain values: the devices seen at the last poll, the time of that poll, the
/// session totals, the last rates and the graph's values (bytes per second, both ways
/// together, oldest first).
pub ghost struct MeterModel {
    pub seen: Seq<SeenModel>,
    pub last: Option<u64>,
    pub total_down: u64,
    pub total_up: u64,
    pub down_bps: u64,
    pub up_bps: u64,
    pub history: Seq<u64>,
}

/// The traffic of one hotspot session.
pub struct TrafficMeter {
    seen: Vec<Seen>,
    last: Option<u64>,
    /// Downloaded by guests this session.
    pub total_down: u64,
    /// Uploaded by guests this session.
    pub total_up: u64,
    pub down_bps: u64,
    pub up_bps: u64,
    history: Vec<u64>,
}

impl View for TrafficMeter {
    type V = MeterModel;

    closed spec fn view(&self) -> MeterModel {
        MeterModel {
            seen: seen_models(self.seen@),
            last: self.last,
            total_down: self.total_down,
            total_up: self.total_up,
            down_bps: self.down_bps,
            up_bps: self.up_bps,
            history: self.history@,
        }
    }
}

/// The first entry for `mac`.
pub open spec fn entry_of(seen: Seq<SeenModel>, mac: u64) -> Option<int> {
    if exists|i: int|
        0 <= i < seen.len() && seen[i].mac == mac && forall|j: int|
            0 <= j < i ==> seen[j].mac != mac {
        Some(
            choose|i: int|
                0 <= i < seen.len() && seen[i].mac == mac && forall|j: int|
                    0 <= j < i ==> seen[j].mac != mac,
        )
    } else {
        None
    }
}

/// The devices seen so far and what the poll's counters grew by, both ways.
pub ghost struct Tally {
    pub seen: Seq<SeenModel>,
    pub down: u64,
    pub up: u64,
}

/// One device of the poll taken in. A known device's counters replace the last ones and,
/// when there is a time since the last poll (`ns`), give its rate; a new device counts with
/// all its bytes.
pub open spec fn absorb(t: Tally, d: DeviceModel, ns: Option<u64>) -> Tally {
    let down = d.tx_bytes;
    let up = d.rx_bytes;
    match entry_of(t.seen, d.mac) {
        Some(i) => {
            let prev = t.seen[i];
            let down_bps = match ns {
                Some(n) => per_sec(growth(down, prev.down) as int, n),
                None => prev.down_bps,
            };
            let up_bps = match ns {
                Some(n) => per_sec(growth(up, prev.up) as int, n),
                None => prev.up_bps,
            };
            Tally {
                seen: t.seen.update(i, SeenModel { mac: prev.mac, down, up, down_bps, up_bps }),
                down: cap(t.down + gain(down, prev.down)),
                up: cap(t.up + gain(up, prev.up)),
            }
        },
        None => Tally {
            seen: t.seen.push(SeenModel { mac: d.mac, down, up, down_bps: 0, up_bps: 0 }),
            down: cap(t.down + down),
            up: cap(t.up + up),
        },
    }
}

/// All devices of the poll taken in, in order.
pub open spec fn absorb_all(t: Tally, devs: Seq<DeviceModel>, ns: Option<u64>) -> Tally
    decreases devs.len(),
{
    if devs.len() == 0 {
        t
    } else {
        absorb(absorb_all(t, devs.drop_last(), ns), devs.last(), ns)
    }
}

/// Entries of devices that are still in the poll (the bytes of the others stay counted).
pub open spec fn still_here(devs: Seq<DeviceModel>) -> spec_fn(SeenModel) -> Option<SeenModel> {
    |s: SeenModel|
        if exists|k: int| 0 <= k < devs.len() && (#[trigger] devs[k]).mac == s.mac {
            Some(s)
        } else {
            None
        }
}

/// The time since the last poll (none before the first poll; a clock that went back gives
/// zero).
pub open spec fn elapsed(last: Option<u64>, now: u64) -> Option<u64> {
    match last {
        Some(l) => Some(
            if now >= l {
                (now - l) as u64
            } else {
                0
            },
        ),
        None => None,
    }
}

/// A poll too soon after the last one is skipped.
pub open spec fn too_soon(last: Option<u64>, now: u64) -> bool {
    elapsed(last, now) matches Some(e) && e < MIN_INTERVAL_NS
}

/// The graph with one more value: at full length the oldest goes.
pub open spec fn push_history(h: Seq<u64>, v: u64) -> Seq<u64> {
    if h.len() == HISTORY_LEN {
        h.drop_first().push(v)
    } else {
        h.push(v)
    }
}

/// A graph that fits keeps fitting.
pub proof fn lemma_history_fits(h: Seq<u64>, v: u64)
    requires
        h.len() <= HISTORY_LEN,
    ensures
        push_history(h, v).len() <= HISTORY_LEN,
{
}

fn cap_exec(v: u128) -> (r: u64)
    ensures
        r == cap(v as int),
{
    if v > u64::MAX as u128 {
        u64::MAX
    } else {
        v as u64
    }
}

fn per_sec_exec(bytes: u128, ns: u64) -> (r: u64)
    requires
        bytes <= 2 * (u64::MAX as int),
        ns > 0,
    ensures
        r == per_sec(bytes as int, ns),
{
    assert(bytes * NS_PER_SEC <= 2 * (u64::MAX as int) * NS_PER_SEC) by (nonlinear_arith)
        requires
            bytes <= 2 * (u64::MAX as int),
    ;
    let q = bytes * (NS_PER_SEC as u128) / (ns as u128);
    cap_exec(q)
}

fn sum_capped(a: u64, b: u64) -> (r: u64)
    ensures
        r == cap(a + b),
{
    cap_exec(a as u128 + b as u128)
}

/// The index of the first entry for `mac` (see `entry_of`).
fn find_seen(seen: &Vec<Seen>, mac: u64) -> (r: Option<usize>)
    ensures
        match r {
            Some(i) => entry_of(seen_models(seen@), mac) == Some(i as int) && i < seen@.len(),
            None => entry_of(seen_models(seen@), mac) is None,
        },
{
    let ghost m = seen_models(seen@);
    let mut i: usize = 0;
    while i < seen.len()
        invariant
            i <= seen@.len(),
            m == seen_models(seen@),
            forall|j: int| 0 <= j < i ==> (#[trigger] m[j]).mac != mac,
        decreases seen.len() - i,
    {
        if seen[i].mac.bits == mac {
            assert(m[i as int].mac == mac);
            let ghost c = choose|k: int|
                0 <= k < m.len() && m[k].mac == mac && forall|j: int| 0 <= j < k ==> m[j].mac != mac;
            assert(c == i as int) by {
                if c < i {
                    assert(m[c].mac != mac);
                }
                if c > i {
                    assert(m[i as int].mac != mac);
                }
            }
            return Some(i);
        }
        i = i + 1;
    }
    None
}

/// Some device of the poll has this MAC.
fn present(devices: &[Device], mac: u64) -> (b: bool)
    ensures
        b == exists|k: int|
            0 <= k < devices@.len() && (#[trigger] device_models(devices@)[k]).mac == mac,
{
    let ghost dm = device_models(devices@);
    let mut k: usize = 0;
    while k < devices.len()
        invariant
            k <= devices@.len(),
            dm == device_models(devices@),
            forall|j: int| 0 <= j < k ==> (#[trigger] dm[j]).mac != mac,
        decreases devices.len() - k,
    {
        if devices[k].mac.bits == mac {
            assert(dm[k as int].mac == mac);
            return true;
        }
        k = k + 1;
    }
    false
}

impl TrafficMeter {
    pub fn new() -> (m: TrafficMeter)
        ensures
            m@.seen.len() == 0,
            m@.last is None,
            m@.history.len() == 0,
            m@.total_down == 0,
            m@.total_up == 0,
            m@.down_bps == 0,
            m@.up_bps == 0,
    {
        let m = TrafficMeter {
            seen: Vec::new(),
            last: None,
            total_down: 0,
            total_up: 0,
            down_bps: 0,
            up_bps: 0,
            history: Vec::new(),
        };
        assert(seen_models(m.seen@) =~= Seq::empty());
        m
    }

    /// Forgets everything: called when the hotspot stops, so that the next session starts
    /// from zero.
    pub fn reset(&mut self)
        ensures
            final(self)@.seen.len() == 0,
            final(self)@.last is None,
            final(self)@.history.len() == 0,
            final(self)@.total_down == 0,
            final(self)@.total_up == 0,
            final(self)@.down_bps == 0,
            final(self)@.up_bps == 0,
    {
        *self = TrafficMeter::new();
    }

    /// Both ways together.
    pub fn total_bytes(&self) -> (r: u64)
        ensures
            r == cap(self@.total_down + self@.total_up),
    {
        sum_capped(self.total_down, self.total_up)
    }

    /// One device's rate (bytes per second): download and upload; an unknown device has none.
    pub fn rate_of(&self, mac: &Mac) -> (r: (u64, u64))
        ensures
            match entry_of(self@.seen, mac.bits) {
                Some(i) => r == (self@.seen[i].down_bps, self@.seen[i].up_bps),
                None => r == (0u64, 0u64),
            },
    {
        match find_seen(&self.seen, mac.bits) {
            Some(i) => (self.seen[i].down_bps, self.seen[i].up_bps),
            None => (0, 0),
        }
    }

    /// The graph's values: download and upload rates added up, per poll, oldest first.
    pub fn history(&self) -> (r: &[u64])
        ensures
            r@ == self@.history,
    {
        self.history.as_slice()
    }

    /// Takes in one device of a poll (see `absorb`).
    fn absorb_one(&mut self, d: &Device, ns: Option<u64>, down_delta: &mut u64, up_delta: &mut u64)
        requires
            ns matches Some(n) ==> n > 0,
        ensures
            (Tally { seen: final(self)@.seen, down: *final(down_delta), up: *final(up_delta) })
                == absorb(
                Tally { seen: old(self)@.seen, down: *old(down_delta), up: *old(up_delta) },
                d@,
                ns,
            ),
            final(self)@.last == old(self)@.last,
            final(self)@.history == old(self)@.history,
            final(self)@.total_down == old(self)@.total_down,
            final(self)@.total_up == old(self)@.total_up,
            final(self)@.down_bps == old(self)@.down_bps,
            final(self)@.up_bps == old(self)@.up_bps,
    {
        let down = d.down_bytes();
        let up = d.up_bytes();
        let ghost before = seen_models(self.seen@);
        match find_seen(&self.seen, d.mac.bits) {
            Some(k) => {
                let prev = self.seen[k];
                let g_down = if down < prev.down {
                    down
                } else {
                    down - prev.down
                };
                let g_up = if up < prev.up {
                    up
                } else {
                    up - prev.up
                };
                *down_delta = sum_capped(*down_delta, g_down);
                *up_delta = sum_capped(*up_delta, g_up);
                let (down_bps, up_bps) = match ns {
                    Some(n) => {
                        let gd: u64 = if down < prev.down {
                            0
                        } else {
                            down - prev.down
                        };
                        let gu: u64 = if up < prev.up {
                            0
                        } else {
                            up - prev.up
                        };
                        (per_sec_exec(gd as u128, n), per_sec_exec(gu as u128, n))
                    },
                    None => (prev.down_bps, prev.up_bps),
                };
                self.seen.set(k, Seen { mac: prev.mac, down, up, down_bps, up_bps });
                assert(seen_models(self.seen@) =~= before.update(
                    k as int,
                    SeenModel { mac: prev.mac.bits, down, up, down_bps, up_bps },
                ));
            },
            None => {
                *down_delta = sum_capped(*down_delta, down);
                *up_delta = sum_capped(*up_delta, up);
                self.seen.push(Seen { mac: d.mac, down, up, down_bps: 0, up_bps: 0 });
                assert(seen_models(self.seen@) =~= before.push(
                    SeenModel { mac: d.mac.bits, down, up, down_bps: 0, up_bps: 0 },
                ));
            },
        }
    }

    /// Keeps the entries of devices still in the poll (see `still_here`).
    fn keep_present(&mut self, devices: &[Device])
        ensures
            final(self)@.seen == filter_map(old(self)@.seen, still_here(device_models(devices@))),
            final(self)@.last == old(self)@.last,
            final(self)@.history == old(self)@.history,
            final(self)@.total_down == old(self)@.total_down,
            final(self)@.total_up == old(self)@.total_up,
            final(self)@.down_bps == old(self)@.down_bps,
            final(self)@.up_bps == old(self)@.up_bps,
    {
        let ghost f = still_here(device_models(devices@));
        let ghost m = seen_models(self.seen@);
        let mut kept: Vec<Seen> = Vec::new();
        let mut j: usize = 0;
        while j < self.seen.len()
            invariant
                j <= self.seen@.len(),
                m == seen_models(self.seen@),
                f == still_here(device_models(devices@)),
                seen_models(kept@) == filter_map(m.take(j as int), f),
            decreases self.seen.len() - j,
        {
            proof {
                lemma_filter_map_step(m, f, j as int);
            }
            let s = self.seen[j];
            if present(devices, s.mac.bits) {
                let ghost k0 = seen_models(kept@);
                kept.push(s);
                assert(seen_models(kept@) =~= k0.push(s@));
            }
            j = j + 1;
        }
        proof {
            lemma_filter_map_all(m, f);
        }
        self.seen = kept;
    }

    /// A new poll of the devices at time `now` (see `absorb_all`, `still_here`,
    /// `push_history`). A poll too soon after the last one changes nothing. Without an
    /// earlier poll the bytes are counted but there is no rate yet. The session totals never
    /// go down.
    pub fn update(&mut self, devices: &[Device], now: u64)
        ensures
            too_soon(old(self)@.last, now) ==> (final(self)@ == old(self)@ && final(self)@.total_down
                == old(self)@.total_down && final(self)@.total_up == old(self)@.total_up
                && final(self)@.down_bps == old(self)@.down_bps && final(self)@.up_bps == old(
                self,
            )@.up_bps),
            !too_soon(old(self)@.last, now) ==> ({
                let ns = elapsed(old(self)@.last, now);
                let t = absorb_all(
                    Tally { seen: old(self)@.seen, down: 0, up: 0 },
                    device_models(devices@),
                    ns,
                );
                &&& final(self)@.seen == filter_map(t.seen, still_here(device_models(devices@)))
                &&& final(self)@.last == Some(now)
                &&& final(self)@.total_down == cap(old(self)@.total_down + t.down)
                &&& final(self)@.total_up == cap(old(self)@.total_up + t.up)
                &&& (ns matches Some(n) ==> (final(self)@.down_bps == per_sec(t.down as int, n)
                    && final(self)@.up_bps == per_sec(t.up as int, n) && final(self)@.history
                    == push_history(old(self)@.history, per_sec(t.down + t.up, n))))
                &&& (ns is None ==> (final(self)@.down_bps == old(self)@.down_bps
                    && final(self)@.up_bps == old(self)@.up_bps && final(self)@.history == old(
                    self,
                )@.history))
            }),
            final(self)@.total_down >= old(self)@.total_down,
            final(self)@.total_up >= old(self)@.total_up,
            old(self)@.history.len() <= HISTORY_LEN ==> final(self)@.history.len() <= HISTORY_LEN,
    {
        let ns: Option<u64> = match self.last {
            Some(l) => Some(
                if now >= l {
                    now - l
                } else {
                    0
                },
            ),
            None => None,
        };
        match ns {
            Some(e) => {
                if e < MIN_INTERVAL_NS {
                    return;
                }
            },
            None => {},
        }
        let ghost dm = device_models(devices@);
        let ghost start = Tally { seen: self@.seen, down: 0, up: 0 };
        let ghost old_history = self@.history;
        let ghost old_total_down = self.total_down;
        let ghost old_total_up = self.total_up;
        let ghost old_down_bps = self.down_bps;
        let ghost old_up_bps = self.up_bps;
        let mut down_delta: u64 = 0;
        let mut up_delta: u64 = 0;
        let mut i: usize = 0;
        while i < devices.len()
            invariant
                i <= devices@.len(),
                dm == device_models(devices@),
                ns == elapsed(self@.last, now),
                ns matches Some(n) ==> n >= MIN_INTERVAL_NS,
                self@.history == old_history,
                self@.total_down == old_total_down,
                self@.total_up == old_total_up,
                self@.down_bps == old_down_bps,
                self@.up_bps == old_up_bps,
                (Tally { seen: self@.seen, down: down_delta, up: up_delta }) == absorb_all(
                    start,
                    dm.take(i as int),
                    ns,
                ),
            decreases devices.len() - i,
        {
            proof {
                assert(dm.take(i + 1).drop_last() =~= dm.take(i as int));
            }
            self.absorb_one(&devices[i], ns, &mut down_delta, &mut up_delta);
            i = i + 1;
        }
        proof {
            assert(dm.take(devices@.len() as int) =~= dm);
        }
        self.keep_present(devices);
        self.total_down = sum_capped(self.total_down, down_delta);
        self.total_up = sum_capped(self.total_up, up_delta);
        match ns {
            Some(n) => {
                self.down_bps = per_sec_exec(down_delta as u128, n);
                self.up_bps = per_sec_exec(up_delta as u128, n);
                let v = per_sec_exec(down_delta as u128 + up_delta as u128, n);
                let ghost h0 = self.history@;
                if self.history.len() == HISTORY_LEN {
                    self.history.remove(0);
                }
                self.history.push(v);
                assert(self.history@ =~= push_history(h0, v));
            },
            None => {},
        }
        self.last = Some(now);
    }
}

} // verus!
