//! Decisions of the background service that do not depend on how it talks to the world.

use vstd::prelude::*;
use crate::backend::HotspotState;
use crate::devices::{Device, DeviceModel, DeviceStatus, device_models};
use crate::access::AccessChange;
use crate::ipc::{Event, Request, Response, WireState};
use crate::proto::Mac;
use crate::config::Config;
use crate::text::{
    chars_eq, filter_map, lemma_filter_map_all, lemma_filter_map_member, lemma_filter_map_step,
    str_chars, trim, trim_exec,
};

verus! {

/// Where the hotspot timer counts from: the first time from when the hotspot was switched
/// on (or now, when that is unknown), after the setting changed from now, else as before.
pub open spec fn timer_base_spec<T>(prev: Option<(u32, T)>, minutes: u32, since: Option<T>, now: T) -> T {
    match prev {
        Some((m, base)) => if m == minutes {
            base
        } else {
            now
        },
        None => match since {
            Some(s) => s,
            None => now,
        },
    }
}

pub fn timer_base<T: Copy>(prev: Option<(u32, T)>, minutes: u32, since: Option<T>, now: T) -> (r: T)
    ensures
        r == timer_base_spec(prev, minutes, since, now),
{
    match prev {
        Some((m, base)) => if m == minutes {
            base
        } else {
            now
        },
        None => match since {
            Some(s) => s,
            None => now,
        },
    }
}

pub open spec fn wire_of(state: HotspotState) -> WireState {
    match state {
        HotspotState::Off => WireState::Off,
        HotspotState::Starting => WireState::Starting,
        HotspotState::On { .. } => WireState::On,
        HotspotState::Error(_) => WireState::Error,
    }
}

/// The hotspot state as clients see it.
pub fn wire_state(state: &HotspotState) -> (r: WireState)
    ensures
        r == wire_of(*state),
{
    match state {
        HotspotState::Off => WireState::Off,
        HotspotState::Starting => WireState::Starting,
        HotspotState::On { .. } => WireState::On,
        HotspotState::Error(_) => WireState::Error,
    }
}

// ---------------------------------------------------------------------------------------
// Idle and timer switch-off
// ---------------------------------------------------------------------------------------
/// How long before switching off the user is warned.
pub const IDLE_WARN_MINUTES: u32 = 1;

pub const TIMER_WARN_MINUTES: u32 = 1;

/// What a watch asks the service to do on this tick.
#[derive(Debug, Clone, Copy, PartialEq, Eq, Structural)]
pub enum WatchAction {
    Nothing,
    /// Tell clients the hotspot goes off in a minute.
    Warn,
    /// Turn the hotspot off now.
    Stop,
}

/// The idle watch: since when nobody has been connected (seconds on a monotonic clock) and
/// whether the warning went out.
#[derive(Debug, Clone, Copy, PartialEq, Eq, Structural)]
pub struct IdleWatch {
    pub since: Option<u64>,
    pub warned: bool,
}

/// One tick of the idle watch. It runs only while the hotspot is on with an idle limit set,
/// nobody connected and the device list read without errors (a list that cannot be read is
/// not "nobody": the hotspot must not go off under its guests). Past the limit the hotspot
/// goes off; a minute before, the user is warned once.
pub open spec fn idle_next(
    w: IdleWatch,
    minutes: u32,
    on: bool,
    nobody: bool,
    scan_ok: bool,
    now: u64,
) -> (IdleWatch, WatchAction) {
    if minutes == 0 || !on || !nobody || !scan_ok {
        (IdleWatch { since: None, warned: false }, WatchAction::Nothing)
    } else {
        let since = match w.since {
            Some(s) => s,
            None => now,
        };
        let limit = minutes * 60;
        let elapsed = if now >= since {
            now - since
        } else {
            0
        };
        if elapsed >= limit {
            (IdleWatch { since: None, warned: false }, WatchAction::Stop)
        } else if !w.warned && limit - elapsed <= IDLE_WARN_MINUTES * 60 {
            (IdleWatch { since: Some(since), warned: true }, WatchAction::Warn)
        } else {
            (IdleWatch { since: Some(since), warned: w.warned }, WatchAction::Nothing)
        }
    }
}

pub fn idle_step(w: IdleWatch, minutes: u32, on: bool, nobody: bool, scan_ok: bool, now: u64) -> (r: (
    IdleWatch,
    WatchAction,
))
    ensures
        r == idle_next(w, minutes, on, nobody, scan_ok, now),
{
    if minutes == 0 || !on || !nobody || !scan_ok {
        return (IdleWatch { since: None, warned: false }, WatchAction::Nothing);
    }
    let since = match w.since {
        Some(s) => s,
        None => now,
    };
    let limit: u64 = minutes as u64 * 60;
    let elapsed = if now >= since {
        now - since
    } else {
        0
    };
    if elapsed >= limit {
        (IdleWatch { since: None, warned: false }, WatchAction::Stop)
    } else if !w.warned && limit - elapsed <= IDLE_WARN_MINUTES as u64 * 60 {
        (IdleWatch { since: Some(since), warned: true }, WatchAction::Warn)
    } else {
        (IdleWatch { since: Some(since), warned: w.warned }, WatchAction::Nothing)
    }
}

/// The hotspot timer: the minutes it was set to and the moment it counts from (Unix
/// seconds), and whether the warning went out.
#[derive(Debug, Clone, Copy, PartialEq, Eq)]
pub struct TimerWatch {
    pub timer: Option<(u32, u64)>,
    pub warned: bool,
}

/// One tick of the hotspot timer. Off, it forgets; without a timer it remembers "no timer
/// since now", so that a timer set later counts from then; otherwise it counts from
/// `timer_base_spec` and switches off at the limit, warning a minute before (once per
/// setting).
pub open spec fn timer_next(
    w: TimerWatch,
    minutes: u32,
    on: bool,
    started: Option<u64>,
    now: u64,
) -> (TimerWatch, WatchAction) {
    if !on {
        (TimerWatch { timer: None, warned: false }, WatchAction::Nothing)
    } else if minutes == 0 {
        (TimerWatch { timer: Some((0, now)), warned: false }, WatchAction::Nothing)
    } else {
        let base = timer_base_spec(w.timer, minutes, started, now);
        let warned = if w.timer matches Some((m, _)) && m != minutes {
            false
        } else {
            w.warned
        };
        let limit = minutes * 60;
        let elapsed = if now >= base {
            now - base
        } else {
            0
        };
        if elapsed >= limit {
            (TimerWatch { timer: None, warned: false }, WatchAction::Stop)
        } else if !warned && limit - elapsed <= TIMER_WARN_MINUTES * 60 {
            (TimerWatch { timer: Some((minutes, base)), warned: true }, WatchAction::Warn)
        } else {
            (TimerWatch { timer: Some((minutes, base)), warned }, WatchAction::Nothing)
        }
    }
}

pub fn timer_step(w: TimerWatch, minutes: u32, on: bool, started: Option<u64>, now: u64) -> (r: (
    TimerWatch,
    WatchAction,
))
    ensures
        r == timer_next(w, minutes, on, started, now),
{
    if !on {
        return (TimerWatch { timer: None, warned: false }, WatchAction::Nothing);
    }
    if minutes == 0 {
        return (TimerWatch { timer: Some((0, now)), warned: false }, WatchAction::Nothing);
    }
    let base = timer_base(w.timer, minutes, started, now);
    let warned = match w.timer {
        Some((m, _)) => if m != minutes {
            false
        } else {
            w.warned
        },
        None => w.warned,
    };
    let limit: u64 = minutes as u64 * 60;
    let elapsed = if now >= base {
        now - base
    } else {
        0
    };
    if elapsed >= limit {
        (TimerWatch { timer: None, warned: false }, WatchAction::Stop)
    } else if !warned && limit - elapsed <= TIMER_WARN_MINUTES as u64 * 60 {
        (TimerWatch { timer: Some((minutes, base)), warned: true }, WatchAction::Warn)
    } else {
        (TimerWatch { timer: Some((minutes, base)), warned }, WatchAction::Nothing)
    }
}

/// The watches never switch the hotspot off while it is off, and the idle watch never while
/// someone is connected or the device list cannot be read.
pub proof fn lemma_watches_stop_only_when_due(
    w: IdleWatch,
    t: TimerWatch,
    minutes: u32,
    on: bool,
    nobody: bool,
    scan_ok: bool,
    started: Option<u64>,
    now: u64,
)
    ensures
        idle_next(w, minutes, on, nobody, scan_ok, now).1 == WatchAction::Stop ==> (on && nobody
            && scan_ok && minutes > 0),
        timer_next(t, minutes, on, started, now).1 == WatchAction::Stop ==> (on && minutes > 0),
{
}

// ---------------------------------------------------------------------------------------
// Who came and who left
// ---------------------------------------------------------------------------------------
/// A device the service knows from the last poll: its MAC and the name to tell.
#[derive(Debug, Clone, PartialEq, Eq)]
pub struct Known {
    pub mac: Mac,
    pub name: String,
}

pub ghost struct KnownModel {
    pub mac: u64,
    pub name: Seq<char>,
}

impl View for Known {
    type V = KnownModel;

    open spec fn view(&self) -> KnownModel {
        KnownModel { mac: self.mac.bits, name: self.name@ }
    }
}

pub open spec fn known_models(v: Seq<Known>) -> Seq<KnownModel> {
    v.map_values(|k: Known| k@)
}

/// The known devices that are not in the poll any more.
pub open spec fn gone_of(devs: Seq<DeviceModel>) -> spec_fn(KnownModel) -> Option<KnownModel> {
    |k: KnownModel|
        if exists|i: int| 0 <= i < devs.len() && (#[trigger] devs[i]).mac == k.mac {
            None
        } else {
            Some(k)
        }
}

/// The devices of the poll the service did not know.
pub open spec fn fresh_of(known: Seq<KnownModel>) -> spec_fn(DeviceModel) -> Option<DeviceModel> {
    |d: DeviceModel|
        if exists|i: int| 0 <= i < known.len() && (#[trigger] known[i]).mac == d.mac {
            None
        } else {
            Some(d)
        }
}

fn in_poll(devices: &[Device], mac: u64) -> (b: bool)
    ensures
        b == exists|i: int|
            0 <= i < devices@.len() && (#[trigger] device_models(devices@)[i]).mac == mac,
{
    let ghost dm = device_models(devices@);
    let mut i: usize = 0;
    while i < devices.len()
        invariant
            i <= devices@.len(),
            dm == device_models(devices@),
            forall|k: int| 0 <= k < i ==> (#[trigger] dm[k]).mac != mac,
        decreases devices.len() - i,
    {
        if devices[i].mac.bits == mac {
            assert(dm[i as int].mac == mac);
            return true;
        }
        i = i + 1;
    }
    false
}

fn is_known(known: &[Known], mac: u64) -> (b: bool)
    ensures
        b == exists|i: int|
            0 <= i < known@.len() && (#[trigger] known_models(known@)[i]).mac == mac,
{
    let ghost km = known_models(known@);
    let mut i: usize = 0;
    while i < known.len()
        invariant
            i <= known@.len(),
            km == known_models(known@),
            forall|k: int| 0 <= k < i ==> (#[trigger] km[k]).mac != mac,
        decreases known.len() - i,
    {
        if known[i].mac.bits == mac {
            assert(km[i as int].mac == mac);
            return true;
        }
        i = i + 1;
    }
    false
}

/// Who left (MAC and name, for the notification) and who came since the last poll.
pub fn diff_devices(known: &[Known], devices: &[Device]) -> (r: (Vec<Known>, Vec<Device>))
    ensures
        known_models(r.0@) == filter_map(known_models(known@), gone_of(device_models(devices@))),
        device_models(r.1@) == filter_map(device_models(devices@), fresh_of(known_models(known@))),
{
    let ghost fg = gone_of(device_models(devices@));
    let ghost km = known_models(known@);
    let mut gone: Vec<Known> = Vec::new();
    let mut i: usize = 0;
    while i < known.len()
        invariant
            i <= known@.len(),
            fg == gone_of(device_models(devices@)),
            km == known_models(known@),
            known_models(gone@) == filter_map(km.take(i as int), fg),
        decreases known.len() - i,
    {
        proof {
            lemma_filter_map_step(km, fg, i as int);
        }
        if !in_poll(devices, known[i].mac.bits) {
            let ghost before = known_models(gone@);
            let k = Known { mac: known[i].mac, name: known[i].name.clone() };
            gone.push(k);
            assert(known_models(gone@) =~= before.push(km[i as int]));
        }
        i = i + 1;
    }
    proof {
        lemma_filter_map_all(km, fg);
    }
    let ghost ff = fresh_of(km);
    let ghost dm = device_models(devices@);
    let mut fresh: Vec<Device> = Vec::new();
    let mut j: usize = 0;
    while j < devices.len()
        invariant
            j <= devices@.len(),
            km == known_models(known@),
            ff == fresh_of(km),
            dm == device_models(devices@),
            device_models(fresh@) == filter_map(dm.take(j as int), ff),
        decreases devices.len() - j,
    {
        proof {
            lemma_filter_map_step(dm, ff, j as int);
        }
        if !is_known(known, devices[j].mac.bits) {
            let ghost before = device_models(fresh@);
            let d = devices[j].with_status(devices[j].status);
            assert(d@ == dm[j as int]);
            fresh.push(d);
            assert(device_models(fresh@) =~= before.push(dm[j as int]));
        }
        j = j + 1;
    }
    proof {
        lemma_filter_map_all(dm, ff);
    }
    (gone, fresh)
}

// ---------------------------------------------------------------------------------------
// The firewall rules of a running hotspot
// ---------------------------------------------------------------------------------------
/// Ticks to wait after the hotspot came on before the service applies its own rules: who
/// switched it on finishes first.
pub const RULES_AFTER_TICKS: u32 = 2;

/// Seconds to wait before the next attempt after this many failed ones: without a pause a
/// refusing helper would be asked every second.
pub open spec fn retry_delay_spec(attempts: u64) -> u64 {
    if attempts == 0 {
        1
    } else if attempts == 1 {
        2
    } else if attempts == 2 {
        5
    } else if attempts == 3 {
        15
    } else {
        30
    }
}

pub fn retry_delay(attempts: u64) -> (r: u64)
    ensures
        r == retry_delay_spec(attempts),
{
    if attempts == 0 {
        1
    } else if attempts == 1 {
        2
    } else if attempts == 2 {
        5
    } else if attempts == 3 {
        15
    } else {
        30
    }
}

/// The settings the firewall rules depend on.
#[derive(Debug, Clone, PartialEq, Eq)]
pub struct RulesKey {
    pub approval: bool,
    pub guests_reach_pc: bool,
    /// The uplink named in the settings ("" for automatic).
    pub uplink: String,
}

pub ghost struct RulesKeyModel {
    pub approval: bool,
    pub guests_reach_pc: bool,
    pub uplink: Seq<char>,
}

impl View for RulesKey {
    type V = RulesKeyModel;

    open spec fn view(&self) -> RulesKeyModel {
        RulesKeyModel {
            approval: self.approval,
            guests_reach_pc: self.guests_reach_pc,
            uplink: self.uplink@,
        }
    }
}

/// What the rules must be for these settings.
pub fn rules_key(cfg: &Config) -> (k: RulesKey)
    ensures
        k@ == (RulesKeyModel {
            approval: cfg.access.approval_required,
            guests_reach_pc: cfg.hotspot.guests_can_reach_pc,
            uplink: trim(cfg.network.uplink_interface@),
        }),
{
    let cs = str_chars(cfg.network.uplink_interface.as_str());
    let t = trim_exec(cs.as_slice());
    RulesKey {
        approval: cfg.access.approval_required,
        guests_reach_pc: cfg.hotspot.guests_can_reach_pc,
        uplink: crate::text::chars_to_string(t.as_slice()),
    }
}

fn same_key(a: &RulesKey, b: &RulesKey) -> (r: bool)
    ensures
        r == (a@ == b@),
{
    let x = str_chars(a.uplink.as_str());
    let y = str_chars(b.uplink.as_str());
    a.approval == b.approval && a.guests_reach_pc == b.guests_reach_pc && chars_eq(
        x.as_slice(),
        y.as_slice(),
    )
}

/// The service's record of the rules of this hotspot: with which settings they were applied,
/// when to try again after a failure and after how many, and whether it gave up (the helper
/// is missing or was refused).
#[derive(Debug, Clone, PartialEq, Eq)]
pub struct RulesWatch {
    pub applied: Option<RulesKey>,
    /// Monotonic seconds.
    pub retry_at: Option<u64>,
    pub attempts: u64,
    pub giveup: bool,
}

pub ghost struct RulesWatchModel {
    pub applied: Option<RulesKeyModel>,
    pub retry_at: Option<u64>,
    pub attempts: u64,
    pub giveup: bool,
}

impl View for RulesWatch {
    type V = RulesWatchModel;

    open spec fn view(&self) -> RulesWatchModel {
        RulesWatchModel {
            applied: match self.applied {
                Some(k) => Some(k@),
                None => None,
            },
            retry_at: self.retry_at,
            attempts: self.attempts,
            giveup: self.giveup,
        }
    }
}

/// The rules are applied now: the hotspot is on long enough, the service has not given up,
/// no pause is running, and they are not applied with these settings already.
pub open spec fn rules_due_spec(
    w: RulesWatchModel,
    on: bool,
    on_ticks: u32,
    now: u64,
    want: RulesKeyModel,
) -> bool {
    &&& on
    &&& on_ticks >= RULES_AFTER_TICKS
    &&& !w.giveup
    &&& !(w.retry_at matches Some(t) && now < t)
    &&& w.applied != Some(want)
}

impl RulesWatch {
    pub fn new() -> (w: RulesWatch)
        ensures
            w@ == (RulesWatchModel { applied: None, retry_at: None, attempts: 0, giveup: false }),
    {
        RulesWatch { applied: None, retry_at: None, attempts: 0, giveup: false }
    }

    pub fn due(&self, on: bool, on_ticks: u32, now: u64, want: &RulesKey) -> (b: bool)
        ensures
            b == rules_due_spec(self@, on, on_ticks, now, want@),
    {
        if !on || on_ticks < RULES_AFTER_TICKS || self.giveup {
            return false;
        }
        match self.retry_at {
            Some(t) => if now < t {
                return false;
            },
            None => {},
        }
        match &self.applied {
            Some(k) => !same_key(k, want),
            None => true,
        }
    }

    /// The rules were applied with these settings: the failures are forgotten.
    pub fn applied(&mut self, key: RulesKey)
        ensures
            final(self)@ == (RulesWatchModel {
                applied: Some(key@),
                retry_at: None,
                attempts: 0,
                giveup: old(self)@.giveup,
            }),
    {
        self.applied = Some(key);
        self.retry_at = None;
        self.attempts = 0;
    }

    /// An attempt failed. Without the helper (missing or refused) trying again is useless
    /// until the hotspot is switched on anew; otherwise the next try waits longer each time.
    pub fn failed(&mut self, hopeless: bool, now: u64)
        requires
            !hopeless ==> now + 30 <= u64::MAX && old(self).attempts < u64::MAX,
        ensures
            hopeless ==> final(self)@ == (RulesWatchModel { giveup: true, ..old(self)@ }),
            !hopeless ==> final(self)@ == (RulesWatchModel {
                retry_at: Some((now + retry_delay_spec(old(self).attempts)) as u64),
                attempts: (old(self).attempts + 1) as u64,
                ..old(self)@
            }),
    {
        if hopeless {
            self.giveup = true;
            return;
        }
        let delay = retry_delay(self.attempts);
        self.retry_at = Some(now + delay);
        self.attempts = self.attempts + 1;
    }

    /// Approval mode really works: the rules with the allow list are applied.
    pub fn approval_active(&self) -> (b: bool)
        ensures
            b == (self@.applied matches Some(k) && k.approval),
    {
        match &self.applied {
            Some(k) => k.approval,
            None => false,
        }
    }

    /// A new hotspot: the failures are forgotten (what was applied stays until the session
    /// ends).
    pub fn restart(&mut self)
        ensures
            final(self)@ == (RulesWatchModel {
                retry_at: None,
                attempts: 0,
                giveup: false,
                ..old(self)@
            }),
    {
        self.retry_at = None;
        self.attempts = 0;
        self.giveup = false;
    }

    /// The hotspot went off: nothing is applied any more.
    pub fn end(&mut self)
        ensures
            final(self)@ == (RulesWatchModel {
                applied: None,
                retry_at: None,
                attempts: 0,
                giveup: false,
            }),
    {
        self.applied = None;
        self.retry_at = None;
        self.attempts = 0;
        self.giveup = false;
    }
}

/// Once given up, the service does not try again, whatever the settings or the time; after
/// a failure it waits at least a second; after a success it does not apply the same
/// settings again; and the pauses never get shorter.
pub proof fn lemma_rules_retry_laws(
    w: RulesWatchModel,
    on: bool,
    on_ticks: u32,
    now: u64,
    later: u64,
    want: RulesKeyModel,
    a: u64,
    b: u64,
)
    ensures
        w.giveup ==> !rules_due_spec(w, on, on_ticks, later, want),
        (w.retry_at == Some((now + retry_delay_spec(w.attempts)) as u64) && now + 30 <= u64::MAX
            && later <= now) ==> !rules_due_spec(w, on, on_ticks, later, want),
        w.applied == Some(want) ==> !rules_due_spec(w, on, on_ticks, later, want),
        a <= b ==> retry_delay_spec(a) <= retry_delay_spec(b),
{
}

// ---------------------------------------------------------------------------------------
// Questions about new devices
// ---------------------------------------------------------------------------------------
/// How many new devices the service asks about in one session, and about how many it
/// notifies the desktop: a guest who knows the password could change the MAC round and
/// round.
pub const MAX_ASKED: usize = 32;

pub const MAX_NEW_DEVICE_NOTIFICATIONS: u32 = 10;

pub open spec fn mac_bits(v: Seq<Mac>) -> Seq<u64> {
    v.map_values(|m: Mac| m.bits)
}

/// Waiting for approval and not asked about yet.
pub open spec fn waiting_of(asked: Seq<u64>) -> spec_fn(DeviceModel) -> Option<DeviceModel> {
    |d: DeviceModel|
        if d.status == DeviceStatus::Pending && !asked.contains(d.mac) {
            Some(d)
        } else {
            None
        }
}

pub open spec fn waiting(devs: Seq<DeviceModel>, asked: Seq<u64>) -> Seq<DeviceModel> {
    filter_map(devs, waiting_of(asked))
}

/// How many are asked about: the waiting ones, as far as the session's limit allows.
pub open spec fn ask_count(devs: Seq<DeviceModel>, asked: Seq<u64>) -> int {
    let room = if asked.len() < MAX_ASKED {
        MAX_ASKED - asked.len()
    } else {
        0
    };
    let n = waiting(devs, asked).len() as int;
    if n < room {
        n
    } else {
        room
    }
}

/// The `i`-th question of a step that began with `notes` notifications sent goes to the
/// desktop too.
pub open spec fn notified(notes: u32, i: int) -> bool {
    notes + i < MAX_NEW_DEVICE_NOTIFICATIONS
}

pub open spec fn notes_after(notes: u32, k: int) -> u32 {
    if notes >= MAX_NEW_DEVICE_NOTIFICATIONS {
        notes
    } else if notes + k <= MAX_NEW_DEVICE_NOTIFICATIONS {
        (notes + k) as u32
    } else {
        MAX_NEW_DEVICE_NOTIFICATIONS
    }
}

fn was_asked(asked: &[Mac], mac: u64) -> (b: bool)
    ensures
        b == mac_bits(asked@).contains(mac),
{
    let ghost mb = mac_bits(asked@);
    let mut i: usize = 0;
    while i < asked.len()
        invariant
            i <= asked@.len(),
            mb == mac_bits(asked@),
            forall|k: int| 0 <= k < i ==> mb[k] != mac,
        decreases asked.len() - i,
    {
        if asked[i].bits == mac {
            assert(mb[i as int] == mac);
            return true;
        }
        i = i + 1;
    }
    false
}

/// Asks about the devices that wait for approval and were not asked about in this session:
/// each question carries the device and whether the desktop is notified too. The devices
/// asked about are remembered; past the session's limits nobody more is asked about or
/// notified.
pub fn ask_pending(devices: &[Device], asked: &mut Vec<Mac>, notes: &mut u32) -> (q: Vec<(Device, bool)>)
    ensures
        q@.len() == ask_count(device_models(devices@), mac_bits(old(asked)@)),
        forall|i: int|
            0 <= i < q@.len() ==> (#[trigger] q@[i]).0@ == waiting(
                device_models(devices@),
                mac_bits(old(asked)@),
            )[i] && q@[i].1 == notified(*old(notes), i),
        mac_bits(final(asked)@) == mac_bits(old(asked)@) + waiting(
            device_models(devices@),
            mac_bits(old(asked)@),
        ).take(q@.len() as int).map_values(|d: DeviceModel| d.mac),
        *final(notes) == notes_after(*old(notes), q@.len() as int),
{
    let ghost dm = device_models(devices@);
    let ghost a0 = mac_bits(asked@);
    let ghost f = waiting_of(a0);
    let mut wait: Vec<Device> = Vec::new();
    let mut i: usize = 0;
    while i < devices.len()
        invariant
            i <= devices@.len(),
            dm == device_models(devices@),
            a0 == mac_bits(asked@),
            f == waiting_of(a0),
            device_models(wait@) == filter_map(dm.take(i as int), f),
        decreases devices.len() - i,
    {
        proof {
            lemma_filter_map_step(dm, f, i as int);
        }
        let pending = match devices[i].status {
            DeviceStatus::Pending => true,
            _ => false,
        };
        if pending && !was_asked(asked.as_slice(), devices[i].mac.bits) {
            let ghost before = device_models(wait@);
            let d = devices[i].with_status(devices[i].status);
            assert(d@ == dm[i as int]);
            wait.push(d);
            assert(device_models(wait@) =~= before.push(dm[i as int]));
        }
        i = i + 1;
    }
    proof {
        lemma_filter_map_all(dm, f);
    }
    let ghost w = device_models(wait@);
    assert(w == waiting(dm, a0));
    let room: usize = if asked.len() < MAX_ASKED {
        MAX_ASKED - asked.len()
    } else {
        0
    };
    let k: usize = if wait.len() < room {
        wait.len()
    } else {
        room
    };
    let ghost n0 = *notes;
    let ghost asked0 = asked@;
    let mut q: Vec<(Device, bool)> = Vec::new();
    let mut j: usize = 0;
    while j < k
        invariant
            k <= wait@.len(),
            j <= k,
            w == device_models(wait@),
            q@.len() == j,
            forall|i: int| 0 <= i < j ==> (#[trigger] q@[i]).0@ == w[i] && q@[i].1 == notified(n0, i),
            mac_bits(asked@) == mac_bits(asked0) + w.take(j as int).map_values(|d: DeviceModel| d.mac),
            *notes == notes_after(n0, j as int),
        decreases k - j,
    {
        let d = wait[j].with_status(wait[j].status);
        assert(d@ == w[j as int]);
        let ghost before = mac_bits(asked@);
        asked.push(d.mac);
        assert(mac_bits(asked@) =~= before.push(d.mac.bits));
        assert(w.take(j + 1).map_values(|d: DeviceModel| d.mac) =~= w.take(j as int).map_values(
            |d: DeviceModel| d.mac,
        ).push(w[j as int].mac));
        let notify = *notes < MAX_NEW_DEVICE_NOTIFICATIONS;
        if notify {
            *notes = *notes + 1;
        }
        q.push((d, notify));
        j = j + 1;
    }
    q
}

/// What the step keeps, whatever the devices: the session never asks about more devices
/// than its limit nor notifies past its limit, and a question is only ever about a device
/// that waits for approval and was not asked about before.
pub proof fn lemma_questions_stay_bounded(devs: Seq<DeviceModel>, asked: Seq<u64>, notes: u32)
    ensures
        asked.len() <= MAX_ASKED ==> asked.len() + ask_count(devs, asked) <= MAX_ASKED,
        notes <= MAX_NEW_DEVICE_NOTIFICATIONS ==> notes_after(notes, ask_count(devs, asked))
            <= MAX_NEW_DEVICE_NOTIFICATIONS,
        forall|i: int|
            0 <= i < ask_count(devs, asked) ==> (#[trigger] waiting(devs, asked)[i]).status
                == DeviceStatus::Pending && !asked.contains(waiting(devs, asked)[i].mac),
{
    assert forall|i: int| 0 <= i < ask_count(devs, asked) implies (#[trigger] waiting(
        devs,
        asked,
    )[i]).status == DeviceStatus::Pending && !asked.contains(waiting(devs, asked)[i].mac) by {
        lemma_filter_map_member(devs, waiting_of(asked), i);
    }
}

/// A device that left is forgotten, so that it is asked about again when it comes back.
pub fn forget_asked(asked: &mut Vec<Mac>, mac: Mac)
    ensures
        mac_bits(final(asked)@) == filter_map(mac_bits(old(asked)@), other_than(mac.bits)),
{
    let ghost mb = mac_bits(asked@);
    let ghost f = other_than(mac.bits);
    let mut kept: Vec<Mac> = Vec::new();
    let mut i: usize = 0;
    while i < asked.len()
        invariant
            i <= asked@.len(),
            mb == mac_bits(asked@),
            f == other_than(mac.bits),
            mac_bits(kept@) == filter_map(mb.take(i as int), f),
        decreases asked.len() - i,
    {
        proof {
            lemma_filter_map_step(mb, f, i as int);
        }
        if asked[i].bits != mac.bits {
            let ghost before = mac_bits(kept@);
            kept.push(asked[i]);
            assert(mac_bits(kept@) =~= before.push(mb[i as int]));
        }
        i = i + 1;
    }
    proof {
        lemma_filter_map_all(mb, f);
    }
    *asked = kept;
}

pub open spec fn other_than(m: u64) -> spec_fn(u64) -> Option<u64> {
    |b: u64|
        if b == m {
            None
        } else {
            Some(b)
        }
}

// ---------------------------------------------------------------------------------------
// Pauses between actions
// ---------------------------------------------------------------------------------------
/// A blocked device is dropped from the network at most once in this many seconds.
pub const KICK_COOLDOWN_SECS: u64 = 10;

/// A blocked device is dropped again: never yet, or the last time (monotonic seconds) was
/// at least the pause ago.
pub fn kick_due(last: Option<u64>, now: u64) -> (b: bool)
    ensures
        b == match last {
            None => true,
            Some(t) => now >= t && now - t >= KICK_COOLDOWN_SECS,
        },
{
    match last {
        None => true,
        Some(t) => now >= t && now - t >= KICK_COOLDOWN_SECS,
    }
}

/// The leases are read (only for the devices' names) every this many seconds while a device
/// that came lately has no name yet, else seldom; a device that gave no name within a minute
/// will hardly give one.
pub const LEASES_EVERY_SECS: u64 = 15;

pub const LEASES_SLOW_SECS: u64 = 120;

pub const NAME_WAIT_SECS: u64 = 60;

pub open spec fn waits_for_name(d: DeviceModel) -> bool {
    d.hostname is None && d.connected_secs < NAME_WAIT_SECS
}

/// Read the leases now: the hotspot is on, someone is connected, the helper (which reads
/// them) is installed, and the pause since the last reading is over.
pub open spec fn leases_due_spec(on: bool, devs: Seq<DeviceModel>, helper: bool, last: Option<u64>, now: u64) -> bool {
    let interval = if exists|i: int| 0 <= i < devs.len() && waits_for_name(#[trigger] devs[i]) {
        LEASES_EVERY_SECS
    } else {
        LEASES_SLOW_SECS
    };
    on && devs.len() > 0 && helper && match last {
        None => true,
        Some(t) => now >= t && now - t >= interval,
    }
}

pub fn leases_due(on: bool, devices: &[Device], helper: bool, last: Option<u64>, now: u64) -> (b: bool)
    ensures
        b == leases_due_spec(on, device_models(devices@), helper, last, now),
{
    if !on || devices.len() == 0 || !helper {
        return false;
    }
    let ghost dm = device_models(devices@);
    let mut waiting_name = false;
    let mut i: usize = 0;
    while i < devices.len()
        invariant
            i <= devices@.len(),
            dm == device_models(devices@),
            waiting_name == exists|k: int| 0 <= k < i && waits_for_name(#[trigger] dm[k]),
        decreases devices.len() - i,
    {
        if devices[i].hostname.is_none() && devices[i].connected_secs < NAME_WAIT_SECS {
            assert(waits_for_name(dm[i as int]));
            waiting_name = true;
        }
        i = i + 1;
    }
    let interval = if waiting_name {
        LEASES_EVERY_SECS
    } else {
        LEASES_SLOW_SECS
    };
    match last {
        None => true,
        Some(t) => now >= t && now - t >= interval,
    }
}

// ---------------------------------------------------------------------------------------
// Requests of clients
// ---------------------------------------------------------------------------------------
pub open spec fn opt_text(o: Option<String>) -> Option<Seq<char>> {
    match o {
        Some(s) => Some(s@),
        None => None,
    }
}

/// The answer to `GetState`: the state, and while the hotspot is on its uplink and start
/// time; the number of devices; whether approval mode really works.
pub fn state_response(state: &HotspotState, devices_count: usize, approval: bool) -> (r: Response)
    ensures
        r matches Response::State { state: s, uplink: u, since: t, devices_count: c, approval: a }
            && s == wire_of(*state) && c == devices_count && a == approval && match *state {
            HotspotState::On { since, uplink, .. } => opt_text(u) == opt_text(uplink) && t == since,
            _ => u is None && t is None,
        },
{
    let (uplink, since) = match state {
        HotspotState::On { since, uplink, .. } => (
            match uplink {
                Some(u) => Some(u.clone()),
                None => None,
            },
            *since,
        ),
        _ => (None, None),
    };
    Response::State { state: wire_state(state), uplink, since, devices_count, approval }
}

/// The change of the access lists a request asks for (refusing a new device blocks it).
pub fn request_change(req: &Request) -> (r: Option<AccessChange>)
    ensures
        r == match *req {
            Request::Approve { mac } => Some(AccessChange::Allow(mac)),
            Request::Deny { mac } => Some(AccessChange::Block(mac)),
            Request::Block { mac } => Some(AccessChange::Block(mac)),
            Request::Unblock { mac } => Some(AccessChange::Unblock(mac)),
            _ => None,
        },
{
    match req {
        Request::Approve { mac } => Some(AccessChange::Allow(*mac)),
        Request::Deny { mac } => Some(AccessChange::Block(*mac)),
        Request::Block { mac } => Some(AccessChange::Block(*mac)),
        Request::Unblock { mac } => Some(AccessChange::Unblock(*mac)),
        _ => None,
    }
}

/// The event told to subscribed clients after a change of the access lists.
pub fn change_event(change: &AccessChange) -> (e: Event)
    ensures
        e == match *change {
            AccessChange::Allow(mac) => Event::DeviceApproved { mac },
            AccessChange::Block(mac) => Event::DeviceBlocked { mac },
            AccessChange::Unblock(mac) => Event::DeviceUnblocked { mac },
        },
{
    match change {
        AccessChange::Allow(mac) => Event::DeviceApproved { mac: *mac },
        AccessChange::Block(mac) => Event::DeviceBlocked { mac: *mac },
        AccessChange::Unblock(mac) => Event::DeviceUnblocked { mac: *mac },
    }
}

/// How a new hotspot state changes the session: a hotspot that came on starts a new one
/// (the device list starts empty), one that went off ends it.
#[derive(Debug, Clone, Copy, PartialEq, Eq, Structural)]
pub enum SessionChange {
    Begin,
    End,
    Same,
}

pub open spec fn is_on(s: HotspotState) -> bool {
    s is On
}

/// The state change clients are told about (none when the state looks the same to them) and
/// what it does to the session.
pub fn session_change(before: &HotspotState, after: &HotspotState) -> (r: (Option<WireState>, SessionChange))
    ensures
        r.0 == (if wire_of(*before) != wire_of(*after) {
            Some(wire_of(*after))
        } else {
            None
        }),
        r.1 == (if !is_on(*before) && is_on(*after) {
            SessionChange::Begin
        } else if is_on(*before) && !is_on(*after) {
            SessionChange::End
        } else {
            SessionChange::Same
        }),
{
    let b = wire_state(before);
    let a = wire_state(after);
    let event = if b != a {
        Some(a)
    } else {
        None
    };
    let was_on = match before {
        HotspotState::On { .. } => true,
        _ => false,
    };
    let now_on = match after {
        HotspotState::On { .. } => true,
        _ => false,
    };
    let change = if !was_on && now_on {
        SessionChange::Begin
    } else if was_on && !now_on {
        SessionChange::End
    } else {
        SessionChange::Same
    };
    (event, change)
}

} // verus!
