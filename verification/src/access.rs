//! Device access lists: approved devices and the block list. One change updates both the
//! firewall (through the root helper) and the settings, so the rules are the same after the
//! hotspot restarts.

use vstd::prelude::*;
use crate::config::Config;
use crate::devices::{Device, DeviceModel, DeviceStatus, device_models};
use crate::error::CoreError;
use crate::hotspot::mac_bits;
use crate::proto::{HelperRequest, Iface, MAX_MAC_LIST, Mac, mac_text, parse_mac};
use crate::settings::DeviceAction;
use crate::text::{
    ascii_lower, ascii_lower_exec, chars_eq, chars_to_string, filter_map, lemma_filter_map_all,
    lemma_filter_map_step, str_chars, strs,
};

verus! {

broadcast use vstd::slice::group_slice_axioms;

/// A change of the access lists.
#[derive(Debug, Clone, Copy, PartialEq, Eq, Structural)]
pub enum AccessChange {
    /// Allow (and take off the block list, if it was there).
    Allow(Mac),
    /// Block: no access, and the device is dropped from the Wi-Fi.
    Block(Mac),
    /// Take off the block list. The device is not approved by this.
    Unblock(Mac),
}

impl AccessChange {
    pub open spec fn spec_mac(self) -> Mac {
        match self {
            AccessChange::Allow(m) => m,
            AccessChange::Block(m) => m,
            AccessChange::Unblock(m) => m,
        }
    }

    pub fn mac(&self) -> (r: &Mac)
        ensures
            *r == self.spec_mac(),
    {
        match self {
            AccessChange::Allow(m) => m,
            AccessChange::Block(m) => m,
            AccessChange::Unblock(m) => m,
        }
    }
}

/// The helper that runs root actions; `call` gives the helper's output.
pub trait HelperRunner {
    /// The helper is installed. Without it the hotspot does not start; stopping and reset
    /// still work.
    fn installed(&self) -> bool;

    fn call(&self, req: &HelperRequest) -> Result<String, CoreError>;
}

// ---------------------------------------------------------------------------------------
// The lists as the firewall sees them
// ---------------------------------------------------------------------------------------
/// The lists read from the settings: entries that are not MAC addresses are left out.
#[derive(Debug, Clone, Default)]
pub struct AccessLists {
    pub allowed: Vec<Mac>,
    pub blocked: Vec<Mac>,
    /// Approval mode really is on (the hotspot runs with an allow list).
    pub approval: bool,
}

pub open spec fn list_mac(s: Seq<char>) -> Option<u64> {
    parse_mac(s)
}

/// The MACs of a settings list, bad entries skipped.
pub open spec fn parsed_list(list: Seq<Seq<char>>) -> Seq<u64> {
    filter_map(list, |s: Seq<char>| list_mac(s))
}

/// A device's standing: blocked wins; in approval mode a device not approved waits.
pub open spec fn status_of(allowed: Seq<u64>, blocked: Seq<u64>, approval: bool, mac: u64) -> DeviceStatus {
    if blocked.contains(mac) {
        DeviceStatus::Blocked
    } else if approval && !allowed.contains(mac) {
        DeviceStatus::Pending
    } else {
        DeviceStatus::Allowed
    }
}

fn parse_list(list: &Vec<String>) -> (out: Vec<Mac>)
    ensures
        mac_bits(out@) == parsed_list(strs(list@)),
{
    let ghost l = strs(list@);
    let ghost f = |s: Seq<char>| list_mac(s);
    let mut out: Vec<Mac> = Vec::new();
    let mut i: usize = 0;
    while i < list.len()
        invariant
            i <= list@.len(),
            l == strs(list@),
            f == (|s: Seq<char>| list_mac(s)),
            mac_bits(out@) == filter_map(l.take(i as int), f),
        decreases list.len() - i,
    {
        proof {
            lemma_filter_map_step(l, f, i as int);
        }
        assert(l[i as int] == list@[i as int]@);
        let ghost before = mac_bits(out@);
        match Mac::parse(list[i].as_str()) {
            Ok(m) => {
                out.push(m);
                assert(mac_bits(out@) =~= before.push(m.bits));
            },
            Err(_) => {},
        }
        i = i + 1;
    }
    proof {
        lemma_filter_map_all(l, f);
    }
    out
}

fn contains_mac(list: &Vec<Mac>, mac: &Mac) -> (r: bool)
    ensures
        r == mac_bits(list@).contains(mac.bits),
{
    let mut j: usize = 0;
    while j < list.len()
        invariant
            j <= list@.len(),
            forall|k: int| 0 <= k < j ==> list@[k].bits != mac.bits,
        decreases list.len() - j,
    {
        if list[j].bits == mac.bits {
            assert(mac_bits(list@)[j as int] == mac.bits);
            return true;
        }
        j = j + 1;
    }
    assert(!mac_bits(list@).contains(mac.bits)) by {
        if mac_bits(list@).contains(mac.bits) {
            let k = choose|k: int| 0 <= k < mac_bits(list@).len() && mac_bits(list@)[k] == mac.bits;
            assert(list@[k].bits == mac.bits);
        }
    }
    false
}

impl AccessLists {
    pub fn from_config(cfg: &Config, approval: bool) -> (r: AccessLists)
        ensures
            mac_bits(r.allowed@) == parsed_list(strs(cfg.access.allowed_macs@)),
            mac_bits(r.blocked@) == parsed_list(strs(cfg.access.blocked_macs@)),
            r.approval == approval,
    {
        AccessLists {
            allowed: parse_list(&cfg.access.allowed_macs),
            blocked: parse_list(&cfg.access.blocked_macs),
            approval,
        }
    }

    pub open spec fn spec_status(&self, mac: u64) -> DeviceStatus {
        status_of(mac_bits(self.allowed@), mac_bits(self.blocked@), self.approval, mac)
    }

    pub fn status(&self, mac: &Mac) -> (r: DeviceStatus)
        ensures
            r == self.spec_status(mac.bits),
    {
        if contains_mac(&self.blocked, mac) {
            DeviceStatus::Blocked
        } else if self.approval && !contains_mac(&self.allowed, mac) {
            DeviceStatus::Pending
        } else {
            DeviceStatus::Allowed
        }
    }

    /// Sets every device's standing; nothing else changes.
    pub fn annotate(&self, devices: &mut Vec<Device>)
        ensures
            final(devices)@.len() == old(devices)@.len(),
            forall|i: int|
                0 <= i < final(devices)@.len() ==> (#[trigger] device_models(final(devices)@)[i])
                    == (DeviceModel {
                    status: self.spec_status(old(devices)@[i].mac.bits),
                    ..device_models(old(devices)@)[i]
                }),
    {
        let mut i: usize = 0;
        while i < devices.len()
            invariant
                i <= devices@.len(),
                devices@.len() == old(devices)@.len(),
                forall|k: int|
                    0 <= k < i ==> (#[trigger] device_models(devices@)[k]) == (DeviceModel {
                        status: self.spec_status(old(devices)@[k].mac.bits),
                        ..device_models(old(devices)@)[k]
                    }),
                forall|k: int| i <= k < devices@.len() ==> #[trigger] devices@[k] == old(devices)@[k],
            decreases devices.len() - i,
        {
            let st = self.status(&devices[i].mac);
            let d = devices[i].with_status(st);
            let ghost before = devices@;
            assert(before[i as int] == old(devices)@[i as int]);
            devices.set(i, d);
            assert(device_models(devices@)[i as int] == d@);
            assert forall|k: int| 0 <= k < i implies #[trigger] device_models(devices@)[k]
                == device_models(before)[k] by {
                assert(devices@[k] == before[k]);
            }
            i = i + 1;
        }
    }
}

// ---------------------------------------------------------------------------------------
// The lists in the settings
// ---------------------------------------------------------------------------------------
/// `str::eq_ignore_ascii_case`.
pub open spec fn eq_ignore_case(a: Seq<char>, b: Seq<char>) -> bool {
    a.len() == b.len() && forall|i: int| 0 <= i < a.len() ==> ascii_lower(#[trigger] a[i]) == ascii_lower(b[i])
}

/// The list holds the MAC, in either case.
pub open spec fn has_spec(list: Seq<Seq<char>>, mac: u64) -> bool {
    exists|i: int| 0 <= i < list.len() && eq_ignore_case(#[trigger] list[i], mac_text(mac))
}

/// The list without the MAC (in either case).
pub open spec fn removed(list: Seq<Seq<char>>, mac: u64) -> Seq<Seq<char>> {
    filter_map(list, |s: Seq<char>| if eq_ignore_case(s, mac_text(mac)) { None } else { Some(s) })
}

fn eq_ignore_case_exec(a: &[char], b: &[char]) -> (r: bool)
    ensures
        r == eq_ignore_case(a@, b@),
{
    if a.len() != b.len() {
        return false;
    }
    let mut i: usize = 0;
    while i < a.len()
        invariant
            a.len() == b.len(),
            i <= a.len(),
            forall|k: int| 0 <= k < i ==> ascii_lower(#[trigger] a@[k]) == ascii_lower(b@[k]),
        decreases a.len() - i,
    {
        if ascii_lower_exec(a[i]) != ascii_lower_exec(b[i]) {
            return false;
        }
        i = i + 1;
    }
    true
}

fn holds_mac(list: &Vec<String>, mac: &Mac) -> (r: bool)
    ensures
        r == has_spec(strs(list@), mac.bits),
{
    let m = mac.text_chars();
    let ghost l = strs(list@);
    let mut i: usize = 0;
    while i < list.len()
        invariant
            i <= list@.len(),
            l == strs(list@),
            m@ == mac_text(mac.bits),
            forall|k: int| 0 <= k < i ==> !eq_ignore_case(#[trigger] l[k], mac_text(mac.bits)),
        decreases list.len() - i,
    {
        let cs = str_chars(list[i].as_str());
        assert(l[i as int] == cs@);
        if eq_ignore_case_exec(cs.as_slice(), m.as_slice()) {
            return true;
        }
        i = i + 1;
    }
    false
}

/// The message when a list is full.
pub open spec fn list_full_text() -> Seq<char> {
    "MAC list is full (256)"@
}

fn list_full() -> (e: CoreError)
    ensures
        e matches CoreError::Config(m) && m@ == list_full_text(),
{
    CoreError::Config("MAC list is full (256)".to_owned())
}

/// Adds the MAC (in lower case) unless the list holds it; a full list refuses it.
pub open spec fn added(list: Seq<Seq<char>>, mac: u64) -> Result<(Seq<Seq<char>>, bool), ()> {
    if has_spec(list, mac) {
        Ok((list, false))
    } else if list.len() >= MAX_MAC_LIST {
        Err(())
    } else {
        Ok((list.push(mac_text(mac)), true))
    }
}

fn add_entry(list: &mut Vec<String>, mac: &Mac) -> (r: Result<bool, CoreError>)
    ensures
        match added(strs(old(list)@), mac.bits) {
            Ok((l, changed)) => r == Ok::<bool, CoreError>(changed) && strs(final(list)@) == l,
            Err(_) => r matches Err(e) && e matches CoreError::Config(m) && m@ == list_full_text()
                && final(list)@ == old(list)@,
        },
{
    if holds_mac(list, mac) {
        return Ok(false);
    }
    if list.len() >= MAX_MAC_LIST {
        return Err(list_full());
    }
    let ghost before = strs(list@);
    list.push(mac.as_str());
    assert(strs(list@) =~= before.push(mac_text(mac.bits)));
    Ok(true)
}

fn remove_entry(list: &mut Vec<String>, mac: &Mac) -> (changed: bool)
    ensures
        strs(final(list)@) == removed(strs(old(list)@), mac.bits),
        changed == (removed(strs(old(list)@), mac.bits).len() != old(list)@.len()),
{
    let m = mac.text_chars();
    let ghost l = strs(list@);
    let ghost f = |s: Seq<char>| if eq_ignore_case(s, mac_text(mac.bits)) { None } else { Some(s) };
    let mut kept: Vec<String> = Vec::new();
    let mut i: usize = 0;
    while i < list.len()
        invariant
            i <= list@.len(),
            l == strs(list@),
            m@ == mac_text(mac.bits),
            f == (|s: Seq<char>| if eq_ignore_case(s, mac_text(mac.bits)) { None } else { Some(s) }),
            strs(kept@) == filter_map(l.take(i as int), f),
        decreases list.len() - i,
    {
        proof {
            lemma_filter_map_step(l, f, i as int);
        }
        let cs = str_chars(list[i].as_str());
        assert(l[i as int] == cs@);
        if !eq_ignore_case_exec(cs.as_slice(), m.as_slice()) {
            let ghost before = strs(kept@);
            kept.push(list[i].clone());
            assert(strs(kept@) =~= before.push(l[i as int]));
        }
        i = i + 1;
    }
    proof {
        lemma_filter_map_all(l, f);
    }
    let changed = kept.len() != list.len();
    *list = kept;
    changed
}

// ---------------------------------------------------------------------------------------
// Applying a change
// ---------------------------------------------------------------------------------------
/// There is room for the MAC in the list the change adds to.
pub open spec fn room_for_spec(cfg: Config, change: AccessChange) -> bool {
    match change {
        AccessChange::Allow(m) => has_spec(strs(cfg.access.allowed_macs@), m.bits) || cfg.access.allowed_macs@.len()
            < MAX_MAC_LIST,
        AccessChange::Block(m) => has_spec(strs(cfg.access.blocked_macs@), m.bits) || cfg.access.blocked_macs@.len()
            < MAX_MAC_LIST,
        AccessChange::Unblock(_) => true,
    }
}

fn room_for(cfg: &Config, change: &AccessChange) -> (r: Result<(), CoreError>)
    ensures
        r is Ok <==> room_for_spec(*cfg, *change),
        r matches Err(e) ==> e matches CoreError::Config(m) && m@ == list_full_text(),
{
    let (list, mac) = match change {
        AccessChange::Allow(m) => (&cfg.access.allowed_macs, m),
        AccessChange::Block(m) => (&cfg.access.blocked_macs, m),
        AccessChange::Unblock(_) => return Ok(()),
    };
    if !holds_mac(list, mac) && list.len() >= MAX_MAC_LIST {
        return Err(list_full());
    }
    Ok(())
}

/// The firewall requests a change makes while the hotspot runs on `ap`, in order:
/// allowing unblocks first (if blocked) and then allows; blocking blocks, withdraws the
/// approval (if approved) and drops the device from the Wi-Fi; unblocking unblocks (if
/// blocked). Without a running hotspot there are none.
pub open spec fn firewall_steps(change: AccessChange, ap: Option<Iface>, was_blocked: bool, was_allowed: bool) -> Seq<
    HelperRequest,
> {
    match ap {
        None => seq![],
        Some(a) => match change {
            AccessChange::Allow(mac) => if was_blocked {
                seq![HelperRequest::FwUnblock { mac }, HelperRequest::FwAllowAdd { mac }]
            } else {
                seq![HelperRequest::FwAllowAdd { mac }]
            },
            AccessChange::Block(mac) => if was_allowed {
                seq![
                    HelperRequest::FwBlock { mac },
                    HelperRequest::FwAllowRemove { mac },
                    HelperRequest::StationKick { ap: a, mac },
                ]
            } else {
                seq![HelperRequest::FwBlock { mac }, HelperRequest::StationKick { ap: a, mac }]
            },
            AccessChange::Unblock(mac) => if was_blocked {
                seq![HelperRequest::FwUnblock { mac }]
            } else {
                seq![]
            },
        },
    }
}

pub fn firewall_plan(change: &AccessChange, ap: Option<&Iface>, was_blocked: bool, was_allowed: bool) -> (v: Vec<
    HelperRequest,
>)
    ensures
        v@ == firewall_steps(
            *change,
            match ap {
                Some(a) => Some(*a),
                None => None,
            },
            was_blocked,
            was_allowed,
        ),
{
    let mut v: Vec<HelperRequest> = Vec::new();
    let a = match ap {
        Some(a) => a,
        None => {
            assert(v@ =~= seq![]);
            return v;
        },
    };
    match change {
        AccessChange::Allow(mac) => {
            if was_blocked {
                v.push(HelperRequest::FwUnblock { mac: *mac });
            }
            v.push(HelperRequest::FwAllowAdd { mac: *mac });
        },
        AccessChange::Block(mac) => {
            v.push(HelperRequest::FwBlock { mac: *mac });
            if was_allowed {
                v.push(HelperRequest::FwAllowRemove { mac: *mac });
            }
            v.push(HelperRequest::StationKick { ap: a.duplicate(), mac: *mac });
        },
        AccessChange::Unblock(mac) => {
            if was_blocked {
                v.push(HelperRequest::FwUnblock { mac: *mac });
            }
        },
    }
    v
}

pub open spec fn opt_iface(ap: Option<&Iface>) -> Option<Iface> {
    match ap {
        Some(a) => Some(*a),
        None => None,
    }
}

/// The firewall requests for a change, judged by the lists as they are now (see
/// `firewall_steps`).
pub fn access_plan(cfg: &Config, change: &AccessChange, ap: Option<&Iface>) -> (v: Vec<HelperRequest>)
    ensures
        v@ == firewall_steps(
            *change,
            opt_iface(ap),
            has_spec(strs(cfg.access.blocked_macs@), change.spec_mac().bits),
            has_spec(strs(cfg.access.allowed_macs@), change.spec_mac().bits),
        ),
{
    let mac = change.mac();
    let was_blocked = holds_mac(&cfg.access.blocked_macs, mac);
    let was_allowed = holds_mac(&cfg.access.allowed_macs, mac);
    firewall_plan(change, ap, was_blocked, was_allowed)
}

/// The failure that stops a plan: the first answer that is an error for a request other
/// than dropping the device from the Wi-Fi (that one is secondary: the rule already closed
/// its access, and a device that is not on the air makes it fail).
pub open spec fn plan_failure_spec(plan: Seq<HelperRequest>, answers: Seq<Result<(), CoreError>>) -> Option<
    CoreError,
>
    decreases answers.len(),
{
    if answers.len() == 0 || plan.len() == 0 {
        None
    } else if answers[0] is Err && !(plan[0] is StationKick) {
        Some(answers[0]->Err_0)
    } else {
        plan_failure_spec(plan.drop_first(), answers.drop_first())
    }
}

proof fn lemma_plan_failure_skip(plan: Seq<HelperRequest>, answers: Seq<Result<(), CoreError>>, i: int)
    requires
        0 <= i <= answers.len(),
        i <= plan.len(),
        forall|k: int| 0 <= k < i ==> !(answers[k] is Err && !(plan[k] is StationKick)),
    ensures
        plan_failure_spec(plan, answers) == plan_failure_spec(plan.skip(i), answers.skip(i)),
    decreases i,
{
    if i > 0 {
        assert(plan.drop_first().skip(i - 1) =~= plan.skip(i));
        assert(answers.drop_first().skip(i - 1) =~= answers.skip(i));
        lemma_plan_failure_skip(plan.drop_first(), answers.drop_first(), i - 1);
    } else {
        assert(plan.skip(0) =~= plan);
        assert(answers.skip(0) =~= answers);
    }
}

pub fn plan_failure(plan: &[HelperRequest], answers: &[Result<(), CoreError>]) -> (r: Option<CoreError>)
    ensures
        r == plan_failure_spec(plan@, answers@),
{
    let mut i: usize = 0;
    while i < answers.len() && i < plan.len()
        invariant
            i <= answers@.len(),
            i <= plan@.len(),
            forall|k: int| 0 <= k < i ==> !(answers@[k] is Err && !(plan@[k] is StationKick)),
        decreases answers.len() - i,
    {
        let kick = match &plan[i] {
            HelperRequest::StationKick { .. } => true,
            _ => false,
        };
        match &answers[i] {
            Err(e) => {
                if !kick {
                    proof {
                        lemma_plan_failure_skip(plan@, answers@, i as int);
                        assert(plan@.skip(i as int)[0] == plan@[i as int]);
                        assert(answers@.skip(i as int)[0] == answers@[i as int]);
                    }
                    return Some(e.duplicate());
                }
            },
            Ok(()) => {},
        }
        i = i + 1;
    }
    proof {
        lemma_plan_failure_skip(plan@, answers@, i as int);
    }
    None
}

/// The settings lists after a change, or `Err` when the list it adds to is full. The flag
/// says whether the settings changed.
pub open spec fn lists_after(allowed: Seq<Seq<char>>, blocked: Seq<Seq<char>>, change: AccessChange) -> Result<
    (Seq<Seq<char>>, Seq<Seq<char>>, bool),
    (),
> {
    match change {
        AccessChange::Allow(m) => {
            let b = removed(blocked, m.bits);
            match added(allowed, m.bits) {
                Ok((a, added_now)) => Ok((a, b, b.len() != blocked.len() || added_now)),
                Err(_) => Err(()),
            }
        },
        AccessChange::Block(m) => {
            let a = removed(allowed, m.bits);
            match added(blocked, m.bits) {
                Ok((b, added_now)) => Ok((a, b, a.len() != allowed.len() || added_now)),
                Err(_) => Err(()),
            }
        },
        AccessChange::Unblock(m) => {
            let b = removed(blocked, m.bits);
            Ok((allowed, b, b.len() != blocked.len()))
        },
    }
}

/// No entry of the list is the MAC any more once it was removed.
proof fn lemma_removed_clean(list: Seq<Seq<char>>, mac: u64)
    ensures
        !has_spec(removed(list, mac), mac),
        removed(removed(list, mac), mac) == removed(list, mac),
    decreases list.len(),
{
    let f = |s: Seq<char>| if eq_ignore_case(s, mac_text(mac)) { None } else { Some(s) };
    if list.len() > 0 {
        lemma_removed_clean(list.drop_last(), mac);
        let p = removed(list.drop_last(), mac);
        let r = removed(list, mac);
        assert(removed(list, mac) == filter_map(list, f));
        if eq_ignore_case(list.last(), mac_text(mac)) {
            assert(r == p);
        } else {
            assert(r == p.push(list.last()));
            assert(!has_spec(r, mac)) by {
                if has_spec(r, mac) {
                    let i = choose|i: int| 0 <= i < r.len() && eq_ignore_case(#[trigger] r[i], mac_text(mac));
                    if i < p.len() {
                        assert(r[i] == p[i]);
                    }
                }
            }
        }
    }
    lemma_removed_none(removed(list, mac), mac);
}

/// Removing a MAC the list does not hold changes nothing.
proof fn lemma_removed_none(list: Seq<Seq<char>>, mac: u64)
    requires
        !has_spec(list, mac),
    ensures
        removed(list, mac) == list,
    decreases list.len(),
{
    if list.len() > 0 {
        assert(!has_spec(list.drop_last(), mac)) by {
            if has_spec(list.drop_last(), mac) {
                let i = choose|i: int|
                    0 <= i < list.drop_last().len() && eq_ignore_case(
                        #[trigger] list.drop_last()[i],
                        mac_text(mac),
                    );
                assert(list[i] == list.drop_last()[i]);
            }
        }
        lemma_removed_none(list.drop_last(), mac);
        assert(!eq_ignore_case(list[list.len() - 1], mac_text(mac)));
        assert(list.drop_last().push(list.last()) =~= list);
    } else {
        assert(list =~= seq![]);
    }
}

/// A list the MAC was added to holds it.
proof fn lemma_added_holds(list: Seq<Seq<char>>, mac: u64)
    requires
        added(list, mac) is Ok,
    ensures
        has_spec(added(list, mac)->Ok_0.0, mac),
{
    if !has_spec(list, mac) {
        let l = list.push(mac_text(mac));
        assert(eq_ignore_case(l[list.len() as int], mac_text(mac)));
    }
}

/// Doing the same access change twice: the second time changes nothing and says so.
pub proof fn lemma_change_twice(
    allowed: Seq<Seq<char>>,
    blocked: Seq<Seq<char>>,
    change: AccessChange,
)
    requires
        lists_after(allowed, blocked, change) is Ok,
    ensures
        ({
            let (a, b, _) = lists_after(allowed, blocked, change)->Ok_0;
            lists_after(a, b, change) == Ok::<(Seq<Seq<char>>, Seq<Seq<char>>, bool), ()>((a, b, false))
        }),
{
    let m = change.spec_mac().bits;
    lemma_removed_clean(blocked, m);
    lemma_removed_clean(allowed, m);
    match change {
        AccessChange::Allow(_) => {
            lemma_added_holds(allowed, m);
        },
        AccessChange::Block(_) => {
            lemma_added_holds(blocked, m);
        },
        AccessChange::Unblock(_) => {},
    }
}

/// The helper's answer to the `j`-th request stops the plan: it failed, and it was not a
/// station kick.
pub open spec fn stops_at(plan: Seq<HelperRequest>, answers: Seq<Result<(), CoreError>>, j: int) -> bool {
    answers[j] is Err && !(plan[j] is StationKick)
}

/// The answers are those to the plan's requests sent in order: each one up to the first that
/// stops the plan (see `stops_at`), all of them where none does.
pub open spec fn sent_until_failure(plan: Seq<HelperRequest>, answers: Seq<Result<(), CoreError>>) -> bool {
    &&& answers.len() <= plan.len()
    &&& forall|j: int| 0 <= j < answers.len() - 1 ==> !#[trigger] stops_at(plan, answers, j)
    &&& answers.len() < plan.len() ==> (answers.len() > 0 && stops_at(plan, answers, answers.len() - 1))
}

/// What a change of the access lists sent to the helper and what it answered.
pub struct AccessReport {
    /// The firewall requests the change calls for (`access_plan`); none for a refused change.
    pub plan: Vec<HelperRequest>,
    /// The answers to the requests sent: the first ones of the plan, in order (see
    /// `sent_until_failure`).
    pub answers: Vec<Result<(), CoreError>>,
}

/// The lists after a change whose firewall requests succeeded.
fn settle(cfg: &mut Config, change: &AccessChange) -> (r: Result<bool, CoreError>)
    requires
        room_for_spec(*old(cfg), *change),
    ensures
        r matches Ok(changed) && (lists_after(
            strs(old(cfg).access.allowed_macs@),
            strs(old(cfg).access.blocked_macs@),
            *change,
        ) matches Ok((a, b, c)) && strs(final(cfg).access.allowed_macs@) == a && strs(
            final(cfg).access.blocked_macs@,
        ) == b && changed == c),
        final(cfg).version == old(cfg).version,
        final(cfg).language == old(cfg).language,
        final(cfg).automation == old(cfg).automation,
        final(cfg).hotspot == old(cfg).hotspot,
        final(cfg).network == old(cfg).network,
        final(cfg).ui == old(cfg).ui,
        final(cfg).access.approval_required == old(cfg).access.approval_required,
        final(cfg).access.notifications == old(cfg).access.notifications,
{
    match change {
        AccessChange::Allow(m) => {
            let removed_now = remove_entry(&mut cfg.access.blocked_macs, m);
            let added_now = match add_entry(&mut cfg.access.allowed_macs, m) {
                Ok(c) => c,
                Err(e) => return Err(e),
            };
            Ok(removed_now || added_now)
        },
        AccessChange::Block(m) => {
            let removed_now = remove_entry(&mut cfg.access.allowed_macs, m);
            let added_now = match add_entry(&mut cfg.access.blocked_macs, m) {
                Ok(c) => c,
                Err(e) => return Err(e),
            };
            Ok(removed_now || added_now)
        },
        AccessChange::Unblock(m) => Ok(remove_entry(&mut cfg.access.blocked_macs, m)),
    }
}


/// Applies a change: first the firewall, then the settings; when the helper fails the
/// settings stay as they were. `ap` is given only while the hotspot runs with its rules
/// in place; otherwise the helper is not called. A full list is refused before anything is
/// done. `Ok(true)`: the settings changed and must be saved. Call it under the settings
/// lock (`config::update`): the firewall rule and the settings entry change together. The
/// report beside the result holds the requests planned and the helper's answers.
pub fn apply<H: HelperRunner>(helper: &H, ap: Option<&Iface>, cfg: &mut Config, change: &AccessChange) -> (r: (
    Result<bool, CoreError>,
    AccessReport,
))
    ensures
        !room_for_spec(*old(cfg), *change) ==> (r.0 matches Err(e) && e matches CoreError::Config(m)
            && m@ == list_full_text() && *final(cfg) == *old(cfg) && r.1.plan@.len() == 0
            && r.1.answers@.len() == 0),
        room_for_spec(*old(cfg), *change) ==> {
            &&& r.1.plan@ == firewall_steps(
                *change,
                opt_iface(ap),
                has_spec(strs(old(cfg).access.blocked_macs@), change.spec_mac().bits),
                has_spec(strs(old(cfg).access.allowed_macs@), change.spec_mac().bits),
            )
            &&& sent_until_failure(r.1.plan@, r.1.answers@)
            &&& match plan_failure_spec(r.1.plan@, r.1.answers@) {
                Some(e) => r.0 == Err::<bool, CoreError>(e) && *final(cfg) == *old(cfg),
                None => r.0 is Ok,
            }
        },
        r.0 is Err ==> *final(cfg) == *old(cfg),
        r.0 matches Ok(changed) ==> (lists_after(
            strs(old(cfg).access.allowed_macs@),
            strs(old(cfg).access.blocked_macs@),
            *change,
        ) matches Ok((a, b, c)) && strs(final(cfg).access.allowed_macs@) == a && strs(
            final(cfg).access.blocked_macs@,
        ) == b && changed == c),
        final(cfg).version == old(cfg).version,
        final(cfg).language == old(cfg).language,
        final(cfg).automation == old(cfg).automation,
        final(cfg).hotspot == old(cfg).hotspot,
        final(cfg).network == old(cfg).network,
        final(cfg).ui == old(cfg).ui,
        final(cfg).access.approval_required == old(cfg).access.approval_required,
        final(cfg).access.notifications == old(cfg).access.notifications,
        ap is None && room_for_spec(*old(cfg), *change) ==> r.0 is Ok,
{
    match room_for(cfg, change) {
        Ok(()) => {},
        Err(e) => return (Err(e), AccessReport { plan: Vec::new(), answers: Vec::new() }),
    }
    let plan = access_plan(cfg, change, ap);
    let mut answers: Vec<Result<(), CoreError>> = Vec::new();
    let mut k: usize = 0;
    let mut stopped = false;
    while k < plan.len() && !stopped
        invariant
            k <= plan@.len(),
            answers@.len() == k,
            *cfg == *old(cfg),
            room_for_spec(*old(cfg), *change),
            forall|j: int| 0 <= j < k && !(stopped && j == k - 1) ==> !#[trigger] stops_at(
                plan@,
                answers@,
                j,
            ),
            stopped ==> (k > 0 && stops_at(plan@, answers@, k - 1)),
        decreases plan.len() - k,
    {
        let is_kick = match &plan[k] {
            HelperRequest::StationKick { .. } => true,
            _ => false,
        };
        let answer = match helper.call(&plan[k]) {
            Ok(_) => Ok(()),
            Err(e) => Err(e),
        };
        let stop_now = answer.is_err() && !is_kick;
        let ghost before = answers@;
        answers.push(answer);
        assert forall|j: int| 0 <= j < k implies #[trigger] stops_at(plan@, answers@, j) == stops_at(
            plan@,
            before,
            j,
        ) by {
            assert(answers@[j] == before[j]);
        }
        stopped = stop_now;
        k = k + 1;
    }
    let failure = plan_failure(plan.as_slice(), answers.as_slice());
    let report = AccessReport { plan, answers };
    match failure {
        Some(e) => (Err(e), report),
        None => (settle(cfg, change), report),
    }
}

// ---------------------------------------------------------------------------------------
// The rows of the devices section
// ---------------------------------------------------------------------------------------
/// A row of the devices section: a connected device, or a blocked one that is offline.
pub struct DeviceRow {
    pub mac: Mac,
    pub device: Option<Device>,
    pub status: DeviceStatus,
}

/// A connected device shows as blocked when its address is on the block list as written.
pub open spec fn row_status(d: DeviceModel, blocked: Seq<Seq<char>>) -> DeviceStatus {
    if blocked.contains(mac_text(d.mac)) {
        DeviceStatus::Blocked
    } else {
        d.status
    }
}

/// The blocked addresses that get a row of their own: those that read as MACs and are
/// neither connected nor listed before.
pub open spec fn offline_blocked(present: Seq<u64>, blocked: Seq<Seq<char>>) -> Seq<u64>
    decreases blocked.len(),
{
    if blocked.len() == 0 {
        seq![]
    } else {
        let prev = offline_blocked(present, blocked.drop_last());
        match parse_mac(blocked.last()) {
            Some(b) => if present.contains(b) || prev.contains(b) {
                prev
            } else {
                prev.push(b)
            },
            None => prev,
        }
    }
}

fn on_list(blocked: &Vec<String>, text: &Vec<char>) -> (b: bool)
    ensures
        b == strs(blocked@).contains(text@),
{
    let ghost bl = strs(blocked@);
    let mut i: usize = 0;
    while i < blocked.len()
        invariant
            i <= blocked@.len(),
            bl == strs(blocked@),
            forall|k: int| 0 <= k < i ==> bl[k] != text@,
        decreases blocked.len() - i,
    {
        let cs = str_chars(blocked[i].as_str());
        if chars_eq(cs.as_slice(), text.as_slice()) {
            assert(bl[i as int] == text@);
            return true;
        }
        i = i + 1;
    }
    false
}

fn has_row(rows: &Vec<DeviceRow>, bits: u64) -> (b: bool)
    ensures
        b == exists|k: int| 0 <= k < rows@.len() && (#[trigger] rows@[k]).mac.bits == bits,
{
    let mut i: usize = 0;
    while i < rows.len()
        invariant
            i <= rows@.len(),
            forall|k: int| 0 <= k < i ==> (#[trigger] rows@[k]).mac.bits != bits,
        decreases rows.len() - i,
    {
        if rows[i].mac.bits == bits {
            return true;
        }
        i = i + 1;
    }
    false
}

/// The connected devices in their order, then the blocked addresses that are offline.
pub fn device_rows(devices: &[Device], blocked: &Vec<String>) -> (rows: Vec<DeviceRow>)
    ensures
        ({
            let n = devices@.len() as int;
            let extra = offline_blocked(
                device_models(devices@).map_values(|d: DeviceModel| d.mac),
                strs(blocked@),
            );
            &&& rows@.len() == n + extra.len()
            &&& forall|i: int|
                0 <= i < n ==> (#[trigger] rows@[i]).mac == devices@[i].mac && (rows@[i].device matches Some(
                    d,
                ) && d@ == devices@[i]@) && rows@[i].status == row_status(devices@[i]@, strs(blocked@))
            &&& forall|k: int|
                0 <= k < extra.len() ==> (#[trigger] rows@[n + k]).mac.bits == extra[k]
                    && rows@[n + k].device is None && rows@[n + k].status == DeviceStatus::Blocked
        }),
{
    let ghost bl = strs(blocked@);
    let ghost present = device_models(devices@).map_values(|d: DeviceModel| d.mac);
    let mut rows: Vec<DeviceRow> = Vec::new();
    let mut i: usize = 0;
    while i < devices.len()
        invariant
            i <= devices@.len(),
            bl == strs(blocked@),
            rows@.len() == i,
            forall|k: int|
                0 <= k < i ==> (#[trigger] rows@[k]).mac == devices@[k].mac && (rows@[k].device matches Some(
                    d,
                ) && d@ == devices@[k]@) && rows@[k].status == row_status(devices@[k]@, bl),
        decreases devices.len() - i,
    {
        let d = devices[i].with_status(devices[i].status);
        let text = d.mac.text_chars();
        let status = if on_list(blocked, &text) {
            DeviceStatus::Blocked
        } else {
            d.status
        };
        rows.push(DeviceRow { mac: d.mac, device: Some(d), status });
        i = i + 1;
    }
    let n = devices.len();
    let mut j: usize = 0;
    while j < blocked.len()
        invariant
            j <= blocked@.len(),
            n == devices@.len(),
            bl == strs(blocked@),
            present == device_models(devices@).map_values(|d: DeviceModel| d.mac),
            rows@.len() == n + offline_blocked(present, bl.take(j as int)).len(),
            forall|k: int|
                0 <= k < n ==> (#[trigger] rows@[k]).mac == devices@[k].mac && (rows@[k].device matches Some(
                    d,
                ) && d@ == devices@[k]@) && rows@[k].status == row_status(devices@[k]@, bl),
            forall|k: int|
                0 <= k < offline_blocked(present, bl.take(j as int)).len() ==> (#[trigger] rows@[n
                    + k]).mac.bits == offline_blocked(present, bl.take(j as int))[k] && rows@[n
                    + k].device is None && rows@[n + k].status == DeviceStatus::Blocked,
        decreases blocked.len() - j,
    {
        let ghost prev = offline_blocked(present, bl.take(j as int));
        assert(bl.take(j + 1).drop_last() =~= bl.take(j as int));
        assert(bl.take(j + 1).last() == bl[j as int]);
        match Mac::parse(blocked[j].as_str()) {
            Ok(mac) => {
                let known = has_row(&rows, mac.bits);
                proof {
                    assert(known == (present.contains(mac.bits) || prev.contains(mac.bits))) by {
                        if present.contains(mac.bits) {
                            let k = choose|k: int| 0 <= k < present.len() && present[k] == mac.bits;
                            assert(rows@[k].mac.bits == mac.bits);
                        }
                        if prev.contains(mac.bits) {
                            let k = choose|k: int| 0 <= k < prev.len() && prev[k] == mac.bits;
                            assert(rows@[n + k].mac.bits == mac.bits);
                        }
                        if known {
                            let k = choose|k: int| 0 <= k < rows@.len() && (#[trigger] rows@[k]).mac.bits
                                == mac.bits;
                            if k < n {
                                assert(present[k] == mac.bits);
                            } else {
                                assert(rows@[n + (k - n)].mac.bits == prev[k - n]);
                            }
                        }
                    }
                }
                if !known {
                    rows.push(DeviceRow { mac, device: None, status: DeviceStatus::Blocked });
                }
            },
            Err(_) => {},
        }
        j = j + 1;
    }
    assert(bl.take(blocked@.len() as int) =~= bl);
    rows
}

/// What a key on the selected row does.
#[derive(Debug, Clone, Copy, PartialEq, Eq, Structural)]
pub enum DeviceChoice {
    Change(AccessChange),
    /// Drop it from the Wi-Fi (only a connected device).
    Kick(Mac),
    Nothing,
}

/// Block toggles the block; allow approves a device not allowed yet; kick drops a connected
/// device. (The approval switch is not about the row.)
pub fn device_choice(action: DeviceAction, row: &DeviceRow) -> (c: DeviceChoice)
    ensures
        c == match action {
            DeviceAction::ToggleBlock => if row.status == DeviceStatus::Blocked {
                DeviceChoice::Change(AccessChange::Unblock(row.mac))
            } else {
                DeviceChoice::Change(AccessChange::Block(row.mac))
            },
            DeviceAction::Allow => if row.status == DeviceStatus::Allowed {
                DeviceChoice::Nothing
            } else {
                DeviceChoice::Change(AccessChange::Allow(row.mac))
            },
            DeviceAction::Kick => if row.device is Some {
                DeviceChoice::Kick(row.mac)
            } else {
                DeviceChoice::Nothing
            },
            DeviceAction::ToggleApproval => DeviceChoice::Nothing,
        },
{
    match action {
        DeviceAction::ToggleBlock => if row.status == DeviceStatus::Blocked {
            DeviceChoice::Change(AccessChange::Unblock(row.mac))
        } else {
            DeviceChoice::Change(AccessChange::Block(row.mac))
        },
        DeviceAction::Allow => if row.status == DeviceStatus::Allowed {
            DeviceChoice::Nothing
        } else {
            DeviceChoice::Change(AccessChange::Allow(row.mac))
        },
        DeviceAction::Kick => if row.device.is_some() {
            DeviceChoice::Kick(row.mac)
        } else {
            DeviceChoice::Nothing
        },
        DeviceAction::ToggleApproval => DeviceChoice::Nothing,
    }
}

/// The selected row among `n`: the index kept within the list even when devices left.
pub fn selected_row(idx: usize, n: usize) -> (r: Option<usize>)
    ensures
        n == 0 ==> r is None,
        n > 0 ==> r == Some(if idx < n { idx } else { (n - 1) as usize }),
{
    if n == 0 {
        None
    } else if idx < n {
        Some(idx)
    } else {
        Some(n - 1)
    }
}

/// ↑/↓ on the device rows go round the list.
pub fn move_row(idx: usize, n: usize, down: bool) -> (r: usize)
    ensures
        n == 0 ==> r == 0,
        n > 0 ==> r as int == ({
            let cur = if idx < n { idx as int } else { n - 1 };
            if down {
                (cur + 1) % (n as int)
            } else {
                (cur + n - 1) % (n as int)
            }
        }),
{
    if n == 0 {
        return 0;
    }
    let cur = if idx < n { idx } else { n - 1 };
    proof {
        let c = cur as int;
        let m = n as int;
        if c + 1 == m {
            assert((c + 1) % m == 0) by (nonlinear_arith)
                requires
                    c + 1 == m,
                    m > 0,
            ;
        } else {
            assert((c + 1) % m == c + 1) by (nonlinear_arith)
                requires
                    0 <= c + 1 < m,
            ;
        }
        if c == 0 {
            assert((c + m - 1) % m == m - 1) by (nonlinear_arith)
                requires
                    c == 0,
                    m > 0,
            ;
        } else {
            assert((c + m - 1) % m == c - 1) by (nonlinear_arith)
                requires
                    1 <= c < m,
            ;
        }
    }
    if down {
        if cur + 1 == n { 0 } else { cur + 1 }
    } else {
        if cur == 0 { n - 1 } else { cur - 1 }
    }
}


/// The lines under the devices list that describe the selected device.
pub const DETAIL_LINES: usize = 7;

/// The rows of the devices section shown, as `[first, end)`: the space left below the
/// `header` lines (and the selected device's details) holds at least one row, and the window
/// ends at the selected row when it would otherwise be below it.
pub open spec fn device_window_spec(n: nat, selected: Option<usize>, height: nat, header: nat, detail: bool) -> (nat, nat) {
    let used: nat = header + if detail {
        DETAIL_LINES as nat
    } else {
        0
    };
    let list_rows: nat = if height > used + 1 {
        (height - used) as nat
    } else {
        1
    };
    let sel: nat = match selected {
        Some(i) => i as nat,
        None => 0,
    };
    let first: nat = if sel + 1 > list_rows {
        (sel + 1 - list_rows) as nat
    } else {
        0
    };
    let end: nat = if first + list_rows < n {
        first + list_rows
    } else {
        n
    };
    (first, if end > first { end } else { first })
}

pub fn device_window(n: usize, selected: Option<usize>, height: usize, header: usize, detail: bool) -> (r: (usize, usize))
    requires
        header + DETAIL_LINES <= usize::MAX,
        match selected {
            Some(i) => i < usize::MAX,
            None => true,
        },
    ensures
        r.0 as nat == device_window_spec(n as nat, selected, height as nat, header as nat, detail).0,
        r.1 as nat == device_window_spec(n as nat, selected, height as nat, header as nat, detail).1,
{
    let used = header + if detail {
        DETAIL_LINES
    } else {
        0
    };
    let list_rows = if height > used && height - used > 1 {
        height - used
    } else {
        1
    };
    let sel = match selected {
        Some(i) => i,
        None => 0,
    };
    let first = if sel + 1 > list_rows {
        sel + 1 - list_rows
    } else {
        0
    };
    let end = if first < n && n - first > list_rows {
        first + list_rows
    } else {
        n
    };
    (first, if end > first {
        end
    } else {
        first
    })
}

/// With no rows to show, the section says "no devices" while the hotspot runs or the block
/// list holds something; otherwise that the hotspot must be on.
pub fn devices_say_none(is_on: bool, blocked_count: usize) -> (r: bool)
    ensures
        r == (is_on || blocked_count > 0),
{
    is_on || blocked_count > 0
}


/// The firewall requests for a change while the hotspot runs, by what the lists hold now:
/// allowing sends `fw-allow-add` (after `fw-unblock` for a blocked device); blocking sends
/// `fw-block`, `fw-allow-remove` for an allowed device, and drops it from the Wi-Fi;
/// unblocking a blocked device sends exactly one `fw-unblock` for it, and nothing otherwise.
/// Without a running hotspot nothing is sent.
pub proof fn lemma_access_requests(change: AccessChange, ap: Option<Iface>, was_blocked: bool, was_allowed: bool)
    ensures
        ap is None ==> firewall_steps(change, ap, was_blocked, was_allowed).len() == 0,
        ap matches Some(a) ==> match change {
            AccessChange::Allow(m) => firewall_steps(change, ap, was_blocked, was_allowed) == if was_blocked {
                seq![HelperRequest::FwUnblock { mac: m }, HelperRequest::FwAllowAdd { mac: m }]
            } else {
                seq![HelperRequest::FwAllowAdd { mac: m }]
            },
            AccessChange::Block(m) => {
                let v = firewall_steps(change, ap, was_blocked, was_allowed);
                &&& v.len() == if was_allowed { 3int } else { 2int }
                &&& v[0] == HelperRequest::FwBlock { mac: m }
                &&& v.last() == HelperRequest::StationKick { ap: a, mac: m }
                &&& was_allowed ==> v[1] == HelperRequest::FwAllowRemove { mac: m }
            },
            AccessChange::Unblock(m) => firewall_steps(change, ap, was_blocked, was_allowed) == if was_blocked {
                seq![HelperRequest::FwUnblock { mac: m }]
            } else {
                seq![]
            },
        },
{
}

} // verus!
