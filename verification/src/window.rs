//! Decisions of the window that do not depend on drawing: when it closes, what the on/off key
//! does, what answering a question does, the questions about new devices, and how many rows
//! it keeps for devices.

use vstd::prelude::*;
use crate::proto::Mac;
use crate::config::copy_text;

verus! {

// ---------------------------------------------------------------------------------------
// Rows kept for devices
// ---------------------------------------------------------------------------------------
pub const MIN_DEVICE_ROWS: usize = 2;

pub const MAX_DEVICE_ROWS: usize = 8;

/// How long fewer devices must stay before the window gives rows back (milliseconds).
pub const DEVICE_RESERVE_SHRINK_MS: u64 = 30_000;

/// The rows for `n` devices: rounded up to an even number, within the bounds.
pub open spec fn reserve_target_spec(n: int) -> int {
    let even = (n + 1) / 2 * 2;
    if even < MIN_DEVICE_ROWS {
        MIN_DEVICE_ROWS as int
    } else if even > MAX_DEVICE_ROWS {
        MAX_DEVICE_ROWS as int
    } else {
        even
    }
}

pub fn reserve_target(n: usize) -> (r: usize)
    ensures
        r == reserve_target_spec(n as int),
{
    if n >= MAX_DEVICE_ROWS {
        return MAX_DEVICE_ROWS;
    }
    let even = (n + 1) / 2 * 2;
    if even < MIN_DEVICE_ROWS {
        MIN_DEVICE_ROWS
    } else {
        even
    }
}

/// The rows the window keeps for devices, and since when (monotonic milliseconds) fewer
/// would do.
#[derive(Debug, Clone, Copy, PartialEq, Eq, Structural)]
pub struct DeviceReserve {
    pub rows: usize,
    pub low_since: Option<u64>,
}

/// One update: more devices take more rows at once; fewer give rows back only after they
/// stayed fewer for the whole pause, so that the window does not jump with every device.
pub open spec fn reserve_next(r: DeviceReserve, n: int, now: u64) -> DeviceReserve {
    let target = reserve_target_spec(n);
    if target >= r.rows {
        DeviceReserve { rows: target as usize, low_since: None }
    } else {
        match r.low_since {
            None => DeviceReserve { rows: r.rows, low_since: Some(now) },
            Some(s) => if now >= s && now - s >= DEVICE_RESERVE_SHRINK_MS {
                DeviceReserve { rows: target as usize, low_since: None }
            } else {
                r
            },
        }
    }
}

impl DeviceReserve {
    pub fn new() -> (r: DeviceReserve)
        ensures
            r == (DeviceReserve { rows: MIN_DEVICE_ROWS, low_since: None }),
    {
        DeviceReserve { rows: MIN_DEVICE_ROWS, low_since: None }
    }

    /// `n`: the devices to show now.
    pub fn update(&mut self, n: usize, now: u64)
        ensures
            *final(self) == reserve_next(*old(self), n as int, now),
    {
        let target = reserve_target(n);
        if target >= self.rows {
            self.rows = target;
            self.low_since = None;
            return;
        }
        match self.low_since {
            None => {
                self.low_since = Some(now);
            },
            Some(s) => {
                if now >= s && now - s >= DEVICE_RESERVE_SHRINK_MS {
                    self.rows = target;
                    self.low_since = None;
                }
            },
        }
    }
}

/// The reserve stays within its bounds and always has room for the devices up to the most
/// it shows; it never shrinks on the update that first sees fewer devices.
pub proof fn lemma_reserve_fits(r: DeviceReserve, n: int, now: u64)
    requires
        MIN_DEVICE_ROWS <= r.rows <= MAX_DEVICE_ROWS,
        n >= 0,
    ensures
        MIN_DEVICE_ROWS <= reserve_next(r, n, now).rows <= MAX_DEVICE_ROWS,
        reserve_next(r, n, now).rows >= reserve_target_spec(n),
        r.low_since is None ==> reserve_next(r, n, now).rows >= r.rows,
{
}

// ---------------------------------------------------------------------------------------
// Closing
// ---------------------------------------------------------------------------------------
/// Focus went to another window: Omarchy's own floating window closes at once when the
/// setting asks for it, but never over open work (the editor, a question, a text input, a
/// running action, unsaved settings).
pub open spec fn closes_on_focus_loss_spec(
    setting: bool,
    own_window: bool,
    editing: bool,
    question: bool,
    input: bool,
    busy: bool,
    unsaved: bool,
) -> bool {
    setting && own_window && !(editing || question || input || busy || unsaved)
}

pub fn closes_on_focus_loss(
    setting: bool,
    own_window: bool,
    editing: bool,
    question: bool,
    input: bool,
    busy: bool,
    unsaved: bool,
) -> (b: bool)
    ensures
        b == closes_on_focus_loss_spec(setting, own_window, editing, question, input, busy, unsaved),
{
    setting && own_window && !(editing || question || input || busy || unsaved)
}

#[derive(Debug, Clone, Copy, PartialEq, Eq, Structural)]
pub enum QuitDecision {
    /// Unsaved settings: ask first.
    AskUnsaved,
    Quit,
}

/// Esc or q: with unsaved settings and no question open, the window asks first.
pub fn quit_decision(unsaved: bool, question_open: bool) -> (d: QuitDecision)
    ensures
        d == (if unsaved && !question_open {
            QuitDecision::AskUnsaved
        } else {
            QuitDecision::Quit
        }),
{
    if unsaved && !question_open {
        QuitDecision::AskUnsaved
    } else {
        QuitDecision::Quit
    }
}

// ---------------------------------------------------------------------------------------
// The on/off key
// ---------------------------------------------------------------------------------------
#[derive(Debug, Clone, PartialEq, Eq)]
pub enum ToggleAction {
    /// An action runs, or the editor or a question is open.
    Ignore,
    Stop,
    /// The adapter is connected to this network as a client: ask before cutting it off.
    AskOverClient(String),
    Start,
}

pub fn toggle_action(
    busy: bool,
    editing: bool,
    question_open: bool,
    on_or_starting: bool,
    client: &Option<String>,
) -> (a: ToggleAction)
    ensures
        (busy || editing || question_open) ==> a == ToggleAction::Ignore,
        !(busy || editing || question_open) && on_or_starting ==> a == ToggleAction::Stop,
        !(busy || editing || question_open) && !on_or_starting ==> match *client {
            Some(n) => a matches ToggleAction::AskOverClient(m) && m@ == n@,
            None => a == ToggleAction::Start,
        },
{
    if busy || editing || question_open {
        return ToggleAction::Ignore;
    }
    if on_or_starting {
        return ToggleAction::Stop;
    }
    match client {
        Some(n) => ToggleAction::AskOverClient(copy_text(n)),
        None => ToggleAction::Start,
    }
}

// ---------------------------------------------------------------------------------------
// Questions
// ---------------------------------------------------------------------------------------
/// A question shown over the window; Enter answers yes, Esc no.
#[derive(Debug, Clone, PartialEq, Eq)]
pub enum Confirm {
    /// The Wi-Fi adapter is a client of this network; starting cuts it off.
    StartOverClient(String),
    /// A new device waits for approval.
    NewDevice { mac: Mac, name: String },
    /// First run: ask devices for approval?
    EnableApproval,
    /// Save the advanced settings, restarting the hotspot.
    SaveRestart,
    /// Quit with unsaved advanced settings.
    UnsavedQuit,
    /// Remove everything the hotspot made.
    Reset,
    /// Make a new password (every device disconnects).
    GeneratePassword,
}

/// What an answer does.
#[derive(Debug, Clone, Copy, PartialEq, Eq, Structural)]
pub enum Answer {
    Start,
    Approve(Mac),
    Deny(Mac),
    EnableApproval,
    SaveNow,
    /// Save, then quit.
    SaveThenQuit,
    Reset,
    GeneratePassword,
    /// Quit without saving.
    Quit,
    Nothing,
}

/// Yes: each question does what it asked about.
pub fn accept(c: &Option<Confirm>) -> (a: Answer)
    ensures
        a == match *c {
            Some(Confirm::StartOverClient(_)) => Answer::Start,
            Some(Confirm::NewDevice { mac, .. }) => Answer::Approve(mac),
            Some(Confirm::EnableApproval) => Answer::EnableApproval,
            Some(Confirm::SaveRestart) => Answer::SaveNow,
            Some(Confirm::UnsavedQuit) => Answer::SaveThenQuit,
            Some(Confirm::Reset) => Answer::Reset,
            Some(Confirm::GeneratePassword) => Answer::GeneratePassword,
            None => Answer::Nothing,
        },
{
    match c {
        Some(Confirm::StartOverClient(_)) => Answer::Start,
        Some(Confirm::NewDevice { mac, .. }) => Answer::Approve(*mac),
        Some(Confirm::EnableApproval) => Answer::EnableApproval,
        Some(Confirm::SaveRestart) => Answer::SaveNow,
        Some(Confirm::UnsavedQuit) => Answer::SaveThenQuit,
        Some(Confirm::Reset) => Answer::Reset,
        Some(Confirm::GeneratePassword) => Answer::GeneratePassword,
        None => Answer::Nothing,
    }
}

/// No: a new device is refused (blocked and dropped), quitting goes on without saving; the
/// other questions do nothing. "Later" for approval writes nothing, so that the safe default
/// (ask) stays.
pub fn cancel(c: &Option<Confirm>) -> (a: Answer)
    ensures
        a == match *c {
            Some(Confirm::NewDevice { mac, .. }) => Answer::Deny(mac),
            Some(Confirm::UnsavedQuit) => Answer::Quit,
            _ => Answer::Nothing,
        },
{
    match c {
        Some(Confirm::NewDevice { mac, .. }) => Answer::Deny(*mac),
        Some(Confirm::UnsavedQuit) => Answer::Quit,
        _ => Answer::Nothing,
    }
}

// ---------------------------------------------------------------------------------------
// Questions about new devices, one at a time
// ---------------------------------------------------------------------------------------
/// Devices waiting for their question, and devices asked about already (the oldest are
/// forgotten past the limit).
pub const MAX_PENDING: usize = 32;

pub const MAX_ANSWERED: usize = 128;

#[derive(Debug, Clone, PartialEq, Eq)]
pub struct Questions {
    pub pending: Vec<(Mac, String)>,
    pub answered: Vec<Mac>,
}

pub ghost struct QuestionsModel {
    pub pending: Seq<(u64, Seq<char>)>,
    pub answered: Seq<u64>,
}

pub open spec fn pending_view(p: Seq<(Mac, String)>) -> Seq<(u64, Seq<char>)> {
    p.map_values(|e: (Mac, String)| (e.0.bits, e.1@))
}

pub open spec fn answered_view(a: Seq<Mac>) -> Seq<u64> {
    a.map_values(|m: Mac| m.bits)
}

impl View for Questions {
    type V = QuestionsModel;

    open spec fn view(&self) -> QuestionsModel {
        QuestionsModel { pending: pending_view(self.pending@), answered: answered_view(self.answered@) }
    }
}

/// A device is not queued again: the queue is full, it was asked about, it waits already,
/// or its question is on the screen.
pub open spec fn queue_skips(q: QuestionsModel, mac: u64, asking: Option<u64>) -> bool {
    ||| q.pending.len() >= MAX_PENDING
    ||| q.answered.contains(mac)
    ||| (exists|i: int| 0 <= i < q.pending.len() && (#[trigger] q.pending[i]).0 == mac)
    ||| asking == Some(mac)
}

/// The first waiting device at or after `from` not asked about yet (`p.len()`: none).
pub open spec fn next_index(p: Seq<(u64, Seq<char>)>, a: Seq<u64>, from: int) -> int
    decreases p.len() - from,
{
    if from >= p.len() || from < 0 {
        p.len() as int
    } else if !a.contains(p[from].0) {
        from
    } else {
        next_index(p, a, from + 1)
    }
}

/// The next question: the first waiting device not asked about yet. The ones before it are
/// dropped; it is remembered as asked (forgetting the oldest past the limit).
pub open spec fn next_spec(q: QuestionsModel) -> (Option<(u64, Seq<char>)>, QuestionsModel) {
    let j = next_index(q.pending, q.answered, 0);
    if j >= q.pending.len() {
        (None, QuestionsModel { pending: seq![], answered: q.answered })
    } else {
        let kept = if q.answered.len() >= MAX_ANSWERED {
            q.answered.skip(1)
        } else {
            q.answered
        };
        (
            Some(q.pending[j]),
            QuestionsModel { pending: q.pending.skip(j + 1), answered: kept.push(q.pending[j].0) },
        )
    }
}

proof fn lemma_next_index_skips(p: Seq<(u64, Seq<char>)>, a: Seq<u64>, i: int)
    requires
        0 <= i <= p.len(),
        forall|k: int| 0 <= k < i ==> a.contains(#[trigger] p[k].0),
    ensures
        next_index(p, a, 0) == next_index(p, a, i),
    decreases i,
{
    if i > 0 {
        lemma_next_index_skips(p, a, i - 1);
        assert(a.contains(p[i - 1].0));
    }
}

fn mac_in(v: &Vec<Mac>, mac: Mac) -> (b: bool)
    ensures
        b == answered_view(v@).contains(mac.bits),
{
    let ghost av = answered_view(v@);
    let mut i: usize = 0;
    while i < v.len()
        invariant
            i <= v@.len(),
            av == answered_view(v@),
            forall|k: int| 0 <= k < i ==> av[k] != mac.bits,
        decreases v.len() - i,
    {
        if v[i].bits == mac.bits {
            assert(av[i as int] == mac.bits);
            return true;
        }
        i = i + 1;
    }
    false
}

impl Questions {
    pub fn new() -> (q: Questions)
        ensures
            q@.pending.len() == 0 && q@.answered.len() == 0,
    {
        Questions { pending: Vec::new(), answered: Vec::new() }
    }

    /// A device waits for approval (`asking`: the device whose question is on the screen).
    pub fn queue(&mut self, mac: Mac, name: String, asking: Option<Mac>)
        ensures
            queue_skips(old(self)@, mac.bits, match asking {
                Some(m) => Some(m.bits),
                None => None,
            }) ==> final(self)@ == old(self)@,
            !queue_skips(old(self)@, mac.bits, match asking {
                Some(m) => Some(m.bits),
                None => None,
            }) ==> final(self)@ == (QuestionsModel {
                pending: old(self)@.pending.push((mac.bits, name@)),
                answered: old(self)@.answered,
            }),
    {
        if self.pending.len() >= MAX_PENDING {
            return;
        }
        if mac_in(&self.answered, mac) {
            return;
        }
        let ghost pv = pending_view(self.pending@);
        let mut i: usize = 0;
        while i < self.pending.len()
            invariant
                i <= self.pending@.len(),
                pv == pending_view(self.pending@),
                forall|k: int| 0 <= k < i ==> (#[trigger] pv[k]).0 != mac.bits,
            decreases self.pending.len() - i,
        {
            if self.pending[i].0.bits == mac.bits {
                assert(pv[i as int].0 == mac.bits);
                return;
            }
            i = i + 1;
        }
        match asking {
            Some(m) => if m.bits == mac.bits {
                return;
            },
            None => {},
        }
        let ghost before = self@;
        self.pending.push((mac, name));
        assert(pending_view(self.pending@) =~= before.pending.push((mac.bits, name@)));
    }

    /// The next question to show, if any (the window asks only when nothing else is open).
    pub fn next(&mut self) -> (r: Option<(Mac, String)>)
        ensures
            r matches Some((m, n)) ==> next_spec(old(self)@).0 == Some((m.bits, n@)),
            r is None ==> next_spec(old(self)@).0 is None,
            final(self)@ == next_spec(old(self)@).1,
    {
        let ghost q0 = self@;
        let ghost p = q0.pending;
        let ghost a = q0.answered;
        let ghost mut i: int = 0;
        while self.pending.len() > 0
            invariant
                0 <= i <= p.len(),
                pending_view(self.pending@) == p.skip(i),
                answered_view(self.answered@) == a,
                q0 == old(self)@,
                q0.pending == p,
                q0.answered == a,
                forall|k: int| 0 <= k < i ==> a.contains(#[trigger] p[k].0),
            decreases self.pending.len(),
        {
            let ghost before = pending_view(self.pending@);
            let ghost old_pending = self.pending@;
            let (m, n) = self.pending.remove(0);
            assert(pending_view(self.pending@) =~= before.skip(1));
            assert(before[0] == p[i]);
            assert(before[0] == (old_pending[0].0.bits, old_pending[0].1@));
            assert((m.bits, n@) == p[i]);
            assert(p.skip(i).skip(1) =~= p.skip(i + 1));
            if mac_in(&self.answered, m) {
                proof {
                    i = i + 1;
                }
            } else {
                proof {
                    lemma_next_index_skips(p, a, i);
                    assert(!a.contains(p[i].0));
                    assert(next_index(p, a, i) == i);
                    assert(next_index(p, a, 0) == i);
                }
                let ghost av = answered_view(self.answered@);
                if self.answered.len() >= MAX_ANSWERED {
                    self.answered.remove(0);
                    assert(answered_view(self.answered@) =~= av.skip(1));
                }
                let ghost kept = answered_view(self.answered@);
                self.answered.push(m);
                assert(answered_view(self.answered@) =~= kept.push(m.bits));
                assert(pending_view(self.pending@) == p.skip(i + 1));
                return Some((m, n));
            }
        }
        proof {
            lemma_next_index_skips(p, a, i);
            assert(i == p.len()) by {
                assert(p.skip(i).len() == 0);
            }
            assert(pending_view(self.pending@) =~= seq![]);
        }
        None
    }

    /// A new session: nothing waits and nobody was asked about.
    pub fn clear(&mut self)
        ensures
            final(self)@.pending.len() == 0 && final(self)@.answered.len() == 0,
    {
        self.pending.clear();
        self.answered.clear();
    }
}

/// A device whose question was just shown is not queued again, and the queue and the memory
/// of answers never grow past their limits.
pub proof fn lemma_asked_once(q: QuestionsModel, mac: u64, name: Seq<char>, asking: Option<u64>)
    requires
        q.pending.len() <= MAX_PENDING,
        q.answered.len() <= MAX_ANSWERED,
    ensures
        next_spec(q).0 matches Some(e) ==> queue_skips(next_spec(q).1, e.0, asking),
        next_spec(q).1.pending.len() <= MAX_PENDING,
        next_spec(q).1.answered.len() <= MAX_ANSWERED,
        !queue_skips(q, mac, asking) ==> q.pending.len() + 1 <= MAX_PENDING,
{
    let j = next_index(q.pending, q.answered, 0);
    lemma_next_index_range(q.pending, q.answered, 0);
    if j < q.pending.len() {
        let e = q.pending[j];
        let after = next_spec(q).1;
        assert(after.answered[after.answered.len() - 1] == e.0);
    }
}

proof fn lemma_next_index_range(p: Seq<(u64, Seq<char>)>, a: Seq<u64>, from: int)
    requires
        0 <= from,
    ensures
        from <= next_index(p, a, from) <= p.len() || (from > p.len() && next_index(p, a, from)
            == p.len()),
    decreases p.len() - from,
{
    if from < p.len() && a.contains(p[from].0) {
        lemma_next_index_range(p, a, from + 1);
    }
}

// ---------------------------------------------------------------------------------------
// The password and the QR code on the screen
// ---------------------------------------------------------------------------------------
/// How long a shown password stays on the screen (milliseconds).
pub const PASSWORD_VISIBLE_MS: u64 = 10_000;

/// Whether the password is shown, and when (monotonic milliseconds) it hides again.
#[derive(Debug, Clone, Copy, PartialEq, Eq, Structural)]
pub struct PasswordView {
    pub shown: bool,
    pub hide_at: Option<u64>,
}

/// The password key: hides a shown password; otherwise shows it for ten seconds, and asks
/// for it to be loaded when it is not in memory, is known to exist and nothing else runs.
/// With the editor open nothing happens. The `bool`: load it now.
pub open spec fn toggle_password_spec(
    v: PasswordView,
    editing: bool,
    have: bool,
    absent: bool,
    busy: bool,
    now: u64,
) -> (PasswordView, bool) {
    if editing {
        (v, false)
    } else if v.shown {
        (PasswordView { shown: false, hide_at: None }, false)
    } else {
        (
            PasswordView { shown: true, hide_at: Some((now + PASSWORD_VISIBLE_MS) as u64) },
            !have && !absent && !busy,
        )
    }
}

pub fn toggle_password(v: PasswordView, editing: bool, have: bool, absent: bool, busy: bool, now: u64) -> (r: (
    PasswordView,
    bool,
))
    requires
        !editing && !v.shown ==> now + PASSWORD_VISIBLE_MS <= u64::MAX,
    ensures
        r == toggle_password_spec(v, editing, have, absent, busy, now),
{
    if editing {
        (v, false)
    } else if v.shown {
        (PasswordView { shown: false, hide_at: None }, false)
    } else {
        (PasswordView { shown: true, hide_at: Some(now + PASSWORD_VISIBLE_MS) }, !have && !absent
            && !busy)
    }
}

/// On each tick a shown password hides once its time is up.
pub fn password_tick(v: PasswordView, now: u64) -> (r: PasswordView)
    ensures
        r == (if v.hide_at matches Some(t) && now >= t {
            PasswordView { shown: false, hide_at: None }
        } else {
            v
        }),
{
    match v.hide_at {
        Some(t) => if now >= t {
            PasswordView { shown: false, hide_at: None }
        } else {
            v
        },
        None => v,
    }
}

/// What opening the QR code needs.
#[derive(Debug, Clone, Copy, PartialEq, Eq, Structural)]
pub enum QrStep {
    Nothing,
    /// The password is in memory: draw the code now.
    Build,
    /// Nobody loaded the password yet: load it (the code is drawn when it arrives).
    Load,
}

/// The QR key (or a click on the code): only while the hotspot is on it shows or hides the
/// code; opening it draws the code or loads the password first.
pub fn toggle_qr(on: bool, shown: bool, built: bool, have_password: bool, loading: bool) -> (r: (
    bool,
    QrStep,
))
    ensures
        !on ==> r == (shown, QrStep::Nothing),
        on ==> r.0 == !shown,
        on && (shown || built) ==> r.1 == QrStep::Nothing,
        on && !shown && !built ==> r.1 == (if have_password {
            QrStep::Build
        } else if !loading {
            QrStep::Load
        } else {
            QrStep::Nothing
        }),
{
    if !on {
        return (shown, QrStep::Nothing);
    }
    let now_shown = !shown;
    if !now_shown || built {
        return (now_shown, QrStep::Nothing);
    }
    if have_password {
        (now_shown, QrStep::Build)
    } else if !loading {
        (now_shown, QrStep::Load)
    } else {
        (now_shown, QrStep::Nothing)
    }
}

} // verus!
