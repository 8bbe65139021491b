//! The model of the window's advanced mode: sections, items and the draft of the settings.
//! No drawing and no input or output here: what can be chosen, how a value changes, what a
//! key does, and what saving asks for. The draft is edited with the arrow keys and reaches
//! the settings only when saved.

use vstd::prelude::*;
use crate::backend::{Band, Ipv4Net, Security, private_host, parse_net};
use crate::mouse::{wheel_step, wheel_step_spec};
use crate::config::{Config, ConfigView, copy_text, copy_texts};
use crate::doctor::Check;
use crate::error::CoreError;
use crate::hotspot::{dns_list_result, parse_dns_list};
use crate::iw::WifiCaps;
use crate::num::{decimal, decimal_chars, parse_u32, parse_unsigned};
use crate::proto::{CountryCode, parse_country};
use crate::editor::{without_last, without_last_exec};
use crate::text::{
    chars_to_string, contains, filter_map, is_control, is_control_exec, is_ws, is_ws_exec, join,
    join_exec, lit, push_char, seqs, str_chars, strs, strings_of, trim, trim_exec,
};

verus! {

broadcast use vstd::slice::group_slice_axioms;

/// A section of the advanced mode.
#[derive(Debug, Clone, Copy, PartialEq, Eq, Structural)]
pub enum Section {
    Radio,
    Security,
    Network,
    Automation,
    Devices,
    Expert,
}

/// An item (a setting or an action) of a section.
#[derive(Debug, Clone, Copy, PartialEq, Eq, Structural)]
pub enum Item {
    Band,
    Channel,
    Width,
    Hidden,
    Country,
    Security,
    Pmf,
    Isolation,
    GuestsReachPc,
    Approval,
    Notifications,
    Blacklist,
    Password,
    Uplink,
    Subnet,
    Dns,
    Ipv6,
    Autostart,
    IdleOff,
    Timer,
    CloseOnFocusLoss,
    Log,
    Doctor,
    Reset,
}

/// How an item changes.
#[derive(Debug, Clone, Copy, PartialEq, Eq, Structural)]
pub enum Kind {
    /// ←/→ go through the choices.
    Choice,
    /// ←/→ and Enter switch it on and off.
    Toggle,
    /// ←/→ go through common choices, Enter types one's own value.
    ChoiceOrText,
    /// Enter runs an action.
    Action,
    /// Only shown.
    ReadOnly,
}

/// Where the keys go.
#[derive(Debug, Clone, Copy, PartialEq, Eq, Structural)]
pub enum Focus {
    Sections,
    Items,
}

/// Typing one's own value (country, subnet, DNS, minutes).
#[derive(Debug, Clone, PartialEq, Eq)]
pub struct TextInput {
    pub item: Item,
    pub value: String,
    pub error: Option<TextError>,
}

/// What the system offers for the choices (the card's channels, interfaces); it may not be
/// loaded yet.
#[derive(Debug, Clone, Default)]
pub struct Env {
    pub caps: Option<WifiCaps>,
    pub uplinks: Vec<String>,
}

/// The sections in their order.
pub open spec fn section_at(i: int) -> Section {
    if i == 0 {
        Section::Radio
    } else if i == 1 {
        Section::Security
    } else if i == 2 {
        Section::Network
    } else if i == 3 {
        Section::Automation
    } else if i == 4 {
        Section::Devices
    } else {
        Section::Expert
    }
}

pub open spec fn section_index(s: Section) -> int {
    match s {
        Section::Radio => 0,
        Section::Security => 1,
        Section::Network => 2,
        Section::Automation => 3,
        Section::Devices => 4,
        Section::Expert => 5,
    }
}

/// The items of a section. "Devices" has none of its own: it shows the device list.
pub open spec fn section_items(s: Section) -> Seq<Item> {
    match s {
        Section::Radio => seq![Item::Band, Item::Channel, Item::Width, Item::Hidden, Item::Country],
        Section::Security => seq![
            Item::Security,
            Item::Pmf,
            Item::Isolation,
            Item::GuestsReachPc,
            Item::Approval,
            Item::Notifications,
            Item::Blacklist,
            Item::Password,
        ],
        Section::Network => seq![Item::Uplink, Item::Subnet, Item::Dns, Item::Ipv6],
        Section::Automation => seq![Item::Autostart, Item::IdleOff, Item::Timer, Item::CloseOnFocusLoss],
        Section::Devices => seq![],
        Section::Expert => seq![Item::Log, Item::Doctor, Item::Reset],
    }
}

impl Section {
    /// The section at position `i` of the six (positions wrap around).
    pub fn at(i: usize) -> (s: Section)
        ensures
            s == section_at((i % 6) as int),
    {
        let k = i % 6;
        if k == 0 {
            Section::Radio
        } else if k == 1 {
            Section::Security
        } else if k == 2 {
            Section::Network
        } else if k == 3 {
            Section::Automation
        } else if k == 4 {
            Section::Devices
        } else {
            Section::Expert
        }
    }

    pub fn index(self) -> (i: usize)
        ensures
            i == section_index(self),
            section_at(i as int) == self,
    {
        match self {
            Section::Radio => 0,
            Section::Security => 1,
            Section::Network => 2,
            Section::Automation => 3,
            Section::Devices => 4,
            Section::Expert => 5,
        }
    }

    /// The Nerd Font icon.
    pub fn icon(self) -> (r: &'static str)
        ensures
            r@ == match self {
                Section::Radio => "󰖩"@,
                Section::Security => "󰒃"@,
                Section::Network => "󰛳"@,
                Section::Automation => "󰔟"@,
                Section::Devices => "󰀂"@,
                Section::Expert => "󰒓"@,
            },
    {
        match self {
            Section::Radio => "󰖩",
            Section::Security => "󰒃",
            Section::Network => "󰛳",
            Section::Automation => "󰔟",
            Section::Devices => "󰀂",
            Section::Expert => "󰒓",
        }
    }

    pub fn items(self) -> (v: Vec<Item>)
        ensures
            v@ == section_items(self),
    {
        let mut v: Vec<Item> = Vec::new();
        match self {
            Section::Radio => {
                v.push(Item::Band);
                v.push(Item::Channel);
                v.push(Item::Width);
                v.push(Item::Hidden);
                v.push(Item::Country);
            },
            Section::Security => {
                v.push(Item::Security);
                v.push(Item::Pmf);
                v.push(Item::Isolation);
                v.push(Item::GuestsReachPc);
                v.push(Item::Approval);
                v.push(Item::Notifications);
                v.push(Item::Blacklist);
                v.push(Item::Password);
            },
            Section::Network => {
                v.push(Item::Uplink);
                v.push(Item::Subnet);
                v.push(Item::Dns);
                v.push(Item::Ipv6);
            },
            Section::Automation => {
                v.push(Item::Autostart);
                v.push(Item::IdleOff);
                v.push(Item::Timer);
                v.push(Item::CloseOnFocusLoss);
            },
            Section::Devices => {},
            Section::Expert => {
                v.push(Item::Log);
                v.push(Item::Doctor);
                v.push(Item::Reset);
            },
        }
        assert(v@ =~= section_items(self));
        v
    }
}

pub open spec fn kind_of(item: Item) -> Kind {
    match item {
        Item::Band | Item::Channel | Item::Width | Item::Security | Item::Uplink => Kind::Choice,
        Item::Hidden | Item::Isolation | Item::GuestsReachPc | Item::Approval | Item::Notifications
        | Item::Autostart | Item::CloseOnFocusLoss => Kind::Toggle,
        Item::Country | Item::Subnet | Item::Dns | Item::IdleOff | Item::Timer => Kind::ChoiceOrText,
        Item::Blacklist | Item::Password | Item::Log | Item::Doctor | Item::Reset => Kind::Action,
        Item::Pmf | Item::Ipv6 => Kind::ReadOnly,
    }
}

impl Item {
    pub fn kind(self) -> (k: Kind)
        ensures
            k == kind_of(self),
    {
        match self {
            Item::Band | Item::Channel | Item::Width | Item::Security | Item::Uplink => Kind::Choice,
            Item::Hidden | Item::Isolation | Item::GuestsReachPc | Item::Approval
            | Item::Notifications | Item::Autostart | Item::CloseOnFocusLoss => Kind::Toggle,
            Item::Country | Item::Subnet | Item::Dns | Item::IdleOff | Item::Timer => Kind::ChoiceOrText,
            Item::Blacklist | Item::Password | Item::Log | Item::Doctor | Item::Reset => Kind::Action,
            Item::Pmf | Item::Ipv6 => Kind::ReadOnly,
        }
    }
}

// ---------------------------------------------------------------------------------------
// Going round the choices
// ---------------------------------------------------------------------------------------
/// The first position of `x` in `s`.
pub open spec fn first_pos<T>(s: Seq<T>, x: T) -> Option<int>
    decreases s.len(),
{
    if s.len() == 0 {
        None
    } else {
        match first_pos(s.drop_last(), x) {
            Some(i) => Some(i),
            None => if s.last() == x {
                Some(s.len() - 1)
            } else {
                None
            },
        }
    }
}

/// The next (or previous) position round the circle; from nowhere, the first (or last).
pub open spec fn next_idx(n: int, pos: Option<int>, forward: bool) -> int {
    match pos {
        Some(i) => if forward {
            (i + 1) % n
        } else {
            (i + n - 1) % n
        },
        None => if forward {
            0
        } else {
            n - 1
        },
    }
}

/// The next (or previous) choice round the circle. When the current value is not among the
/// choices it starts from the edge.
pub open spec fn cycle_spec<T>(opts: Seq<T>, cur: T, forward: bool) -> T {
    opts[next_idx(opts.len() as int, first_pos(opts, cur), forward)]
}

/// The arrows go round the choices: one step forward and one back (or back and forward)
/// return to the same choice, when the choices have no repeats and the current value is
/// one of them.
pub proof fn lemma_cycle_returns<T>(opts: Seq<T>, cur: T, forward: bool)
    requires
        opts.no_duplicates(),
        opts.contains(cur),
    ensures
        cycle_spec(opts, cycle_spec(opts, cur, forward), !forward) == cur,
{
    let n = opts.len() as int;
    let i = choose|i: int| 0 <= i < n && opts[i] == cur;
    assert forall|k: int| 0 <= k < i implies opts[k] != cur by {}
    lemma_first_pos_at(opts, cur, i);
    let j = next_idx(n, Some(i), forward);
    if forward {
        if i + 1 < n {
            vstd::arithmetic::div_mod::lemma_small_mod((i + 1) as nat, n as nat);
        } else {
            assert((i + 1) % n == 0) by {
                vstd::arithmetic::div_mod::lemma_mod_self_0(n);
            }
        }
    } else {
        if i > 0 {
            vstd::arithmetic::div_mod::lemma_mod_add_multiples_vanish(i - 1, n);
            vstd::arithmetic::div_mod::lemma_small_mod((i - 1) as nat, n as nat);
        } else {
            vstd::arithmetic::div_mod::lemma_small_mod((n - 1) as nat, n as nat);
        }
    }
    assert(0 <= j < n);
    assert forall|k: int| 0 <= k < j implies opts[k] != opts[j] by {}
    lemma_first_pos_at(opts, opts[j], j);
    if forward {
        if j > 0 {
            vstd::arithmetic::div_mod::lemma_mod_add_multiples_vanish(j - 1, n);
            vstd::arithmetic::div_mod::lemma_small_mod((j - 1) as nat, n as nat);
        } else {
            vstd::arithmetic::div_mod::lemma_small_mod((n - 1) as nat, n as nat);
        }
    } else {
        if j + 1 < n {
            vstd::arithmetic::div_mod::lemma_small_mod((j + 1) as nat, n as nat);
        } else {
            vstd::arithmetic::div_mod::lemma_mod_self_0(n);
        }
    }
}

proof fn lemma_first_pos_at<T>(s: Seq<T>, x: T, i: int)
    requires
        0 <= i < s.len(),
        s[i] == x,
        forall|k: int| 0 <= k < i ==> s[k] != x,
    ensures
        first_pos(s, x) == Some(i),
    decreases s.len(),
{
    if i < s.len() - 1 {
        assert forall|k: int| 0 <= k < i implies s.drop_last()[k] != x by {
            assert(s.drop_last()[k] == s[k]);
        }
        lemma_first_pos_at(s.drop_last(), x, i);
    } else {
        assert forall|k: int| 0 <= k < s.drop_last().len() implies s.drop_last()[k] != x by {
            assert(s.drop_last()[k] == s[k]);
        }
        lemma_first_pos_absent(s.drop_last(), x);
    }
}

proof fn lemma_first_pos_absent<T>(s: Seq<T>, x: T)
    requires
        forall|k: int| 0 <= k < s.len() ==> s[k] != x,
    ensures
        first_pos(s, x) is None,
    decreases s.len(),
{
    if s.len() > 0 {
        assert forall|k: int| 0 <= k < s.drop_last().len() implies s.drop_last()[k] != x by {
            assert(s.drop_last()[k] == s[k]);
        }
        lemma_first_pos_absent(s.drop_last(), x);
        assert(s[s.len() - 1] != x);
    }
}

fn next_index(n: usize, pos: Option<usize>, forward: bool) -> (r: usize)
    requires
        n > 0,
        pos matches Some(i) ==> i < n,
    ensures
        r as int == next_idx(
            n as int,
            match pos {
                Some(i) => Some(i as int),
                None => None,
            },
            forward,
        ),
        r < n,
{
    match pos {
        Some(i) => if forward {
            (i + 1) % n
        } else if i == 0 {
            assert((0 + n - 1) % (n as int) == n - 1) by (nonlinear_arith)
                requires
                    n > 0,
            ;
            n - 1
        } else {
            assert((i + n - 1) % (n as int) == i - 1) by (nonlinear_arith)
                requires
                    0 < i < n,
            ;
            i - 1
        },
        None => if forward {
            0
        } else {
            n - 1
        },
    }
}

pub open spec fn as_pos(p: Option<usize>) -> Option<int> {
    match p {
        Some(i) => Some(i as int),
        None => None,
    }
}

fn pos_u8(opts: &Vec<u8>, x: u8) -> (r: Option<usize>)
    ensures
        as_pos(r) == first_pos(opts@, x),
        r matches Some(i) ==> i < opts@.len(),
{
    let mut i: usize = 0;
    while i < opts.len()
        invariant
            i <= opts@.len(),
            forall|k: int| 0 <= k < i ==> opts@[k] != x,
        decreases opts.len() - i,
    {
        if opts[i] == x {
            proof {
                lemma_first_pos_at(opts@, x, i as int);
            }
            return Some(i);
        }
        i = i + 1;
    }
    proof {
        lemma_first_pos_absent(opts@, x);
    }
    None
}

fn pos_u16(opts: &Vec<u16>, x: u16) -> (r: Option<usize>)
    ensures
        as_pos(r) == first_pos(opts@, x),
        r matches Some(i) ==> i < opts@.len(),
{
    let mut i: usize = 0;
    while i < opts.len()
        invariant
            i <= opts@.len(),
            forall|k: int| 0 <= k < i ==> opts@[k] != x,
        decreases opts.len() - i,
    {
        if opts[i] == x {
            proof {
                lemma_first_pos_at(opts@, x, i as int);
            }
            return Some(i);
        }
        i = i + 1;
    }
    proof {
        lemma_first_pos_absent(opts@, x);
    }
    None
}

fn pos_u32(opts: &Vec<u32>, x: u32) -> (r: Option<usize>)
    ensures
        as_pos(r) == first_pos(opts@, x),
        r matches Some(i) ==> i < opts@.len(),
{
    let mut i: usize = 0;
    while i < opts.len()
        invariant
            i <= opts@.len(),
            forall|k: int| 0 <= k < i ==> opts@[k] != x,
        decreases opts.len() - i,
    {
        if opts[i] == x {
            proof {
                lemma_first_pos_at(opts@, x, i as int);
            }
            return Some(i);
        }
        i = i + 1;
    }
    proof {
        lemma_first_pos_absent(opts@, x);
    }
    None
}

fn pos_band(opts: &Vec<Band>, x: Band) -> (r: Option<usize>)
    ensures
        as_pos(r) == first_pos(opts@, x),
        r matches Some(i) ==> i < opts@.len(),
{
    let mut i: usize = 0;
    while i < opts.len()
        invariant
            i <= opts@.len(),
            forall|k: int| 0 <= k < i ==> opts@[k] != x,
        decreases opts.len() - i,
    {
        if opts[i] == x {
            proof {
                lemma_first_pos_at(opts@, x, i as int);
            }
            return Some(i);
        }
        i = i + 1;
    }
    proof {
        lemma_first_pos_absent(opts@, x);
    }
    None
}

fn same_text(a: &String, b: &String) -> (r: bool)
    ensures
        r == (a@ == b@),
{
    let x = str_chars(a.as_str());
    let y = str_chars(b.as_str());
    crate::text::chars_eq(x.as_slice(), y.as_slice())
}

fn pos_str(opts: &Vec<String>, x: &String) -> (r: Option<usize>)
    ensures
        as_pos(r) == first_pos(strs(opts@), x@),
        r matches Some(i) ==> i < opts@.len(),
{
    let ghost s = strs(opts@);
    let mut i: usize = 0;
    while i < opts.len()
        invariant
            i <= opts@.len(),
            s == strs(opts@),
            forall|k: int| 0 <= k < i ==> s[k] != x@,
        decreases opts.len() - i,
    {
        if same_text(&opts[i], x) {
            proof {
                lemma_first_pos_at(s, x@, i as int);
            }
            return Some(i);
        }
        i = i + 1;
    }
    proof {
        lemma_first_pos_absent(s, x@);
    }
    None
}

fn same_texts(a: &Vec<String>, b: &Vec<String>) -> (r: bool)
    ensures
        r == (strs(a@) == strs(b@)),
{
    if a.len() != b.len() {
        assert(strs(a@).len() != strs(b@).len());
        return false;
    }
    let mut i: usize = 0;
    while i < a.len()
        invariant
            a@.len() == b@.len(),
            i <= a@.len(),
            forall|k: int| 0 <= k < i ==> strs(a@)[k] == strs(b@)[k],
        decreases a.len() - i,
    {
        if !same_text(&a[i], &b[i]) {
            assert(strs(a@)[i as int] != strs(b@)[i as int]);
            return false;
        }
        i = i + 1;
    }
    assert(strs(a@) =~= strs(b@));
    true
}

fn pos_list(opts: &Vec<Vec<String>>, x: &Vec<String>) -> (r: Option<usize>)
    ensures
        as_pos(r) == first_pos(lists_view(opts@), strs(x@)),
        r matches Some(i) ==> i < opts@.len(),
{
    let ghost s = lists_view(opts@);
    let mut i: usize = 0;
    while i < opts.len()
        invariant
            i <= opts@.len(),
            s == lists_view(opts@),
            forall|k: int| 0 <= k < i ==> s[k] != strs(x@),
        decreases opts.len() - i,
    {
        if same_texts(&opts[i], x) {
            proof {
                lemma_first_pos_at(s, strs(x@), i as int);
            }
            return Some(i);
        }
        i = i + 1;
    }
    proof {
        lemma_first_pos_absent(s, strs(x@));
    }
    None
}

pub open spec fn lists_view(v: Seq<Vec<String>>) -> Seq<Seq<Seq<char>>> {
    v.map_values(|l: Vec<String>| strs(l@))
}

// ---------------------------------------------------------------------------------------
// The choices
// ---------------------------------------------------------------------------------------
/// Common countries; "" leaves the country as it is.
pub open spec fn countries() -> Seq<Seq<char>> {
    seq![""@, "UA"@, "PL"@, "DE"@, "CZ"@, "GB"@, "US"@, "FR"@, "NL"@, "KZ"@]
}

pub open spec fn subnets() -> Seq<Seq<char>> {
    seq!["10.42.0.1/24"@, "192.168.50.1/24"@, "172.20.0.1/24"@]
}

pub open spec fn idle_minutes() -> Seq<u32> {
    seq![0, 5, 10, 15, 30, 60, 120]
}

pub open spec fn timer_minutes() -> Seq<u32> {
    seq![0, 15, 30, 60, 120, 180, 240, 480]
}

/// Common DNS servers for guests; empty means "as the PC has".
pub open spec fn dns_presets() -> Seq<Seq<Seq<char>>> {
    seq![
        seq![],
        seq!["1.1.1.1"@, "1.0.0.1"@],
        seq!["9.9.9.9"@, "149.112.112.112"@],
        seq!["8.8.8.8"@, "8.8.4.4"@],
        seq!["94.140.14.14"@, "94.140.15.15"@],
    ]
}

/// The most minutes for idleness and the timer: a day.
pub const MAX_MINUTES: u32 = 1440;

/// The choices plus the current value at the end when it is not among them.
pub open spec fn with_current<T>(opts: Seq<T>, cur: T) -> Seq<T> {
    if opts.contains(cur) {
        opts
    } else {
        opts.push(cur)
    }
}

/// The channels a band can use; nothing while the card is unknown.
pub open spec fn channels_for_spec(band: Band, caps: Option<WifiCaps>) -> Seq<u8> {
    match caps {
        None => seq![],
        Some(c) => match band {
            Band::Ghz2_4 => c.channels_2ghz@,
            Band::Ghz5 => c.channels_5ghz@,
            Band::Auto => c.channels_2ghz@ + c.channels_5ghz@,
        },
    }
}

pub open spec fn band_opts(caps: Option<WifiCaps>) -> Seq<Band> {
    match caps {
        Some(c) => if c.channels_5ghz@.len() == 0 {
            seq![Band::Auto, Band::Ghz2_4]
        } else {
            seq![Band::Auto, Band::Ghz2_4, Band::Ghz5]
        },
        None => seq![Band::Auto, Band::Ghz2_4, Band::Ghz5],
    }
}

/// What ←/→ (and Enter on a toggle) do to one item of the draft. A band change drops a
/// channel the new band does not have (when the card is known) and 80 MHz on 2.4 GHz;
/// 5 GHz is offered unless the card is known to have no 5 GHz channel. Other items do
/// nothing.
pub open spec fn step_spec(c: ConfigView, item: Item, forward: bool, env: Env) -> ConfigView {
    let h = c.hotspot;
    match item {
        Item::Band => {
            let band = cycle_spec(band_opts(env.caps), h.band, forward);
            let channel = if h.channel != 0 && env.caps is Some && !channels_for_spec(band, env.caps).contains(
                h.channel,
            ) {
                0
            } else {
                h.channel
            };
            let width = if band == Band::Ghz2_4 && h.width_mhz == 80 {
                40
            } else {
                h.width_mhz
            };
            ConfigView {
                hotspot: crate::config::HotspotView { band, channel, width_mhz: width, ..h },
                ..c
            }
        },
        Item::Channel => ConfigView {
            hotspot: crate::config::HotspotView {
                channel: cycle_spec(seq![0u8] + channels_for_spec(h.band, env.caps), h.channel, forward),
                ..h
            },
            ..c
        },
        Item::Width => {
            let opts = if h.band != Band::Ghz2_4 {
                seq![20u16, 40, 80]
            } else {
                seq![20u16, 40]
            };
            let cur = if h.width_mhz == 0 {
                20
            } else {
                h.width_mhz
            };
            ConfigView {
                hotspot: crate::config::HotspotView { width_mhz: cycle_spec(opts, cur, forward), ..h },
                ..c
            }
        },
        Item::Hidden => ConfigView { hotspot: crate::config::HotspotView { hidden: !h.hidden, ..h }, ..c },
        Item::Country => ConfigView {
            hotspot: crate::config::HotspotView {
                country: cycle_spec(with_current(countries(), h.country), h.country, forward),
                ..h
            },
            ..c
        },
        Item::Security => ConfigView {
            hotspot: crate::config::HotspotView {
                security: match h.security {
                    Security::Wpa3 => Security::Wpa2,
                    Security::Wpa2 => Security::Wpa3,
                },
                ..h
            },
            ..c
        },
        Item::Isolation => ConfigView {
            hotspot: crate::config::HotspotView { ap_isolation: !h.ap_isolation, ..h },
            ..c
        },
        Item::GuestsReachPc => ConfigView {
            hotspot: crate::config::HotspotView { guests_can_reach_pc: !h.guests_can_reach_pc, ..h },
            ..c
        },
        Item::Approval => ConfigView {
            access: crate::config::AccessView { approval_required: !c.access.approval_required, ..c.access },
            ..c
        },
        Item::Notifications => ConfigView {
            access: crate::config::AccessView { notifications: !c.access.notifications, ..c.access },
            ..c
        },
        Item::CloseOnFocusLoss => ConfigView {
            ui: crate::config::UiConfig { close_on_focus_loss: !c.ui.close_on_focus_loss, ..c.ui },
            ..c
        },
        Item::Uplink => ConfigView {
            network: crate::config::NetworkView {
                uplink_interface: cycle_spec(
                    with_current(seq![seq![]] + strs(env.uplinks@), c.network.uplink_interface),
                    c.network.uplink_interface,
                    forward,
                ),
                ..c.network
            },
            ..c
        },
        Item::Subnet => ConfigView {
            network: crate::config::NetworkView {
                subnet: cycle_spec(with_current(subnets(), c.network.subnet), c.network.subnet, forward),
                ..c.network
            },
            ..c
        },
        Item::Dns => ConfigView {
            network: crate::config::NetworkView {
                dns: cycle_spec(with_current(dns_presets(), c.network.dns), c.network.dns, forward),
                ..c.network
            },
            ..c
        },
        Item::Autostart => ConfigView {
            automation: crate::config::AutomationConfig {
                autostart_on_login: !c.automation.autostart_on_login,
                ..c.automation
            },
            ..c
        },
        Item::IdleOff => ConfigView {
            automation: crate::config::AutomationConfig {
                idle_off_minutes: cycle_spec(idle_minutes(), c.automation.idle_off_minutes, forward),
                ..c.automation
            },
            ..c
        },
        Item::Timer => ConfigView {
            automation: crate::config::AutomationConfig {
                timer_minutes: cycle_spec(timer_minutes(), c.automation.timer_minutes, forward),
                ..c.automation
            },
            ..c
        },
        _ => c,
    }
}


proof fn lemma_first_pos_contains<T>(s: Seq<T>, x: T)
    ensures
        first_pos(s, x) is None <==> !s.contains(x),
        first_pos(s, x) matches Some(i) ==> 0 <= i < s.len() && s[i] == x,
    decreases s.len(),
{
    if s.len() > 0 {
        lemma_first_pos_contains(s.drop_last(), x);
        if s.contains(x) {
            let k = choose|k: int| 0 <= k < s.len() && s[k] == x;
            if k < s.len() - 1 {
                assert(s.drop_last()[k] == x);
            }
        }
        if s.drop_last().contains(x) {
            let k = choose|k: int| 0 <= k < s.drop_last().len() && s.drop_last()[k] == x;
            assert(s[k] == x);
        }
        if first_pos(s, x) is Some && first_pos(s.drop_last(), x) is None {
            assert(s[s.len() - 1] == x);
        }
    }
}

fn cycle_u8(opts: &Vec<u8>, cur: u8, forward: bool) -> (r: u8)
    requires
        opts@.len() > 0,
    ensures
        r == cycle_spec(opts@, cur, forward),
{
    let p = pos_u8(opts, cur);
    let i = next_index(opts.len(), p, forward);
    opts[i]
}

fn cycle_u16(opts: &Vec<u16>, cur: u16, forward: bool) -> (r: u16)
    requires
        opts@.len() > 0,
    ensures
        r == cycle_spec(opts@, cur, forward),
{
    let p = pos_u16(opts, cur);
    let i = next_index(opts.len(), p, forward);
    opts[i]
}

fn cycle_u32(opts: &Vec<u32>, cur: u32, forward: bool) -> (r: u32)
    requires
        opts@.len() > 0,
    ensures
        r == cycle_spec(opts@, cur, forward),
{
    let p = pos_u32(opts, cur);
    let i = next_index(opts.len(), p, forward);
    opts[i]
}

fn cycle_band(opts: &Vec<Band>, cur: Band, forward: bool) -> (r: Band)
    requires
        opts@.len() > 0,
    ensures
        r == cycle_spec(opts@, cur, forward),
{
    let p = pos_band(opts, cur);
    let i = next_index(opts.len(), p, forward);
    opts[i]
}

/// The text choice after `cur`, with `cur` added at the end when it is not a choice.
fn cycle_text(opts: Vec<String>, cur: &String, forward: bool) -> (r: String)
    requires
        opts@.len() > 0,
    ensures
        r@ == cycle_spec(with_current(strs(opts@), cur@), cur@, forward),
{
    let mut opts = opts;
    proof {
        lemma_first_pos_contains(strs(opts@), cur@);
    }
    if pos_str(&opts, cur).is_none() {
        let ghost before = strs(opts@);
        opts.push(copy_text(cur));
        assert(strs(opts@) =~= before.push(cur@));
    }
    let p = pos_str(&opts, cur);
    let i = next_index(opts.len(), p, forward);
    copy_text(&opts[i])
}

fn cycle_list(opts: Vec<Vec<String>>, cur: &Vec<String>, forward: bool) -> (r: Vec<String>)
    requires
        opts@.len() > 0,
    ensures
        strs(r@) == cycle_spec(with_current(lists_view(opts@), strs(cur@)), strs(cur@), forward),
{
    let mut opts = opts;
    proof {
        lemma_first_pos_contains(lists_view(opts@), strs(cur@));
    }
    if pos_list(&opts, cur).is_none() {
        let ghost before = lists_view(opts@);
        opts.push(copy_texts(cur));
        assert(lists_view(opts@) =~= before.push(strs(cur@)));
    }
    let p = pos_list(&opts, cur);
    let i = next_index(opts.len(), p, forward);
    copy_texts(&opts[i])
}

fn texts_of(items: &[&str]) -> (v: Vec<String>)
    ensures
        v@.len() == items@.len(),
        forall|k: int| 0 <= k < items@.len() ==> #[trigger] v@[k]@ == items@[k]@,
{
    let mut v: Vec<String> = Vec::new();
    let mut i: usize = 0;
    while i < items.len()
        invariant
            i <= items@.len(),
            v@.len() == i,
            forall|k: int| 0 <= k < i ==> #[trigger] v@[k]@ == items@[k]@,
        decreases items.len() - i,
    {
        v.push(items[i].to_owned());
        i = i + 1;
    }
    v
}

fn channels_for(band: Band, caps: &Option<WifiCaps>) -> (v: Vec<u8>)
    ensures
        v@ == channels_for_spec(band, *caps),
{
    match caps {
        None => Vec::new(),
        Some(c) => {
            let mut v: Vec<u8> = Vec::new();
            if band != Band::Ghz5 {
                let mut a = c.channels_2ghz.clone();
                assert(a@ =~= c.channels_2ghz@);
                v.append(&mut a);
            }
            if band != Band::Ghz2_4 {
                let mut b = c.channels_5ghz.clone();
                assert(b@ =~= c.channels_5ghz@);
                v.append(&mut b);
            }
            assert(v@ =~= channels_for_spec(band, *caps));
            v
        },
    }
}

fn step_band(cfg: &mut Config, forward: bool, env: &Env)
    ensures
        final(cfg)@ == step_spec(old(cfg)@, Item::Band, forward, *env),
{
    let mut opts: Vec<Band> = Vec::new();
    opts.push(Band::Auto);
    opts.push(Band::Ghz2_4);
    let show5 = match &env.caps {
        Some(c) => c.channels_5ghz.len() > 0,
        None => true,
    };
    if show5 {
        opts.push(Band::Ghz5);
    }
    assert(opts@ =~= band_opts(env.caps));
    let band = cycle_band(&opts, cfg.hotspot.band, forward);
    let chans = channels_for(band, &env.caps);
    proof {
        lemma_first_pos_contains(chans@, cfg.hotspot.channel);
    }
    if cfg.hotspot.channel != 0 && env.caps.is_some() && pos_u8(&chans, cfg.hotspot.channel).is_none() {
        cfg.hotspot.channel = 0;
    }
    if band == Band::Ghz2_4 && cfg.hotspot.width_mhz == 80 {
        cfg.hotspot.width_mhz = 40;
    }
    cfg.hotspot.band = band;
}

fn step_channel(cfg: &mut Config, forward: bool, env: &Env)
    ensures
        final(cfg)@ == step_spec(old(cfg)@, Item::Channel, forward, *env),
{
    let mut opts: Vec<u8> = Vec::new();
    opts.push(0);
    let mut chans = channels_for(cfg.hotspot.band, &env.caps);
    let ghost cv = chans@;
    opts.append(&mut chans);
    assert(opts@ =~= seq![0u8] + cv);
    cfg.hotspot.channel = cycle_u8(&opts, cfg.hotspot.channel, forward);
}

fn step_width(cfg: &mut Config, forward: bool, env: &Env)
    ensures
        final(cfg)@ == step_spec(old(cfg)@, Item::Width, forward, *env),
{
    let mut opts: Vec<u16> = Vec::new();
    opts.push(20);
    opts.push(40);
    if cfg.hotspot.band != Band::Ghz2_4 {
        opts.push(80);
    }
    let cur = if cfg.hotspot.width_mhz == 0 {
        20
    } else {
        cfg.hotspot.width_mhz
    };
    assert(cfg.hotspot.band != Band::Ghz2_4 ==> opts@ =~= seq![20u16, 40, 80]);
    assert(cfg.hotspot.band == Band::Ghz2_4 ==> opts@ =~= seq![20u16, 40]);
    cfg.hotspot.width_mhz = cycle_u16(&opts, cur, forward);
}

fn step_country(cfg: &mut Config, forward: bool, env: &Env)
    ensures
        final(cfg)@ == step_spec(old(cfg)@, Item::Country, forward, *env),
{
    let opts = texts_of(&["", "UA", "PL", "DE", "CZ", "GB", "US", "FR", "NL", "KZ"]);
    assert(strs(opts@) =~= countries());
    cfg.hotspot.country = cycle_text(opts, &cfg.hotspot.country, forward);
}

fn step_uplink(cfg: &mut Config, forward: bool, env: &Env)
    ensures
        final(cfg)@ == step_spec(old(cfg)@, Item::Uplink, forward, *env),
{
    let mut opts: Vec<String> = Vec::new();
    opts.push(String::new());
    let mut more = copy_texts(&env.uplinks);
    let ghost mv = strs(more@);
    let ghost first = strs(opts@);
    opts.append(&mut more);
    assert(strs(opts@) =~= first + mv);
    assert(first =~= seq![Seq::<char>::empty()]);
    cfg.network.uplink_interface = cycle_text(opts, &cfg.network.uplink_interface, forward);
}

fn step_subnet(cfg: &mut Config, forward: bool, env: &Env)
    ensures
        final(cfg)@ == step_spec(old(cfg)@, Item::Subnet, forward, *env),
{
    let opts = texts_of(&["10.42.0.1/24", "192.168.50.1/24", "172.20.0.1/24"]);
    assert(strs(opts@) =~= subnets());
    cfg.network.subnet = cycle_text(opts, &cfg.network.subnet, forward);
}

fn step_dns(cfg: &mut Config, forward: bool, env: &Env)
    ensures
        final(cfg)@ == step_spec(old(cfg)@, Item::Dns, forward, *env),
{
    let mut opts: Vec<Vec<String>> = Vec::new();
    opts.push(Vec::new());
    opts.push(texts_of(&["1.1.1.1", "1.0.0.1"]));
    opts.push(texts_of(&["9.9.9.9", "149.112.112.112"]));
    opts.push(texts_of(&["8.8.8.8", "8.8.4.4"]));
    opts.push(texts_of(&["94.140.14.14", "94.140.15.15"]));
    assert(lists_view(opts@) =~= dns_presets()) by {
        assert(strs(opts@[0]@) =~= Seq::<Seq<char>>::empty());
        assert(strs(opts@[1]@) =~= seq!["1.1.1.1"@, "1.0.0.1"@]);
        assert(strs(opts@[2]@) =~= seq!["9.9.9.9"@, "149.112.112.112"@]);
        assert(strs(opts@[3]@) =~= seq!["8.8.8.8"@, "8.8.4.4"@]);
        assert(strs(opts@[4]@) =~= seq!["94.140.14.14"@, "94.140.15.15"@]);
    }
    cfg.network.dns = cycle_list(opts, &cfg.network.dns, forward);
}

fn step_minutes(cfg: &mut Config, item: Item, forward: bool, env: &Env)
    requires
        item == Item::IdleOff || item == Item::Timer,
    ensures
        final(cfg)@ == step_spec(old(cfg)@, item, forward, *env),
{
    if item == Item::IdleOff {
        let opts: Vec<u32> = vec![0, 5, 10, 15, 30, 60, 120];
        assert(opts@ =~= idle_minutes());
        cfg.automation.idle_off_minutes = cycle_u32(&opts, cfg.automation.idle_off_minutes, forward);
    } else {
        let opts: Vec<u32> = vec![0, 15, 30, 60, 120, 180, 240, 480];
        assert(opts@ =~= timer_minutes());
        cfg.automation.timer_minutes = cycle_u32(&opts, cfg.automation.timer_minutes, forward);
    }
}

/// ←/→ (and Enter on a toggle): changes one item of the draft (see `step_spec`).
pub fn step(cfg: &mut Config, item: Item, forward: bool, env: &Env)
    ensures
        final(cfg)@ == step_spec(old(cfg)@, item, forward, *env),
{
    match item {
        Item::Band => step_band(cfg, forward, env),
        Item::Channel => step_channel(cfg, forward, env),
        Item::Width => step_width(cfg, forward, env),
        Item::Hidden => cfg.hotspot.hidden = !cfg.hotspot.hidden,
        Item::Country => step_country(cfg, forward, env),
        Item::Security => {
            cfg.hotspot.security = match cfg.hotspot.security {
                Security::Wpa3 => Security::Wpa2,
                Security::Wpa2 => Security::Wpa3,
            };
        },
        Item::Isolation => cfg.hotspot.ap_isolation = !cfg.hotspot.ap_isolation,
        Item::GuestsReachPc => cfg.hotspot.guests_can_reach_pc = !cfg.hotspot.guests_can_reach_pc,
        Item::Approval => cfg.access.approval_required = !cfg.access.approval_required,
        Item::Notifications => cfg.access.notifications = !cfg.access.notifications,
        Item::CloseOnFocusLoss => cfg.ui.close_on_focus_loss = !cfg.ui.close_on_focus_loss,
        Item::Uplink => step_uplink(cfg, forward, env),
        Item::Subnet => step_subnet(cfg, forward, env),
        Item::Dns => step_dns(cfg, forward, env),
        Item::Autostart => cfg.automation.autostart_on_login = !cfg.automation.autostart_on_login,
        Item::IdleOff | Item::Timer => step_minutes(cfg, item, forward, env),
        Item::Pmf | Item::Ipv6 | Item::Blacklist | Item::Password | Item::Log | Item::Doctor
        | Item::Reset => {},
    }
}

// ---------------------------------------------------------------------------------------
// Typed values
// ---------------------------------------------------------------------------------------
/// The start value of the input field.
pub open spec fn text_value_spec(c: ConfigView, item: Item) -> Seq<char> {
    match item {
        Item::Country => c.hotspot.country,
        Item::Subnet => c.network.subnet,
        Item::Dns => join(c.network.dns, ", "@),
        Item::IdleOff => decimal(c.automation.idle_off_minutes as nat),
        Item::Timer => decimal(c.automation.timer_minutes as nat),
        _ => seq![],
    }
}

fn chars_of_all(v: &Vec<String>) -> (out: Vec<Vec<char>>)
    ensures
        seqs(out@) == strs(v@),
{
    let mut out: Vec<Vec<char>> = Vec::new();
    let mut i: usize = 0;
    while i < v.len()
        invariant
            i <= v@.len(),
            seqs(out@) == strs(v@).take(i as int),
        decreases v.len() - i,
    {
        let ghost before = seqs(out@);
        let c = str_chars(v[i].as_str());
        assert(c@ == strs(v@)[i as int]);
        out.push(c);
        assert(seqs(out@) =~= before.push(c@));
        assert(strs(v@).take(i + 1) =~= strs(v@).take(i as int).push(strs(v@)[i as int]));
        i = i + 1;
    }
    assert(strs(v@).take(v.len() as int) =~= strs(v@));
    out
}

pub fn text_value(cfg: &Config, item: Item) -> (r: String)
    ensures
        r@ == text_value_spec(cfg@, item),
{
    match item {
        Item::Country => copy_text(&cfg.hotspot.country),
        Item::Subnet => copy_text(&cfg.network.subnet),
        Item::Dns => {
            let parts = chars_of_all(&cfg.network.dns);
            let sep = str_chars(", ");
            let j = join_exec(&parts, sep.as_slice());
            chars_to_string(j.as_slice())
        },
        Item::IdleOff => chars_to_string(decimal_chars(cfg.automation.idle_off_minutes as u64).as_slice()),
        Item::Timer => chars_to_string(decimal_chars(cfg.automation.timer_minutes as u64).as_slice()),
        _ => String::new(),
    }
}

/// Why a typed value was refused.
#[derive(Debug, Clone, PartialEq, Eq)]
pub enum TextError {
    /// Not a two-letter country code.
    Country,
    /// Not a private subnet for the PC (the text as typed).
    Subnet(String),
    /// Not a list of DNS servers for guests.
    Dns,
    /// Not a number of minutes from 0 to a day.
    Minutes,
}

/// A refusal as plain values.
pub ghost enum TextErrorView {
    Country,
    Subnet(Seq<char>),
    Dns,
    Minutes,
}

impl View for TextError {
    type V = TextErrorView;

    open spec fn view(&self) -> TextErrorView {
        match self {
            TextError::Country => TextErrorView::Country,
            TextError::Subnet(t) => TextErrorView::Subnet(t@),
            TextError::Dns => TextErrorView::Dns,
            TextError::Minutes => TextErrorView::Minutes,
        }
    }
}

/// Separators of a typed DNS list: commas and whitespace.
pub open spec fn dns_sep(c: char) -> bool {
    c == ',' || is_ws(c)
}

pub open spec fn tokens_scan(s: Seq<char>) -> (Seq<Seq<char>>, Seq<char>)
    decreases s.len(),
{
    if s.len() == 0 {
        (seq![], seq![])
    } else {
        let (done, cur) = tokens_scan(s.drop_last());
        if dns_sep(s.last()) {
            if cur.len() > 0 {
                (done.push(cur), seq![])
            } else {
                (done, cur)
            }
        } else {
            (done, cur.push(s.last()))
        }
    }
}

/// The non-empty pieces between commas and whitespace.
pub open spec fn dns_tokens(s: Seq<char>) -> Seq<Seq<char>> {
    let (done, cur) = tokens_scan(s);
    if cur.len() > 0 {
        done.push(cur)
    } else {
        done
    }
}

fn split_dns(s: &[char]) -> (out: Vec<String>)
    ensures
        strs(out@) == dns_tokens(s@),
{
    let mut done: Vec<Vec<char>> = Vec::new();
    let mut cur: Vec<char> = Vec::new();
    let mut i: usize = 0;
    while i < s.len()
        invariant
            i <= s@.len(),
            seqs(done@) == tokens_scan(s@.take(i as int)).0,
            cur@ == tokens_scan(s@.take(i as int)).1,
        decreases s.len() - i,
    {
        let c = s[i];
        assert(s@.take(i + 1).drop_last() =~= s@.take(i as int));
        if c == ',' || is_ws_exec(c) {
            if cur.len() > 0 {
                let ghost before = seqs(done@);
                let w = cur;
                done.push(w);
                assert(seqs(done@) =~= before.push(w@));
                cur = Vec::new();
            }
        } else {
            cur.push(c);
        }
        i = i + 1;
    }
    assert(s@.take(s.len() as int) =~= s@);
    if cur.len() > 0 {
        let ghost before = seqs(done@);
        done.push(cur);
        assert(seqs(done@) =~= before.push(cur@));
    }
    strings_of(&done)
}

/// A typed subnet without a mask (the most common way to write it) counts as /24.
pub open spec fn full_subnet(t: Seq<char>) -> Seq<char> {
    if t.contains('/') {
        t
    } else {
        t + "/24"@
    }
}

/// Takes a typed value (trimmed). The settings change only when it is accepted.
pub open spec fn set_text_spec(c: ConfigView, item: Item, text: Seq<char>) -> Result<ConfigView, TextErrorView> {
    let t = trim(text);
    match item {
        Item::Country => if t.len() == 0 {
            Ok(ConfigView { hotspot: crate::config::HotspotView { country: seq![], ..c.hotspot }, ..c })
        } else {
            match parse_country(t) {
                Some(cc) => Ok(ConfigView { hotspot: crate::config::HotspotView { country: cc, ..c.hotspot }, ..c }),
                None => Err(TextErrorView::Country),
            }
        },
        Item::Subnet => match parse_net(full_subnet(t)) {
            Some(n) => if private_host(n) {
                Ok(ConfigView { network: crate::config::NetworkView { subnet: full_subnet(t), ..c.network }, ..c })
            } else {
                Err(TextErrorView::Subnet(t))
            },
            None => Err(TextErrorView::Subnet(t)),
        },
        Item::Dns => match dns_list_result(dns_tokens(t)) {
            Ok(_) => Ok(ConfigView { network: crate::config::NetworkView { dns: dns_tokens(t), ..c.network }, ..c }),
            Err(_) => Err(TextErrorView::Dns),
        },
        Item::IdleOff => match parse_unsigned(t, 0xffff_ffff) {
            Some(m) => if m <= MAX_MINUTES {
                Ok(ConfigView { automation: crate::config::AutomationConfig { idle_off_minutes: m as u32, ..c.automation }, ..c })
            } else {
                Err(TextErrorView::Minutes)
            },
            None => Err(TextErrorView::Minutes),
        },
        Item::Timer => match parse_unsigned(t, 0xffff_ffff) {
            Some(m) => if m <= MAX_MINUTES {
                Ok(ConfigView { automation: crate::config::AutomationConfig { timer_minutes: m as u32, ..c.automation }, ..c })
            } else {
                Err(TextErrorView::Minutes)
            },
            None => Err(TextErrorView::Minutes),
        },
        _ => Ok(c),
    }
}

fn set_country(cfg: &mut Config, t: &[char]) -> (r: Result<(), TextError>)
    ensures
        match set_text_spec(old(cfg)@, Item::Country, t@) {
            Ok(c) => r is Ok && final(cfg)@ == c,
            Err(e) => r matches Err(x) && x@ == e && final(cfg)@ == old(cfg)@,
        },
{
    let tt = trim_exec(t);
    if tt.len() == 0 {
        cfg.hotspot.country = String::new();
        return Ok(());
    }
    let s = chars_to_string(tt.as_slice());
    match CountryCode::parse(s.as_str()) {
        Ok(cc) => {
            cfg.hotspot.country = cc.as_str().to_owned();
            Ok(())
        },
        Err(_) => Err(TextError::Country),
    }
}

fn set_subnet(cfg: &mut Config, t: &[char]) -> (r: Result<(), TextError>)
    ensures
        match set_text_spec(old(cfg)@, Item::Subnet, t@) {
            Ok(c) => r is Ok && final(cfg)@ == c,
            Err(e) => r matches Err(x) && x@ == e && final(cfg)@ == old(cfg)@,
        },
{
    let tt = trim_exec(t);
    let mut has_slash = false;
    let mut i: usize = 0;
    while i < tt.len()
        invariant
            i <= tt@.len(),
            has_slash == (exists|k: int| 0 <= k < i && tt@[k] == '/'),
        decreases tt.len() - i,
    {
        if tt[i] == '/' {
            has_slash = true;
        }
        i = i + 1;
    }
    assert(has_slash == tt@.contains('/'));
    let mut full = tt.clone();
    assert(full@ == tt@);
    if !has_slash {
        let mut suffix = str_chars("/24");
        full.append(&mut suffix);
    }
    assert(full@ == full_subnet(tt@));
    let ok = match Ipv4Net::parse_chars(full.as_slice()) {
        Some(n) => n.is_private_host(),
        None => false,
    };
    if !ok {
        return Err(TextError::Subnet(chars_to_string(tt.as_slice())));
    }
    cfg.network.subnet = chars_to_string(full.as_slice());
    Ok(())
}

fn set_dns(cfg: &mut Config, t: &[char]) -> (r: Result<(), TextError>)
    ensures
        match set_text_spec(old(cfg)@, Item::Dns, t@) {
            Ok(c) => r is Ok && final(cfg)@ == c,
            Err(e) => r matches Err(x) && x@ == e && final(cfg)@ == old(cfg)@,
        },
{
    let tt = trim_exec(t);
    let list = split_dns(tt.as_slice());
    match parse_dns_list(list.as_slice()) {
        Ok(_) => {
            cfg.network.dns = list;
            Ok(())
        },
        Err(_) => Err(TextError::Dns),
    }
}

fn set_minutes(cfg: &mut Config, item: Item, t: &[char]) -> (r: Result<(), TextError>)
    requires
        item == Item::IdleOff || item == Item::Timer,
    ensures
        match set_text_spec(old(cfg)@, item, t@) {
            Ok(c) => r is Ok && final(cfg)@ == c,
            Err(e) => r matches Err(x) && x@ == e && final(cfg)@ == old(cfg)@,
        },
{
    let tt = trim_exec(t);
    let m = match parse_u32(tt.as_slice()) {
        Some(m) => m,
        None => return Err(TextError::Minutes),
    };
    if m > MAX_MINUTES {
        return Err(TextError::Minutes);
    }
    if item == Item::IdleOff {
        cfg.automation.idle_off_minutes = m;
    } else {
        cfg.automation.timer_minutes = m;
    }
    Ok(())
}

/// Takes a typed value (see `set_text_spec`); a refused value leaves the settings as they
/// were.
pub fn set_text(cfg: &mut Config, item: Item, text: &str) -> (r: Result<(), TextError>)
    ensures
        match set_text_spec(old(cfg)@, item, text@) {
            Ok(c) => r is Ok && final(cfg)@ == c,
            Err(e) => r matches Err(x) && x@ == e && final(cfg)@ == old(cfg)@,
        },
{
    let t = str_chars(text);
    match item {
        Item::Country => set_country(cfg, t.as_slice()),
        Item::Subnet => set_subnet(cfg, t.as_slice()),
        Item::Dns => set_dns(cfg, t.as_slice()),
        Item::IdleOff | Item::Timer => set_minutes(cfg, item, t.as_slice()),
        _ => Ok(()),
    }
}

// ---------------------------------------------------------------------------------------
// Checking and saving the draft
// ---------------------------------------------------------------------------------------
/// What is wrong with a draft.
pub ghost enum DraftProblem {
    Wpa3WithoutSae,
    SubnetNotPrivate,
    BadDns,
    BadCountry,
}

/// The draft's checks before saving, as far as they go without NetworkManager: WPA3 needs
/// a card with SAE (when the card is known), the subnet must be a private host address, the
/// DNS list must pass, and a country must be a two-letter code. The first failure counts.
pub open spec fn draft_problem(d: ConfigView, env: Env) -> Option<DraftProblem> {
    if d.hotspot.security == Security::Wpa3 && (env.caps matches Some(c) && !c.sae) {
        Some(DraftProblem::Wpa3WithoutSae)
    } else if !(parse_net(d.network.subnet) matches Some(n) && private_host(n)) {
        Some(DraftProblem::SubnetNotPrivate)
    } else if dns_list_result(d.network.dns) is Err {
        Some(DraftProblem::BadDns)
    } else if trim(d.hotspot.country).len() > 0 && parse_country(trim(d.hotspot.country)) is None {
        Some(DraftProblem::BadCountry)
    } else {
        None
    }
}

#[verifier::spinoff_prover]
#[verifier::rlimit(30)]
pub fn validate(draft: &Config, env: &Env) -> (r: Result<(), CoreError>)
    ensures
        match draft_problem(draft@, *env) {
            None => r is Ok,
            Some(DraftProblem::Wpa3WithoutSae) => r matches Err(CoreError::Wpa3Unsupported),
            Some(DraftProblem::SubnetNotPrivate) => r matches Err(CoreError::SubnetNotPrivate(s)) && s@
                == draft.network.subnet@,
            Some(DraftProblem::BadDns) => r matches Err(CoreError::Config(m)) && dns_list_result(
                draft@.network.dns,
            ) == Err::<Seq<crate::proto::DnsServer>, Seq<char>>(m@),
            Some(DraftProblem::BadCountry) => r matches Err(CoreError::Config(m)) && m@ == "country: "@
                + crate::proto::ArgError::BadCountry.spec_text(),
        },
{
    let no_sae = match &env.caps {
        Some(c) => !c.sae,
        None => false,
    };
    if draft.hotspot.security == Security::Wpa3 && no_sae {
        return Err(CoreError::Wpa3Unsupported);
    }
    let ok = match Ipv4Net::parse(draft.network.subnet.as_str()) {
        Some(n) => n.is_private_host(),
        None => false,
    };
    if !ok {
        return Err(CoreError::SubnetNotPrivate(copy_text(&draft.network.subnet)));
    }
    match parse_dns_list(draft.network.dns.as_slice()) {
        Ok(_) => {},
        Err(e) => return Err(e),
    }
    let c = str_chars(draft.hotspot.country.as_str());
    let t = trim_exec(c.as_slice());
    if t.len() > 0 {
        let ts = chars_to_string(t.as_slice());
        match CountryCode::parse(ts.as_str()) {
            Ok(_) => {},
            Err(e) => {
                let mut m = str_chars("country: ");
                let mut et = str_chars(e.text());
                m.append(&mut et);
                return Err(CoreError::Config(chars_to_string(m.as_slice())));
            },
        }
    }
    Ok(())
}

/// The draft's value where the draft changed it from `base`, else the current one.
pub open spec fn pick<T>(draft: T, base: T, cur: T) -> T {
    if draft != base {
        draft
    } else {
        cur
    }
}

/// The settings `to` with the advanced-mode fields the draft changed from `base` (the
/// settings the editing started from). Everything else (the network name, the device lists,
/// the fields the user did not touch) stays as in `to`: the service or the command line may
/// have changed it.
pub open spec fn merged(to: ConfigView, d: ConfigView, b: ConfigView) -> ConfigView {
    ConfigView {
        hotspot: crate::config::HotspotView {
            band: pick(d.hotspot.band, b.hotspot.band, to.hotspot.band),
            channel: pick(d.hotspot.channel, b.hotspot.channel, to.hotspot.channel),
            width_mhz: pick(d.hotspot.width_mhz, b.hotspot.width_mhz, to.hotspot.width_mhz),
            hidden: pick(d.hotspot.hidden, b.hotspot.hidden, to.hotspot.hidden),
            country: pick(d.hotspot.country, b.hotspot.country, to.hotspot.country),
            security: pick(d.hotspot.security, b.hotspot.security, to.hotspot.security),
            ap_isolation: pick(d.hotspot.ap_isolation, b.hotspot.ap_isolation, to.hotspot.ap_isolation),
            guests_can_reach_pc: pick(
                d.hotspot.guests_can_reach_pc,
                b.hotspot.guests_can_reach_pc,
                to.hotspot.guests_can_reach_pc,
            ),
            ..to.hotspot
        },
        access: crate::config::AccessView {
            approval_required: pick(
                d.access.approval_required,
                b.access.approval_required,
                to.access.approval_required,
            ),
            notifications: pick(d.access.notifications, b.access.notifications, to.access.notifications),
            ..to.access
        },
        network: crate::config::NetworkView {
            uplink_interface: pick(
                d.network.uplink_interface,
                b.network.uplink_interface,
                to.network.uplink_interface,
            ),
            subnet: pick(d.network.subnet, b.network.subnet, to.network.subnet),
            dns: pick(d.network.dns, b.network.dns, to.network.dns),
            ..to.network
        },
        automation: crate::config::AutomationConfig {
            autostart_on_login: pick(
                d.automation.autostart_on_login,
                b.automation.autostart_on_login,
                to.automation.autostart_on_login,
            ),
            idle_off_minutes: pick(
                d.automation.idle_off_minutes,
                b.automation.idle_off_minutes,
                to.automation.idle_off_minutes,
            ),
            timer_minutes: pick(d.automation.timer_minutes, b.automation.timer_minutes, to.automation.timer_minutes),
        },
        ui: crate::config::UiConfig {
            close_on_focus_loss: pick(d.ui.close_on_focus_loss, b.ui.close_on_focus_loss, to.ui.close_on_focus_loss),
            ..to.ui
        },
        ..to
    }
}

/// Without unsaved edits in any section, saving gives the newer settings unchanged.
proof fn lemma_merge_unedited(to: ConfigView, d: ConfigView, b: ConfigView)
    requires
        forall|i: int| 0 <= i < 6 ==> !section_changed(#[trigger] section_at(i), d, b),
    ensures
        merged(to, d, b) == to,
{
    assert(!section_changed(section_at(0), d, b));
    assert(!section_changed(section_at(1), d, b));
    assert(!section_changed(section_at(2), d, b));
    assert(!section_changed(section_at(3), d, b));
    let m = merged(to, d, b);
    assert(m.hotspot == to.hotspot);
    assert(m.network == to.network);
    assert(m.access == to.access);
    assert(m.automation == to.automation);
    assert(m.ui == to.ui);
}

/// Saving the draft into newer settings: without unsaved edits the result is just the newer
/// settings; the network name and the device lists always come from the newer settings; and
/// a field the draft changed comes from the draft.
#[verifier::spinoff_prover]
pub proof fn lemma_merge_laws(to: ConfigView, d: ConfigView, b: ConfigView)
    ensures
        (forall|i: int| 0 <= i < 6 ==> !section_changed(#[trigger] section_at(i), d, b)) ==> merged(
            to,
            d,
            b,
        ) == to,
        merged(to, d, d) == to,
        merged(to, d, b).hotspot.ssid == to.hotspot.ssid,
        merged(to, d, b).access.allowed_macs == to.access.allowed_macs,
        merged(to, d, b).access.blocked_macs == to.access.blocked_macs,
        d.hotspot.band != b.hotspot.band ==> merged(to, d, b).hotspot.band == d.hotspot.band,
        d.hotspot.security != b.hotspot.security ==> merged(to, d, b).hotspot.security
            == d.hotspot.security,
        d.network.subnet != b.network.subnet ==> merged(to, d, b).network.subnet == d.network.subnet,
        d.network.dns != b.network.dns ==> merged(to, d, b).network.dns == d.network.dns,
        d.access.approval_required != b.access.approval_required ==> merged(
            to,
            d,
            b,
        ).access.approval_required == d.access.approval_required,
{
    if forall|i: int| 0 <= i < 6 ==> !section_changed(#[trigger] section_at(i), d, b) {
        lemma_merge_unedited(to, d, b);
    }
    assert forall|i: int| 0 <= i < 6 implies !section_changed(#[trigger] section_at(i), d, d) by {}
    lemma_merge_unedited(to, d, d);
}

fn pick_bool(d: bool, b: bool, cur: bool) -> (r: bool)
    ensures
        r == pick(d, b, cur),
{
    if d != b {
        d
    } else {
        cur
    }
}

fn pick_u8(d: u8, b: u8, cur: u8) -> (r: u8)
    ensures
        r == pick(d, b, cur),
{
    if d != b {
        d
    } else {
        cur
    }
}

fn pick_u16(d: u16, b: u16, cur: u16) -> (r: u16)
    ensures
        r == pick(d, b, cur),
{
    if d != b {
        d
    } else {
        cur
    }
}

fn pick_u32(d: u32, b: u32, cur: u32) -> (r: u32)
    ensures
        r == pick(d, b, cur),
{
    if d != b {
        d
    } else {
        cur
    }
}

fn pick_band(d: Band, b: Band, cur: Band) -> (r: Band)
    ensures
        r == pick(d, b, cur),
{
    if d != b {
        d
    } else {
        cur
    }
}

fn pick_security(d: Security, b: Security, cur: Security) -> (r: Security)
    ensures
        r == pick(d, b, cur),
{
    if d != b {
        d
    } else {
        cur
    }
}

fn pick_text(d: &String, b: &String, cur: &String) -> (r: String)
    ensures
        r@ == pick(d@, b@, cur@),
{
    if !same_text(d, b) {
        copy_text(d)
    } else {
        copy_text(cur)
    }
}

fn pick_texts(d: &Vec<String>, b: &Vec<String>, cur: &Vec<String>) -> (r: Vec<String>)
    ensures
        strs(r@) == pick(strs(d@), strs(b@), strs(cur@)),
{
    if !same_texts(d, b) {
        copy_texts(d)
    } else {
        copy_texts(cur)
    }
}

fn merge_hotspot(to: &mut Config, draft: &Config, base: &Config)
    ensures
        final(to)@.hotspot == merged(old(to)@, draft@, base@).hotspot,
        final(to)@.network == old(to)@.network,
        final(to)@.access == old(to)@.access,
        final(to)@.automation == old(to)@.automation,
        final(to)@.ui == old(to)@.ui,
        final(to)@.version == old(to)@.version,
        final(to)@.language == old(to)@.language,
{
    let (d, b) = (&draft.hotspot, &base.hotspot);
    to.hotspot.band = pick_band(d.band, b.band, to.hotspot.band);
    to.hotspot.channel = pick_u8(d.channel, b.channel, to.hotspot.channel);
    to.hotspot.width_mhz = pick_u16(d.width_mhz, b.width_mhz, to.hotspot.width_mhz);
    to.hotspot.hidden = pick_bool(d.hidden, b.hidden, to.hotspot.hidden);
    let country = pick_text(&d.country, &b.country, &to.hotspot.country);
    to.hotspot.country = country;
    to.hotspot.security = pick_security(d.security, b.security, to.hotspot.security);
    to.hotspot.ap_isolation = pick_bool(d.ap_isolation, b.ap_isolation, to.hotspot.ap_isolation);
    to.hotspot.guests_can_reach_pc = pick_bool(
        d.guests_can_reach_pc,
        b.guests_can_reach_pc,
        to.hotspot.guests_can_reach_pc,
    );
}

fn merge_rest(to: &mut Config, draft: &Config, base: &Config)
    ensures
        final(to)@.hotspot == old(to)@.hotspot,
        final(to)@.network == merged(old(to)@, draft@, base@).network,
        final(to)@.access == merged(old(to)@, draft@, base@).access,
        final(to)@.automation == merged(old(to)@, draft@, base@).automation,
        final(to)@.ui == merged(old(to)@, draft@, base@).ui,
        final(to)@.version == old(to)@.version,
        final(to)@.language == old(to)@.language,
{
    to.access.approval_required = pick_bool(
        draft.access.approval_required,
        base.access.approval_required,
        to.access.approval_required,
    );
    to.access.notifications = pick_bool(
        draft.access.notifications,
        base.access.notifications,
        to.access.notifications,
    );
    let up = pick_text(
        &draft.network.uplink_interface,
        &base.network.uplink_interface,
        &to.network.uplink_interface,
    );
    to.network.uplink_interface = up;
    let sn = pick_text(&draft.network.subnet, &base.network.subnet, &to.network.subnet);
    to.network.subnet = sn;
    let dns = pick_texts(&draft.network.dns, &base.network.dns, &to.network.dns);
    to.network.dns = dns;
    to.automation.autostart_on_login = pick_bool(
        draft.automation.autostart_on_login,
        base.automation.autostart_on_login,
        to.automation.autostart_on_login,
    );
    to.automation.idle_off_minutes = pick_u32(
        draft.automation.idle_off_minutes,
        base.automation.idle_off_minutes,
        to.automation.idle_off_minutes,
    );
    to.automation.timer_minutes = pick_u32(
        draft.automation.timer_minutes,
        base.automation.timer_minutes,
        to.automation.timer_minutes,
    );
    to.ui.close_on_focus_loss = pick_bool(
        draft.ui.close_on_focus_loss,
        base.ui.close_on_focus_loss,
        to.ui.close_on_focus_loss,
    );
}

/// Moves into `to` the advanced-mode fields the draft changed (see `merged`).
pub fn merge_changed(to: &mut Config, draft: &Config, base: &Config)
    ensures
        final(to)@ == merged(old(to)@, draft@, base@),
{
    merge_hotspot(to, draft, base);
    merge_rest(to, draft, base);
}

/// The draft differs from the settings in a field of the section.
pub open spec fn section_changed(section: Section, d: ConfigView, c: ConfigView) -> bool {
    match section {
        Section::Radio => d.hotspot.band != c.hotspot.band || d.hotspot.channel != c.hotspot.channel
            || d.hotspot.width_mhz != c.hotspot.width_mhz || d.hotspot.hidden != c.hotspot.hidden
            || d.hotspot.country != c.hotspot.country,
        Section::Security => d.hotspot.security != c.hotspot.security || d.hotspot.ap_isolation
            != c.hotspot.ap_isolation || d.hotspot.guests_can_reach_pc != c.hotspot.guests_can_reach_pc
            || d.access.approval_required != c.access.approval_required || d.access.notifications
            != c.access.notifications,
        Section::Network => d.network.uplink_interface != c.network.uplink_interface
            || d.network.subnet != c.network.subnet || d.network.dns != c.network.dns,
        Section::Automation => d.automation.autostart_on_login != c.automation.autostart_on_login
            || d.automation.idle_off_minutes != c.automation.idle_off_minutes
            || d.automation.timer_minutes != c.automation.timer_minutes || d.ui.close_on_focus_loss
            != c.ui.close_on_focus_loss,
        Section::Devices | Section::Expert => false,
    }
}

/// The section has unsaved changes.
pub fn section_dirty(section: Section, draft: &Config, cfg: &Config) -> (r: bool)
    ensures
        r == section_changed(section, draft@, cfg@),
{
    let (d, c) = (draft, cfg);
    match section {
        Section::Radio => d.hotspot.band != c.hotspot.band || d.hotspot.channel != c.hotspot.channel
            || d.hotspot.width_mhz != c.hotspot.width_mhz || d.hotspot.hidden != c.hotspot.hidden
            || !same_text(&d.hotspot.country, &c.hotspot.country),
        Section::Security => d.hotspot.security != c.hotspot.security || d.hotspot.ap_isolation
            != c.hotspot.ap_isolation || d.hotspot.guests_can_reach_pc != c.hotspot.guests_can_reach_pc
            || d.access.approval_required != c.access.approval_required || d.access.notifications
            != c.access.notifications,
        Section::Network => !same_text(&d.network.uplink_interface, &c.network.uplink_interface)
            || !same_text(&d.network.subnet, &c.network.subnet) || !same_texts(&d.network.dns, &c.network.dns),
        Section::Automation => d.automation.autostart_on_login != c.automation.autostart_on_login
            || d.automation.idle_off_minutes != c.automation.idle_off_minutes
            || d.automation.timer_minutes != c.automation.timer_minutes || d.ui.close_on_focus_loss
            != c.ui.close_on_focus_loss,
        Section::Devices | Section::Expert => false,
    }
}

/// Some section has unsaved changes.
pub fn any_dirty(draft: &Config, cfg: &Config) -> (r: bool)
    ensures
        r == exists|i: int| 0 <= i < 6 && section_changed(#[trigger] section_at(i), draft@, cfg@),
{
    let mut i: usize = 0;
    while i < 6
        invariant
            i <= 6,
            forall|k: int| 0 <= k < i ==> !section_changed(#[trigger] section_at(k), draft@, cfg@),
        decreases 6 - i,
    {
        if section_dirty(Section::at(i), draft, cfg) {
            assert(section_changed(section_at(i as int), draft@, cfg@));
            return true;
        }
        i = i + 1;
    }
    false
}

/// Changes that take effect only after the hotspot restarts.
pub open spec fn needs_restart(d: ConfigView, c: ConfigView) -> bool {
    d.hotspot.band != c.hotspot.band || d.hotspot.channel != c.hotspot.channel || d.hotspot.width_mhz
        != c.hotspot.width_mhz || d.hotspot.hidden != c.hotspot.hidden || d.hotspot.country
        != c.hotspot.country || d.hotspot.security != c.hotspot.security || d.hotspot.ap_isolation
        != c.hotspot.ap_isolation || d.network.uplink_interface != c.network.uplink_interface
        || d.network.subnet != c.network.subnet || d.network.dns != c.network.dns
}

pub fn restart_needed(draft: &Config, cfg: &Config) -> (r: bool)
    ensures
        r == needs_restart(draft@, cfg@),
{
    let (d, c) = (&draft.hotspot, &cfg.hotspot);
    d.band != c.band || d.channel != c.channel || d.width_mhz != c.width_mhz || d.hidden != c.hidden
        || !same_text(&d.country, &c.country) || d.security != c.security || d.ap_isolation
        != c.ap_isolation || !same_text(&draft.network.uplink_interface, &cfg.network.uplink_interface)
        || !same_text(&draft.network.subnet, &cfg.network.subnet) || !same_texts(
        &draft.network.dns,
        &cfg.network.dns,
    )
}

/// Items that change the NetworkManager profile (the rest: country, DNS, uplink).
pub open spec fn changes_profile(d: ConfigView, c: ConfigView) -> bool {
    d.hotspot.band != c.hotspot.band || d.hotspot.channel != c.hotspot.channel || d.hotspot.width_mhz
        != c.hotspot.width_mhz || d.hotspot.hidden != c.hotspot.hidden || d.hotspot.security
        != c.hotspot.security || d.hotspot.ap_isolation != c.hotspot.ap_isolation || d.network.subnet
        != c.network.subnet
}

pub fn profile_changed(draft: &Config, cfg: &Config) -> (r: bool)
    ensures
        r == changes_profile(draft@, cfg@),
{
    let (d, c) = (&draft.hotspot, &cfg.hotspot);
    d.band != c.band || d.channel != c.channel || d.width_mhz != c.width_mhz || d.hidden != c.hidden
        || d.security != c.security || d.ap_isolation != c.ap_isolation || !same_text(
        &draft.network.subnet,
        &cfg.network.subnet,
    )
}

/// A key of the keyboard as the advanced mode reads it.
#[derive(Debug, Clone, Copy, PartialEq, Eq, Structural)]
pub enum Key {
    Up,
    Down,
    Left,
    Right,
    Enter,
    Esc,
    PageUp,
    PageDown,
    Backspace,
    Char(char),
    Other,
}

/// What can be done to the selected device.
#[derive(Debug, Clone, Copy, PartialEq, Eq, Structural)]
pub enum DeviceAction {
    ToggleBlock,
    Allow,
    Kick,
    ToggleApproval,
}

/// What a key does in the advanced mode.
#[derive(Debug, Clone, Copy, PartialEq, Eq, Structural)]
pub enum KeyAction {
    /// The open text input takes the key.
    Input,
    MoveSection { down: bool },
    MoveDevice { down: bool },
    MoveItem { down: bool },
    /// From the sections to the first setting.
    OpenItems,
    /// Back to the sections.
    CloseItems,
    /// ←/→ change the value.
    Step { item: Item, forward: bool },
    Device(DeviceAction),
    /// Enter on a setting or an action.
    Enter(Item),
    /// Page up/down through the log (`older`: up).
    ScrollLog { older: bool },
    Save,
    /// Ask before making a new password.
    AskGenerate,
    /// The key is the advanced mode's, but there is nothing to do now.
    Nothing,
    /// The key is not the advanced mode's (the window handles it).
    Unhandled,
}

/// Items whose value ←/→ change (elsewhere ← goes back to the sections).
pub open spec fn changes_with_arrows(item: Item) -> bool {
    kind_of(item) == Kind::Choice || kind_of(item) == Kind::Toggle || kind_of(item)
        == Kind::ChoiceOrText
}

/// The key map of the advanced mode. `hot` is the letter the key stands for whatever the
/// keyboard layout; `item` the selected setting; `busy` an action of the window still runs.
pub open spec fn key_action_spec(
    k: Key,
    hot: Option<char>,
    input_open: bool,
    section: Section,
    focus: Focus,
    item: Option<Item>,
    busy: bool,
) -> KeyAction {
    if input_open {
        KeyAction::Input
    } else {
        match k {
            Key::Up | Key::Down => {
                let down = k == Key::Down;
                if focus == Focus::Sections {
                    KeyAction::MoveSection { down }
                } else if section == Section::Devices {
                    KeyAction::MoveDevice { down }
                } else {
                    KeyAction::MoveItem { down }
                }
            },
            Key::Right if focus == Focus::Sections => KeyAction::OpenItems,
            Key::Enter if focus == Focus::Sections => KeyAction::OpenItems,
            Key::Esc if focus == Focus::Items => KeyAction::CloseItems,
            Key::Left if focus == Focus::Items => match item {
                Some(i) if changes_with_arrows(i) => KeyAction::Step { item: i, forward: false },
                _ => KeyAction::CloseItems,
            },
            Key::Right if focus == Focus::Items => match item {
                Some(i) if changes_with_arrows(i) => KeyAction::Step { item: i, forward: true },
                _ => KeyAction::Nothing,
            },
            Key::Enter if section == Section::Devices => KeyAction::Device(DeviceAction::Allow),
            Key::Enter => match item {
                Some(i) => KeyAction::Enter(i),
                None => KeyAction::Nothing,
            },
            Key::PageUp => KeyAction::ScrollLog { older: true },
            Key::PageDown => KeyAction::ScrollLog { older: false },
            Key::Char(_) => match hot {
                Some('s') => KeyAction::Save,
                Some('g') if item == Some(Item::Password) => if busy {
                    KeyAction::Nothing
                } else {
                    KeyAction::AskGenerate
                },
                Some('b') if section == Section::Devices && focus == Focus::Items => KeyAction::Device(
                    DeviceAction::ToggleBlock,
                ),
                Some('k') if section == Section::Devices && focus == Focus::Items => KeyAction::Device(
                    DeviceAction::Kick,
                ),
                Some('a') if section == Section::Devices && focus == Focus::Items => KeyAction::Device(
                    DeviceAction::Allow,
                ),
                Some('o') if section == Section::Devices && focus == Focus::Items => KeyAction::Device(
                    DeviceAction::ToggleApproval,
                ),
                _ => KeyAction::Unhandled,
            },
            _ => KeyAction::Unhandled,
        }
    }
}

fn arrows_change(item: Item) -> (b: bool)
    ensures
        b == changes_with_arrows(item),
{
    match item.kind() {
        Kind::Choice | Kind::Toggle | Kind::ChoiceOrText => true,
        _ => false,
    }
}

pub fn key_action(
    k: Key,
    hot: Option<char>,
    input_open: bool,
    section: Section,
    focus: Focus,
    item: Option<Item>,
    busy: bool,
) -> (a: KeyAction)
    ensures
        a == key_action_spec(k, hot, input_open, section, focus, item, busy),
{
    if input_open {
        return KeyAction::Input;
    }
    let on_items = focus == Focus::Items;
    let devices = section == Section::Devices;
    match k {
        Key::Up | Key::Down => {
            let down = k == Key::Down;
            if !on_items {
                KeyAction::MoveSection { down }
            } else if devices {
                KeyAction::MoveDevice { down }
            } else {
                KeyAction::MoveItem { down }
            }
        },
        Key::Right if !on_items => KeyAction::OpenItems,
        Key::Enter if !on_items => KeyAction::OpenItems,
        Key::Esc if on_items => KeyAction::CloseItems,
        Key::Left if on_items => match item {
            Some(i) => if arrows_change(i) {
                KeyAction::Step { item: i, forward: false }
            } else {
                KeyAction::CloseItems
            },
            None => KeyAction::CloseItems,
        },
        Key::Right if on_items => match item {
            Some(i) => if arrows_change(i) {
                KeyAction::Step { item: i, forward: true }
            } else {
                KeyAction::Nothing
            },
            None => KeyAction::Nothing,
        },
        Key::Enter if devices => KeyAction::Device(DeviceAction::Allow),
        Key::Enter => match item {
            Some(i) => KeyAction::Enter(i),
            None => KeyAction::Nothing,
        },
        Key::PageUp => KeyAction::ScrollLog { older: true },
        Key::PageDown => KeyAction::ScrollLog { older: false },
        Key::Char(_) => match hot {
            Some('s') => KeyAction::Save,
            Some('g') if item == Some(Item::Password) => if busy {
                KeyAction::Nothing
            } else {
                KeyAction::AskGenerate
            },
            Some('b') if devices && on_items => KeyAction::Device(DeviceAction::ToggleBlock),
            Some('k') if devices && on_items => KeyAction::Device(DeviceAction::Kick),
            Some('a') if devices && on_items => KeyAction::Device(DeviceAction::Allow),
            Some('o') if devices && on_items => KeyAction::Device(DeviceAction::ToggleApproval),
            _ => KeyAction::Unhandled,
        },
        _ => KeyAction::Unhandled,
    }
}

/// The longest value typed into the input, in characters.
pub const INPUT_MAX_CHARS: usize = 80;

/// What Enter on an item asks the window to do besides changing the draft.
#[derive(Debug, Clone, Copy, PartialEq, Eq, Structural)]
pub enum EnterAction {
    /// A choice or a toggle takes its next value.
    Step,
    /// The input for one's own value opened.
    Input,
    /// The block list: the devices section shows it (with the devices offline too).
    ShowBlacklist,
    /// The password opens in the network editor.
    EditPassword,
    LoadLog,
    RunDoctor,
    /// Ask before removing everything (not while an action runs).
    AskReset,
    Nothing,
}

pub open spec fn enter_action_spec(item: Item, busy: bool) -> EnterAction {
    match kind_of(item) {
        Kind::Toggle | Kind::Choice => EnterAction::Step,
        Kind::ChoiceOrText => EnterAction::Input,
        Kind::ReadOnly => EnterAction::Nothing,
        Kind::Action => match item {
            Item::Blacklist => EnterAction::ShowBlacklist,
            Item::Password => EnterAction::EditPassword,
            Item::Log => EnterAction::LoadLog,
            Item::Doctor => EnterAction::RunDoctor,
            Item::Reset => if busy {
                EnterAction::Nothing
            } else {
                EnterAction::AskReset
            },
            _ => EnterAction::Nothing,
        },
    }
}

pub fn enter_action(item: Item, busy: bool) -> (a: EnterAction)
    ensures
        a == enter_action_spec(item, busy),
{
    match item.kind() {
        Kind::Toggle | Kind::Choice => EnterAction::Step,
        Kind::ChoiceOrText => EnterAction::Input,
        Kind::ReadOnly => EnterAction::Nothing,
        Kind::Action => match item {
            Item::Blacklist => EnterAction::ShowBlacklist,
            Item::Password => EnterAction::EditPassword,
            Item::Log => EnterAction::LoadLog,
            Item::Doctor => EnterAction::RunDoctor,
            Item::Reset => if busy {
                EnterAction::Nothing
            } else {
                EnterAction::AskReset
            },
            _ => EnterAction::Nothing,
        },
    }
}

/// What saving the advanced settings does besides writing the file.
#[derive(Debug, Clone, Copy, PartialEq, Eq, Structural)]
pub struct SavePlan {
    /// The hotspot runs and a change needs a restart: check, stop, write, start.
    pub restart: bool,
    /// Otherwise, a change of the profile updates it (or is only checked, without one).
    pub update_profile: bool,
    /// Otherwise, the guests' access to the computer changed on a running hotspot and no
    /// service is there to renew the firewall rules: the window renews them itself.
    pub refresh_firewall: bool,
}

pub open spec fn save_plan_spec(on: bool, service: bool, d: ConfigView, c: ConfigView) -> SavePlan {
    let restart = on && needs_restart(d, c);
    SavePlan {
        restart,
        update_profile: !restart && changes_profile(d, c),
        refresh_firewall: !restart && on && d.hotspot.guests_can_reach_pc
            != c.hotspot.guests_can_reach_pc && !service,
    }
}

pub fn save_plan(on: bool, service: bool, draft: &Config, cfg: &Config) -> (p: SavePlan)
    ensures
        p == save_plan_spec(on, service, draft@, cfg@),
{
    let restart = on && restart_needed(draft, cfg);
    SavePlan {
        restart,
        update_profile: !restart && profile_changed(draft, cfg),
        refresh_firewall: !restart && on && draft.hotspot.guests_can_reach_pc
            != cfg.hotspot.guests_can_reach_pc && !service,
    }
}

/// What only works with the service is not saved silently without it.
#[derive(Debug, Clone, Copy, PartialEq, Eq, Structural)]
pub enum SaveWarning {
    /// Approval mode is on, but nobody is there to approve.
    ApprovalWithoutService,
    /// A switch-off time is set, but nobody is there to switch off.
    TimersWithoutService,
}

pub open spec fn save_warning_spec(
    service: bool,
    on: bool,
    latest: ConfigView,
    d: ConfigView,
    c: ConfigView,
) -> Option<SaveWarning> {
    let timers_changed = d.automation.idle_off_minutes != c.automation.idle_off_minutes
        || d.automation.timer_minutes != c.automation.timer_minutes;
    if service {
        None
    } else if on && latest.access.approval_required {
        Some(SaveWarning::ApprovalWithoutService)
    } else if timers_changed && (latest.automation.idle_off_minutes > 0
        || latest.automation.timer_minutes > 0) {
        Some(SaveWarning::TimersWithoutService)
    } else {
        None
    }
}

/// The warning after a save (`latest`: the settings as written).
pub fn save_warning(service: bool, on: bool, latest: &Config, draft: &Config, cfg: &Config) -> (w: Option<SaveWarning>)
    ensures
        w == save_warning_spec(service, on, latest@, draft@, cfg@),
{
    let timers_changed = draft.automation.idle_off_minutes != cfg.automation.idle_off_minutes
        || draft.automation.timer_minutes != cfg.automation.timer_minutes;
    if service {
        None
    } else if on && latest.access.approval_required {
        Some(SaveWarning::ApprovalWithoutService)
    } else if timers_changed && (latest.automation.idle_off_minutes > 0
        || latest.automation.timer_minutes > 0) {
        Some(SaveWarning::TimersWithoutService)
    } else {
        None
    }
}

/// The value of a toggle (for its green or grey mark).
pub open spec fn toggle_of(c: ConfigView, item: Item) -> Option<bool> {
    match item {
        Item::Hidden => Some(c.hotspot.hidden),
        Item::Isolation => Some(c.hotspot.ap_isolation),
        Item::GuestsReachPc => Some(c.hotspot.guests_can_reach_pc),
        Item::Approval => Some(c.access.approval_required),
        Item::Notifications => Some(c.access.notifications),
        Item::Autostart => Some(c.automation.autostart_on_login),
        Item::CloseOnFocusLoss => Some(c.ui.close_on_focus_loss),
        _ => None,
    }
}

pub fn toggle_state(cfg: &Config, item: Item) -> (r: Option<bool>)
    ensures
        r == toggle_of(cfg@, item),
{
    match item {
        Item::Hidden => Some(cfg.hotspot.hidden),
        Item::Isolation => Some(cfg.hotspot.ap_isolation),
        Item::GuestsReachPc => Some(cfg.hotspot.guests_can_reach_pc),
        Item::Approval => Some(cfg.access.approval_required),
        Item::Notifications => Some(cfg.access.notifications),
        Item::Autostart => Some(cfg.automation.autostart_on_login),
        Item::CloseOnFocusLoss => Some(cfg.ui.close_on_focus_loss),
        _ => None,
    }
}

/// The item weakens protection (shown in yellow): isolation off, guests may reach the PC,
/// approval off.
pub fn is_risky(cfg: &Config, item: Item) -> (r: bool)
    ensures
        r == match item {
            Item::Isolation => !cfg.hotspot.ap_isolation,
            Item::GuestsReachPc => cfg.hotspot.guests_can_reach_pc,
            Item::Approval => !cfg.access.approval_required,
            _ => false,
        },
{
    match item {
        Item::Isolation => !cfg.hotspot.ap_isolation,
        Item::GuestsReachPc => cfg.hotspot.guests_can_reach_pc,
        Item::Approval => !cfg.access.approval_required,
        _ => false,
    }
}

// ---------------------------------------------------------------------------------------
// Moving around
// ---------------------------------------------------------------------------------------
/// The next (or previous) section, round the circle.
pub fn next_section(section: Section, down: bool) -> (r: Section)
    ensures
        r == section_at(next_idx(6, Some(section_index(section)), down)),
{
    let idx = section.index();
    let next = next_index(6, Some(idx), down);
    Section::at(next)
}

/// The next (or previous) item position of the section, round the circle; a section
/// without items keeps the position.
pub fn next_item(section: Section, idx: usize, down: bool) -> (r: usize)
    requires
        idx <= usize::MAX - 8,
    ensures
        section_items(section).len() == 0 ==> r == idx,
        section_items(section).len() > 0 ==> r as int == (if down {
            (idx + 1) % (section_items(section).len() as int)
        } else {
            (idx + section_items(section).len() - 1) % (section_items(section).len() as int)
        }),
{
    let n = section.items().len();
    if n == 0 {
        return idx;
    }
    if down {
        (idx + 1) % n
    } else {
        (idx + n - 1) % n
    }
}

// ---------------------------------------------------------------------------------------
// The advanced mode's state
// ---------------------------------------------------------------------------------------
/// What shows under the expert items.
pub enum ExpertOutput {
    /// Nothing shows.
    Empty,
    Loading,
    Log(Vec<String>),
    Doctor(Vec<Check>),
}

/// The advanced mode: where the cursor is and the draft of the settings. The draft holds
/// the whole configuration, but saving takes only the advanced mode's fields from it
/// (`merge_changed`).
pub struct Advanced {
    pub section: Section,
    pub focus: Focus,
    pub item_idx: usize,
    pub draft: Config,
    pub input: Option<TextInput>,
    pub env: Env,
    pub output: ExpertOutput,
    /// How many log lines from the end are scrolled past.
    pub log_scroll: usize,
    pub device_idx: usize,
    /// Close the window after saving (the answer to "save the changes?" on leaving).
    pub quit_after_save: bool,
}

impl Advanced {
    /// Opens on the first section with the settings as the draft.
    pub fn new(cfg: &Config) -> (a: Advanced)
        ensures
            a.section == Section::Radio,
            a.focus == Focus::Sections,
            a.item_idx == 0,
            a.draft@ == cfg@,
            a.input is None,
            a.env.caps is None,
            a.env.uplinks@.len() == 0,
            a.output is Empty,
            a.log_scroll == 0,
            a.device_idx == 0,
            !a.quit_after_save,
    {
        Advanced {
            section: Section::Radio,
            focus: Focus::Sections,
            item_idx: 0,
            draft: cfg.duplicate(),
            input: None,
            env: Env { caps: None, uplinks: Vec::new() },
            output: ExpertOutput::Empty,
            log_scroll: 0,
            device_idx: 0,
            quit_after_save: false,
        }
    }

    /// The item under the cursor, when the cursor is on the items.
    pub fn item(&self) -> (r: Option<Item>)
        ensures
            r == if self.focus == Focus::Items && self.item_idx < section_items(self.section).len() {
                Some(section_items(self.section)[self.item_idx as int])
            } else {
                None::<Item>
            },
    {
        if self.focus != Focus::Items {
            return None;
        }
        let items = self.section.items();
        if self.item_idx < items.len() {
            Some(items[self.item_idx])
        } else {
            None
        }
    }

    /// The next (or previous) section, round the circle; the cursor goes to its first item.
    pub fn move_section(&mut self, down: bool)
        ensures
            final(self).section == section_at(
                next_idx(6, Some(section_index(old(self).section)), down),
            ),
            final(self).item_idx == 0,
            final(self).focus == old(self).focus,
            final(self).draft@ == old(self).draft@,
    {
        self.section = next_section(self.section, down);
        self.item_idx = 0;
    }

    /// The next (or previous) item of the section, round the circle.
    pub fn move_item(&mut self, down: bool)
        requires
            old(self).item_idx <= usize::MAX - 8,
        ensures
            final(self).section == old(self).section,
            final(self).focus == old(self).focus,
            final(self).draft@ == old(self).draft@,
            section_items(old(self).section).len() == 0 ==> final(self).item_idx == old(
                self,
            ).item_idx,
            section_items(old(self).section).len() > 0 ==> final(self).item_idx as int == (if down {
                (old(self).item_idx + 1) % (section_items(old(self).section).len() as int)
            } else {
                (old(self).item_idx + section_items(old(self).section).len() - 1) % (
                section_items(old(self).section).len() as int)
            }),
    {
        self.item_idx = next_item(self.section, self.item_idx, down);
    }

    /// Enter on an item: choices and toggles take the next value, typed values open the
    /// input with the current value, actions run (see `EnterAction`).
    pub fn enter_item(&mut self, item: Item, busy: bool) -> (a: EnterAction)
        ensures
            a == enter_action_spec(item, busy),
            kind_of(item) == Kind::ChoiceOrText ==> (final(self).input matches Some(i) && i.item
                == item && i.value@ == text_value_spec(old(self).draft@, item) && i.error is None),
            kind_of(item) != Kind::ChoiceOrText ==> final(self).input == old(self).input,
            item == Item::Blacklist ==> final(self).section == Section::Devices && final(self).focus
                == Focus::Items,
            item != Item::Blacklist ==> final(self).section == old(self).section && final(self).focus
                == old(self).focus,
            final(self).draft@ == old(self).draft@,
    {
        let a = enter_action(item, busy);
        match item.kind() {
            Kind::ChoiceOrText => {
                self.input = Some(
                    TextInput { item, value: text_value(&self.draft, item), error: None },
                );
            },
            _ => {},
        }
        if item == Item::Blacklist {
            self.section = Section::Devices;
            self.focus = Focus::Items;
        }
        a
    }

    /// A key in the open text input: Esc closes it, Enter puts the value into the draft (or
    /// keeps the refusal), Backspace deletes, a printable character is typed up to the limit.
    pub fn input_key(&mut self, k: Key)
        ensures
            final(self).section == old(self).section,
            final(self).focus == old(self).focus,
            old(self).input is None ==> final(self).input is None && final(self).draft@ == old(
                self,
            ).draft@,
            old(self).input matches Some(i) ==> match k {
                Key::Esc => final(self).input is None && final(self).draft@ == old(self).draft@,
                Key::Enter => match set_text_spec(old(self).draft@, i.item, i.value@) {
                    Ok(c) => final(self).input is None && final(self).draft@ == c,
                    Err(e) => (final(self).input matches Some(j) && j.item == i.item && j.value@
                        == i.value@ && (j.error matches Some(x) && x@ == e)) && final(self).draft@
                        == old(self).draft@,
                },
                Key::Backspace => (final(self).input matches Some(j) && j.item == i.item
                    && j.value@ == without_last(i.value@) && j.error is None) && final(self).draft@
                    == old(self).draft@,
                Key::Char(c) => if !is_control(c) && i.value@.len() < INPUT_MAX_CHARS {
                    (final(self).input matches Some(j) && j.item == i.item && j.value@
                        == i.value@.push(c) && j.error is None) && final(self).draft@ == old(
                        self,
                    ).draft@
                } else {
                    final(self).input == old(self).input && final(self).draft@ == old(self).draft@
                },
                _ => final(self).input == old(self).input && final(self).draft@ == old(self).draft@,
            },
    {
        let (item, value) = match &self.input {
            None => {
                return;
            },
            Some(i) => (i.item, copy_text(&i.value)),
        };
        match k {
            Key::Esc => {
                self.input = None;
            },
            Key::Enter => {
                match set_text(&mut self.draft, item, value.as_str()) {
                    Ok(()) => {
                        self.input = None;
                    },
                    Err(e) => {
                        self.input = Some(TextInput { item, value, error: Some(e) });
                    },
                }
            },
            Key::Backspace => {
                let shorter = without_last_exec(&value);
                self.input = Some(TextInput { item, value: shorter, error: None });
            },
            Key::Char(c) => {
                let count = str_chars(value.as_str()).len();
                if !is_control_exec(c) && count < INPUT_MAX_CHARS {
                    let mut longer = value;
                    push_char(&mut longer, c);
                    self.input = Some(TextInput { item, value: longer, error: None });
                }
            },
            _ => {},
        }
    }

    /// A click on a section: it is selected (a new one from its first item, with the expert
    /// output cleared), and the focus goes to the sections.
    pub fn click_section(&mut self, i: usize)
        ensures
            i >= 6 ==> (final(self).section == old(self).section && final(self).focus == old(
                self,
            ).focus && final(self).item_idx == old(self).item_idx),
            i < 6 ==> final(self).section == section_at(i as int) && final(self).focus
                == Focus::Sections,
            i < 6 && section_at(i as int) != old(self).section ==> final(self).item_idx == 0
                && final(self).output is Empty,
            i < 6 && section_at(i as int) == old(self).section ==> final(self).item_idx == old(
                self,
            ).item_idx,
            final(self).draft@ == old(self).draft@,
    {
        if i >= 6 {
            return;
        }
        let s = Section::at(i);
        if s != self.section {
            self.section = s;
            self.item_idx = 0;
            self.output = ExpertOutput::Empty;
        }
        self.focus = Focus::Sections;
    }

    /// A click on an item only selects it: values change with the keys, so that a stray
    /// click switches nothing.
    pub fn click_item(&mut self, i: usize)
        ensures
            i < section_items(old(self).section).len() ==> final(self).focus == Focus::Items
                && final(self).item_idx == i,
            i >= section_items(old(self).section).len() ==> final(self).focus == old(self).focus
                && final(self).item_idx == old(self).item_idx,
            final(self).section == old(self).section,
            final(self).draft@ == old(self).draft@,
    {
        if i < self.section.items().len() {
            self.focus = Focus::Items;
            self.item_idx = i;
        }
    }

    /// A click on one of the `rows` device rows of the devices section selects it.
    pub fn click_device(&mut self, i: usize, rows: usize)
        ensures
            old(self).section == Section::Devices && i < rows ==> final(self).focus
                == Focus::Items && final(self).device_idx == i,
            !(old(self).section == Section::Devices && i < rows) ==> final(self).focus == old(
                self,
            ).focus && final(self).device_idx == old(self).device_idx,
            final(self).section == old(self).section,
            final(self).item_idx == old(self).item_idx,
            final(self).draft@ == old(self).draft@,
    {
        if self.section == Section::Devices && i < rows {
            self.focus = Focus::Items;
            self.device_idx = i;
        }
    }

    /// The wheel over the sections moves one section, without wrapping round.
    pub fn wheel_sections(&mut self, down: bool)
        ensures
            final(self).section == section_at(
                wheel_step_spec(section_index(old(self).section), 6, down),
            ),
            final(self).focus == Focus::Sections,
            final(self).section != old(self).section ==> final(self).item_idx == 0
                && final(self).output is Empty,
            final(self).section == old(self).section ==> final(self).item_idx == old(
                self,
            ).item_idx,
            final(self).draft@ == old(self).draft@,
    {
        let next = Section::at(wheel_step(self.section.index(), 6, down));
        if next != self.section {
            self.section = next;
            self.item_idx = 0;
            self.output = ExpertOutput::Empty;
        }
        self.focus = Focus::Sections;
    }

    /// The wheel over the items: the first turn only focuses them; then it moves one item,
    /// without wrapping round.
    pub fn wheel_items(&mut self, down: bool)
        requires
            old(self).item_idx < usize::MAX,
        ensures
            ({
                let n = section_items(old(self).section).len();
                &&& n == 0 ==> final(self).focus == old(self).focus && final(self).item_idx == old(
                    self,
                ).item_idx
                &&& n > 0 ==> final(self).focus == Focus::Items
                &&& n > 0 && old(self).focus == Focus::Items ==> final(self).item_idx
                    == wheel_step_spec(old(self).item_idx as int, n as int, down)
                &&& n > 0 && old(self).focus != Focus::Items ==> final(self).item_idx == old(
                    self,
                ).item_idx
            }),
            final(self).section == old(self).section,
            final(self).draft@ == old(self).draft@,
    {
        let n = self.section.items().len();
        if n > 0 {
            if self.focus == Focus::Items {
                self.item_idx = wheel_step(self.item_idx, n, down);
            }
            self.focus = Focus::Items;
        }
    }

    /// The wheel over the `rows` device rows, like the items.
    pub fn wheel_devices(&mut self, down: bool, rows: usize)
        ensures
            rows == 0 ==> final(self).focus == old(self).focus && final(self).device_idx == old(
                self,
            ).device_idx,
            rows > 0 ==> final(self).focus == Focus::Items,
            rows > 0 && old(self).focus == Focus::Items ==> final(self).device_idx
                == wheel_step_spec(
                if old(self).device_idx < rows {
                    old(self).device_idx as int
                } else {
                    rows - 1
                },
                rows as int,
                down,
            ),
            rows > 0 && old(self).focus != Focus::Items ==> final(self).device_idx == (if old(
                self,
            ).device_idx < rows {
                old(self).device_idx as int
            } else {
                rows - 1
            }),
            final(self).section == old(self).section,
            final(self).draft@ == old(self).draft@,
    {
        if rows > 0 {
            let cur = if self.device_idx < rows {
                self.device_idx
            } else {
                rows - 1
            };
            self.device_idx = if self.focus == Focus::Items {
                wheel_step(cur, rows, down)
            } else {
                cur
            };
            self.focus = Focus::Items;
        }
    }

    /// The wheel over the log: it is shown from its end, so up goes into the past, by three
    /// lines, not past the first line.
    pub fn wheel_output(&mut self, down: bool)
        ensures
            ({
                let max = match old(self).output {
                    ExpertOutput::Log(lines) => lines@.len() as int,
                    _ => 0,
                };
                &&& down ==> final(self).log_scroll == (if old(self).log_scroll >= 3 {
                    old(self).log_scroll - 3
                } else {
                    0
                })
                &&& !down ==> final(self).log_scroll == (if old(self).log_scroll + 3 <= max {
                    old(self).log_scroll + 3
                } else {
                    max
                })
            }),
            final(self).section == old(self).section,
            final(self).draft@ == old(self).draft@,
    {
        let max = match &self.output {
            ExpertOutput::Log(lines) => lines.len(),
            _ => 0,
        };
        self.log_scroll = if down {
            if self.log_scroll >= 3 {
                self.log_scroll - 3
            } else {
                0
            }
        } else if self.log_scroll <= max && max - self.log_scroll >= 3 {
            self.log_scroll + 3
        } else {
            max
        };
    }

    /// The settings changed elsewhere (the edit overlay, the service, the first-run
    /// question): the draft takes the new settings, but keeps every field the user changed
    /// in it and has not saved.
    pub fn sync_from(&mut self, before: &Config, after: &Config)
        ensures
            final(self).draft@ == merged(after@, old(self).draft@, before@),
            final(self).section == old(self).section,
            final(self).item_idx == old(self).item_idx,
    {
        let mut draft = after.duplicate();
        merge_changed(&mut draft, &self.draft, before);
        self.draft = draft;
    }
}

} // verus!
