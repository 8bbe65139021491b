//! The settings (`~/.config/omarchy-hotspot/config.toml`), without the password, which
//! NetworkManager keeps. Missing fields take their defaults.

use vstd::prelude::*;
use crate::backend::{Band, Security};
use crate::ssid::{SSID_MAX_BYTES, ssid_check, truncate_bytes, truncated};
use crate::utf8len::{
    byte_len, char_width, lemma_byte_len_empty, lemma_byte_len_prefix, lemma_byte_len_push,
};
use crate::leases::opt_text;
use crate::text::{
    strs, chars_to_string, filter_map, is_control, is_control_exec, lemma_filter_map_all,
    lemma_filter_map_step, lit, str_chars, trim, trim_exec,
};

verus! {

broadcast use vstd::slice::group_slice_axioms;

pub const CONFIG_VERSION: u32 = 1;

pub const DEFAULT_SUBNET: &'static str = "10.42.0.1/24";

#[derive(Debug, Clone, PartialEq, Eq)]
pub struct Config {
    pub version: u32,
    /// `None`: the language comes from `$LANG`.
    pub language: Option<String>,
    pub hotspot: HotspotConfig,
    pub network: NetworkConfig,
    pub access: AccessConfig,
    pub automation: AutomationConfig,
    pub ui: UiConfig,
}

#[derive(Debug, Clone, PartialEq, Eq)]
pub struct HotspotConfig {
    pub ssid: String,
    pub security: Security,
    pub band: Band,
    /// 0: automatic.
    pub channel: u8,
    pub width_mhz: u16,
    pub hidden: bool,
    pub ap_isolation: bool,
    pub guests_can_reach_pc: bool,
    /// "": leave the country as it is.
    pub country: String,
}

#[derive(Debug, Clone, PartialEq, Eq)]
pub struct NetworkConfig {
    /// "": automatic.
    pub ap_interface: String,
    /// "": automatic, by the route to 1.1.1.1.
    pub uplink_interface: String,
    pub subnet: String,
    pub dns: Vec<String>,
    pub ipv6: bool,
}

#[derive(Debug, Clone, PartialEq, Eq)]
pub struct AccessConfig {
    pub approval_required: bool,
    pub allowed_macs: Vec<String>,
    pub blocked_macs: Vec<String>,
    pub notifications: bool,
}

#[derive(Debug, Clone, PartialEq, Eq)]
pub struct AutomationConfig {
    pub autostart_on_login: bool,
    pub idle_off_minutes: u32,
    pub timer_minutes: u32,
}

#[derive(Debug, Clone, Copy, PartialEq, Eq, Structural)]
pub enum UiMode {
    Simple,
    Advanced,
}

#[derive(Debug, Clone, PartialEq, Eq)]
pub struct UiConfig {
    pub show_password: bool,
    pub mode: UiMode,
    /// Close the window when it loses focus (as Omarchy's system panels do).
    pub close_on_focus_loss: bool,
}

/// The settings as plain values: texts as characters, lists as sequences.
pub ghost struct HotspotView {
    pub ssid: Seq<char>,
    pub security: Security,
    pub band: Band,
    pub channel: u8,
    pub width_mhz: u16,
    pub hidden: bool,
    pub ap_isolation: bool,
    pub guests_can_reach_pc: bool,
    pub country: Seq<char>,
}

pub ghost struct NetworkView {
    pub ap_interface: Seq<char>,
    pub uplink_interface: Seq<char>,
    pub subnet: Seq<char>,
    pub dns: Seq<Seq<char>>,
    pub ipv6: bool,
}

pub ghost struct AccessView {
    pub approval_required: bool,
    pub allowed_macs: Seq<Seq<char>>,
    pub blocked_macs: Seq<Seq<char>>,
    pub notifications: bool,
}

pub ghost struct ConfigView {
    pub version: u32,
    pub language: Option<Seq<char>>,
    pub hotspot: HotspotView,
    pub network: NetworkView,
    pub access: AccessView,
    pub automation: AutomationConfig,
    pub ui: UiConfig,
}

impl View for HotspotConfig {
    type V = HotspotView;

    open spec fn view(&self) -> HotspotView {
        HotspotView {
            ssid: self.ssid@,
            security: self.security,
            band: self.band,
            channel: self.channel,
            width_mhz: self.width_mhz,
            hidden: self.hidden,
            ap_isolation: self.ap_isolation,
            guests_can_reach_pc: self.guests_can_reach_pc,
            country: self.country@,
        }
    }
}

impl View for NetworkConfig {
    type V = NetworkView;

    open spec fn view(&self) -> NetworkView {
        NetworkView {
            ap_interface: self.ap_interface@,
            uplink_interface: self.uplink_interface@,
            subnet: self.subnet@,
            dns: strs(self.dns@),
            ipv6: self.ipv6,
        }
    }
}

impl View for AccessConfig {
    type V = AccessView;

    open spec fn view(&self) -> AccessView {
        AccessView {
            approval_required: self.approval_required,
            allowed_macs: strs(self.allowed_macs@),
            blocked_macs: strs(self.blocked_macs@),
            notifications: self.notifications,
        }
    }
}

impl View for Config {
    type V = ConfigView;

    open spec fn view(&self) -> ConfigView {
        ConfigView {
            version: self.version,
            language: opt_text(self.language),
            hotspot: self.hotspot@,
            network: self.network@,
            access: self.access@,
            automation: self.automation,
            ui: self.ui,
        }
    }
}

impl Default for NetworkConfig {
    fn default() -> (r: NetworkConfig)
        ensures
            r.ap_interface@.len() == 0,
            r.uplink_interface@.len() == 0,
            r.subnet@ == DEFAULT_SUBNET@,
            r.dns@.len() == 0,
            !r.ipv6,
    {
        NetworkConfig {
            ap_interface: String::new(),
            uplink_interface: String::new(),
            subnet: DEFAULT_SUBNET.to_owned(),
            dns: Vec::new(),
            ipv6: false,
        }
    }
}

impl Default for AccessConfig {
    fn default() -> (r: AccessConfig)
        ensures
            r.approval_required,
            r.allowed_macs@.len() == 0,
            r.blocked_macs@.len() == 0,
            r.notifications,
    {
        AccessConfig {
            approval_required: true,
            allowed_macs: Vec::new(),
            blocked_macs: Vec::new(),
            notifications: true,
        }
    }
}

impl Default for AutomationConfig {
    fn default() -> (r: AutomationConfig)
        ensures
            !r.autostart_on_login,
            r.idle_off_minutes == 0,
            r.timer_minutes == 0,
    {
        AutomationConfig { autostart_on_login: false, idle_off_minutes: 0, timer_minutes: 0 }
    }
}

impl Default for UiConfig {
    fn default() -> (r: UiConfig)
        ensures
            !r.show_password,
            r.mode == UiMode::Simple,
            r.close_on_focus_loss,
    {
        UiConfig { show_password: false, mode: UiMode::Simple, close_on_focus_loss: true }
    }
}

/// Keeps a character unless it is a control character.
pub open spec fn printable() -> spec_fn(char) -> Option<char> {
    |c: char|
        if is_control(c) {
            None
        } else {
            Some(c)
        }
}

/// What the host name brings to the network name: trimmed, without control characters.
pub open spec fn host_part(hostname: Seq<char>) -> Seq<char> {
    filter_map(trim(hostname), printable())
}

/// "Omarchy-<hostname>" cut to 32 bytes; without a host name just "Omarchy".
pub open spec fn default_ssid_ok(hostname: Seq<char>, r: Seq<char>) -> bool {
    let h = host_part(hostname);
    if h.len() == 0 {
        r == "Omarchy"@
    } else {
        truncated("Omarchy-"@ + h, r, SSID_MAX_BYTES as nat)
    }
}

pub fn default_ssid(hostname: &str) -> (r: String)
    ensures
        default_ssid_ok(hostname@, r@),
{
    let cs = str_chars(hostname);
    let t = trim_exec(cs.as_slice());
    let ghost f = printable();
    let mut h: Vec<char> = Vec::new();
    let mut i: usize = 0;
    while i < t.len()
        invariant
            i <= t@.len(),
            t@ == trim(hostname@),
            f == printable(),
            h@ == filter_map(t@.take(i as int), f),
        decreases t.len() - i,
    {
        proof {
            lemma_filter_map_step(t@, f, i as int);
        }
        if !is_control_exec(t[i]) {
            h.push(t[i]);
        }
        i = i + 1;
    }
    proof {
        lemma_filter_map_all(t@, f);
    }
    assert(h@ == host_part(hostname@));
    if h.len() == 0 {
        return "Omarchy".to_owned();
    }
    let mut full = lit("Omarchy-");
    full.append(&mut h);
    assert(full@ == "Omarchy-"@ + host_part(hostname@));
    let s = chars_to_string(full.as_slice());
    truncate_bytes(s.as_str(), SSID_MAX_BYTES).to_owned()
}

/// No character kept by `printable` is a control character.
proof fn lemma_printable_kept(s: Seq<char>)
    ensures
        forall|i: int|
            0 <= i < filter_map(s, printable()).len() ==> !is_control(
                #[trigger] filter_map(s, printable())[i],
            ),
    decreases s.len(),
{
    if s.len() > 0 {
        lemma_printable_kept(s.drop_last());
        let p = filter_map(s.drop_last(), printable());
        let m = filter_map(s, printable());
        if is_control(s.last()) {
            assert(m == p);
        } else {
            assert(m == p.push(s.last()));
            assert forall|i: int| 0 <= i < m.len() implies !is_control(#[trigger] m[i]) by {
                if i < p.len() {
                    assert(m[i] == p[i]);
                }
            }
        }
    }
}

/// A text takes at most four bytes per character.
proof fn lemma_byte_len_bound(s: Seq<char>)
    ensures
        byte_len(s) <= 4 * s.len(),
    decreases s.len(),
{
    if s.len() == 0 {
        lemma_byte_len_empty();
        assert(s =~= seq![]);
    } else {
        lemma_byte_len_bound(s.drop_last());
        lemma_byte_len_push(s.drop_last(), s.last());
        assert(s.drop_last().push(s.last()) =~= s);
    }
}

/// Without a host name left after trimming and dropping control characters the default
/// network name is "Omarchy"; otherwise it starts with "Omarchy-" (the host name follows, cut
/// to the 32 bytes an SSID may have).
pub proof fn lemma_default_ssid_named(hostname: Seq<char>, r: Seq<char>)
    requires
        default_ssid_ok(hostname, r),
    ensures
        host_part(hostname).len() == 0 ==> r == "Omarchy"@,
        host_part(hostname).len() > 0 ==> r.len() >= 8 && r.take(8) == "Omarchy-"@,
{
    reveal_strlit("Omarchy-");
    let h = host_part(hostname);
    if h.len() > 0 {
        let full = "Omarchy-"@ + h;
        assert(full.take(8) =~= "Omarchy-"@);
        lemma_byte_len_bound(full.take(8));
        if r.len() < 8 {
            lemma_byte_len_prefix(full, r.len() as int + 1, 8);
        }
        assert(r.take(8) =~= full.take(8));
    }
}

/// The default network name is a valid SSID, whatever the host name is.
pub proof fn lemma_default_ssid_valid(hostname: Seq<char>, r: Seq<char>)
    requires
        default_ssid_ok(hostname, r),
    ensures
        ssid_check(r) is Ok,
{
    reveal_strlit("Omarchy");
    reveal_strlit("Omarchy-");
    let h = host_part(hostname);
    if h.len() == 0 {
        lemma_byte_len_bound(r);
        assert(!exists|i: int| 0 <= i < r.len() && is_control(r[i]));
    } else {
        let full = "Omarchy-"@ + h;
        lemma_printable_kept(trim(hostname));
        lemma_byte_len_bound(full.take(1));
        if r.len() == 0 {
            assert(r.len() < full.len());
            assert(byte_len(full.take(1)) > SSID_MAX_BYTES);
        }
        assert forall|i: int| 0 <= i < r.len() implies !is_control(r[i]) by {
            assert(r[i] == full[i]);
            if i >= 8 {
                assert(full[i] == h[i - 8]);
            }
        }
    }
}

impl HotspotConfig {
    /// The defaults, with the network name made from `hostname` (see `default_ssid`).
    pub fn defaults_for(hostname: &str) -> (r: HotspotConfig)
        ensures
            default_ssid_ok(hostname@, r.ssid@),
            r.security == Security::Wpa3,
            r.band == Band::Auto,
            r.channel == 0,
            r.width_mhz == 20,
            !r.hidden,
            r.ap_isolation,
            !r.guests_can_reach_pc,
            r.country@.len() == 0,
    {
        HotspotConfig {
            ssid: default_ssid(hostname),
            security: Security::Wpa3,
            band: Band::Auto,
            channel: 0,
            width_mhz: 20,
            hidden: false,
            ap_isolation: true,
            guests_can_reach_pc: false,
            country: String::new(),
        }
    }
}

impl Config {
    /// The defaults of every section, for a machine called `hostname`.
    pub fn defaults_for(hostname: &str) -> (r: Config)
        ensures
            r.version == CONFIG_VERSION,
            r.language is None,
            default_ssid_ok(hostname@, r.hotspot.ssid@),
            r.hotspot.security == Security::Wpa3,
            r.hotspot.band == Band::Auto,
            r.hotspot.channel == 0,
            r.hotspot.width_mhz == 20,
            !r.hotspot.hidden,
            r.hotspot.ap_isolation,
            !r.hotspot.guests_can_reach_pc,
            r.hotspot.country@.len() == 0,
            r.network.ap_interface@.len() == 0,
            r.network.uplink_interface@.len() == 0,
            r.network.subnet@ == DEFAULT_SUBNET@,
            r.network.dns@.len() == 0,
            !r.network.ipv6,
            r.access.approval_required,
            r.access.allowed_macs@.len() == 0,
            r.access.blocked_macs@.len() == 0,
            r.access.notifications,
            !r.automation.autostart_on_login,
            r.automation.idle_off_minutes == 0,
            r.automation.timer_minutes == 0,
            !r.ui.show_password,
            r.ui.mode == UiMode::Simple,
            r.ui.close_on_focus_loss,
    {
        Config {
            version: CONFIG_VERSION,
            language: None,
            hotspot: HotspotConfig::defaults_for(hostname),
            network: NetworkConfig::default(),
            access: AccessConfig::default(),
            automation: AutomationConfig::default(),
            ui: UiConfig::default(),
        }
    }
}

/// A copy of a text.
pub(crate) fn copy_text(s: &String) -> (r: String)
    ensures
        r@ == s@,
{
    s.clone()
}

/// A copy of a list of texts.
pub(crate) fn copy_texts(v: &Vec<String>) -> (r: Vec<String>)
    ensures
        strs(r@) == strs(v@),
{
    let mut out: Vec<String> = Vec::new();
    let mut i: usize = 0;
    while i < v.len()
        invariant
            i <= v@.len(),
            strs(out@) == strs(v@).take(i as int),
        decreases v.len() - i,
    {
        let ghost before = strs(out@);
        let c = v[i].clone();
        assert(c@ == strs(v@)[i as int]);
        out.push(c);
        assert(strs(out@) =~= before.push(c@));
        assert(strs(v@).take(i + 1) =~= strs(v@).take(i as int).push(strs(v@)[i as int]));
        i = i + 1;
    }
    assert(strs(v@).take(v.len() as int) =~= strs(v@));
    out
}

fn copy_opt_text(s: &Option<String>) -> (r: Option<String>)
    ensures
        opt_text(r) == opt_text(*s),
{
    match s {
        Some(t) => Some(copy_text(t)),
        None => None,
    }
}

impl Config {
    /// A copy with the same values.
    pub fn duplicate(&self) -> (r: Config)
        ensures
            r@ == self@,
    {
        let h = &self.hotspot;
        let n = &self.network;
        let a = &self.access;
        Config {
            version: self.version,
            language: copy_opt_text(&self.language),
            hotspot: HotspotConfig {
                ssid: copy_text(&h.ssid),
                security: h.security,
                band: h.band,
                channel: h.channel,
                width_mhz: h.width_mhz,
                hidden: h.hidden,
                ap_isolation: h.ap_isolation,
                guests_can_reach_pc: h.guests_can_reach_pc,
                country: copy_text(&h.country),
            },
            network: NetworkConfig {
                ap_interface: copy_text(&n.ap_interface),
                uplink_interface: copy_text(&n.uplink_interface),
                subnet: copy_text(&n.subnet),
                dns: copy_texts(&n.dns),
                ipv6: n.ipv6,
            },
            access: AccessConfig {
                approval_required: a.approval_required,
                allowed_macs: copy_texts(&a.allowed_macs),
                blocked_macs: copy_texts(&a.blocked_macs),
                notifications: a.notifications,
            },
            automation: AutomationConfig {
                autostart_on_login: self.automation.autostart_on_login,
                idle_off_minutes: self.automation.idle_off_minutes,
                timer_minutes: self.automation.timer_minutes,
            },
            ui: UiConfig {
                show_password: self.ui.show_password,
                mode: self.ui.mode,
                close_on_focus_loss: self.ui.close_on_focus_loss,
            },
        }
    }
}

/// One field that `set` changes in the settings file (applied to the fresh file under its
/// lock, so that fields others changed meanwhile stay).
#[derive(Debug, Clone, PartialEq, Eq)]
pub enum FieldChange {
    Ssid(String),
    /// A band makes the channel automatic again.
    Band(Band),
    Security(Security),
    /// Switch off when nobody is connected for this many minutes (0: never).
    IdleOff(u32),
}

impl FieldChange {
    pub fn apply_to(&self, cfg: &mut Config)
        ensures
            match *self {
                FieldChange::Ssid(s) => final(cfg)@ == (ConfigView {
                    hotspot: HotspotView { ssid: s@, ..old(cfg)@.hotspot },
                    ..old(cfg)@
                }),
                FieldChange::Band(b) => final(cfg)@ == (ConfigView {
                    hotspot: HotspotView { band: b, channel: 0, ..old(cfg)@.hotspot },
                    ..old(cfg)@
                }),
                FieldChange::Security(x) => final(cfg)@ == (ConfigView {
                    hotspot: HotspotView { security: x, ..old(cfg)@.hotspot },
                    ..old(cfg)@
                }),
                FieldChange::IdleOff(m) => final(cfg)@ == (ConfigView {
                    automation: AutomationConfig { idle_off_minutes: m, ..old(cfg)@.automation },
                    ..old(cfg)@
                }),
            },
    {
        match self {
            FieldChange::Ssid(s) => {
                cfg.hotspot.ssid = copy_text(s);
            },
            FieldChange::Band(b) => {
                cfg.hotspot.band = *b;
                cfg.hotspot.channel = 0;
            },
            FieldChange::Security(x) => {
                cfg.hotspot.security = *x;
            },
            FieldChange::IdleOff(m) => {
                cfg.automation.idle_off_minutes = *m;
            },
        }
    }
}

// ---------------------------------------------------------------------------------------
// Unknown keys in the settings file
// ---------------------------------------------------------------------------------------
/// A key of the settings file: its path from the top (table names, then the key) and
/// whether its value is a table. A file is its keys, every table before what is inside it.
#[derive(Debug, Clone, PartialEq, Eq)]
pub struct KeyPath {
    pub path: Vec<String>,
    pub table: bool,
}

pub ghost struct KeyPathModel {
    pub path: Seq<Seq<char>>,
    pub table: bool,
}

impl View for KeyPath {
    type V = KeyPathModel;

    open spec fn view(&self) -> KeyPathModel {
        KeyPathModel { path: strs(self.path@), table: self.table }
    }
}

pub open spec fn key_models(v: Seq<KeyPath>) -> Seq<KeyPathModel> {
    v.map_values(|k: KeyPath| k@)
}

/// Known keys have this path (as a table, if `table`).
pub open spec fn has_key(known: Seq<KeyPathModel>, p: Seq<Seq<char>>, table: bool) -> bool {
    exists|i: int| 0 <= i < known.len() && (#[trigger] known[i]).path == p && (!table || known[i].table)
}

/// Keys that are passed over without a word: `language` (not written when unset) and the
/// `limits` table of older versions (it goes at the next save).
pub open spec fn passed_over(p: Seq<Seq<char>>) -> bool {
    p.len() == 1 && (p[0] == "language"@ || p[0] == "limits"@)
}

/// The walk reaches a key when every table above it is a known table that is not passed
/// over.
pub open spec fn reached(known: Seq<KeyPathModel>, p: Seq<Seq<char>>) -> bool {
    forall|k: int| 1 <= k < p.len() ==> has_key(known, #[trigger] p.take(k), true) && !passed_over(
        p.take(k),
    )
}

/// The path written with dots (`hotspot.magic`).
pub open spec fn dotted(p: Seq<Seq<char>>) -> Seq<char>
    decreases p.len(),
{
    if p.len() == 0 {
        seq![]
    } else if p.len() == 1 {
        p[0]
    } else {
        dotted(p.drop_last()) + seq!['.'] + p.last()
    }
}

/// The keys of the file the walk reaches that the known keys do not have, in file order.
pub open spec fn unknown_of(known: Seq<KeyPathModel>) -> spec_fn(KeyPathModel) -> Option<Seq<char>> {
    |e: KeyPathModel|
        if reached(known, e.path) && !passed_over(e.path) && !has_key(known, e.path, false) {
            Some(dotted(e.path))
        } else {
            None
        }
}

fn same_path(a: &[String], b: &[String]) -> (r: bool)
    ensures
        r == (strs(a@) == strs(b@)),
{
    if a.len() != b.len() {
        assert(strs(a@).len() != strs(b@).len());
        return false;
    }
    let mut i: usize = 0;
    while i < a.len()
        invariant
            a@.len() == b@.len(),
            i <= a@.len(),
            forall|k: int| 0 <= k < i ==> #[trigger] strs(a@)[k] == strs(b@)[k],
        decreases a.len() - i,
    {
        let x = str_chars(a[i].as_str());
        let y = str_chars(b[i].as_str());
        if !crate::text::chars_eq(x.as_slice(), y.as_slice()) {
            assert(strs(a@)[i as int] != strs(b@)[i as int]);
            return false;
        }
        i = i + 1;
    }
    assert(strs(a@) =~= strs(b@));
    true
}

fn known_has(known: &[KeyPath], p: &[String], table: bool) -> (r: bool)
    ensures
        r == has_key(key_models(known@), strs(p@), table),
{
    let ghost km = key_models(known@);
    let mut i: usize = 0;
    while i < known.len()
        invariant
            i <= known@.len(),
            km == key_models(known@),
            forall|k: int| 0 <= k < i ==> !((#[trigger] km[k]).path == strs(p@) && (!table || km[k].table)),
        decreases known.len() - i,
    {
        if same_path(known[i].path.as_slice(), p) && (!table || known[i].table) {
            assert(km[i as int].path == strs(p@));
            return true;
        }
        i = i + 1;
    }
    false
}

fn is_passed_over(p: &[String]) -> (r: bool)
    ensures
        r == passed_over(strs(p@)),
{
    if p.len() != 1 {
        return false;
    }
    let x = str_chars(p[0].as_str());
    let lang = lit("language");
    let limits = lit("limits");
    crate::text::chars_eq(x.as_slice(), lang.as_slice()) || crate::text::chars_eq(
        x.as_slice(),
        limits.as_slice(),
    )
}

fn is_reached(known: &[KeyPath], p: &[String]) -> (r: bool)
    ensures
        r == reached(key_models(known@), strs(p@)),
{
    let mut k: usize = 1;
    while k < p.len()
        invariant
            1 <= k,
            k <= p@.len() || p@.len() == 0,
            forall|j: int|
                1 <= j < k && j < p@.len() ==> has_key(key_models(known@), #[trigger] strs(p@).take(j), true)
                    && !passed_over(strs(p@).take(j)),
        decreases p.len() - k,
    {
        let head = &p[0..k];
        assert(strs(head@) =~= strs(p@).take(k as int));
        if !known_has(known, head, true) || is_passed_over(head) {
            return false;
        }
        k = k + 1;
    }
    true
}

fn dotted_exec(p: &[String]) -> (r: String)
    ensures
        r@ == dotted(strs(p@)),
{
    let mut out: Vec<char> = Vec::new();
    let mut i: usize = 0;
    while i < p.len()
        invariant
            i <= p@.len(),
            out@ == dotted(strs(p@).take(i as int)),
        decreases p.len() - i,
    {
        let ghost before = out@;
        let mut x = str_chars(p[i].as_str());
        if i > 0 {
            out.push('.');
        }
        out.append(&mut x);
        proof {
            let t = strs(p@).take(i + 1);
            assert(t.drop_last() =~= strs(p@).take(i as int));
            assert(t.last() == p@[i as int]@);
            if i == 0 {
                assert(before =~= seq![]);
                assert(out@ =~= t[0]);
            } else {
                assert(out@ =~= before + seq!['.'] + t.last());
            }
        }
        i = i + 1;
    }
    assert(strs(p@).take(p@.len() as int) =~= strs(p@));
    chars_to_string(out.as_slice())
}

/// The keys of the file that the settings do not have, by their dotted names (see
/// `unknown_of`): they are reported to the user, and a whole unknown table counts once.
pub fn unknown_keys(raw: &[KeyPath], known: &[KeyPath]) -> (out: Vec<String>)
    ensures
        strs(out@) == filter_map(key_models(raw@), unknown_of(key_models(known@))),
{
    let ghost f = unknown_of(key_models(known@));
    let ghost rm = key_models(raw@);
    let mut out: Vec<String> = Vec::new();
    let mut i: usize = 0;
    while i < raw.len()
        invariant
            i <= raw@.len(),
            f == unknown_of(key_models(known@)),
            rm == key_models(raw@),
            strs(out@) == filter_map(rm.take(i as int), f),
        decreases raw.len() - i,
    {
        proof {
            lemma_filter_map_step(rm, f, i as int);
        }
        let p = raw[i].path.as_slice();
        if is_reached(known, p) && !is_passed_over(p) && !known_has(known, p, false) {
            let ghost before = strs(out@);
            let name = dotted_exec(p);
            out.push(name);
            assert(strs(out@) =~= before.push(dotted(rm[i as int].path)));
        }
        i = i + 1;
    }
    proof {
        lemma_filter_map_all(rm, f);
    }
    out
}

} // verus!
