//! Fitting Omarchy's floating window to its content: the window follows the content's size
//! and stays in the top right corner under the bar, like Omarchy's system panels. Only our
//! own window (`org.omarchy.omarchy-hotspot`) under Hyprland is touched.
//!
//! Only numbers and a window address checked against `0x<hex>` go into the Lua commands.

use vstd::prelude::*;
use crate::num::{parse_signed, parse_i64, signed_decimal, i64_chars};
use crate::text::{
    chars_to_string, is_ascii_hexdigit, lit, seqs, split_words, starts_with, starts_with_exec, str_chars,
    words,
};

verus! {

broadcast use vstd::slice::group_slice_axioms;

/// The window class Omarchy gives the program.
pub const APP_CLASS: &'static str = "org.omarchy.omarchy-hotspot";

/// How long (ms) a wanted size must hold before the window moves; otherwise the window would
/// jerk on every intermediate frame (status, then QR, then devices).
pub const SETTLE_MS: u64 = 350;

/// How many times the size is corrected when the first try misses the terminal's cell grid.
pub const MAX_ATTEMPTS: u8 = 3;

/// The start size from the window rule in `hyprland.lua`, used until a size is remembered.
pub const DEFAULT_WIDTH: i64 = 760;

pub const DEFAULT_HEIGHT: i64 = 440;

/// A remembered window size outside these bounds comes from a broken file.
pub const SIZE_MIN: i64 = 100;

pub const SIZE_MAX: i64 = 10_000;

/// With less free room on the monitor than this, Hyprland's data is odd: the window stays.
pub const MIN_FREE_WIDTH: i64 = 320;

pub const MIN_FREE_HEIGHT: i64 = 200;

/// What to do in the background.
#[derive(Debug, Clone, Copy, PartialEq, Eq)]
pub enum Pass {
    /// Fit the size and put the window in the corner.
    Fit((u16, u16)),
    /// The size fits: remember it in pixels and tell Hyprland.
    Remember,
}

/// The fitting state. Times are milliseconds on a monotonic clock.
#[derive(Debug, Clone, Copy, PartialEq, Eq, Default)]
pub struct Fitter {
    /// The size the content needs, and since when.
    pub wanted: Option<(u16, u16)>,
    /// It is the window's usual size (no QR open, no overlay): it is remembered for opening.
    pub wanted_is_base: bool,
    pub wanted_since: Option<u64>,
    /// Fitting is over for this size (it fit, or the attempts ran out).
    pub done_for: Option<(u16, u16)>,
    pub attempts: u8,
    /// The terminal size at the last tick and when it last changed (Hyprland animates).
    pub last_term: Option<(u16, u16)>,
    pub term_changed: Option<u64>,
    /// A `hyprctl` call runs in the background.
    pub busy: bool,
    /// Not under Hyprland: no fitting at all.
    pub disabled: bool,
    /// The program runs in its own floating Omarchy window (not in the user's terminal).
    pub own_window: bool,
}

/// The time has passed `SETTLE_MS` (or there is none).
pub open spec fn settled(t: Option<u64>, now: u64) -> bool {
    match t {
        None => true,
        Some(t) => now >= t && now - t >= SETTLE_MS,
    }
}

/// One tick's decision: the new state and what to do. The first pass always fits (even at
/// the right size the window must go to the corner); after that only while the size misses,
/// at most `MAX_ATTEMPTS` times. Then the size is done: a fitting usual size is remembered.
pub open spec fn decide_spec(f: Fitter, term: (u16, u16), now: u64) -> (Fitter, Option<Pass>) {
    let f1 = if f.last_term != Some(term) {
        Fitter { last_term: Some(term), term_changed: Some(now), ..f }
    } else {
        f
    };
    match f1.wanted {
        None => (f1, None),
        Some(w) => if f1.disabled || f1.done_for == Some(w) || f1.busy {
            (f1, None)
        } else if !settled(f1.wanted_since, now) || !settled(f1.term_changed, now) {
            (f1, None)
        } else if f1.attempts > 0 && (term == w || f1.attempts >= MAX_ATTEMPTS) {
            (
                Fitter { done_for: Some(w), ..f1 },
                if term == w && f1.wanted_is_base {
                    Some(Pass::Remember)
                } else {
                    None
                },
            )
        } else {
            (Fitter { attempts: (f1.attempts + 1) as u8, ..f1 }, Some(Pass::Fit(w)))
        },
    }
}

/// A new wanted size restarts the attempts and the settle time; the same size keeps them.
pub open spec fn want_spec(f: Fitter, size: (u16, u16), is_base: bool, now: u64) -> Fitter {
    if f.wanted != Some(size) {
        Fitter { wanted_is_base: is_base, wanted: Some(size), wanted_since: Some(now), attempts: 0, ..f }
    } else {
        Fitter { wanted_is_base: is_base, ..f }
    }
}

fn is_size(a: Option<(u16, u16)>, b: (u16, u16)) -> (r: bool)
    ensures
        r == (a == Some(b)),
{
    match a {
        Some(x) => x.0 == b.0 && x.1 == b.1,
        None => false,
    }
}

fn settled_exec(t: Option<u64>, now: u64) -> (r: bool)
    ensures
        r == settled(t, now),
{
    match t {
        None => true,
        Some(t) => now >= t && now - t >= SETTLE_MS,
    }
}

impl Fitter {
    /// A fitter; `disabled` when not under Hyprland.
    pub fn new(disabled: bool) -> (f: Fitter)
        ensures
            f == (Fitter {
                wanted: None,
                wanted_is_base: false,
                wanted_since: None,
                done_for: None,
                attempts: 0,
                last_term: None,
                term_changed: None,
                busy: false,
                disabled,
                own_window: false,
            }),
    {
        Fitter {
            wanted: None,
            wanted_is_base: false,
            wanted_since: None,
            done_for: None,
            attempts: 0,
            last_term: None,
            term_changed: None,
            busy: false,
            disabled,
            own_window: false,
        }
    }

    /// The window was found as our floating Omarchy window: only there closing on focus
    /// loss makes sense.
    pub fn own_window(&self) -> (r: bool)
        ensures
            r == self.own_window,
    {
        self.own_window
    }

    /// Notes the size the content needs now (after every frame).
    pub fn want(&mut self, size: (u16, u16), is_base: bool, now: u64)
        ensures
            *final(self) == want_spec(*old(self), size, is_base, now),
    {
        self.wanted_is_base = is_base;
        if !is_size(self.wanted, size) {
            self.wanted = Some(size);
            self.wanted_since = Some(now);
            self.attempts = 0;
        }
    }

    /// Whether to fit the window now, and to which size (see `decide_spec`).
    pub fn decide(&mut self, term: (u16, u16), now: u64) -> (r: Option<Pass>)
        ensures
            (*final(self), r) == decide_spec(*old(self), term, now),
            old(self).attempts <= MAX_ATTEMPTS ==> final(self).attempts <= MAX_ATTEMPTS,
    {
        if !is_size(self.last_term, term) {
            self.last_term = Some(term);
            self.term_changed = Some(now);
        }
        let wanted = match self.wanted {
            Some(w) => w,
            None => return None,
        };
        if self.disabled || is_size(self.done_for, wanted) || self.busy {
            return None;
        }
        if !settled_exec(self.wanted_since, now) || !settled_exec(self.term_changed, now) {
            return None;
        }
        let hit = term.0 == wanted.0 && term.1 == wanted.1;
        if self.attempts > 0 && (hit || self.attempts >= MAX_ATTEMPTS) {
            self.done_for = Some(wanted);
            return if hit && self.wanted_is_base {
                Some(Pass::Remember)
            } else {
                None
            };
        }
        self.attempts = self.attempts + 1;
        Some(Pass::Fit(wanted))
    }
}

// ---------------------------------------------------------------------------------------
// Addresses and remembered sizes
// ---------------------------------------------------------------------------------------
/// A window address goes into a Lua command: only `0x` and one to sixteen hex digits.
pub open spec fn address_ok(s: Seq<char>) -> bool {
    let hex = s.skip(2);
    &&& starts_with(s, seq!['0', 'x'])
    &&& 1 <= hex.len() <= 16
    &&& forall|i: int| 0 <= i < hex.len() ==> is_ascii_hexdigit(#[trigger] hex[i])
}

pub fn valid_address(s: &str) -> (r: bool)
    ensures
        r == address_ok(s@),
{
    let cs = str_chars(s);
    let mut pre: Vec<char> = Vec::new();
    pre.push('0');
    pre.push('x');
    assert(pre@ =~= seq!['0', 'x']);
    if !starts_with_exec(cs.as_slice(), pre.as_slice()) {
        return false;
    }
    let n = cs.len() - 2;
    if n < 1 || n > 16 {
        return false;
    }
    let mut i: usize = 2;
    while i < cs.len()
        invariant
            2 <= i <= cs@.len(),
            cs@ == s@,
            forall|k: int| 0 <= k < i - 2 ==> is_ascii_hexdigit(#[trigger] s@.skip(2)[k]),
        decreases cs.len() - i,
    {
        let c = cs[i];
        if !(('0' <= c && c <= '9') || ('a' <= c && c <= 'f') || ('A' <= c && c <= 'F')) {
            assert(s@.skip(2)[i - 2] == c);
            return false;
        }
        i = i + 1;
    }
    true
}

/// `width height` in pixels, each from 100 to 10000, and nothing more.
pub open spec fn size_of_text(text: Seq<char>) -> Option<(i64, i64)> {
    let w = words(text);
    if w.len() != 2 {
        None
    } else {
        match (parse_signed(w[0], 0x7fff_ffff_ffff_ffff), parse_signed(w[1], 0x7fff_ffff_ffff_ffff)) {
            (Some(a), Some(b)) => if SIZE_MIN <= a <= SIZE_MAX && SIZE_MIN <= b <= SIZE_MAX {
                Some((a as i64, b as i64))
            } else {
                None
            },
            _ => None,
        }
    }
}

/// Reads a remembered window size; rubbish and absurd numbers give `None`.
pub fn parse_size(text: &str) -> (r: Option<(i64, i64)>)
    ensures
        r == size_of_text(text@),
{
    let cs = str_chars(text);
    let w = split_words(cs.as_slice());
    if w.len() < 2 {
        return None;
    }
    assert(seqs(w@)[0] == w@[0]@ && seqs(w@)[1] == w@[1]@);
    let a = match parse_i64(w[0].as_slice()) {
        Some(a) => a,
        None => return None,
    };
    let b = match parse_i64(w[1].as_slice()) {
        Some(b) => b,
        None => return None,
    };
    if w.len() != 2 {
        return None;
    }
    if SIZE_MIN <= a && a <= SIZE_MAX && SIZE_MIN <= b && b <= SIZE_MAX {
        Some((a, b))
    } else {
        None
    }
}

// ---------------------------------------------------------------------------------------
// Monitors
// ---------------------------------------------------------------------------------------
/// `i64::saturating_add`.
pub open spec fn sat(v: int) -> i64 {
    if v > i64::MAX {
        i64::MAX
    } else if v < i64::MIN {
        i64::MIN
    } else {
        v as i64
    }
}

pub fn sat_add(a: i64, b: i64) -> (r: i64)
    ensures
        r == sat(a + b),
{
    if b > 0 && a > i64::MAX - b {
        i64::MAX
    } else if b < 0 && a < i64::MIN - b {
        i64::MIN
    } else {
        a + b
    }
}

pub fn sat_sub(a: i64, b: i64) -> (r: i64)
    ensures
        r == sat(a - b),
{
    if b < 0 && a > i64::MAX + b {
        i64::MAX
    } else if b > 0 && a < i64::MIN + b {
        i64::MIN
    } else {
        a - b
    }
}

pub fn sat_mul2(a: i64) -> (r: i64)
    ensures
        r == sat(a * 2),
{
    sat_add(a, a)
}

/// A monitor in logical pixels and the strips the bars take at its edges
/// (`reserved`: left, top, right, bottom).
#[derive(Debug, Clone, Copy, PartialEq, Eq, Structural)]
pub struct Monitor {
    pub x: i64,
    pub y: i64,
    pub width: i64,
    pub height: i64,
    pub reserved_left: i64,
    pub reserved_top: i64,
    pub reserved_right: i64,
    pub reserved_bottom: i64,
}

/// One side's free room: the length without both strips and a gap on either side.
pub open spec fn side_room(len: i64, a: i64, z: i64, gap: i64) -> i64 {
    sat(sat(sat(len - a) - z) - sat(gap * 2))
}

/// From `origin + len`, back over the bar, the gap and the window.
pub open spec fn far_edge(origin: i64, len: i64, bar: i64, gap: i64, size: i64) -> i64 {
    sat(sat(sat(sat(origin + len) - bar) - gap) - size)
}

impl Monitor {
    /// The room for the window: the monitor without the bars and the gaps on both sides.
    pub fn free_size(&self, gap: i64) -> (r: (i64, i64))
        ensures
            r == (
                side_room(self.width, self.reserved_left, self.reserved_right, gap),
                side_room(self.height, self.reserved_top, self.reserved_bottom, gap),
            ),
    {
        let g2 = sat_mul2(gap);
        let w = sat_sub(sat_sub(sat_sub(self.width, self.reserved_left), self.reserved_right), g2);
        let h = sat_sub(sat_sub(sat_sub(self.height, self.reserved_top), self.reserved_bottom), g2);
        (w, h)
    }

    /// The top right corner under the bar, like Omarchy's panels. With the bar at the bottom
    /// the bottom right corner above it; with a bar on the right the window stands left of it.
    pub fn corner(&self, w: i64, h: i64, gap: i64) -> (r: (i64, i64))
        ensures
            r == (
                far_edge(self.x, self.width, self.reserved_right, gap, w),
                if self.reserved_bottom > self.reserved_top {
                    far_edge(self.y, self.height, self.reserved_bottom, gap, h)
                } else {
                    sat(sat(self.y + self.reserved_top) + gap)
                },
            ),
    {
        let x = sat_sub(sat_sub(sat_sub(sat_add(self.x, self.width), self.reserved_right), gap), w);
        let y = if self.reserved_bottom > self.reserved_top {
            sat_sub(sat_sub(sat_sub(sat_add(self.y, self.height), self.reserved_bottom), gap), h)
        } else {
            sat_add(sat_add(self.y, self.reserved_top), gap)
        };
        (x, y)
    }
}

pub open spec fn min_i(a: i64, b: i64) -> i64 {
    if a <= b {
        a
    } else {
        b
    }
}

pub open spec fn max_i(a: i64, b: i64) -> i64 {
    if a >= b {
        a
    } else {
        b
    }
}

/// No larger than the monitor's free room, but that room counts as at least the lower bound.
pub open spec fn fitted(size: (i64, i64), free: (i64, i64)) -> (i64, i64) {
    (min_i(size.0, max_i(free.0, SIZE_MIN)), min_i(size.1, max_i(free.1, SIZE_MIN)))
}

pub fn fit_on_monitor(size: (i64, i64), free: (i64, i64)) -> (r: (i64, i64))
    ensures
        r == fitted(size, free),
{
    let fw = if free.0 >= SIZE_MIN {
        free.0
    } else {
        SIZE_MIN
    };
    let fh = if free.1 >= SIZE_MIN {
        free.1
    } else {
        SIZE_MIN
    };
    (if size.0 <= fw {
        size.0
    } else {
        fw
    }, if size.1 <= fh {
        size.1
    } else {
        fh
    })
}

// ---------------------------------------------------------------------------------------
// Window rules
// ---------------------------------------------------------------------------------------
/// The place of a `w`×`h` window in the monitor's corner as Hyprland rule expressions without
/// `window_w`: "monitor minus a number" on the right (and at the bottom when the bar is
/// there), a number at the top.
pub open spec fn corner_texts(mon: Monitor, w: i64, h: i64, gap: i64) -> (Seq<char>, Seq<char>) {
    (
        "(monitor_w-"@ + signed_decimal(sat(sat(w + mon.reserved_right) + gap) as int) + ")"@,
        if mon.reserved_bottom > mon.reserved_top {
            "(monitor_h-"@ + signed_decimal(sat(sat(h + mon.reserved_bottom) + gap) as int) + ")"@
        } else {
            "("@ + signed_decimal(sat(mon.reserved_top + gap) as int) + ")"@
        },
    )
}

/// `a`, then `b`, then `c`, as one string.
fn three(a: &str, b: &[char], c: &str) -> (s: String)
    ensures
        s@ == a@ + b@ + c@,
{
    let mut v = str_chars(a);
    let mut bv = crate::text::slice_of(b, 0, b.len());
    assert(bv@ =~= b@);
    v.append(&mut bv);
    let mut cv = str_chars(c);
    v.append(&mut cv);
    chars_to_string(v.as_slice())
}

pub fn corner_exprs(mon: &Monitor, w: i64, h: i64, gap: i64) -> (r: [String; 2])
    ensures
        (r[0]@, r[1]@) == corner_texts(*mon, w, h, gap),
{
    let x = three("(monitor_w-", i64_chars(sat_add(sat_add(w, mon.reserved_right), gap)).as_slice(), ")");
    let y = if mon.reserved_bottom > mon.reserved_top {
        three("(monitor_h-", i64_chars(sat_add(sat_add(h, mon.reserved_bottom), gap)).as_slice(), ")")
    } else {
        three("(", i64_chars(sat_add(mon.reserved_top, gap)).as_slice(), ")")
    };
    [x, y]
}

/// The Lua text of our window rule kept in Hyprland's memory: the old rule is switched off
/// and the new one set, with the size and, when known, the place.
pub open spec fn size_rule_text(w: i64, h: i64, place: Option<(Seq<char>, Seq<char>)>) -> Seq<char> {
    "if omarchy_hotspot_size_rule then omarchy_hotspot_size_rule:set_enabled(false) end; omarchy_hotspot_size_rule = hl.window_rule({ match = { class = \"^(org\\\\.omarchy\\\\.omarchy-hotspot)$\" }, size = { "@
        + signed_decimal(w as int) + ", "@ + signed_decimal(h as int) + " }"@ + match place {
        Some((x, y)) => ", move = { \""@ + x + "\", \""@ + y + "\" }"@,
        None => seq![],
    } + " })"@
}

fn push_str_chars(v: &mut Vec<char>, s: &str)
    ensures
        final(v)@ == old(v)@ + s@,
{
    let mut cs = str_chars(s);
    v.append(&mut cs);
}

pub fn size_rule_lua(w: i64, h: i64, place: Option<&[String; 2]>) -> (r: String)
    ensures
        r@ == size_rule_text(
            w,
            h,
            match place {
                Some(p) => Some((p[0]@, p[1]@)),
                None => None,
            },
        ),
{
    let mut v = str_chars(
        "if omarchy_hotspot_size_rule then omarchy_hotspot_size_rule:set_enabled(false) end; omarchy_hotspot_size_rule = hl.window_rule({ match = { class = \"^(org\\\\.omarchy\\\\.omarchy-hotspot)$\" }, size = { ",
    );
    let mut wv = i64_chars(w);
    v.append(&mut wv);
    push_str_chars(&mut v, ", ");
    let mut hv = i64_chars(h);
    v.append(&mut hv);
    push_str_chars(&mut v, " }");
    let ghost before = v@;
    match place {
        Some(p) => {
            push_str_chars(&mut v, ", move = { \"");
            push_str_chars(&mut v, p[0].as_str());
            push_str_chars(&mut v, "\", \"");
            push_str_chars(&mut v, p[1].as_str());
            push_str_chars(&mut v, "\" }");
        },
        None => {},
    }
    push_str_chars(&mut v, " })");
    chars_to_string(v.as_slice())
}

} // verus!
