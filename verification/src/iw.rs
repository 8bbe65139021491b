//! Readers of `iw` output: card capabilities, the current channel, connected stations and the
//! Wi-Fi country.

use vstd::prelude::*;
use crate::num::{parse_i32, parse_signed, parse_u32, parse_u64, parse_u8, parse_unsigned};
use crate::proto::{Mac, parse_mac};
use crate::text::{
    chars_eq, contains, contains_exec, filter_map, first_some, first_word, first_word_exec,
    lemma_filter_map_all, lemma_filter_map_step, lemma_first_some_prefix, lines, lit, seqs,
    split_char, split_char_exec, split_lines, split_once, split_once_exec, starts_with,
    starts_with_exec, str_chars, strip_prefix, strip_prefix_exec, trim, trim_exec,
    chars_to_string,
};
use crate::utf8len::{byte_len, char_width_exec, lemma_byte_len_push};

verus! {

broadcast use vstd::slice::group_slice_axioms;

/// Capabilities of a Wi-Fi card from `iw list`.
#[derive(Debug, Default, Clone, PartialEq, Eq)]
pub struct WifiCaps {
    pub ap: bool,
    pub sae: bool,
    pub channels_2ghz: Vec<u8>,
    /// 5 GHz channels where an access point may run (no DFS, no "no IR").
    pub channels_5ghz: Vec<u8>,
}

/// The trimmed lines of a text.
pub open spec fn trimmed_lines(text: Seq<char>) -> Seq<Seq<char>> {
    lines(text).map_values(|l: Seq<char>| trim(l))
}

fn trimmed_lines_exec(text: &str) -> (out: Vec<Vec<char>>)
    ensures
        seqs(out@) == trimmed_lines(text@),
{
    let cs = str_chars(text);
    let ls = split_lines(cs.as_slice());
    let mut out: Vec<Vec<char>> = Vec::new();
    let mut i: usize = 0;
    while i < ls.len()
        invariant
            i <= ls.len(),
            seqs(ls@) == lines(text@),
            out@.len() == i,
            forall|k: int| 0 <= k < i ==> (#[trigger] out@[k])@ == trimmed_lines(text@)[k],
        decreases ls.len() - i,
    {
        assert(seqs(ls@)[i as int] == ls@[i as int]@);
        out.push(trim_exec(ls[i].as_slice()));
        i = i + 1;
    }
    assert(seqs(out@) =~= trimmed_lines(text@));
    out
}

/// What follows `prefix` on the first (trimmed) line that starts with it.
pub open spec fn after_prefix(prefix: Seq<char>) -> spec_fn(Seq<char>) -> Option<Seq<char>> {
    |t: Seq<char>| strip_prefix(t, prefix)
}

fn first_after_prefix(ts: &Vec<Vec<char>>, prefix: &[char]) -> (r: Option<Vec<char>>)
    ensures
        r.is_some() == first_some(seqs(ts@), after_prefix(prefix@)).is_some(),
        r.is_some() ==> r.unwrap()@ == first_some(seqs(ts@), after_prefix(prefix@)).unwrap(),
{
    let ghost f = after_prefix(prefix@);
    let mut i: usize = 0;
    while i < ts.len()
        invariant
            i <= ts.len(),
            f == after_prefix(prefix@),
            filter_map(seqs(ts@).take(i as int), f).len() == 0,
        decreases ts.len() - i,
    {
        proof {
            lemma_filter_map_step(seqs(ts@), f, i as int);
        }
        assert(seqs(ts@)[i as int] == ts@[i as int]@);
        match strip_prefix_exec(ts[i].as_slice(), prefix) {
            Some(rest) => {
                proof {
                    lemma_first_some_prefix(seqs(ts@), f, i + 1);
                }
                return Some(rest);
            },
            None => {},
        }
        i = i + 1;
    }
    proof {
        lemma_filter_map_all(seqs(ts@), f);
    }
    None
}

// ---------------------------------------------------------------------------------------
/// `\twiphy 0` → 0: the number after `wiphy ` on the first line that has it.
pub open spec fn wiphy_index_spec(text: Seq<char>) -> Option<u32> {
    match first_some(trimmed_lines(text), after_prefix("wiphy "@)) {
        Some(rest) => match parse_unsigned(trim(rest), 0xffff_ffff) {
            Some(v) => Some(v as u32),
            None => None,
        },
        None => None,
    }
}

pub fn parse_wiphy_index(text: &str) -> (r: Option<u32>)
    ensures
        r == wiphy_index_spec(text@),
{
    let ts = trimmed_lines_exec(text);
    let p = lit("wiphy ");
    let rest = match first_after_prefix(&ts, p.as_slice()) {
        Some(r) => r,
        None => return None,
    };
    let t = trim_exec(rest.as_slice());
    parse_u32(t.as_slice())
}

/// `\tchannel 36 (5180 MHz), width: 20 MHz, center1: 5180 MHz` → 36.
pub open spec fn current_channel_spec(text: Seq<char>) -> Option<u8> {
    match first_some(trimmed_lines(text), after_prefix("channel "@)) {
        Some(rest) => match first_word(rest) {
            Some(w) => match parse_unsigned(w, 255) {
                Some(v) => Some(v as u8),
                None => None,
            },
            None => None,
        },
        None => None,
    }
}

pub fn parse_current_channel(text: &str) -> (r: Option<u8>)
    ensures
        r == current_channel_spec(text@),
{
    let ts = trimmed_lines_exec(text);
    let p = lit("channel ");
    let rest = match first_after_prefix(&ts, p.as_slice()) {
        Some(r) => r,
        None => return None,
    };
    let w = match first_word_exec(rest.as_slice()) {
        Some(w) => w,
        None => return None,
    };
    parse_u8(w.as_slice())
}

// ---------------------------------------------------------------------------------------
/// The country in `iw reg get` (`country UA: DFS-ETSI` → `UA`); `00` means "not set".
pub open spec fn reg_country_spec(text: Seq<char>) -> Option<Seq<char>> {
    match first_some(trimmed_lines(text), after_prefix("country "@)) {
        Some(rest) => {
            let cc = trim(split_char(rest, ':')[0]);
            if byte_len(cc) == 2 && cc != "00"@ {
                Some(cc)
            } else {
                None
            }
        },
        None => None,
    }
}

/// Byte length of `cs` in UTF-8, or `cap + 1` when it is longer than `cap`.
fn byte_len_capped(cs: &[char], cap: usize) -> (n: usize)
    requires
        cap < usize::MAX - 4,
    ensures
        n <= cap ==> n == byte_len(cs@),
        n > cap <==> byte_len(cs@) > cap,
{
    let mut n: usize = 0;
    let mut k: usize = 0;
    while k < cs.len()
        invariant
            cap < usize::MAX - 4,
            k <= cs.len(),
            n == byte_len(cs@.take(k as int)),
            n <= cap,
        decreases cs.len() - k,
    {
        proof {
            assert(cs@.take(k + 1) =~= cs@.take(k as int).push(cs@[k as int]));
            lemma_byte_len_push(cs@.take(k as int), cs@[k as int]);
        }
        n = n + char_width_exec(cs[k]);
        k = k + 1;
        if n > cap {
            proof {
                crate::utf8len::lemma_byte_len_prefix(cs@, k as int, cs@.len() as int);
                assert(cs@.take(cs@.len() as int) =~= cs@);
            }
            return cap + 1;
        }
    }
    assert(cs@.take(cs@.len() as int) =~= cs@);
    n
}

pub fn parse_reg_country(text: &str) -> (r: Option<String>)
    ensures
        r.is_some() == reg_country_spec(text@).is_some(),
        r.is_some() ==> r.unwrap()@ == reg_country_spec(text@).unwrap(),
{
    let ts = trimmed_lines_exec(text);
    let p = lit("country ");
    let rest = match first_after_prefix(&ts, p.as_slice()) {
        Some(r) => r,
        None => return None,
    };
    let parts = split_char_exec(rest.as_slice(), ':');
    proof {
        crate::text::lemma_split_char_nonempty(rest@, ':');
    }
    assert(parts@[0]@ == seqs(parts@)[0]);
    let cc = trim_exec(parts[0].as_slice());
    let zz = lit("00");
    if byte_len_capped(cc.as_slice(), 8) == 2 && !chars_eq(cc.as_slice(), zz.as_slice()) {
        Some(chars_to_string(cc.as_slice()))
    } else {
        None
    }
}

// ---------------------------------------------------------------------------------------
// `iw list`
// ---------------------------------------------------------------------------------------
/// `* 5180.0 MHz [36] (22.0 dBm)` → (5180, 36); channels marked disabled, no IR or radar
/// are skipped.
pub open spec fn freq_line_spec(t: Seq<char>) -> Option<(u32, u8)> {
    match strip_prefix(t, "* "@) {
        Some(rest) => match split_once(rest, " MHz ["@) {
            Some((freq_s, rest2)) => match split_once(rest2, "]"@) {
                Some((ch_s, flags)) => if contains(flags, "disabled"@) || contains(flags, "no IR"@)
                    || contains(flags, "radar"@) {
                    None
                } else {
                    match (parse_unsigned(split_char(freq_s, '.')[0], 0xffff_ffff), parse_unsigned(
                        ch_s,
                        255,
                    )) {
                        (Some(f), Some(c)) => Some((f as u32, c as u8)),
                        _ => None,
                    }
                },
                None => None,
            },
            None => None,
        },
        None => None,
    }
}

#[verifier::spinoff_prover]
#[verifier::rlimit(40)]
fn parse_freq_line(t: &[char]) -> (r: Option<(u32, u8)>)
    ensures
        r == freq_line_spec(t@),
{
    let p = lit("* ");
    let rest = match strip_prefix_exec(t, p.as_slice()) {
        Some(r) => r,
        None => return None,
    };
    let mhz = lit(" MHz [");
    let (freq_s, rest2) = match split_once_exec(rest.as_slice(), mhz.as_slice()) {
        Some(x) => x,
        None => return None,
    };
    let close = lit("]");
    let (ch_s, flags) = match split_once_exec(rest2.as_slice(), close.as_slice()) {
        Some(x) => x,
        None => return None,
    };
    if contains_exec(flags.as_slice(), lit("disabled").as_slice()) || contains_exec(
        flags.as_slice(),
        lit("no IR").as_slice(),
    ) || contains_exec(flags.as_slice(), lit("radar").as_slice()) {
        return None;
    }
    let pieces = split_char_exec(freq_s.as_slice(), '.');
    proof {
        crate::text::lemma_split_char_nonempty(freq_s@, '.');
    }
    assert(pieces@[0]@ == seqs(pieces@)[0]);
    let freq = match parse_u32(pieces[0].as_slice()) {
        Some(f) => f,
        None => return None,
    };
    let ch = match parse_u8(ch_s.as_slice()) {
        Some(c) => c,
        None => return None,
    };
    Some((freq, ch))
}

/// What reading `iw list` line by line has found so far.
pub ghost struct CapsScan {
    pub ap: bool,
    pub sae: bool,
    pub ch2: Seq<u8>,
    pub ch5: Seq<u8>,
    pub in_modes: bool,
}

/// Reading one trimmed line of `iw list`.
pub open spec fn caps_step(s: CapsScan, t: Seq<char>) -> CapsScan {
    if starts_with(t, "Supported interface modes:"@) {
        CapsScan { in_modes: true, ..s }
    } else if s.in_modes && strip_prefix(t, "* "@).is_some() {
        CapsScan { ap: s.ap || strip_prefix(t, "* "@).unwrap() == "AP"@, ..s }
    } else {
        let sae = s.sae || contains(t, "Device supports SAE"@);
        match freq_line_spec(t) {
            Some((f, c)) => if 2400 <= f <= 2500 {
                CapsScan { sae, ch2: s.ch2.push(c), in_modes: false, ..s }
            } else if 5000 <= f <= 5900 {
                CapsScan { sae, ch5: s.ch5.push(c), in_modes: false, ..s }
            } else {
                CapsScan { sae, in_modes: false, ..s }
            },
            None => CapsScan { sae, in_modes: false, ..s },
        }
    }
}

pub open spec fn caps_scan(ts: Seq<Seq<char>>) -> CapsScan
    decreases ts.len(),
{
    if ts.len() == 0 {
        CapsScan { ap: false, sae: false, ch2: seq![], ch5: seq![], in_modes: false }
    } else {
        caps_step(caps_scan(ts.drop_last()), ts.last())
    }
}

/// Strictly increasing: sorted without repeats.
pub open spec fn strictly_sorted(s: Seq<u8>) -> bool {
    forall|i: int, j: int| 0 <= i < j < s.len() ==> s[i] < s[j]
}

/// `v` is the values of `s`, sorted, each once (`sort_unstable` + `dedup`).
pub open spec fn sorted_unique_of(v: Seq<u8>, s: Seq<u8>) -> bool {
    &&& strictly_sorted(v)
    &&& forall|x: u8| v.contains(x) <==> s.contains(x)
}

/// What `iw list` says about the card: AP mode, SAE (WPA3) and the usable channels of each
/// band, sorted and without repeats.
pub open spec fn caps_of(text: Seq<char>, c: WifiCaps) -> bool {
    let s = caps_scan(trimmed_lines(text));
    &&& c.ap == s.ap
    &&& c.sae == s.sae
    &&& sorted_unique_of(c.channels_2ghz@, s.ch2)
    &&& sorted_unique_of(c.channels_5ghz@, s.ch5)
}

proof fn lemma_push_contains(s: Seq<u8>, c: u8)
    ensures
        forall|y: u8| s.push(c).contains(y) <==> (s.contains(y) || y == c),
{
    assert forall|y: u8| s.push(c).contains(y) <==> (s.contains(y) || y == c) by {
        if s.push(c).contains(y) {
            let k = choose|k: int| 0 <= k < s.push(c).len() && s.push(c)[k] == y;
            if k < s.len() {
                assert(s[k] == y);
            }
        }
        if s.contains(y) {
            let k = choose|k: int| 0 <= k < s.len() && s[k] == y;
            assert(s.push(c)[k] == y);
        }
        if y == c {
            assert(s.push(c)[s.len() as int] == c);
        }
    }
}

/// Putting `x` at the place where it belongs keeps a strictly sorted list strictly sorted.
proof fn lemma_insert_sorted(before: Seq<u8>, i: int, x: u8)
    requires
        strictly_sorted(before),
        0 <= i <= before.len(),
        forall|k: int| 0 <= k < i ==> before[k] < x,
        i < before.len() ==> before[i] > x,
    ensures
        strictly_sorted(before.take(i).push(x) + before.skip(i)),
        forall|y: u8| (before.take(i).push(x) + before.skip(i)).contains(y) <==> (before.contains(y) || y == x),
{
    let after = before.take(i).push(x) + before.skip(i);
    assert(after.len() == before.len() + 1);
    assert forall|k: int| 0 <= k < after.len() implies #[trigger] after[k] == (if k < i {
        before[k]
    } else if k == i {
        x
    } else {
        before[k - 1]
    }) by {}
    assert forall|a: int, b: int| 0 <= a < b < after.len() implies after[a] < after[b] by {
        if b < i {
        } else if a < i && b == i {
        } else if a < i {
        } else if a == i {
            if b - 1 > i {
                assert(before[i] < before[b - 1]);
            }
        } else {
        }
    }
    assert forall|y: u8| after.contains(y) <==> (before.contains(y) || y == x) by {
        if after.contains(y) {
            let k = choose|k: int| 0 <= k < after.len() && after[k] == y;
            if k < i {
                assert(before[k] == y);
            } else if k > i {
                assert(before[k - 1] == y);
            }
        }
        if before.contains(y) {
            let k = choose|k: int| 0 <= k < before.len() && before[k] == y;
            if k < i {
                assert(after[k] == y);
            } else {
                assert(after[k + 1] == y);
            }
        }
        if y == x {
            assert(after[i] == x);
        }
    }
}

/// Adds `x` to a sorted list without repeats.
fn insert_sorted(v: &mut Vec<u8>, x: u8, Ghost(s): Ghost<Seq<u8>>)
    requires
        sorted_unique_of(old(v)@, s),
    ensures
        sorted_unique_of(final(v)@, s.push(x)),
{
    proof {
        lemma_push_contains(s, x);
    }
    let mut i: usize = 0;
    while i < v.len() && v[i] < x
        invariant
            i <= v.len(),
            v@ == old(v)@,
            strictly_sorted(v@),
            forall|k: int| 0 <= k < i ==> v@[k] < x,
        decreases v.len() - i,
    {
        i = i + 1;
    }
    if i < v.len() && v[i] == x {
        assert(v@[i as int] == x);
        return;
    }
    let ghost before = v@;
    v.insert(i, x);
    assert(v@ =~= before.take(i as int).push(x) + before.skip(i as int));
    proof {
        lemma_insert_sorted(before, i as int, x);
        let after = before.take(i as int).push(x) + before.skip(i as int);
        assert forall|y: u8| v@.contains(y) <==> s.push(x).contains(y) by {
            assert(after.contains(y) <==> (before.contains(y) || y == x));
            assert(before.contains(y) <==> s.contains(y));
            assert(s.push(x).contains(y) <==> (s.contains(y) || y == x));
        }
    }
}

/// The card's capabilities and the reading state agree with what the scan has found.
#[verifier::opaque]
pub open spec fn caps_match(caps: WifiCaps, in_modes: bool, s: CapsScan) -> bool {
    &&& caps.ap == s.ap
    &&& caps.sae == s.sae
    &&& in_modes == s.in_modes
    &&& sorted_unique_of(caps.channels_2ghz@, s.ch2)
    &&& sorted_unique_of(caps.channels_5ghz@, s.ch5)
}

/// Reads one trimmed line of `iw list` (see `caps_step`).
fn caps_line(caps: &mut WifiCaps, in_modes: &mut bool, t: &[char], Ghost(s): Ghost<CapsScan>)
    requires
        caps_match(*old(caps), *old(in_modes), s),
    ensures
        caps_match(*final(caps), *final(in_modes), caps_step(s, t@)),
{
    reveal(caps_match);
    if starts_with_exec(t, lit("Supported interface modes:").as_slice()) {
        *in_modes = true;
        return;
    }
    let star = lit("* ");
    let mode = if *in_modes {
        strip_prefix_exec(t, star.as_slice())
    } else {
        None
    };
    match mode {
        Some(m) => {
            if chars_eq(m.as_slice(), lit("AP").as_slice()) {
                caps.ap = true;
            }
        },
        None => {
            if contains_exec(t, lit("Device supports SAE").as_slice()) {
                caps.sae = true;
            }
            *in_modes = false;
            match parse_freq_line(t) {
                Some((f, c)) => {
                    if 2400 <= f && f <= 2500 {
                        insert_sorted(&mut caps.channels_2ghz, c, Ghost(s.ch2));
                    } else if 5000 <= f && f <= 5900 {
                        insert_sorted(&mut caps.channels_5ghz, c, Ghost(s.ch5));
                    }
                },
                None => {},
            }
        },
    }
}

pub fn parse_iw_list(text: &str) -> (caps: WifiCaps)
    ensures
        caps_of(text@, caps),
{
    let ts = trimmed_lines_exec(text);
    let ghost tv = seqs(ts@);
    let mut caps = WifiCaps { ap: false, sae: false, channels_2ghz: Vec::new(), channels_5ghz: Vec::new() };
    let mut in_modes = false;
    let mut i: usize = 0;
    proof {
        reveal(caps_match);
    }
    while i < ts.len()
        invariant
            i <= ts.len(),
            tv == seqs(ts@),
            tv == trimmed_lines(text@),
            caps_match(caps, in_modes, caps_scan(tv.take(i as int))),
        decreases ts.len() - i,
    {
        assert(tv[i as int] == ts@[i as int]@);
        assert(tv.take(i + 1).drop_last() =~= tv.take(i as int));
        caps_line(&mut caps, &mut in_modes, ts[i].as_slice(), Ghost(caps_scan(tv.take(i as int))));
        i = i + 1;
    }
    assert(tv.take(ts.len() as int) =~= tv);
    proof {
        reveal(caps_match);
    }
    caps
}

// ---------------------------------------------------------------------------------------
// `iw dev <ap> station dump`
// ---------------------------------------------------------------------------------------
/// One connected device. Bytes are counted on the access point's side: `rx_bytes` came from
/// the device, `tx_bytes` went to it (what the guest downloaded).
#[derive(Debug, Clone, Copy, PartialEq, Eq, Structural)]
pub struct Station {
    pub mac: Mac,
    pub signal_dbm: Option<i32>,
    pub rx_bytes: u64,
    pub tx_bytes: u64,
    pub connected_secs: u64,
    pub authorized: bool,
}

/// A station just seen: without an `authorized` line (old `iw`) it counts as authorized.
pub open spec fn new_station(bits: u64) -> Station {
    Station {
        mac: Mac { bits },
        signal_dbm: None,
        rx_bytes: 0,
        tx_bytes: 0,
        connected_secs: 0,
        authorized: true,
    }
}

pub open spec fn unsigned_or_zero(w: Seq<char>) -> u64 {
    match parse_unsigned(w, 0xffff_ffff_ffff_ffff) {
        Some(v) => v as u64,
        None => 0,
    }
}

/// The whole-number part of a signal value (`-45.5` → -45).
pub open spec fn signal_of(w: Seq<char>) -> Option<i32> {
    match parse_signed(split_char(w, '.')[0], 0x7fff_ffff) {
        Some(v) => Some(v as i32),
        None => None,
    }
}

/// A `key: value` line applied to the current station; unknown keys change nothing.
pub open spec fn apply_field(st: Station, key: Seq<char>, first: Seq<char>) -> Station {
    if key == "rx bytes"@ {
        Station { rx_bytes: unsigned_or_zero(first), ..st }
    } else if key == "tx bytes"@ {
        Station { tx_bytes: unsigned_or_zero(first), ..st }
    } else if key == "signal"@ {
        Station { signal_dbm: signal_of(first), ..st }
    } else if key == "connected time"@ {
        Station { connected_secs: unsigned_or_zero(first), ..st }
    } else if key == "authorized"@ {
        Station { authorized: first == "yes"@, ..st }
    } else {
        st
    }
}

pub open spec fn first_word_or_empty(s: Seq<char>) -> Seq<char> {
    match first_word(s) {
        Some(w) => w,
        None => seq![],
    }
}

/// Reading one trimmed line: `Station <mac> …` starts a station (a bad MAC is skipped),
/// a `key: value` line fills in the last station; other lines change nothing.
pub open spec fn station_step(out: Seq<Station>, t: Seq<char>) -> Seq<Station> {
    match strip_prefix(t, "Station "@) {
        Some(rest) => match parse_mac(first_word_or_empty(rest)) {
            Some(bits) => out.push(new_station(bits)),
            None => out,
        },
        None => if out.len() == 0 {
            out
        } else {
            match split_once(t, ":"@) {
                Some((key, value)) => out.update(
                    out.len() - 1,
                    apply_field(out.last(), trim(key), first_word_or_empty(value)),
                ),
                None => out,
            }
        },
    }
}

pub open spec fn stations_scan(ts: Seq<Seq<char>>) -> Seq<Station>
    decreases ts.len(),
{
    if ts.len() == 0 {
        seq![]
    } else {
        station_step(stations_scan(ts.drop_last()), ts.last())
    }
}

/// The stations of `iw dev <ap> station dump`; lines it does not understand are skipped.
pub open spec fn station_dump_spec(text: Seq<char>) -> Seq<Station> {
    stations_scan(trimmed_lines(text))
}

fn first_word_or_empty_exec(s: &[char]) -> (w: Vec<char>)
    ensures
        w@ == first_word_or_empty(s@),
{
    match first_word_exec(s) {
        Some(w) => w,
        None => Vec::new(),
    }
}

fn apply_field_exec(st: Station, key: &[char], first: &[char]) -> (r: Station)
    ensures
        r == apply_field(st, key@, first@),
{
    if chars_eq(key, lit("rx bytes").as_slice()) {
        Station { rx_bytes: match parse_u64(first) { Some(v) => v, None => 0 }, ..st }
    } else if chars_eq(key, lit("tx bytes").as_slice()) {
        Station { tx_bytes: match parse_u64(first) { Some(v) => v, None => 0 }, ..st }
    } else if chars_eq(key, lit("signal").as_slice()) {
        let pieces = split_char_exec(first, '.');
        proof {
            crate::text::lemma_split_char_nonempty(first@, '.');
        }
        assert(pieces@[0]@ == seqs(pieces@)[0]);
        Station { signal_dbm: parse_i32(pieces[0].as_slice()), ..st }
    } else if chars_eq(key, lit("connected time").as_slice()) {
        Station { connected_secs: match parse_u64(first) { Some(v) => v, None => 0 }, ..st }
    } else if chars_eq(key, lit("authorized").as_slice()) {
        Station { authorized: chars_eq(first, lit("yes").as_slice()), ..st }
    } else {
        st
    }
}

/// Reads one trimmed line of the dump (see `station_step`).
#[verifier::spinoff_prover]
#[verifier::rlimit(40)]
fn station_line(out: &mut Vec<Station>, t: &[char])
    ensures
        final(out)@ == station_step(old(out)@, t@),
{
    match strip_prefix_exec(t, lit("Station ").as_slice()) {
        Some(rest) => {
            let w = first_word_or_empty_exec(rest.as_slice());
            match Mac::parse_chars(w.as_slice()) {
                Ok(mac) => {
                    out.push(
                        Station {
                            mac,
                            signal_dbm: None,
                            rx_bytes: 0,
                            tx_bytes: 0,
                            connected_secs: 0,
                            authorized: true,
                        },
                    );
                },
                Err(_) => {},
            }
        },
        None => {
            if out.len() > 0 {
                match split_once_exec(t, lit(":").as_slice()) {
                    Some((key, value)) => {
                        let k = trim_exec(key.as_slice());
                        let f = first_word_or_empty_exec(value.as_slice());
                        let ghost before = out@;
                        let last = out.pop().unwrap();
                        let updated = apply_field_exec(last, k.as_slice(), f.as_slice());
                        out.push(updated);
                        assert(out@ =~= before.update(before.len() - 1, updated));
                    },
                    None => {},
                }
            }
        },
    }
}

pub fn parse_station_dump(text: &str) -> (out: Vec<Station>)
    ensures
        out@ == station_dump_spec(text@),
{
    let ts = trimmed_lines_exec(text);
    let ghost tv = seqs(ts@);
    let mut out: Vec<Station> = Vec::new();
    let mut i: usize = 0;
    while i < ts.len()
        invariant
            i <= ts.len(),
            tv == seqs(ts@),
            tv == trimmed_lines(text@),
            out@ == stations_scan(tv.take(i as int)),
        decreases ts.len() - i,
    {
        assert(tv[i as int] == ts@[i as int]@);
        assert(tv.take(i + 1).drop_last() =~= tv.take(i as int));
        station_line(&mut out, ts[i].as_slice());
        i = i + 1;
    }
    assert(tv.take(ts.len() as int) =~= tv);
    out
}


/// Digits and dots, as in `5260.0`.
pub open spec fn decimal_text(s: Seq<char>) -> bool {
    forall|i: int| 0 <= i < s.len() ==> ('0' <= #[trigger] s[i] <= '9' || s[i] == '.')
}

/// A frequency line of `iw list`: `* <freq> MHz [<channel>]<flags>`.
pub open spec fn freq_line(freq: Seq<char>, ch: Seq<char>, flags: Seq<char>) -> Seq<char> {
    "* "@ + freq + " MHz ["@ + ch + "]"@ + flags
}

/// How a frequency line splits: after `* `, the frequency up to ` MHz [`, the channel up to
/// `]`, and the flags.
#[verifier::spinoff_prover]
#[verifier::rlimit(30)]
proof fn lemma_freq_line_parts(freq: Seq<char>, ch: Seq<char>, flags: Seq<char>)
    requires
        decimal_text(freq),
        decimal_text(ch),
    ensures
        strip_prefix(freq_line(freq, ch, flags), "* "@) == Some(freq + " MHz ["@ + ch + "]"@ + flags),
        split_once(freq + " MHz ["@ + ch + "]"@ + flags, " MHz ["@) == Some((freq, ch + "]"@ + flags)),
        split_once(ch + "]"@ + flags, "]"@) == Some((ch, flags)),
{
    reveal_strlit("* ");
    reveal_strlit(" MHz [");
    reveal_strlit("]");
    let t = freq_line(freq, ch, flags);
    let rest = freq + " MHz ["@ + ch + "]"@ + flags;
    assert(t.take(2) =~= "* "@);
    assert(t.skip(2) =~= rest);
    let p1 = " MHz ["@;
    assert(rest.subrange(freq.len() as int, (freq.len() + p1.len()) as int) =~= p1);
    assert forall|k: int| 0 <= k < freq.len() implies !crate::text::occurs_at(rest, p1, k) by {
        if crate::text::occurs_at(rest, p1, k) {
            assert(rest.subrange(k, k + p1.len())[0] == rest[k]);
            assert(rest[k] == freq[k]);
        }
    }
    crate::text::lemma_split_once_at(rest, p1, freq.len() as int);
    let rest2 = ch + "]"@ + flags;
    assert(rest.take(freq.len() as int) =~= freq);
    assert(rest.skip((freq.len() + p1.len()) as int) =~= rest2);
    let p2 = "]"@;
    assert(rest2.subrange(ch.len() as int, (ch.len() + 1) as int) =~= p2);
    assert forall|k: int| 0 <= k < ch.len() implies !crate::text::occurs_at(rest2, p2, k) by {
        if crate::text::occurs_at(rest2, p2, k) {
            assert(rest2.subrange(k, k + 1)[0] == rest2[k]);
            assert(rest2[k] == ch[k]);
        }
    }
    crate::text::lemma_split_once_at(rest2, p2, ch.len() as int);
    assert(rest2.take(ch.len() as int) =~= ch);
    assert(rest2.skip((ch.len() + 1) as int) =~= flags);
}

/// A frequency line whose flags say the channel is unusable gives no channel.
#[verifier::spinoff_prover]
#[verifier::rlimit(30)]
proof fn lemma_unusable_line(freq: Seq<char>, ch: Seq<char>, flags: Seq<char>)
    requires
        decimal_text(freq),
        decimal_text(ch),
        contains(flags, "radar"@) || contains(flags, "disabled"@) || contains(flags, "no IR"@),
    ensures
        freq_line_spec(freq_line(freq, ch, flags)) is None,
{
    lemma_freq_line_parts(freq, ch, flags);
    let rest = freq + " MHz ["@ + ch + "]"@ + flags;
    let rest2 = ch + "]"@ + flags;
    assert(strip_prefix(freq_line(freq, ch, flags), "* "@) == Some(rest));
    assert(split_once(rest, " MHz ["@) == Some((freq, rest2)));
    assert(split_once(rest2, "]"@) == Some((ch, flags)));
}

/// A channel with radar detection (DFS), a disabled one, or one where the card may not start
/// a network ("no IR") is never used: its frequency line gives no channel, so reading
/// `iw list` puts it in neither band's list.
#[verifier::spinoff_prover]
pub proof fn lemma_radar_channel_unused(freq: Seq<char>, ch: Seq<char>, flags: Seq<char>, s: CapsScan)
    requires
        decimal_text(freq),
        decimal_text(ch),
        contains(flags, "radar"@) || contains(flags, "disabled"@) || contains(flags, "no IR"@),
    ensures
        freq_line_spec(freq_line(freq, ch, flags)) is None,
        caps_step(s, freq_line(freq, ch, flags)).ch2 == s.ch2,
        caps_step(s, freq_line(freq, ch, flags)).ch5 == s.ch5,
{
    lemma_unusable_line(freq, ch, flags);
}

} // verus!
