//! IPv6 addresses in text (for DNS servers), read as `Ipv6Addr::from_str` reads them: up to
//! eight groups of one to four hex digits, at most one `::` standing for one or more zero
//! groups, and an IPv4 address allowed in place of the last two groups.
//!
//! The reader goes left to right over positions and never backtracks further than one
//! group, so the spec functions below follow the same positions.

use vstd::prelude::*;
use crate::num::{digit_val, digits_value};
use crate::proto::hex_val;
use crate::text::{is_ascii_digit, is_ascii_hexdigit};

verus! {

broadcast use vstd::slice::group_slice_axioms;

// ---------------------------------------------------------------------------------------
// Runs of digits
// ---------------------------------------------------------------------------------------
/// How many hex digits stand in a row from `pos`.
pub open spec fn hex_run(s: Seq<char>, pos: int) -> nat
    decreases s.len() - pos,
{
    if 0 <= pos < s.len() && is_ascii_hexdigit(s[pos]) {
        1 + hex_run(s, pos + 1)
    } else {
        0
    }
}

/// How many decimal digits stand in a row from `pos`.
pub open spec fn dec_run(s: Seq<char>, pos: int) -> nat
    decreases s.len() - pos,
{
    if 0 <= pos < s.len() && is_ascii_digit(s[pos]) {
        1 + dec_run(s, pos + 1)
    } else {
        0
    }
}

/// The value of a string of hex digits.
pub open spec fn hex_value(d: Seq<char>) -> nat
    decreases d.len(),
{
    if d.len() == 0 {
        0
    } else {
        hex_value(d.drop_last()) * 16 + hex_val(d.last())
    }
}

/// A group: one to four hex digits; five or more make the text invalid.
pub open spec fn group_at(s: Seq<char>, pos: int) -> Option<(nat, int)> {
    let n = hex_run(s, pos);
    if 1 <= n <= 4 {
        Some((hex_value(s.subrange(pos, pos + n)), pos + n))
    } else {
        None
    }
}

/// An IPv4 octet: one to three digits, no leading zero, at most 255.
pub open spec fn octet_at(s: Seq<char>, pos: int) -> Option<(nat, int)> {
    let n = dec_run(s, pos);
    let v = digits_value(s.subrange(pos, pos + n));
    if 1 <= n <= 3 && v <= 255 && !(s[pos] == '0' && n > 1) {
        Some((v, pos + n))
    } else {
        None
    }
}

pub open spec fn dot_at(s: Seq<char>, pos: int) -> bool {
    0 <= pos < s.len() && s[pos] == '.'
}

/// A dotted-quad IPv4 address from `pos`, as a 32-bit number.
pub open spec fn ipv4_at(s: Seq<char>, pos: int) -> Option<(nat, int)> {
    match octet_at(s, pos) {
        Some((a, p1)) => if dot_at(s, p1) {
            match octet_at(s, p1 + 1) {
                Some((b, p2)) => if dot_at(s, p2) {
                    match octet_at(s, p2 + 1) {
                        Some((c, p3)) => if dot_at(s, p3) {
                            match octet_at(s, p3 + 1) {
                                Some((d, p4)) => Some(
                                    (a * 0x100_0000 + b * 0x1_0000 + c * 0x100 + d, p4),
                                ),
                                None => None,
                            }
                        } else {
                            None
                        },
                        None => None,
                    }
                } else {
                    None
                },
                None => None,
            }
        } else {
            None
        },
        None => None,
    }
}

/// Groups read from `pos` for slots `i..limit`: each after a `:` but the first; an IPv4
/// address fills two slots and ends the run. The result: the groups, where reading
/// stopped, and whether it ended with an IPv4 address.
pub open spec fn groups_from(s: Seq<char>, pos: int, i: nat, limit: nat) -> (Seq<nat>, int, bool)
    decreases limit - i,
{
    if i >= limit {
        (seq![], pos, false)
    } else {
        let start = if i > 0 {
            if 0 <= pos < s.len() && s[pos] == ':' {
                Some(pos + 1)
            } else {
                None
            }
        } else {
            Some(pos)
        };
        match start {
            None => (seq![], pos, false),
            Some(st) => if i + 1 < limit && ipv4_at(s, st) is Some {
                let (v, np) = ipv4_at(s, st).unwrap();
                (seq![v / 0x1_0000, v % 0x1_0000], np, true)
            } else {
                match group_at(s, st) {
                    Some((g, np)) => {
                        let (rest, p2, b) = groups_from(s, np, i + 1, limit);
                        (seq![g] + rest, p2, b)
                    },
                    None => (seq![], pos, false),
                }
            },
        }
    }
}

/// Eight groups as one 128-bit number, the first group highest.
pub open spec fn groups_value(g: Seq<nat>) -> nat
    decreases g.len(),
{
    if g.len() == 0 {
        0
    } else {
        groups_value(g.drop_last()) * 0x1_0000 + g.last()
    }
}

/// `Ipv6Addr::from_str`: the whole text must be read.
pub open spec fn parse_ipv6(s: Seq<char>) -> Option<u128> {
    let (head, hp, h4) = groups_from(s, 0, 0, 8);
    if head.len() == 8 {
        if hp == s.len() {
            Some(groups_value(head) as u128)
        } else {
            None
        }
    } else if h4 {
        None
    } else if 0 <= hp && hp + 1 < s.len() && s[hp] == ':' && s[hp + 1] == ':' {
        let limit = (8 - (head.len() + 1)) as nat;
        let (tail, tp, t4) = groups_from(s, hp + 2, 0, limit);
        if tp == s.len() {
            Some(
                groups_value(
                    head + Seq::new((8 - head.len() - tail.len()) as nat, |k: int| 0nat) + tail,
                ) as u128,
            )
        } else {
            None
        }
    } else {
        None
    }
}

// ---------------------------------------------------------------------------------------
// Facts used by the reader
// ---------------------------------------------------------------------------------------
proof fn lemma_hex_run_stop(s: Seq<char>, pos: int, n: int)
    requires
        0 <= pos,
        0 <= n,
        pos + n <= s.len(),
        forall|k: int| pos <= k < pos + n ==> is_ascii_hexdigit(#[trigger] s[k]),
        pos + n >= s.len() || !is_ascii_hexdigit(s[pos + n]),
    ensures
        hex_run(s, pos) == n,
    decreases n,
{
    if n > 0 {
        assert(is_ascii_hexdigit(s[pos]));
        lemma_hex_run_stop(s, pos + 1, n - 1);
    }
}

proof fn lemma_hex_run_long(s: Seq<char>, pos: int, n: int)
    requires
        0 <= pos,
        0 <= n,
        pos + n <= s.len(),
        forall|k: int| pos <= k < pos + n ==> is_ascii_hexdigit(#[trigger] s[k]),
    ensures
        hex_run(s, pos) >= n,
    decreases n,
{
    if n > 0 {
        assert(is_ascii_hexdigit(s[pos]));
        lemma_hex_run_long(s, pos + 1, n - 1);
    }
}

proof fn lemma_dec_run_stop(s: Seq<char>, pos: int, n: int)
    requires
        0 <= pos,
        0 <= n,
        pos + n <= s.len(),
        forall|k: int| pos <= k < pos + n ==> is_ascii_digit(#[trigger] s[k]),
        pos + n >= s.len() || !is_ascii_digit(s[pos + n]),
    ensures
        dec_run(s, pos) == n,
    decreases n,
{
    if n > 0 {
        assert(is_ascii_digit(s[pos]));
        lemma_dec_run_stop(s, pos + 1, n - 1);
    }
}

proof fn lemma_dec_run_long(s: Seq<char>, pos: int, n: int)
    requires
        0 <= pos,
        0 <= n,
        pos + n <= s.len(),
        forall|k: int| pos <= k < pos + n ==> is_ascii_digit(#[trigger] s[k]),
    ensures
        dec_run(s, pos) >= n,
    decreases n,
{
    if n > 0 {
        assert(is_ascii_digit(s[pos]));
        lemma_dec_run_long(s, pos + 1, n - 1);
    }
}

// ---------------------------------------------------------------------------------------
// The reader
// ---------------------------------------------------------------------------------------
fn hex_digit(c: char) -> (r: Option<u32>)
    ensures
        r is Some == is_ascii_hexdigit(c),
        r matches Some(v) ==> v == hex_val(c) && v < 16,
{
    if '0' <= c && c <= '9' {
        Some((c as u32) - ('0' as u32))
    } else if 'a' <= c && c <= 'f' {
        Some((c as u32) - ('a' as u32) + 10)
    } else if 'A' <= c && c <= 'F' {
        Some((c as u32) - ('A' as u32) + 10)
    } else {
        None
    }
}

fn read_group(s: &[char], pos: usize) -> (r: Option<(u32, usize)>)
    requires
        pos <= s@.len(),
    ensures
        r matches Some((g, np)) ==> group_at(s@, pos as int) == Some((g as nat, np as int)) && np
            <= s@.len() && g < 0x1_0000,
        r is None ==> group_at(s@, pos as int) is None,
{
    let mut n: usize = 0;
    let mut v: u32 = 0;
    while n < 5 && n < s.len() - pos
        invariant
            pos + n <= s@.len(),
            n <= 5,
            forall|k: int| pos <= k < pos + n ==> is_ascii_hexdigit(#[trigger] s@[k]),
            v == hex_value(s@.subrange(pos as int, pos + n)),
            v < pow16(n as nat),
        ensures
            n == 5 || n == s@.len() - pos || !is_ascii_hexdigit(s@[pos + n]),
        decreases 5 - n,
    {
        let d = match hex_digit(s[pos + n]) {
            Some(d) => d,
            None => break,
        };
        proof {
            assert(s@.subrange(pos as int, pos + n + 1).drop_last() =~= s@.subrange(
                pos as int,
                pos + n,
            ));
            assert(v * 16 + d < pow16(n as nat) * 16) by (nonlinear_arith)
                requires
                    v < pow16(n as nat),
                    d < 16,
            ;
        }
        v = v * 16 + d;
        n = n + 1;
    }
    if n == 5 {
        proof {
            lemma_hex_run_long(s@, pos as int, 5);
        }
        return None;
    }
    proof {
        lemma_hex_run_stop(s@, pos as int, n as int);
    }
    if n == 0 {
        return None;
    }
    assert(s@.len() == s.len());
    Some((v, pos + n))
}

/// 16 to the power `n`, for `n` up to 5.
pub open spec fn pow16(n: nat) -> nat {
    if n == 0 {
        1
    } else if n == 1 {
        16
    } else if n == 2 {
        256
    } else if n == 3 {
        4096
    } else if n == 4 {
        65536
    } else {
        1048576
    }
}

fn read_octet(s: &[char], pos: usize) -> (r: Option<(u32, usize)>)
    requires
        pos <= s@.len(),
    ensures
        r matches Some((o, np)) ==> octet_at(s@, pos as int) == Some((o as nat, np as int)) && np
            <= s@.len() && o < 256,
        r is None ==> octet_at(s@, pos as int) is None,
{
    let mut n: usize = 0;
    let mut v: u32 = 0;
    while n < 4 && n < s.len() - pos
        invariant
            pos + n <= s@.len(),
            n <= 4,
            forall|k: int| pos <= k < pos + n ==> is_ascii_digit(#[trigger] s@[k]),
            v == digits_value(s@.subrange(pos as int, pos + n)),
            v < pow16(n as nat),
        ensures
            n == 4 || n == s@.len() - pos || !is_ascii_digit(s@[pos + n]),
        decreases 4 - n,
    {
        let c = s[pos + n];
        if !('0' <= c && c <= '9') {
            break;
        }
        let d = (c as u32) - ('0' as u32);
        proof {
            assert(s@.subrange(pos as int, pos + n + 1).drop_last() =~= s@.subrange(
                pos as int,
                pos + n,
            ));
            assert(d == digit_val(c));
            assert(v * 10 + d < pow16(n as nat) * 16) by (nonlinear_arith)
                requires
                    v < pow16(n as nat),
                    d < 10,
            ;
        }
        v = v * 10 + d;
        n = n + 1;
    }
    if n == 4 {
        proof {
            lemma_dec_run_long(s@, pos as int, 4);
        }
        return None;
    }
    proof {
        lemma_dec_run_stop(s@, pos as int, n as int);
    }
    if n == 0 || v > 255 || (s[pos] == '0' && n > 1) {
        return None;
    }
    Some((v, pos + n))
}

fn read_ipv4(s: &[char], pos: usize) -> (r: Option<(u32, usize)>)
    requires
        pos <= s@.len(),
    ensures
        r matches Some((v, np)) ==> ipv4_at(s@, pos as int) == Some((v as nat, np as int)) && np
            <= s@.len(),
        r is None ==> ipv4_at(s@, pos as int) is None,
{
    let (a, p1) = match read_octet(s, pos) {
        Some(x) => x,
        None => return None,
    };
    if !(p1 < s.len() && s[p1] == '.') {
        return None;
    }
    let (b, p2) = match read_octet(s, p1 + 1) {
        Some(x) => x,
        None => return None,
    };
    if !(p2 < s.len() && s[p2] == '.') {
        return None;
    }
    let (c, p3) = match read_octet(s, p2 + 1) {
        Some(x) => x,
        None => return None,
    };
    if !(p3 < s.len() && s[p3] == '.') {
        return None;
    }
    let (d, p4) = match read_octet(s, p3 + 1) {
        Some(x) => x,
        None => return None,
    };
    Some((a * 0x100_0000 + b * 0x1_0000 + c * 0x100 + d, p4))
}

/// Reads the groups for slots `i..limit` (see `groups_from`).
fn read_groups(s: &[char], pos: usize, i: usize, limit: usize) -> (r: (Vec<u32>, usize, bool))
    requires
        pos <= s@.len(),
        limit <= 8,
    ensures
        ({
            let (g, p, b) = groups_from(s@, pos as int, i as nat, limit as nat);
            &&& r.0@.len() == g.len()
            &&& forall|k: int| 0 <= k < g.len() ==> #[trigger] r.0@[k] as nat == g[k]
            &&& r.1 as int == p
            &&& r.2 == b
            &&& r.1 <= s@.len()
            &&& forall|k: int| 0 <= k < g.len() ==> r.0@[k] < 0x1_0000
            &&& (i <= limit ==> r.0@.len() + i <= limit)
        }),
    decreases limit - i,
{
    if i >= limit {
        return (Vec::new(), pos, false);
    }
    let st = if i > 0 {
        if pos < s.len() && s[pos] == ':' {
            pos + 1
        } else {
            return (Vec::new(), pos, false);
        }
    } else {
        pos
    };
    if i + 1 < limit {
        match read_ipv4(s, st) {
            Some((v, np)) => {
                let mut g: Vec<u32> = Vec::new();
                g.push(v / 0x1_0000);
                g.push(v % 0x1_0000);
                proof {
                    assert(v < 0x1_0000_0000);
                }
                return (g, np, true);
            },
            None => {},
        }
    }
    match read_group(s, st) {
        Some((gv, np)) => {
            let (rest, p2, b) = read_groups(s, np, i + 1, limit);
            let mut g: Vec<u32> = Vec::new();
            g.push(gv);
            let mut rest = rest;
            let ghost rv = rest@;
            g.append(&mut rest);
            assert(g@ =~= seq![gv].add(rv));
            (g, p2, b)
        },
        None => (Vec::new(), pos, false),
    }
}

/// `Ipv6Addr::from_str` (see `parse_ipv6`).
pub fn parse_ipv6_exec(s: &[char]) -> (r: Option<u128>)
    ensures
        r == parse_ipv6(s@),
{
    let (head, hp, h4) = read_groups(s, 0, 0, 8);
    let ghost hv = groups_from(s@, 0, 0, 8).0;
    let mut all: Vec<u32>;
    if head.len() == 8 {
        if hp != s.len() {
            return None;
        }
        all = head;
    } else if h4 {
        return None;
    } else if hp < s.len() && s.len() - hp > 1 && s[hp] == ':' && s[hp + 1] == ':' {
        assert(head.len() < 8);
        let limit = 8 - (head.len() + 1);
        let (tail, tp, _) = read_groups(s, hp + 2, 0, limit);
        if tp != s.len() {
            return None;
        }
        let ghost tv = groups_from(s@, hp + 2, 0, limit as nat).0;
        let zeros = 8 - head.len() - tail.len();
        all = head;
        let mut k: usize = 0;
        let ghost before = all@;
        while k < zeros
            invariant
                k <= zeros,
                all@ == before + Seq::new(k as nat, |j: int| 0u32),
            decreases zeros - k,
        {
            all.push(0);
            assert(all@ =~= before + Seq::new((k + 1) as nat, |j: int| 0u32));
            k = k + 1;
        }
        let mut t = tail;
        all.append(&mut t);
        assert(all@.len() == 8);
        assert forall|j: int| 0 <= j < 8 implies #[trigger] all@[j] as nat == (hv + Seq::new(
            zeros as nat,
            |k: int| 0nat,
        ) + tv)[j] by {}
        assert forall|j: int| 0 <= j < 8 implies all@[j] < 0x1_0000 by {}
        let ghost spec_groups = hv + Seq::new(zeros as nat, |k: int| 0nat) + tv;
        let v = value_of(&all);
        proof {
            lemma_groups_value_eq(all@, spec_groups);
        }
        return Some(v);
    } else {
        return None;
    }
    let v = value_of(&all);
    proof {
        lemma_groups_value_eq(all@, hv);
    }
    Some(v)
}

/// The number of eight groups held as `u32`s.
pub open spec fn nat_groups(g: Seq<u32>) -> Seq<nat> {
    g.map_values(|x: u32| x as nat)
}

proof fn lemma_groups_value_eq(g: Seq<u32>, h: Seq<nat>)
    requires
        g.len() == h.len(),
        forall|j: int| 0 <= j < g.len() ==> #[trigger] g[j] as nat == h[j],
    ensures
        groups_value(nat_groups(g)) == groups_value(h),
    decreases g.len(),
{
    assert(nat_groups(g) =~= h);
}

/// 2 to the power `16 n`.
pub open spec fn pow2_16(n: nat) -> nat
    decreases n,
{
    if n == 0 {
        1
    } else {
        pow2_16((n - 1) as nat) * 0x1_0000
    }
}

fn value_of(g: &Vec<u32>) -> (v: u128)
    requires
        g@.len() == 8,
        forall|j: int| 0 <= j < 8 ==> g@[j] < 0x1_0000,
    ensures
        v as nat == groups_value(nat_groups(g@)),
{
    let mut v: u128 = 0;
    let mut i: usize = 0;
    while i < 8
        invariant
            i <= 8,
            g@.len() == 8,
            forall|j: int| 0 <= j < 8 ==> g@[j] < 0x1_0000,
            v as nat == groups_value(nat_groups(g@).take(i as int)),
            v < pow2_16(i as nat),
        decreases 8 - i,
    {
        proof {
            assert(nat_groups(g@).take(i + 1).drop_last() =~= nat_groups(g@).take(i as int));
            assert(pow2_16((i + 1) as nat) == pow2_16(i as nat) * 0x1_0000);
            reveal_with_fuel(pow2_16, 9);
            assert(pow2_16(8) == 0x1_0000_0000_0000_0000_0000_0000_0000_0000);
            assert(pow2_16(i as nat) <= pow2_16(7)) by {
                lemma_pow2_16_mono(i as nat, 7);
            }
            assert(v * 0x1_0000 + g@[i as int] < pow2_16(i as nat) * 0x1_0000) by (nonlinear_arith)
                requires
                    v < pow2_16(i as nat),
                    g@[i as int] < 0x1_0000,
            ;
        }
        v = v * 0x1_0000 + g[i] as u128;
        i = i + 1;
    }
    assert(nat_groups(g@).take(8) =~= nat_groups(g@));
    v
}

proof fn lemma_pow2_16_mono(a: nat, b: nat)
    requires
        a <= b,
    ensures
        pow2_16(a) <= pow2_16(b),
    decreases b,
{
    if a < b {
        lemma_pow2_16_mono(a, (b - 1) as nat);
    }
}

} // verus!
