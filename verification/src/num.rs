//! Decimal numbers in text: reading them as `str::parse` does for the integer types, and
//! writing them out.

use vstd::prelude::*;
use crate::text::{chars_to_string, is_ascii_digit, slice_of};

verus! {

broadcast use vstd::slice::group_slice_axioms;

pub open spec fn digit_val(c: char) -> nat {
    ((c as u32) - ('0' as u32)) as nat
}

pub open spec fn all_digits(s: Seq<char>) -> bool {
    forall|i: int| 0 <= i < s.len() ==> is_ascii_digit(#[trigger] s[i])
}

/// The value of a string of decimal digits.
pub open spec fn digits_value(s: Seq<char>) -> nat
    decreases s.len(),
{
    if s.len() == 0 {
        0
    } else {
        digits_value(s.drop_last()) * 10 + digit_val(s.last())
    }
}

/// The digits of an unsigned number in text: one leading `+` is allowed.
pub open spec fn unsigned_digits(s: Seq<char>) -> Seq<char> {
    if s.len() > 0 && s[0] == '+' {
        s.drop_first()
    } else {
        s
    }
}

/// `str::parse` for an unsigned integer type whose largest value is `max`:
/// an optional `+`, then one or more ASCII digits, and the value must fit.
pub open spec fn parse_unsigned(s: Seq<char>, max: nat) -> Option<nat> {
    let d = unsigned_digits(s);
    if d.len() > 0 && all_digits(d) && digits_value(d) <= max {
        Some(digits_value(d))
    } else {
        None
    }
}

/// `str::parse` for a signed integer type with range `-(max + 1) ..= max`:
/// an optional sign, then one or more ASCII digits, and the value must fit.
pub open spec fn parse_signed(s: Seq<char>, max: nat) -> Option<int> {
    if s.len() > 0 && s[0] == '-' {
        let d = s.drop_first();
        if d.len() > 0 && all_digits(d) && digits_value(d) <= max + 1 {
            Some(-(digits_value(d) as int))
        } else {
            None
        }
    } else {
        match parse_unsigned(s, max) {
            Some(v) => Some(v as int),
            None => None,
        }
    }
}

proof fn lemma_digits_value_mono(s: Seq<char>, i: int)
    requires
        0 <= i <= s.len(),
    ensures
        digits_value(s.take(i)) <= digits_value(s),
    decreases s.len() - i,
{
    if i < s.len() {
        assert(s.drop_last().take(i) =~= s.take(i));
        lemma_digits_value_mono(s.drop_last(), i);
        assert(digits_value(s) >= digits_value(s.drop_last()));
    } else {
        assert(s.take(i) =~= s);
    }
}

/// Reads the digits `d` (no sign) as a value up to `max`.
fn digits_up_to(d: &[char], max: u64) -> (r: Option<u64>)
    ensures
        r.is_some() == (d@.len() > 0 && all_digits(d@) && digits_value(d@) <= max),
        r.is_some() ==> r.unwrap() == digits_value(d@),
{
    if d.len() == 0 {
        return None;
    }
    let mut v: u64 = 0;
    let mut i: usize = 0;
    while i < d.len()
        invariant
            0 < d.len(),
            i <= d.len(),
            all_digits(d@.take(i as int)),
            v == digits_value(d@.take(i as int)),
            v <= max,
        decreases d.len() - i,
    {
        let c = d[i];
        assert(d@.take(i + 1).drop_last() =~= d@.take(i as int));
        if !('0' <= c && c <= '9') {
            assert(!is_ascii_digit(d@[i as int]));
            return None;
        }
        let dv = ((c as u32) - ('0' as u32)) as u64;
        assert(dv == digit_val(c));
        if dv > max || v > (max - dv) / 10 {
            proof {
                assert(digits_value(d@.take(i + 1)) == v * 10 + dv);
                assert(v * 10 + dv > max) by (nonlinear_arith)
                    requires
                        dv > max || v > (max - dv) / 10,
                        v >= 0,
                        dv >= 0,
                ;
                if all_digits(d@) {
                    lemma_digits_value_mono(d@, i + 1);
                }
            }
            return None;
        }
        assert(v * 10 + dv <= max) by (nonlinear_arith)
            requires
                dv <= max,
                v <= (max - dv) / 10,
        ;
        v = v * 10 + dv;
        assert forall|k: int| 0 <= k < i + 1 implies is_ascii_digit(#[trigger] d@.take(i + 1)[k]) by {
            if k < i {
                assert(d@.take(i + 1)[k] == d@.take(i as int)[k]);
            }
        }
        i = i + 1;
    }
    assert(d@.take(d.len() as int) =~= d@);
    Some(v)
}

/// `str::parse::<u64>`-style reading with the bound `max`.
pub fn parse_unsigned_exec(s: &[char], max: u64) -> (r: Option<u64>)
    ensures
        r.is_some() == parse_unsigned(s@, max as nat).is_some(),
        r.is_some() ==> r.unwrap() == parse_unsigned(s@, max as nat).unwrap(),
{
    if s.len() > 0 && s[0] == '+' {
        let d = slice_of(s, 1, s.len());
        assert(d@ =~= s@.drop_first());
        digits_up_to(d.as_slice(), max)
    } else {
        digits_up_to(s, max)
    }
}

pub fn parse_u8(s: &[char]) -> (r: Option<u8>)
    ensures
        r.is_some() == parse_unsigned(s@, 255).is_some(),
        r.is_some() ==> r.unwrap() == parse_unsigned(s@, 255).unwrap(),
{
    match parse_unsigned_exec(s, 255) {
        Some(v) => Some(v as u8),
        None => None,
    }
}

pub fn parse_u32(s: &[char]) -> (r: Option<u32>)
    ensures
        r.is_some() == parse_unsigned(s@, 0xffff_ffff).is_some(),
        r.is_some() ==> r.unwrap() == parse_unsigned(s@, 0xffff_ffff).unwrap(),
{
    match parse_unsigned_exec(s, 0xffff_ffff) {
        Some(v) => Some(v as u32),
        None => None,
    }
}

pub fn parse_u64(s: &[char]) -> (r: Option<u64>)
    ensures
        r.is_some() == parse_unsigned(s@, 0xffff_ffff_ffff_ffff).is_some(),
        r.is_some() ==> r.unwrap() == parse_unsigned(s@, 0xffff_ffff_ffff_ffff).unwrap(),
{
    parse_unsigned_exec(s, 0xffff_ffff_ffff_ffff)
}

/// `str::parse` for a signed type with range `-(max + 1) ..= max`.
pub fn parse_signed_exec(s: &[char], max: u64) -> (r: Option<i128>)
    requires
        max < 0xffff_ffff_ffff_ffff,
    ensures
        r.is_some() == parse_signed(s@, max as nat).is_some(),
        r.is_some() ==> r.unwrap() == parse_signed(s@, max as nat).unwrap(),
{
    if s.len() > 0 && s[0] == '-' {
        let d = slice_of(s, 1, s.len());
        assert(d@ =~= s@.drop_first());
        match digits_up_to(d.as_slice(), max + 1) {
            Some(v) => Some(-(v as i128)),
            None => None,
        }
    } else {
        match parse_unsigned_exec(s, max) {
            Some(v) => Some(v as i128),
            None => None,
        }
    }
}

pub fn parse_i32(s: &[char]) -> (r: Option<i32>)
    ensures
        r.is_some() == parse_signed(s@, 0x7fff_ffff).is_some(),
        r.is_some() ==> r.unwrap() == parse_signed(s@, 0x7fff_ffff).unwrap(),
{
    match parse_signed_exec(s, 0x7fff_ffff) {
        Some(v) => Some(v as i32),
        None => None,
    }
}

pub fn parse_i64(s: &[char]) -> (r: Option<i64>)
    ensures
        r.is_some() == parse_signed(s@, 0x7fff_ffff_ffff_ffff).is_some(),
        r.is_some() ==> r.unwrap() == parse_signed(s@, 0x7fff_ffff_ffff_ffff).unwrap(),
{
    match parse_signed_exec(s, 0x7fff_ffff_ffff_ffff) {
        Some(v) => Some(v as i64),
        None => None,
    }
}

// ---------------------------------------------------------------------------------------
// Writing numbers
// ---------------------------------------------------------------------------------------
pub open spec fn digit_char(d: nat) -> char {
    (('0' as u32) + d) as char
}

/// Decimal text of `n` without leading zeros (`"0"` for zero).
pub open spec fn decimal(n: nat) -> Seq<char>
    decreases n,
{
    if n < 10 {
        seq![digit_char(n)]
    } else {
        decimal(n / 10).push(digit_char(n % 10))
    }
}

/// The decimal text of a number: digits only, its value is the number, no leading zero, and
/// one character per digit.
proof fn lemma_digit_char(d: nat)
    requires
        d < 10,
    ensures
        is_ascii_digit(digit_char(d)),
        digit_val(digit_char(d)) == d,
        digit_char(d) != '0' || d == 0,
{
}

pub proof fn lemma_decimal(n: nat)
    ensures
        decimal(n).len() >= 1,
        all_digits(decimal(n)),
        digits_value(decimal(n)) == n,
        n >= 10 ==> decimal(n)[0] != '0',
        n < 10 ==> decimal(n).len() == 1,
        n < 100 ==> decimal(n).len() <= 2,
        n < 1000 ==> decimal(n).len() <= 3,
    decreases n,
{
    if n < 10 {
        lemma_digit_char(n);
        let d = decimal(n);
        assert(d.drop_last() =~= Seq::<char>::empty());
        assert(digits_value(d.drop_last()) == 0);
        assert(d.last() == digit_char(n));
        assert(digits_value(d) == digits_value(d.drop_last()) * 10 + digit_val(d.last()));
    } else {
        lemma_decimal(n / 10);
        lemma_digit_char(n % 10);
        let p = decimal(n / 10);
        let d = decimal(n);
        assert(d == p.push(digit_char(n % 10)));
        assert(n == (n / 10) * 10 + n % 10);
        assert(d.last() == digit_char(n % 10));
        assert(digits_value(d) == digits_value(d.drop_last()) * 10 + digit_val(d.last()));
        assert(d.drop_last() =~= p);
        assert(d[0] == p[0]);
        if n / 10 < 10 {
            assert(p[0] == digit_char(n / 10));
            lemma_digit_char(n / 10);
        }
    }
}

fn digit_char_exec(d: u64) -> (c: char)
    requires
        d < 10,
    ensures
        c == digit_char(d as nat),
{
    let b: u8 = 48u8 + (d as u8);
    b as char
}

/// Decimal digits of `n`.
pub fn decimal_chars(n: u64) -> (out: Vec<char>)
    ensures
        out@ == decimal(n as nat),
    decreases n,
{
    if n < 10 {
        let mut v: Vec<char> = Vec::new();
        v.push(digit_char_exec(n));
        assert(v@ =~= seq![digit_char(n as nat)]);
        v
    } else {
        let mut v = decimal_chars(n / 10);
        v.push(digit_char_exec(n % 10));
        v
    }
}

/// Decimal digits of `n`, at least two of them (`format!("{:02}", n)`).
pub open spec fn decimal2(n: nat) -> Seq<char> {
    if n < 10 {
        seq!['0', digit_char(n)]
    } else {
        decimal(n)
    }
}

pub fn decimal2_chars(n: u64) -> (out: Vec<char>)
    ensures
        out@ == decimal2(n as nat),
{
    if n < 10 {
        let mut v: Vec<char> = Vec::new();
        v.push('0');
        v.push(digit_char_exec(n));
        assert(v@ =~= seq!['0', digit_char(n as nat)]);
        v
    } else {
        decimal_chars(n)
    }
}

/// Decimal text of a signed number (`-` in front of negative ones).
pub open spec fn signed_decimal(n: int) -> Seq<char> {
    if n < 0 {
        seq!['-'] + decimal((-n) as nat)
    } else {
        decimal(n as nat)
    }
}

pub fn i64_chars(n: i64) -> (out: Vec<char>)
    ensures
        out@ == signed_decimal(n as int),
{
    if n < 0 {
        let m: u64 = if n == i64::MIN {
            0x8000_0000_0000_0000u64
        } else {
            (-n) as u64
        };
        let d = decimal_chars(m);
        let mut out: Vec<char> = Vec::new();
        out.push('-');
        let mut i: usize = 0;
        while i < d.len()
            invariant
                i <= d.len(),
                out@ == seq!['-'] + d@.take(i as int),
            decreases d.len() - i,
        {
            out.push(d[i]);
            assert(d@.take(i + 1) =~= d@.take(i as int).push(d@[i as int]));
            assert(out@ =~= seq!['-'] + d@.take(i + 1));
            i = i + 1;
        }
        assert(d@.take(d.len() as int) =~= d@);
        out
    } else {
        decimal_chars(n as u64)
    }
}

} // verus!
