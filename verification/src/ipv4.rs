//! IPv4 addresses and the hotspot subnet (`10.42.0.1/24`).

use vstd::prelude::*;
use crate::num::{all_digits, decimal, decimal_chars, digits_value, lemma_decimal, parse_unsigned, parse_unsigned_exec};
use crate::text::{
    chars_to_string, lemma_split_char_join, lemma_split_char_none, split_char, split_char_exec,
    split_once, split_once_exec, seqs, lit,
};

verus! {

broadcast use vstd::slice::group_slice_axioms;

/// An IPv4 address as a 32-bit number (first octet in the high byte).
#[derive(Clone, Copy, Debug, PartialEq, Eq, Structural, Hash)]
pub struct Ipv4Addr {
    pub bits: u32,
}

pub open spec fn octet(bits: u32, k: int) -> nat {
    if k == 0 {
        (bits / 0x100_0000) as nat
    } else if k == 1 {
        ((bits / 0x1_0000) % 256) as nat
    } else if k == 2 {
        ((bits / 0x100) % 256) as nat
    } else {
        (bits % 256) as nat
    }
}

pub open spec fn bits_of(a: nat, b: nat, c: nat, d: nat) -> nat {
    a * 0x100_0000 + b * 0x1_0000 + c * 0x100 + d
}

/// One part of a dotted-quad address as `Ipv4Addr::from_str` accepts it: one to three
/// digits, at most 255, and no leading zero.
pub open spec fn ipv4_part_ok(p: Seq<char>) -> bool {
    &&& 1 <= p.len() <= 3
    &&& all_digits(p)
    &&& digits_value(p) <= 255
    &&& (p.len() == 1 || p[0] != '0')
}

/// `Ipv4Addr::from_str`: exactly four parts separated by dots.
pub open spec fn parse_ipv4(s: Seq<char>) -> Option<u32> {
    let parts = split_char(s, '.');
    if parts.len() == 4 && ipv4_part_ok(parts[0]) && ipv4_part_ok(parts[1]) && ipv4_part_ok(
        parts[2],
    ) && ipv4_part_ok(parts[3]) {
        Some(
            bits_of(
                digits_value(parts[0]),
                digits_value(parts[1]),
                digits_value(parts[2]),
                digits_value(parts[3]),
            ) as u32,
        )
    } else {
        None
    }
}

/// `a.b.c.d`.
pub open spec fn ipv4_text(bits: u32) -> Seq<char> {
    decimal(octet(bits, 0)) + seq!['.'] + decimal(octet(bits, 1)) + seq!['.'] + decimal(
        octet(bits, 2),
    ) + seq!['.'] + decimal(octet(bits, 3))
}

/// The four octets put back together give the address.
proof fn lemma_octets_bits(bits: u32)
    ensures
        bits_of(octet(bits, 0), octet(bits, 1), octet(bits, 2), octet(bits, 3)) == bits,
        octet(bits, 0) < 256,
        octet(bits, 1) < 256,
        octet(bits, 2) < 256,
        octet(bits, 3) < 256,
{
    assert(bits == (bits / 0x100_0000) * 0x100_0000 + ((bits / 0x1_0000) % 256) * 0x1_0000 + ((bits
        / 0x100) % 256) * 0x100 + bits % 256) by (bit_vector);
    assert(bits / 0x100_0000 < 256) by (bit_vector);
}

/// The decimal text of an octet is a part that an address may have, with the octet's value.
proof fn lemma_octet_part(n: nat)
    requires
        n < 256,
    ensures
        ipv4_part_ok(decimal(n)),
        digits_value(decimal(n)) == n,
        !decimal(n).contains('.'),
{
    lemma_decimal(n);
    let d = decimal(n);
    if d.contains('.') {
        let k = choose|k: int| 0 <= k < d.len() && d[k] == '.';
        assert(crate::text::is_ascii_digit(d[k]));
    }
}

/// An address printed and read back is the same address.
pub proof fn lemma_ipv4_round_trip(bits: u32)
    ensures
        parse_ipv4(ipv4_text(bits)) == Some(bits),
{
    lemma_octets_bits(bits);
    let d0 = decimal(octet(bits, 0));
    let d1 = decimal(octet(bits, 1));
    let d2 = decimal(octet(bits, 2));
    let d3 = decimal(octet(bits, 3));
    lemma_octet_part(octet(bits, 0));
    lemma_octet_part(octet(bits, 1));
    lemma_octet_part(octet(bits, 2));
    lemma_octet_part(octet(bits, 3));
    let t23 = d2 + seq!['.'] + d3;
    let t123 = d1 + seq!['.'] + t23;
    assert(ipv4_text(bits) =~= d0 + seq!['.'] + t123);
    lemma_split_char_none(d0, '.');
    lemma_split_char_none(d1, '.');
    lemma_split_char_none(d2, '.');
    lemma_split_char_none(d3, '.');
    lemma_split_char_join(d2, d3, '.');
    lemma_split_char_join(d1, t23, '.');
    lemma_split_char_join(d0, t123, '.');
    let parts = split_char(ipv4_text(bits), '.');
    assert(parts =~= seq![d0, d1, d2, d3]);
}

fn part_value(p: &[char]) -> (r: Option<u64>)
    ensures
        r.is_some() == ipv4_part_ok(p@),
        r.is_some() ==> r.unwrap() == digits_value(p@),
{
    if p.len() < 1 || p.len() > 3 || (p.len() > 1 && p[0] == '0') || p[0] == '+' {
        return None;
    }
    parse_unsigned_exec(p, 255)
}

impl Ipv4Addr {
    pub fn new(a: u8, b: u8, c: u8, d: u8) -> (r: Ipv4Addr)
        ensures
            r.bits == bits_of(a as nat, b as nat, c as nat, d as nat),
    {
        let bits: u32 = (a as u32) * 0x100_0000 + (b as u32) * 0x1_0000 + (c as u32) * 0x100 + (
        d as u32);
        Ipv4Addr { bits }
    }

    /// Reads a dotted-quad address.
    pub fn parse(s: &[char]) -> (r: Option<Ipv4Addr>)
        ensures
            r.is_some() == parse_ipv4(s@).is_some(),
            r.is_some() ==> r.unwrap().bits == parse_ipv4(s@).unwrap(),
    {
        let parts = split_char_exec(s, '.');
        if parts.len() != 4 {
            return None;
        }
        assert(parts[0]@ == split_char(s@, '.')[0]);
        assert(parts[1]@ == split_char(s@, '.')[1]);
        assert(parts[2]@ == split_char(s@, '.')[2]);
        assert(parts[3]@ == split_char(s@, '.')[3]);
        let a = match part_value(parts[0].as_slice()) {
            Some(v) => v,
            None => return None,
        };
        let b = match part_value(parts[1].as_slice()) {
            Some(v) => v,
            None => return None,
        };
        let c = match part_value(parts[2].as_slice()) {
            Some(v) => v,
            None => return None,
        };
        let d = match part_value(parts[3].as_slice()) {
            Some(v) => v,
            None => return None,
        };
        Some(Ipv4Addr::new(a as u8, b as u8, c as u8, d as u8))
    }

    /// Reads a dotted-quad address from a string.
    pub fn parse_str(s: &str) -> (r: Option<Ipv4Addr>)
        ensures
            r.is_some() == parse_ipv4(s@).is_some(),
            r.is_some() ==> r.unwrap().bits == parse_ipv4(s@).unwrap(),
    {
        let cs = crate::text::str_chars(s);
        Ipv4Addr::parse(cs.as_slice())
    }

    pub fn octets(&self) -> (r: [u8; 4])
        ensures
            r@[0] == octet(self.bits, 0),
            r@[1] == octet(self.bits, 1),
            r@[2] == octet(self.bits, 2),
            r@[3] == octet(self.bits, 3),
    {
        let b = self.bits;
        [(b / 0x100_0000) as u8, ((b / 0x1_0000) % 256) as u8, ((b / 0x100) % 256) as u8, (b % 256) as u8]
    }

    /// The address as text (`to_string`).
    pub fn text_chars(&self) -> (out: Vec<char>)
        ensures
            out@ == ipv4_text(self.bits),
    {
        let o = self.octets();
        let mut out = decimal_chars(o[0] as u64);
        out.push('.');
        let mut b = decimal_chars(o[1] as u64);
        out.append(&mut b);
        out.push('.');
        let mut c = decimal_chars(o[2] as u64);
        out.append(&mut c);
        out.push('.');
        let mut d = decimal_chars(o[3] as u64);
        out.append(&mut d);
        assert(out@ =~= ipv4_text(self.bits));
        out
    }

    pub fn to_string(&self) -> (out: String)
        ensures
            out@ == ipv4_text(self.bits),
    {
        let v = self.text_chars();
        chars_to_string(v.as_slice())
    }
}

} // verus!
