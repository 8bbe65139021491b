//! Checking the network name (SSID).

use vstd::prelude::*;
use vstd::string::{StrSliceExecFns, StringSliceAdditionalSpecFns};
use crate::text::{is_control, is_control_exec, str_chars};
use crate::utf8len::{byte_len, char_width, char_width_exec, lemma_byte_len_prefix, lemma_byte_len_push};

verus! {

broadcast use vstd::string::group_string_axioms;

#[derive(Debug, Clone, Copy, PartialEq, Eq, Structural)]
pub enum SsidError {
    Empty,
    TooLong,
    ControlChars,
}

/// Longest SSID in bytes (802.11).
pub const SSID_MAX_BYTES: usize = 32;

/// An SSID is 1 to 32 bytes of UTF-8 without control characters; the first failing rule
/// gives the error.
pub open spec fn ssid_check(s: Seq<char>) -> Result<(), SsidError> {
    if s.len() == 0 {
        Err(SsidError::Empty)
    } else if byte_len(s) > SSID_MAX_BYTES {
        Err(SsidError::TooLong)
    } else if exists|i: int| 0 <= i < s.len() && is_control(s[i]) {
        Err(SsidError::ControlChars)
    } else {
        Ok(())
    }
}

pub fn validate_ssid(ssid: &str) -> (r: Result<(), SsidError>)
    ensures
        r == ssid_check(ssid@),
{
    if ssid.is_empty() {
        return Err(SsidError::Empty);
    }
    let cs = str_chars(ssid);
    let k = fitting_prefix(cs.as_slice(), SSID_MAX_BYTES);
    if k < cs.len() {
        proof {
            lemma_byte_len_prefix(ssid@, k + 1, ssid@.len() as int);
            assert(ssid@.take(ssid@.len() as int) =~= ssid@);
        }
        return Err(SsidError::TooLong);
    }
    assert(ssid@.take(k as int) =~= ssid@);
    let mut i: usize = 0;
    while i < cs.len()
        invariant
            i <= cs.len(),
            cs@ == ssid@,
            ssid@.len() > 0,
            byte_len(ssid@) <= SSID_MAX_BYTES,
            forall|k: int| 0 <= k < i ==> !is_control(cs@[k]),
        decreases cs.len() - i,
    {
        if is_control_exec(cs[i]) {
            assert(is_control(ssid@[i as int]));
            return Err(SsidError::ControlChars);
        }
        i = i + 1;
    }
    Ok(())
}

/// The longest start of `s` that fits in `max` bytes of UTF-8 (it ends on a character
/// boundary).
pub open spec fn truncated(s: Seq<char>, r: Seq<char>, max: nat) -> bool {
    &&& r.len() <= s.len()
    &&& r == s.take(r.len() as int)
    &&& byte_len(r) <= max
    &&& (r.len() == s.len() || byte_len(s.take(r.len() as int + 1)) > max)
}

/// Number of leading characters of `cs` that fit in `max` bytes.
pub fn fitting_prefix(cs: &[char], max: usize) -> (k: usize)
    ensures
        k <= cs@.len(),
        truncated(cs@, cs@.take(k as int), max as nat),
{
    let mut k: usize = 0;
    let mut bytes: usize = 0;
    while k < cs.len()
        invariant
            k <= cs.len(),
            bytes == byte_len(cs@.take(k as int)),
            bytes <= max,
        ensures
            k <= cs.len(),
            bytes == byte_len(cs@.take(k as int)),
            bytes <= max,
            k == cs.len() || byte_len(cs@.take(k as int + 1)) > max,
        decreases cs.len() - k,
    {
        let w = char_width_exec(cs[k]);
        proof {
            assert(cs@.take(k + 1) =~= cs@.take(k as int).push(cs@[k as int]));
            lemma_byte_len_push(cs@.take(k as int), cs@[k as int]);
        }
        if w > max - bytes {
            break;
        }
        bytes = bytes + w;
        k = k + 1;
    }
    proof {
        if k == cs.len() {
            assert(cs@.take(k as int) =~= cs@);
        }
        assert(cs@.take(k as int).len() == k);
        assert(cs@.take(k as int) =~= cs@.take(cs@.take(k as int).len() as int));
    }
    k
}

/// Cuts `s` to at most `max` bytes on a character boundary.
pub fn truncate_bytes(s: &str, max: usize) -> (r: &str)
    ensures
        truncated(s@, r@, max as nat),
{
    let cs = str_chars(s);
    let k = fitting_prefix(cs.as_slice(), max);
    let r = s.substring_char(0, k);
    assert(r@ =~= s@.take(k as int));
    r
}

} // verus!
