//! The password generator and the check of a password typed by the user.

use vstd::prelude::*;
use rand::TryRng;
use vstd::string::StringSliceAdditionalSpecFns;
use vstd::utf8::{encode_scalar, encode_utf8};
use crate::error::CoreError;
use crate::secret::Secret;
use crate::text::{
    ascii_lower, ascii_lower_exec, chars_to_string, contains, contains_exec, is_ascii_digit,
    is_ascii_lower, is_ascii_upper, lit, str_chars,
};

verus! {

broadcast use vstd::slice::group_slice_axioms;

/// Characters of generated passwords: no look-alikes (l, 1, I, O, 0).
pub const ALPHABET: &'static str = "abcdefghijkmnopqrstuvwxyzABCDEFGHJKLMNPQRSTUVWXYZ23456789";

pub const GENERATED_LEN: usize = 16;

/// WPA passphrase limits: 8 to 63 printable ASCII characters.
pub const MIN_LEN: usize = 8;

pub const MAX_LEN: usize = 63;

#[derive(Debug, Clone, Copy, PartialEq, Eq, Structural)]
pub enum Strength {
    TooShort,
    Weak,
    Fair,
    Strong,
}

#[derive(Debug, Clone, Copy, PartialEq, Eq, Structural)]
pub enum PasswordError {
    TooShort,
    TooLong,
    NotAscii,
}

// ---------------------------------------------------------------------------------------
// Strength
// ---------------------------------------------------------------------------------------
pub open spec fn is_ascii_alnum(c: char) -> bool {
    is_ascii_lower(c) || is_ascii_upper(c) || is_ascii_digit(c)
}

pub open spec fn has(s: Seq<char>, p: spec_fn(char) -> bool) -> bool {
    exists|i: int| 0 <= i < s.len() && p(s[i])
}

/// How many of the classes lowercase, uppercase, digits, other characters occur.
pub open spec fn classes_spec(s: Seq<char>) -> nat {
    (if has(s, |c: char| is_ascii_lower(c)) { 1nat } else { 0nat }) + (if has(
        s,
        |c: char| is_ascii_upper(c),
    ) {
        1nat
    } else {
        0nat
    }) + (if has(s, |c: char| is_ascii_digit(c)) {
        1nat
    } else {
        0nat
    }) + (if has(s, |c: char| !is_ascii_alnum(c)) {
        1nat
    } else {
        0nat
    })
}

/// Common passwords; one of them inside the lowercased password makes it weak.
pub open spec fn common_words() -> Seq<Seq<char>> {
    seq![
        "password"@,
        "passw0rd"@,
        "qwerty"@,
        "qwertyui"@,
        "12345678"@,
        "123456789"@,
        "1234567890"@,
        "11111111"@,
        "00000000"@,
        "iloveyou"@,
        "admin123"@,
        "abcdefgh"@,
        "abc12345"@,
        "omarchy"@,
        "letmein"@,
        "welcome"@,
    ]
}

pub open spec fn lowercase(s: Seq<char>) -> Seq<char> {
    s.map_values(|c: char| ascii_lower(c))
}

pub open spec fn has_common_word(s: Seq<char>) -> bool {
    exists|k: int| 0 <= k < common_words().len() && contains(lowercase(s), common_words()[k])
}

/// Every character is the first one (`chars().all(|c| p.starts_with(c))`).
pub open spec fn one_char(s: Seq<char>) -> bool {
    forall|i: int| 0 <= i < s.len() ==> #[trigger] s[i] == s[0]
}

/// Consecutive bytes all differ by `d`.
pub open spec fn steps_by(b: Seq<u8>, d: int) -> bool {
    forall|i: int| 0 <= i < b.len() - 1 ==> b[i + 1] - #[trigger] b[i] == d
}

/// The bytes go up or down by one all the way ("abcdefghijkl", "987654321").
pub open spec fn is_sequence_spec(s: Seq<char>) -> bool {
    steps_by(encode_utf8(s), 1) || steps_by(encode_utf8(s), -1)
}

/// Under 8 characters: too short. Under 12, one class, one repeated character, a common
/// password inside or a run like "abcdef…": weak. 16 or more with three classes: strong.
pub open spec fn strength_spec(s: Seq<char>) -> Strength {
    if s.len() < MIN_LEN {
        Strength::TooShort
    } else if s.len() < 12 || classes_spec(s) < 2 || one_char(s) || has_common_word(s)
        || is_sequence_spec(s) {
        Strength::Weak
    } else if s.len() >= 16 && classes_spec(s) >= 3 {
        Strength::Strong
    } else {
        Strength::Fair
    }
}

fn has_exec_lower(s: &[char]) -> (b: bool)
    ensures
        b == has(s@, |c: char| is_ascii_lower(c)),
{
    let mut i: usize = 0;
    while i < s.len()
        invariant
            i <= s.len(),
            forall|k: int| 0 <= k < i ==> !is_ascii_lower(s@[k]),
        decreases s.len() - i,
    {
        if 'a' <= s[i] && s[i] <= 'z' {
            return true;
        }
        i = i + 1;
    }
    false
}

fn has_exec_upper(s: &[char]) -> (b: bool)
    ensures
        b == has(s@, |c: char| is_ascii_upper(c)),
{
    let mut i: usize = 0;
    while i < s.len()
        invariant
            i <= s.len(),
            forall|k: int| 0 <= k < i ==> !is_ascii_upper(s@[k]),
        decreases s.len() - i,
    {
        if 'A' <= s[i] && s[i] <= 'Z' {
            return true;
        }
        i = i + 1;
    }
    false
}

fn has_exec_digit(s: &[char]) -> (b: bool)
    ensures
        b == has(s@, |c: char| is_ascii_digit(c)),
{
    let mut i: usize = 0;
    while i < s.len()
        invariant
            i <= s.len(),
            forall|k: int| 0 <= k < i ==> !is_ascii_digit(s@[k]),
        decreases s.len() - i,
    {
        if '0' <= s[i] && s[i] <= '9' {
            return true;
        }
        i = i + 1;
    }
    false
}

fn has_exec_other(s: &[char]) -> (b: bool)
    ensures
        b == has(s@, |c: char| !is_ascii_alnum(c)),
{
    let mut i: usize = 0;
    while i < s.len()
        invariant
            i <= s.len(),
            forall|k: int| 0 <= k < i ==> is_ascii_alnum(s@[k]),
        decreases s.len() - i,
    {
        let c = s[i];
        if !(('a' <= c && c <= 'z') || ('A' <= c && c <= 'Z') || ('0' <= c && c <= '9')) {
            return true;
        }
        i = i + 1;
    }
    false
}

fn classes(s: &[char]) -> (n: usize)
    ensures
        n == classes_spec(s@),
{
    let a: usize = if has_exec_lower(s) { 1 } else { 0 };
    let b: usize = if has_exec_upper(s) { 1 } else { 0 };
    let c: usize = if has_exec_digit(s) { 1 } else { 0 };
    let d: usize = if has_exec_other(s) { 1 } else { 0 };
    a + b + c + d
}

fn one_char_exec(s: &[char]) -> (b: bool)
    ensures
        b == one_char(s@),
{
    let mut i: usize = 0;
    while i < s.len()
        invariant
            i <= s.len(),
            forall|k: int| 0 <= k < i ==> #[trigger] s@[k] == s@[0],
        decreases s.len() - i,
    {
        if s[i] != s[0] {
            return false;
        }
        i = i + 1;
    }
    true
}

fn lowercase_exec(s: &[char]) -> (out: Vec<char>)
    ensures
        out@ == lowercase(s@),
{
    let mut out: Vec<char> = Vec::new();
    let mut i: usize = 0;
    while i < s.len()
        invariant
            i <= s.len(),
            out@ == lowercase(s@.take(i as int)),
        decreases s.len() - i,
    {
        out.push(ascii_lower_exec(s[i]));
        assert(lowercase(s@.take(i + 1)) =~= lowercase(s@.take(i as int)).push(ascii_lower(s@[i as int])));
        i = i + 1;
    }
    assert(s@.take(s.len() as int) =~= s@);
    out
}

fn has_common_word_exec(s: &[char]) -> (b: bool)
    ensures
        b == has_common_word(s@),
{
    let lower = lowercase_exec(s);
    let words: [&str; 16] = [
        "password",
        "passw0rd",
        "qwerty",
        "qwertyui",
        "12345678",
        "123456789",
        "1234567890",
        "11111111",
        "00000000",
        "iloveyou",
        "admin123",
        "abcdefgh",
        "abc12345",
        "omarchy",
        "letmein",
        "welcome",
    ];
    let mut k: usize = 0;
    while k < 16
        invariant
            k <= 16,
            lower@ == lowercase(s@),
            forall|j: int| 0 <= j < 16 ==> (#[trigger] words@[j])@ == common_words()[j],
            forall|j: int| 0 <= j < k ==> !contains(lowercase(s@), #[trigger] common_words()[j]),
        decreases 16 - k,
    {
        let w = lit(words[k]);
        if contains_exec(lower.as_slice(), w.as_slice()) {
            assert(w@ == common_words()[k as int]);
            return true;
        }
        k = k + 1;
    }
    false
}

fn steps_by_exec(b: &[u8], up: bool) -> (r: bool)
    ensures
        r == steps_by(b@, if up { 1 } else { -1 }),
{
    if b.len() < 2 {
        return true;
    }
    let mut i: usize = 0;
    while i < b.len() - 1
        invariant
            b.len() >= 2,
            i <= b.len() - 1,
            forall|k: int| 0 <= k < i ==> b@[k + 1] - #[trigger] b@[k] == (if up { 1int } else { -1int }),
        decreases b.len() - i,
    {
        let ok = if up {
            b[i] < 255 && b[i + 1] == b[i] + 1
        } else {
            b[i] > 0 && b[i + 1] == b[i] - 1
        };
        if !ok {
            return false;
        }
        i = i + 1;
    }
    true
}

fn is_sequence(p: &str) -> (r: bool)
    ensures
        r == is_sequence_spec(p@),
{
    let b = p.as_bytes();
    steps_by_exec(b, true) || steps_by_exec(b, false)
}

/// Rates a password (see `strength_spec`).
pub fn check_strength(p: &str) -> (r: Strength)
    ensures
        r == strength_spec(p@),
{
    let cs = str_chars(p);
    let len = cs.len();
    if len < MIN_LEN {
        return Strength::TooShort;
    }
    let n = classes(cs.as_slice());
    if len < 12 || n < 2 || one_char_exec(cs.as_slice()) || has_common_word_exec(cs.as_slice())
        || is_sequence(p) {
        return Strength::Weak;
    }
    if len >= 16 && n >= 3 {
        Strength::Strong
    } else {
        Strength::Fair
    }
}

// ---------------------------------------------------------------------------------------
// The user's password
// ---------------------------------------------------------------------------------------
pub open spec fn printable_ascii(b: Seq<u8>) -> bool {
    forall|i: int| 0 <= i < b.len() ==> 0x20 <= #[trigger] b[i] <= 0x7e
}

/// The checks of a typed password, in order: printable ASCII only, at least 8 bytes, at
/// most 63 bytes; then its strength.
pub open spec fn validate_spec(s: Seq<char>) -> Result<Strength, PasswordError> {
    let b = encode_utf8(s);
    if !printable_ascii(b) {
        Err(PasswordError::NotAscii)
    } else if b.len() < MIN_LEN {
        Err(PasswordError::TooShort)
    } else if b.len() > MAX_LEN {
        Err(PasswordError::TooLong)
    } else {
        Ok(strength_spec(s))
    }
}

pub fn validate_user_password(p: &str) -> (r: Result<Strength, PasswordError>)
    ensures
        r == validate_spec(p@),
{
    let b = p.as_bytes();
    let mut i: usize = 0;
    while i < b.len()
        invariant
            i <= b.len(),
            b@ == encode_utf8(p@),
            forall|k: int| 0 <= k < i ==> 0x20 <= #[trigger] b@[k] <= 0x7e,
        decreases b.len() - i,
    {
        if b[i] < 0x20 || b[i] > 0x7e {
            assert(!printable_ascii(b@));
            return Err(PasswordError::NotAscii);
        }
        i = i + 1;
    }
    if b.len() < MIN_LEN {
        return Err(PasswordError::TooShort);
    }
    if b.len() > MAX_LEN {
        return Err(PasswordError::TooLong);
    }
    Ok(check_strength(p))
}

/// Text of ASCII letters and digits takes one printable byte per character.
proof fn lemma_alnum_bytes(s: Seq<char>)
    requires
        forall|i: int| 0 <= i < s.len() ==> is_ascii_alnum(#[trigger] s[i]),
    ensures
        encode_utf8(s).len() == s.len(),
        printable_ascii(encode_utf8(s)),
    decreases s.len(),
{
    if s.len() > 0 {
        assert(forall|i: int|
            0 <= i < s.drop_first().len() ==> #[trigger] s.drop_first()[i] == s[i + 1]);
        lemma_alnum_bytes(s.drop_first());
        let v = s[0] as u32;
        assert(is_ascii_alnum(s[0]));
        assert(0x30 <= v <= 0x7a);
        assert((v & 0x7F) == v) by (bit_vector)
            requires
                v <= 0x7f,
        ;
        let first = encode_scalar(v);
        assert(first =~= seq![v as u8]);
        let rest = encode_utf8(s.drop_first());
        assert(encode_utf8(s) == first + rest);
        assert forall|i: int| 0 <= i < (first + rest).len() implies 0x20 <= #[trigger] (first
            + rest)[i] <= 0x7e by {
            if i > 0 {
                assert((first + rest)[i] == rest[i - 1]);
            }
        }
    }
}

/// The alphabet of generated passwords is letters and digits.
proof fn lemma_alphabet_alnum(c: char)
    requires
        ALPHABET@.contains(c),
    ensures
        is_ascii_alnum(c),
{
    reveal_strlit("abcdefghijkmnopqrstuvwxyzABCDEFGHJKLMNPQRSTUVWXYZ23456789");
    let i = choose|i: int| 0 <= i < ALPHABET@.len() && ALPHABET@[i] == c;
    assert(0 <= i < 57);
}

/// Characters easily taken for one another when read aloud or from a screen.
pub open spec fn lookalike(c: char) -> bool {
    c == '0' || c == 'O' || c == '1' || c == 'l' || c == 'I'
}

/// A generated password holds none of the lookalikes, so it can be typed from the screen
/// without guessing.
pub proof fn lemma_no_lookalikes(s: Seq<char>)
    requires
        generated_ok(s),
    ensures
        forall|i: int| 0 <= i < s.len() ==> !lookalike(#[trigger] s[i]),
{
    reveal_strlit("abcdefghijkmnopqrstuvwxyzABCDEFGHJKLMNPQRSTUVWXYZ23456789");
    assert forall|i: int| 0 <= i < s.len() implies !lookalike(#[trigger] s[i]) by {
        let j = choose|j: int| 0 <= j < ALPHABET@.len() && ALPHABET@[j] == s[i];
        assert(0 <= j < 57);
    }
}

/// A generated password passes the checks for typed passwords and is strong, unless a
/// common password or a run of consecutive characters happens to be in it.
pub proof fn lemma_generated_is_strong(s: Seq<char>)
    requires
        generated_ok(s),
        !has_common_word(s),
        !is_sequence_spec(s),
    ensures
        validate_spec(s) == Ok::<Strength, PasswordError>(Strength::Strong),
{
    assert forall|i: int| 0 <= i < s.len() implies is_ascii_alnum(#[trigger] s[i]) by {
        lemma_alphabet_alnum(s[i]);
    }
    lemma_alnum_bytes(s);
    assert(has(s, |c: char| is_ascii_lower(c)));
    assert(has(s, |c: char| is_ascii_upper(c)));
    let i = choose|i: int| 0 <= i < s.len() && is_ascii_lower(s[i]);
    let j = choose|j: int| 0 <= j < s.len() && is_ascii_upper(s[j]);
    assert(!one_char(s)) by {
        if one_char(s) {
            assert(s[i] == s[0] && s[j] == s[0]);
        }
    }
}

// ---------------------------------------------------------------------------------------
// Generation
// ---------------------------------------------------------------------------------------
/// A random `u32` from the system's cryptographic source (`rand::rngs::SysRng`), or the
/// source's error text. Nothing is promised of the value: it is chance.
#[verifier::external_body]
fn next_random_u32() -> (r: Result<u32, String>) {
    rand::rngs::SysRng.try_next_u32().map_err(|e| e.to_string())
}

/// Draws a random value this many times at most before giving up on an unlucky source.
pub const MAX_DRAWS: usize = 64;

/// Generation attempts before giving up (each succeeds with probability above 0.8).
pub const MAX_ATTEMPTS: usize = 256;

/// Largest value below which `v % 57` is uniform.
pub const ZONE: u32 = 4294967295u32 - (4294967295u32 % 57);

/// The character a random draw stands for: the draw modulo the alphabet's size, unless the
/// draw falls in the uneven tail above `ZONE` (then it is thrown away).
pub open spec fn draw_char_spec(v: u32) -> Option<char> {
    if v < ZONE {
        Some(ALPHABET@[(v % 57) as int])
    } else {
        None
    }
}

pub fn draw_char(v: u32, alphabet: &Vec<char>) -> (r: Option<char>)
    requires
        alphabet@ == ALPHABET@,
        alphabet@.len() == 57,
    ensures
        r == draw_char_spec(v),
{
    if v < ZONE {
        Some(alphabet[(v % 57) as usize])
    } else {
        None
    }
}

/// An alphabet character chosen uniformly: draws in the uneven tail are thrown away.
fn pick(alphabet: &Vec<char>) -> (r: Result<char, CoreError>)
    requires
        alphabet@ == ALPHABET@,
        alphabet@.len() == 57,
    ensures
        r.is_ok() ==> ALPHABET@.contains(r.unwrap()),
{
    let mut n: usize = 0;
    while n < MAX_DRAWS
        invariant
            alphabet@ == ALPHABET@,
            alphabet@.len() == 57,
        decreases MAX_DRAWS - n,
    {
        let v = match next_random_u32() {
            Ok(v) => v,
            Err(e) => return Err(CoreError::Io(e)),
        };
        match draw_char(v, alphabet) {
            Some(c) => return Ok(c),
            None => {},
        }
        n = n + 1;
    }
    Err(CoreError::Io(chars_to_string(lit("random source gave no usable value").as_slice())))
}

/// A generated password: 16 characters of the alphabet with lowercase, uppercase and digits.
pub open spec fn generated_ok(s: Seq<char>) -> bool {
    &&& s.len() == GENERATED_LEN
    &&& forall|i: int| 0 <= i < s.len() ==> ALPHABET@.contains(#[trigger] s[i])
    &&& classes_spec(s) == 3
}

/// A candidate of random characters becomes the password when it holds all three classes
/// (lowercase, uppercase, digits); otherwise it is drawn again.
pub fn accept_candidate(chars: &[char]) -> (r: Option<Secret>)
    ensures
        classes_spec(chars@) == 3 ==> (r matches Some(p) && p@ == chars@),
        classes_spec(chars@) != 3 ==> r is None,
{
    if classes(chars) == 3 {
        Some(Secret::from_string(chars_to_string(chars)))
    } else {
        None
    }
}

/// A random 16-character password from the system's cryptographic source, with all three
/// character classes.
pub fn generate() -> (r: Result<Secret, CoreError>)
    ensures
        r.is_ok() ==> generated_ok(r.unwrap()@),
{
    let alphabet = lit(ALPHABET);
    proof {
        reveal_strlit("abcdefghijkmnopqrstuvwxyzABCDEFGHJKLMNPQRSTUVWXYZ23456789");
    }
    assert(alphabet@.len() == 57);
    let mut attempt: usize = 0;
    while attempt < MAX_ATTEMPTS
        invariant
            alphabet@ == ALPHABET@,
            alphabet@.len() == 57,
        decreases MAX_ATTEMPTS - attempt,
    {
        let mut out: Vec<char> = Vec::new();
        let mut k: usize = 0;
        while k < GENERATED_LEN
            invariant
                alphabet@ == ALPHABET@,
                alphabet@.len() == 57,
                k <= GENERATED_LEN,
                out@.len() == k,
                forall|i: int| 0 <= i < out@.len() ==> ALPHABET@.contains(#[trigger] out@[i]),
            decreases GENERATED_LEN - k,
        {
            let c = pick(&alphabet)?;
            out.push(c);
            k = k + 1;
        }
        match accept_candidate(out.as_slice()) {
            Some(p) => return Ok(p),
            None => {},
        }
        attempt = attempt + 1;
    }
    Err(CoreError::Io(chars_to_string(lit("cannot generate a password").as_slice())))
}


/// Every character of `s` is of one class: all lowercase, all uppercase, all digits, or all
/// other characters.
pub open spec fn one_class(s: Seq<char>) -> bool {
    ||| forall|i: int| 0 <= i < s.len() ==> is_ascii_lower(#[trigger] s[i])
    ||| forall|i: int| 0 <= i < s.len() ==> is_ascii_upper(#[trigger] s[i])
    ||| forall|i: int| 0 <= i < s.len() ==> is_ascii_digit(#[trigger] s[i])
    ||| forall|i: int| 0 <= i < s.len() ==> !is_ascii_alnum(#[trigger] s[i])
}

/// A password of one character class is weak however long it is ("correcthorsebattery"):
/// at least 8 characters of a single class are rated `Weak`, never `Fair` or `Strong`.
pub proof fn lemma_one_class_is_weak(s: Seq<char>)
    requires
        s.len() >= MIN_LEN,
        one_class(s),
    ensures
        strength_spec(s) == Strength::Weak,
{
    let lo = |c: char| is_ascii_lower(c);
    let up = |c: char| is_ascii_upper(c);
    let dg = |c: char| is_ascii_digit(c);
    let ot = |c: char| !is_ascii_alnum(c);
    let n = (if has(s, lo) { 1nat } else { 0nat }) + (if has(s, up) { 1nat } else { 0nat }) + (
    if has(s, dg) {
        1nat
    } else {
        0nat
    }) + (if has(s, ot) {
        1nat
    } else {
        0nat
    });
    if forall|i: int| 0 <= i < s.len() ==> is_ascii_lower(#[trigger] s[i]) {
        assert(!(has(s, up)));
        assert(!(has(s, dg)));
        assert(!(has(s, ot)));
    } else if forall|i: int| 0 <= i < s.len() ==> is_ascii_upper(#[trigger] s[i]) {
        assert(!(has(s, lo)));
        assert(!(has(s, dg)));
        assert(!(has(s, ot)));
    } else if forall|i: int| 0 <= i < s.len() ==> is_ascii_digit(#[trigger] s[i]) {
        assert(!(has(s, lo)));
        assert(!(has(s, up)));
        assert(!(has(s, ot)));
    } else {
        assert(!(has(s, lo)));
        assert(!(has(s, up)));
        assert(!(has(s, dg)));
    }
    assert(classes_spec(s) == n);
    assert(classes_spec(s) < 2);
}

/// The length decides first: under 8 characters is too short, under 12 is weak whatever the
/// characters, and a strong password has at least 16; a common password inside (in any case)
/// makes it weak.
pub proof fn lemma_strength_bounds(s: Seq<char>)
    ensures
        s.len() < MIN_LEN ==> strength_spec(s) == Strength::TooShort,
        MIN_LEN <= s.len() < 12 ==> strength_spec(s) == Strength::Weak,
        strength_spec(s) == Strength::Strong ==> s.len() >= 16,
        s.len() >= MIN_LEN && contains(lowercase(s), "password"@) ==> strength_spec(s)
            == Strength::Weak,
{
    if s.len() >= MIN_LEN && contains(lowercase(s), "password"@) {
        assert(common_words()[0] == "password"@);
        assert(has_common_word(s));
    }
}

} // verus!
