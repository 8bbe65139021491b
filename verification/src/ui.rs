//! Text helpers of the window and the command line: cutting and padding columns, wrapping
//! hints and messages, the uptime clock, the spinner, hotkeys and cleaned log lines.

use vstd::prelude::*;
use crate::num::{decimal, decimal2, decimal_chars, decimal2_chars};
use crate::text::{
    chars_to_string, is_control, is_control_exec, filter_map, find_exec, lemma_filter_map_all,
    lemma_filter_map_member,
    lemma_filter_map_step, lemma_split_once_at, occurs_at, seqs, slice_of, split_once, split_words,
    str_chars, strings_of, strs, words, ascii_lower, ascii_lower_exec,
};

verus! {

broadcast use vstd::slice::group_slice_axioms;

// ---------------------------------------------------------------------------------------
// Columns
// ---------------------------------------------------------------------------------------
/// The first `max` characters (all of them when there are fewer).
pub open spec fn head(s: Seq<char>, max: nat) -> Seq<char> {
    if s.len() <= max {
        s
    } else {
        s.take(max as int)
    }
}

/// Cuts a text to `max` characters (for output columns).
pub fn truncate_chars(text: &str, max: usize) -> (r: String)
    ensures
        r@ == head(text@, max as nat),
{
    let cs = str_chars(text);
    let n = if cs.len() <= max {
        cs.len()
    } else {
        max
    };
    let h = slice_of(cs.as_slice(), 0, n);
    assert(cs.len() <= max ==> h@ =~= cs@);
    chars_to_string(h.as_slice())
}

/// Cut to `width` characters, then padded with spaces to exactly `width`.
pub open spec fn padded(s: Seq<char>, width: nat) -> Seq<char> {
    let h = head(s, width);
    h + Seq::new((width - h.len()) as nat, |i: int| ' ')
}

pub fn pad(text: &str, width: usize) -> (r: String)
    ensures
        r@ == padded(text@, width as nat),
        r@.len() == width,
{
    let cs = str_chars(text);
    let n = if cs.len() <= width {
        cs.len()
    } else {
        width
    };
    let mut out = slice_of(cs.as_slice(), 0, n);
    assert(cs.len() <= width ==> out@ =~= cs@);
    let ghost h = out@;
    let mut k: usize = n;
    while k < width
        invariant
            n <= k <= width,
            h.len() == n,
            out@ == h + Seq::new((k - n) as nat, |i: int| ' '),
        decreases width - k,
    {
        out.push(' ');
        assert(out@ =~= h + Seq::new((k + 1 - n) as nat, |i: int| ' '));
        k = k + 1;
    }
    assert(out@ =~= padded(text@, width as nat));
    chars_to_string(out.as_slice())
}

// ---------------------------------------------------------------------------------------
// Wrapping
// ---------------------------------------------------------------------------------------
/// One word more: it joins the last line after a space when it fits in `width`, else it
/// starts a new line.
pub open spec fn word_step(lines: Seq<Seq<char>>, word: Seq<char>, width: nat) -> Seq<Seq<char>> {
    if lines.len() > 0 && lines.last().len() + 1 + word.len() <= width {
        lines.update(lines.len() - 1, lines.last() + seq![' '] + word)
    } else {
        lines.push(word)
    }
}

pub open spec fn wrap_fold(ws: Seq<Seq<char>>, width: nat) -> Seq<Seq<char>>
    decreases ws.len(),
{
    if ws.len() == 0 {
        seq![]
    } else {
        word_step(wrap_fold(ws.drop_last(), width), ws.last(), width)
    }
}

/// Word wrap by character count (a zero width counts as one); a word longer than a line is
/// not cut.
pub open spec fn wrapped_words(text: Seq<char>, width: nat) -> Seq<Seq<char>> {
    wrap_fold(words(text), if width == 0 { 1 } else { width })
}

/// A wrapped line fits the width, unless it is one word that is longer than a line.
pub proof fn lemma_wrap_fits(ws: Seq<Seq<char>>, width: nat)
    ensures
        forall|i: int|
            0 <= i < wrap_fold(ws, width).len() ==> (#[trigger] wrap_fold(ws, width)[i]).len() <= width
                || ws.contains(wrap_fold(ws, width)[i]),
    decreases ws.len(),
{
    if ws.len() > 0 {
        lemma_wrap_fits(ws.drop_last(), width);
        let p = wrap_fold(ws.drop_last(), width);
        let r = wrap_fold(ws, width);
        assert forall|i: int| 0 <= i < r.len() implies (#[trigger] r[i]).len() <= width
            || ws.contains(r[i]) by {
            if i < p.len() && !(p.len() > 0 && p.last().len() + 1 + ws.last().len() <= width
                && i == p.len() - 1) {
                assert(r[i] == p[i]);
                if !(p[i].len() <= width) {
                    let k = choose|k: int| 0 <= k < ws.drop_last().len() && ws.drop_last()[k] == p[i];
                    assert(ws[k] == p[i]);
                }
            } else if i == p.len() {
                assert(r[i] == ws.last());
                assert(ws[ws.len() - 1] == ws.last());
            }
        }
    }
}

/// The next line starts with a word of the text that did not fit after line `i`.
pub open spec fn next_word_did_not_fit(ws: Seq<Seq<char>>, lines: Seq<Seq<char>>, width: nat, i: int) -> bool {
    exists|w: Seq<char>|
        #[trigger] ws.contains(w) && w.len() <= lines[i + 1].len() && lines[i + 1].take(w.len() as int) == w
            && lines[i].len() + 1 + w.len() > width
}

/// Wrapping is greedy: no line could have taken the first word of the line after it.
pub proof fn lemma_wrap_greedy(ws: Seq<Seq<char>>, width: nat)
    ensures
        forall|i: int|
            0 <= i < wrap_fold(ws, width).len() - 1 ==> #[trigger] next_word_did_not_fit(
                ws,
                wrap_fold(ws, width),
                width,
                i,
            ),
    decreases ws.len(),
{
    if ws.len() > 0 {
        let q = ws.drop_last();
        lemma_wrap_greedy(q, width);
        let p = wrap_fold(q, width);
        let r = wrap_fold(ws, width);
        let word = ws.last();
        assert(ws.contains(word)) by {
            assert(ws[ws.len() - 1] == word);
        }
        assert forall|i: int| 0 <= i < r.len() - 1 implies #[trigger] next_word_did_not_fit(
            ws,
            r,
            width,
            i,
        ) by {
            if p.len() > 0 && p.last().len() + 1 + word.len() <= width {
                // The word joined the last line: earlier pairs are as before, and the last
                // line still starts with its first word.
                assert(next_word_did_not_fit(q, p, width, i));
                let w = choose|w: Seq<char>|
                    #[trigger] q.contains(w) && w.len() <= p[i + 1].len() && p[i + 1].take(w.len() as int)
                        == w && p[i].len() + 1 + w.len() > width;
                let k = choose|k: int| 0 <= k < q.len() && q[k] == w;
                assert(ws[k] == w);
                assert(ws.contains(w));
                assert(r[i] == p[i]);
                if i + 1 == p.len() - 1 {
                    assert(r[i + 1] == p.last() + seq![' '] + word);
                    assert(r[i + 1].take(w.len() as int) =~= p[i + 1].take(w.len() as int));
                } else {
                    assert(r[i + 1] == p[i + 1]);
                }
                assert(w.len() <= r[i + 1].len() && r[i + 1].take(w.len() as int) == w
                    && r[i].len() + 1 + w.len() > width);
            } else {
                // The word started a new line.
                assert(r == p.push(word));
                if i == p.len() - 1 {
                    assert(r[i + 1] == word);
                    assert(r[i] == p.last());
                    assert(word.take(word.len() as int) =~= word);
                    assert(word.len() <= r[i + 1].len() && r[i + 1].take(word.len() as int) == word
                        && r[i].len() + 1 + word.len() > width);
                } else {
                    assert(next_word_did_not_fit(q, p, width, i));
                    let w = choose|w: Seq<char>|
                        #[trigger] q.contains(w) && w.len() <= p[i + 1].len() && p[i + 1].take(
                            w.len() as int,
                        ) == w && p[i].len() + 1 + w.len() > width;
                    let k = choose|k: int| 0 <= k < q.len() && q[k] == w;
                    assert(ws[k] == w);
                    assert(ws.contains(w));
                    assert(r[i] == p[i] && r[i + 1] == p[i + 1]);
                    assert(w.len() <= r[i + 1].len() && r[i + 1].take(w.len() as int) == w
                        && r[i].len() + 1 + w.len() > width);
                }
            }
        }
    }
}

/// Adds `extra` to the end of the last line.
fn extend_last(lines: &mut Vec<Vec<char>>, extra: &[char])
    requires
        old(lines)@.len() > 0,
    ensures
        seqs(final(lines)@) == seqs(old(lines)@).update(
            old(lines)@.len() - 1,
            seqs(old(lines)@).last() + extra@,
        ),
{
    let ghost before = seqs(lines@);
    let mut last = lines.pop().unwrap();
    let mut e = slice_of(extra, 0, extra.len());
    assert(e@ =~= extra@);
    last.append(&mut e);
    lines.push(last);
    assert(seqs(lines@) =~= before.update(before.len() - 1, before.last() + extra@));
}

/// One word more (see `word_step`).
fn word_line(lines: &mut Vec<Vec<char>>, word: &[char], w: usize)
    ensures
        seqs(final(lines)@) == word_step(seqs(old(lines)@), word@, w as nat),
{
    let n = lines.len();
    let ghost before = seqs(lines@);
    if n > 0 && lines[n - 1].len() < w && word.len() <= w - lines[n - 1].len() - 1 {
        let mut extra: Vec<char> = Vec::new();
        extra.push(' ');
        let mut wc = slice_of(word, 0, word.len());
        assert(wc@ =~= word@);
        extra.append(&mut wc);
        assert(extra@ =~= seq![' '] + word@);
        assert(before.last() == lines@[n - 1]@);
        extend_last(lines, extra.as_slice());
        assert(before.last() + extra@ =~= before.last() + seq![' '] + word@);
    } else {
        let wc = slice_of(word, 0, word.len());
        assert(wc@ =~= word@);
        lines.push(wc);
        assert(seqs(lines@) =~= before.push(word@));
    }
}

fn wrap_lines(text: &[char], width: usize) -> (out: Vec<Vec<char>>)
    ensures
        seqs(out@) == wrapped_words(text@, width as nat),
{
    let w: usize = if width == 0 {
        1
    } else {
        width
    };
    let ws = split_words(text);
    let ghost wv = seqs(ws@);
    let mut lines: Vec<Vec<char>> = Vec::new();
    let mut i: usize = 0;
    while i < ws.len()
        invariant
            i <= ws@.len(),
            wv == seqs(ws@),
            wv == words(text@),
            w == (if width == 0 { 1 } else { width }),
            seqs(lines@) == wrap_fold(wv.take(i as int), w as nat),
        decreases ws.len() - i,
    {
        assert(wv.take(i + 1).drop_last() =~= wv.take(i as int));
        assert(wv[i as int] == ws@[i as int]@);
        word_line(&mut lines, ws[i].as_slice(), w);
        i = i + 1;
    }
    assert(wv.take(ws.len() as int) =~= wv);
    lines
}

/// Simple word wrap by character count; a word longer than the line is not cut.
pub fn wrap_words(text: &str, width: usize) -> (out: Vec<String>)
    ensures
        strs(out@) == wrapped_words(text@, width as nat),
{
    let cs = str_chars(text);
    let lines = wrap_lines(cs.as_slice(), width);
    strings_of(&lines)
}

/// The separator between the key–action pairs of the hint line.
pub open spec fn hint_sep() -> Seq<char> {
    seq![' ', '\u{b7}', ' ']
}

/// `str::split` with a string pattern, given enough steps (`fuel`).
pub open spec fn split_pieces(s: Seq<char>, p: Seq<char>, fuel: nat) -> Seq<Seq<char>>
    decreases fuel,
{
    if fuel == 0 {
        seq![s]
    } else {
        match split_once(s, p) {
            Some((a, rest)) => seq![a] + split_pieces(rest, p, (fuel - 1) as nat),
            None => seq![s],
        }
    }
}

/// `str::split` with a non-empty string pattern: the pieces between its occurrences.
pub open spec fn split_str(s: Seq<char>, p: Seq<char>) -> Seq<Seq<char>> {
    split_pieces(s, p, s.len() + 1)
}

/// More steps than pieces change nothing.
proof fn lemma_split_pieces_enough(s: Seq<char>, p: Seq<char>, fuel: nat)
    requires
        p.len() > 0,
        fuel >= s.len() + 1,
    ensures
        split_pieces(s, p, fuel) == split_pieces(s, p, s.len() + 1),
    decreases s.len(),
{
    match split_once(s, p) {
        Some((a, rest)) => {
            crate::text::lemma_first_occurrence(s, p);
            let i = choose|i: int| occurs_at(s, p, i) && forall|k: int| 0 <= k < i ==> !occurs_at(s, p, k);
            lemma_split_once_at(s, p, i);
            assert(rest.len() < s.len());
            lemma_split_pieces_enough(rest, p, (fuel - 1) as nat);
            lemma_split_pieces_enough(rest, p, s.len() as nat);
        },
        None => {},
    }
}

proof fn lemma_split_step(rest: Seq<char>, p: Seq<char>, fuel: nat, i: int)
    requires
        p.len() > 0,
        fuel >= rest.len() + 1,
        occurs_at(rest, p, i),
        forall|k: int| 0 <= k < i ==> !occurs_at(rest, p, k),
    ensures
        split_pieces(rest, p, fuel) == seq![rest.take(i)] + split_pieces(
            rest.skip(i + p.len()),
            p,
            (fuel - 1) as nat,
        ),
        rest.skip(i + p.len()).len() < rest.len(),
{
    lemma_split_once_at(rest, p, i);
}

proof fn lemma_push_then_add(a: Seq<Seq<char>>, x: Seq<char>, b: Seq<Seq<char>>)
    ensures
        a.push(x) + b == a + (seq![x] + b),
{
    assert(a.push(x) + b =~= a + (seq![x] + b));
}

#[verifier::spinoff_prover]
#[verifier::rlimit(30)]
fn split_by(s: &[char], p: &[char]) -> (out: Vec<Vec<char>>)
    requires
        p@.len() > 0,
    ensures
        seqs(out@) == split_str(s@, p@),
{
    let mut pieces: Vec<Vec<char>> = Vec::new();
    let mut rest = slice_of(s, 0, s.len());
    assert(rest@ =~= s@);
    let ghost mut fuel: nat = (s@.len() + 1) as nat;
    while true
        invariant
            p@.len() > 0,
            fuel >= rest@.len() + 1,
            seqs(pieces@) + split_pieces(rest@, p@, fuel) == split_str(s@, p@),
        decreases rest@.len(),
    {
        match find_exec(rest.as_slice(), p) {
            Some(i) => {
                assert(i + p.len() <= rest.len());
                let a = slice_of(rest.as_slice(), 0, i);
                let r2 = slice_of(rest.as_slice(), i + p.len(), rest.len());
                proof {
                    lemma_split_step(rest@, p@, fuel, i as int);
                    assert(a@ =~= rest@.take(i as int));
                    assert(r2@ =~= rest@.skip(i + p@.len()));
                    lemma_push_then_add(seqs(pieces@), a@, split_pieces(r2@, p@, (fuel - 1) as nat));
                }
                let ghost before = seqs(pieces@);
                pieces.push(a);
                assert(seqs(pieces@) =~= before.push(a@));
                rest = r2;
                proof {
                    fuel = (fuel - 1) as nat;
                }
            },
            None => {
                let ghost before = seqs(pieces@);
                assert(split_pieces(rest@, p@, fuel) == seq![rest@]);
                pieces.push(rest);
                assert(seqs(pieces@) =~= before + seq![rest@]);
                return pieces;
            },
        }
    }
    pieces
}

/// One hint segment more: it joins the last line after ` · ` when it fits in `width`; a
/// segment longer than a line is word-wrapped; otherwise it starts a new line.
pub open spec fn seg_step(lines: Seq<Seq<char>>, seg: Seq<char>, width: nat) -> Seq<Seq<char>> {
    if lines.len() > 0 && lines.last().len() + 3 + seg.len() <= width {
        lines.update(lines.len() - 1, lines.last() + hint_sep() + seg)
    } else if seg.len() > width {
        lines + wrapped_words(seg, width)
    } else {
        lines.push(seg)
    }
}

pub open spec fn seg_fold(segs: Seq<Seq<char>>, width: nat) -> Seq<Seq<char>>
    decreases segs.len(),
{
    if segs.len() == 0 {
        seq![]
    } else {
        seg_step(seg_fold(segs.drop_last(), width), segs.last(), width)
    }
}

/// The hint line wrapped only between its key–action pairs.
pub open spec fn wrapped_segments(text: Seq<char>, width: nat) -> Seq<Seq<char>> {
    seg_fold(split_str(text, hint_sep()), width)
}

/// One hint segment more (see `seg_step`).
fn seg_line(lines: &mut Vec<Vec<char>>, seg: &[char], width: usize)
    ensures
        seqs(final(lines)@) == seg_step(seqs(old(lines)@), seg@, width as nat),
{
    let n = lines.len();
    let ghost before = seqs(lines@);
    if n > 0 && lines[n - 1].len() <= width && 3 <= width - lines[n - 1].len() && seg.len() <= width
        - lines[n - 1].len() - 3 {
        let mut extra: Vec<char> = Vec::new();
        extra.push(' ');
        extra.push('\u{b7}');
        extra.push(' ');
        let mut sc = slice_of(seg, 0, seg.len());
        assert(sc@ =~= seg@);
        extra.append(&mut sc);
        assert(extra@ =~= hint_sep() + seg@);
        assert(before.last() == lines@[n - 1]@);
        extend_last(lines, extra.as_slice());
        assert(before.last() + extra@ =~= before.last() + hint_sep() + seg@);
    } else if seg.len() > width {
        let mut more = wrap_lines(seg, width);
        let ghost mv = seqs(more@);
        lines.append(&mut more);
        assert(seqs(lines@) =~= before + mv);
    } else {
        let sc = slice_of(seg, 0, seg.len());
        assert(sc@ =~= seg@);
        lines.push(sc);
        assert(seqs(lines@) =~= before.push(seg@));
    }
}

/// Wraps the hint line (`Space on/off · e edit · …`) only between key–action pairs.
#[verifier::spinoff_prover]
#[verifier::rlimit(30)]
pub fn wrap_segments(text: &str, width: usize) -> (out: Vec<String>)
    ensures
        strs(out@) == wrapped_segments(text@, width as nat),
{
    let cs = str_chars(text);
    let mut sep: Vec<char> = Vec::new();
    sep.push(' ');
    sep.push('\u{b7}');
    sep.push(' ');
    assert(sep@ =~= hint_sep());
    let segs = split_by(cs.as_slice(), sep.as_slice());
    let ghost sv = seqs(segs@);
    let mut lines: Vec<Vec<char>> = Vec::new();
    let mut i: usize = 0;
    while i < segs.len()
        invariant
            i <= segs@.len(),
            sv == seqs(segs@),
            sv == split_str(text@, hint_sep()),
            seqs(lines@) == seg_fold(sv.take(i as int), width as nat),
        decreases segs.len() - i,
    {
        assert(sv.take(i + 1).drop_last() =~= sv.take(i as int));
        assert(sv[i as int] == segs@[i as int]@);
        seg_line(&mut lines, segs[i].as_slice(), width);
        i = i + 1;
    }
    assert(sv.take(segs.len() as int) =~= sv);
    strings_of(&lines)
}

// ---------------------------------------------------------------------------------------
// Clock and spinner
// ---------------------------------------------------------------------------------------
/// `h:mm:ss`: right after start "0 h 0 min" looked as if the clock had stopped.
pub open spec fn uptime_text(secs: nat) -> Seq<char> {
    decimal(secs / 3600) + seq![':'] + decimal2((secs / 60) % 60) + seq![':'] + decimal2(secs % 60)
}

pub fn format_uptime(secs: u64) -> (r: String)
    ensures
        r@ == uptime_text(secs as nat),
{
    let mut v = decimal_chars(secs / 3600);
    v.push(':');
    let mut m = decimal2_chars((secs / 60) % 60);
    v.append(&mut m);
    v.push(':');
    let mut s = decimal2_chars(secs % 60);
    v.append(&mut s);
    assert(v@ =~= uptime_text(secs as nat));
    chars_to_string(v.as_slice())
}

/// The ten frames of the busy spinner.
pub open spec fn spinner_frame(i: nat) -> char {
    if i == 0 {
        '⠋'
    } else if i == 1 {
        '⠙'
    } else if i == 2 {
        '⠹'
    } else if i == 3 {
        '⠸'
    } else if i == 4 {
        '⠼'
    } else if i == 5 {
        '⠴'
    } else if i == 6 {
        '⠦'
    } else if i == 7 {
        '⠧'
    } else if i == 8 {
        '⠇'
    } else {
        '⠏'
    }
}

pub fn spinner_char(tick: usize) -> (c: char)
    ensures
        c == spinner_frame((tick % 10) as nat),
{
    let i = tick % 10;
    if i == 0 {
        '⠋'
    } else if i == 1 {
        '⠙'
    } else if i == 2 {
        '⠹'
    } else if i == 3 {
        '⠸'
    } else if i == 4 {
        '⠼'
    } else if i == 5 {
        '⠴'
    } else if i == 6 {
        '⠦'
    } else if i == 7 {
        '⠧'
    } else if i == 8 {
        '⠇'
    } else {
        '⠏'
    }
}

// ---------------------------------------------------------------------------------------
// Keys and log lines
// ---------------------------------------------------------------------------------------
/// The hotkey letter of a typed character: capitals count as small letters, and the keys of
/// a Russian or Ukrainian layout give the Latin letter on the same key ("у" is "e", "з" is
/// "p", "п" is "g", "й" is "q", and so on).
pub open spec fn hotkey_of(c: char) -> char {
    if c == 'й' || c == 'Й' {
        'q'
    } else if c == 'у' || c == 'У' {
        'e'
    } else if c == 'з' || c == 'З' {
        'p'
    } else if c == 'п' || c == 'П' {
        'g'
    } else if c == 'с' || c == 'С' {
        'c'
    } else if c == 'ы' || c == 'Ы' || c == 'і' || c == 'І' {
        's'
    } else if c == 'и' || c == 'И' {
        'b'
    } else if c == 'л' || c == 'Л' {
        'k'
    } else if c == 'ф' || c == 'Ф' {
        'a'
    } else if c == 'щ' || c == 'Щ' {
        'o'
    } else {
        ascii_lower(c)
    }
}

pub fn hotkey(c: char) -> (r: char)
    ensures
        r == hotkey_of(c),
{
    match c {
        'й' | 'Й' => 'q',
        'у' | 'У' => 'e',
        'з' | 'З' => 'p',
        'п' | 'П' => 'g',
        'с' | 'С' => 'c',
        'ы' | 'Ы' | 'і' | 'І' => 's',
        'и' | 'И' => 'b',
        'л' | 'Л' => 'k',
        'ф' | 'Ф' => 'a',
        'щ' | 'Щ' => 'o',
        other => ascii_lower_exec(other),
    }
}

/// Invisible and direction-turning characters of a log line.
pub open spec fn log_invisible(c: char) -> bool {
    ('\u{200b}' <= c <= '\u{200f}') || ('\u{202a}' <= c <= '\u{202e}') || ('\u{2066}' <= c
        <= '\u{2069}') || c == '\u{feff}'
}

/// A log line as shown: invisible characters dropped, control characters as spaces.
pub open spec fn cleaned_line(s: Seq<char>) -> Seq<char> {
    filter_map(
        s,
        |c: char|
            if log_invisible(c) {
                None
            } else if is_control(c) {
                Some(' ')
            } else {
                Some(c)
            },
    )
}

/// A cleaned log line holds neither control nor invisible characters: it cannot move the
/// cursor, ring, or turn the text's direction.
pub proof fn lemma_cleaned_is_plain(s: Seq<char>)
    ensures
        forall|i: int|
            0 <= i < cleaned_line(s).len() ==> !is_control(#[trigger] cleaned_line(s)[i])
                && !log_invisible(cleaned_line(s)[i]),
{
    let f = |c: char|
        if log_invisible(c) {
            None
        } else if is_control(c) {
            Some(' ')
        } else {
            Some(c)
        };
    assert(cleaned_line(s) == filter_map(s, f));
    assert forall|i: int| 0 <= i < cleaned_line(s).len() implies !is_control(
        #[trigger] cleaned_line(s)[i],
    ) && !log_invisible(cleaned_line(s)[i]) by {
        lemma_filter_map_member(s, f, i);
    }
}

pub fn clean_line(line: &str) -> (r: String)
    ensures
        r@ == cleaned_line(line@),
{
    let cs = str_chars(line);
    let ghost f = |c: char|
        if log_invisible(c) {
            None
        } else if is_control(c) {
            Some(' ')
        } else {
            Some(c)
        };
    let mut out: Vec<char> = Vec::new();
    let mut i: usize = 0;
    while i < cs.len()
        invariant
            i <= cs@.len(),
            cs@ == line@,
            f == (|c: char|
                if log_invisible(c) {
                    None
                } else if is_control(c) {
                    Some(' ')
                } else {
                    Some(c)
                }),
            out@ == filter_map(cs@.take(i as int), f),
        decreases cs.len() - i,
    {
        proof {
            lemma_filter_map_step(cs@, f, i as int);
        }
        let c = cs[i];
        let invisible = ('\u{200b}' <= c && c <= '\u{200f}') || ('\u{202a}' <= c && c <= '\u{202e}')
            || ('\u{2066}' <= c && c <= '\u{2069}') || c == '\u{feff}';
        if !invisible {
            if is_control_exec(c) {
                out.push(' ');
            } else {
                out.push(c);
            }
        }
        i = i + 1;
    }
    proof {
        lemma_filter_map_all(cs@, f);
    }
    chars_to_string(out.as_slice())
}

// ---------------------------------------------------------------------------------------
// Where the QR code goes in the simple mode
// ---------------------------------------------------------------------------------------
/// The left column is not narrower than this; otherwise the QR code goes below or over.
pub const LEFT_MIN_WIDTH: u16 = 40;

/// The height of the traffic block.
pub const TRAFFIC_HEIGHT: u16 = 3;

/// A block's frame, top and bottom.
pub const BLOCK_V: u16 = 2;

#[derive(Debug, Clone, Copy, PartialEq, Eq, Structural)]
pub enum QrPlace {
    /// Not asked for (or the hotspot is off).
    Hidden,
    Right,
    Below,
    /// No room beside the blocks: over the window.
    Overlay,
}

/// Where the QR code box (`qr_w` × `qr_h`) fits in an area of `area_w` × `area_h` with
/// `hint_lines` lines of key hints at the bottom: to the right of a left column at least
/// `LEFT_MIN_WIDTH` wide; else below, if the status (`status_lines` lines), the traffic and
/// one device line still fit above it; else over the window.
pub open spec fn qr_place_spec(
    wanted: bool,
    qr_w: u16,
    qr_h: u16,
    area_w: u16,
    area_h: u16,
    hint_lines: u16,
    status_lines: u16,
) -> QrPlace {
    if !wanted {
        QrPlace::Hidden
    } else {
        let content_h = if area_h >= hint_lines {
            area_h - hint_lines
        } else {
            0
        };
        if area_w > qr_w + LEFT_MIN_WIDTH && content_h >= qr_h {
            QrPlace::Right
        } else if area_w >= qr_w && content_h >= qr_h + status_lines + BLOCK_V + TRAFFIC_HEIGHT
            + BLOCK_V + 1 {
            QrPlace::Below
        } else {
            QrPlace::Overlay
        }
    }
}

pub fn qr_place(
    wanted: bool,
    qr_w: u16,
    qr_h: u16,
    area_w: u16,
    area_h: u16,
    hint_lines: u16,
    status_lines: u16,
) -> (r: QrPlace)
    ensures
        r == qr_place_spec(wanted, qr_w, qr_h, area_w, area_h, hint_lines, status_lines),
{
    if !wanted {
        return QrPlace::Hidden;
    }
    let content_h: u32 = if area_h >= hint_lines {
        (area_h - hint_lines) as u32
    } else {
        0
    };
    if area_w as u32 > qr_w as u32 + LEFT_MIN_WIDTH as u32 && content_h >= qr_h as u32 {
        return QrPlace::Right;
    }
    let above: u32 = status_lines as u32 + BLOCK_V as u32 + TRAFFIC_HEIGHT as u32 + BLOCK_V as u32 + 1;
    if area_w >= qr_w && content_h >= qr_h as u32 + above {
        return QrPlace::Below;
    }
    QrPlace::Overlay
}

} // verus!
