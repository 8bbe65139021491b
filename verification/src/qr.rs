//! The Wi-Fi QR code: the `WIFI:` text and its drawing with half-block characters.

use vstd::prelude::*;
use crate::backend::Security;
use crate::secret::Secret;
use crate::text::{chars_to_string, lit, str_chars};
use vstd::string::StringSliceAdditionalSpecFns;

verus! {

broadcast use vstd::slice::group_slice_axioms;

/// Characters that the `WIFI:` format escapes with a backslash.
pub open spec fn special(c: char) -> bool {
    c == '\\' || c == ';' || c == ',' || c == ':' || c == '"'
}

pub open spec fn escape_spec(s: Seq<char>) -> Seq<char>
    decreases s.len(),
{
    if s.len() == 0 {
        seq![]
    } else {
        let p = escape_spec(s.drop_last());
        if special(s.last()) {
            p + seq!['\\', s.last()]
        } else {
            p.push(s.last())
        }
    }
}

fn escape_into(out: &mut Vec<char>, s: &[char])
    ensures
        final(out)@ == old(out)@ + escape_spec(s@),
{
    let ghost start = out@;
    let mut i: usize = 0;
    while i < s.len()
        invariant
            i <= s.len(),
            out@ == start + escape_spec(s@.take(i as int)),
        decreases s.len() - i,
    {
        let c = s[i];
        assert(s@.take(i + 1).drop_last() =~= s@.take(i as int));
        let ghost before = out@;
        if c == '\\' || c == ';' || c == ',' || c == ':' || c == '"' {
            out.push('\\');
        }
        out.push(c);
        assert(out@ =~= start + escape_spec(s@.take(i + 1)));
        i = i + 1;
    }
    assert(s@.take(s.len() as int) =~= s@);
}

/// Escapes the special characters of the `WIFI:` format (`\ ; , : "`).
pub fn escape(s: &str) -> (r: String)
    ensures
        r@ == escape_spec(s@),
{
    let cs = str_chars(s);
    let mut out: Vec<char> = Vec::new();
    escape_into(&mut out, cs.as_slice());
    assert(out@ =~= escape_spec(s@));
    chars_to_string(out.as_slice())
}

/// `WIFI:T:WPA;S:<ssid>;P:<password>;[H:true;];` (WPA3-Personal is announced as `WPA` too:
/// phones read it so).
pub open spec fn wifi_qr_spec(ssid: Seq<char>, psk: Seq<char>, hidden: bool) -> Seq<char> {
    "WIFI:T:WPA;S:"@ + escape_spec(ssid) + ";P:"@ + escape_spec(psk) + ";"@ + (if hidden {
        "H:true;"@
    } else {
        seq![]
    }) + ";"@
}

fn append_lit(out: &mut Vec<char>, s: &str)
    ensures
        final(out)@ == old(out)@ + s@,
{
    let mut v = lit(s);
    out.append(&mut v);
}

/// The text of the Wi-Fi QR code. It holds the password: never log it.
pub fn wifi_qr_string(ssid: &str, psk: &Secret, security: Security, hidden: bool) -> (r: Secret)
    ensures
        r@ == wifi_qr_spec(ssid@, psk@, hidden),
{
    let mut out: Vec<char> = Vec::new();
    let t = match security {
        Security::Wpa3 | Security::Wpa2 => "WPA",
    };
    append_lit(&mut out, "WIFI:T:");
    append_lit(&mut out, t);
    append_lit(&mut out, ";S:");
    let sc = str_chars(ssid);
    escape_into(&mut out, sc.as_slice());
    append_lit(&mut out, ";P:");
    let pc = str_chars(psk.expose());
    escape_into(&mut out, pc.as_slice());
    append_lit(&mut out, ";");
    if hidden {
        append_lit(&mut out, "H:true;");
    }
    append_lit(&mut out, ";");
    proof {
        reveal_strlit("WIFI:T:");
        reveal_strlit("WPA");
        reveal_strlit(";S:");
        reveal_strlit("WIFI:T:WPA;S:");
    }
    assert(out@ =~= wifi_qr_spec(ssid@, psk@, hidden));
    Secret::from_string(chars_to_string(out.as_slice()))
}

// ---------------------------------------------------------------------------------------
// The module matrix
// ---------------------------------------------------------------------------------------
/// The QR code that `qrcode::QrCode::with_error_correction_level(data, EcLevel::L)` builds
/// for `data`: its width in modules and its modules row by row (`true` is dark).
pub uninterp spec fn qr_code(data: Seq<u8>) -> Option<(usize, Seq<bool>)>;

/// Builds the QR code with the `qrcode` crate (error correction level L) and reads its
/// modules. The crate's source gives a width of at most 177 modules and a module list of
/// width × width entries; which modules are dark is that crate's business.
#[verifier::external_body]
fn qr_modules(data: &[u8]) -> (r: Option<(usize, Vec<bool>)>)
    ensures
        r.is_some() == qr_code(data@).is_some(),
        r.is_some() ==> (r.unwrap().0, r.unwrap().1@) == qr_code(data@).unwrap(),
        r.is_some() ==> r.unwrap().0 <= 177 && r.unwrap().1@.len() == r.unwrap().0 * r.unwrap().0,
{
    let code = qrcode::QrCode::with_error_correction_level(data, qrcode::EcLevel::L).ok()?;
    let colors = code.to_colors();
    Some((code.width(), colors.into_iter().map(|c| c == qrcode::Color::Dark).collect()))
}

/// The module matrix with `quiet` light modules on every side.
pub open spec fn framed(w: nat, cells: Seq<bool>, quiet: nat) -> Seq<Seq<bool>> {
    let size = w + 2 * quiet;
    Seq::new(
        size,
        |y: int|
            Seq::new(
                size,
                |x: int|
                    quiet <= y < quiet + w && quiet <= x < quiet + w && cells[(y - quiet) * w + (x
                        - quiet)],
            ),
    )
}

pub open spec fn rows_view(m: Seq<Vec<bool>>) -> Seq<Seq<bool>> {
    m.map_values(|r: Vec<bool>| r@)
}

/// Places the `w`×`w` modules `cells` in a square with a light border of `quiet` modules.
pub fn frame_modules(w: usize, cells: &Vec<bool>, quiet: usize) -> (m: Vec<Vec<bool>>)
    requires
        cells@.len() == w * w,
        w <= 177,
        quiet <= 0x1000_0000,
    ensures
        rows_view(m@) == framed(w as nat, cells@, quiet as nat),
{
    let size = w + quiet * 2;
    let mut m: Vec<Vec<bool>> = Vec::new();
    let mut y: usize = 0;
    while y < size
        invariant
            size == w + quiet * 2,
            cells@.len() == w * w,
            w <= 177,
            quiet <= 0x1000_0000,
            y <= size,
            m@.len() == y,
            forall|k: int| 0 <= k < y ==> (#[trigger] m@[k])@ == framed(w as nat, cells@, quiet as nat)[k],
        decreases size - y,
    {
        let mut row: Vec<bool> = Vec::new();
        let mut x: usize = 0;
        while x < size
            invariant
                size == w + quiet * 2,
                cells@.len() == w * w,
                w <= 177,
                quiet <= 0x1000_0000,
                y < size,
                x <= size,
                row@.len() == x,
                forall|k: int| 0 <= k < x ==> #[trigger] row@[k] == framed(w as nat, cells@, quiet as nat)[y as int][k],
            decreases size - x,
        {
            let dark = if quiet <= y && y < quiet + w && quiet <= x && x < quiet + w {
                let (yy, xx) = (y - quiet, x - quiet);
                assert(yy * w + xx < w * w && w * w <= 31329) by (nonlinear_arith)
                    requires
                        yy < w,
                        xx < w,
                        w <= 177,
                ;
                cells[yy * w + xx]
            } else {
                false
            };
            row.push(dark);
            x = x + 1;
        }
        assert(row@ =~= framed(w as nat, cells@, quiet as nat)[y as int]);
        m.push(row);
        y = y + 1;
    }
    assert(rows_view(m@) =~= framed(w as nat, cells@, quiet as nat));
    m
}

/// The QR matrix of `data` (`true` is dark) with a quiet zone of `quiet` modules on every
/// side. Error correction L keeps the code small enough for a terminal.
pub fn matrix(data: &str, quiet: usize) -> (r: Option<Vec<Vec<bool>>>)
    requires
        quiet <= 0x1000_0000,
    ensures
        r.is_some() == qr_code(data.spec_bytes()).is_some(),
        r.is_some() ==> rows_view(r.unwrap()@) == framed(
            qr_code(data.spec_bytes()).unwrap().0 as nat,
            qr_code(data.spec_bytes()).unwrap().1,
            quiet as nat,
        ),
{
    match qr_modules(data.as_bytes()) {
        Some((w, cells)) => Some(frame_modules(w, &cells, quiet)),
        None => None,
    }
}

// ---------------------------------------------------------------------------------------
/// One half-block character for a top and a bottom module.
pub open spec fn block_char(top: bool, bottom: bool) -> char {
    if top && bottom {
        '█'
    } else if top {
        '▀'
    } else if bottom {
        '▄'
    } else {
        ' '
    }
}

/// Line `i` of the half-block drawing: rows `2i` and `2i + 1` (a missing bottom row is light).
pub open spec fn half_block_line(m: Seq<Seq<bool>>, i: int) -> Seq<char> {
    let top = m[2 * i];
    Seq::new(
        top.len(),
        |x: int| block_char(top[x], 2 * i + 1 < m.len() && m[2 * i + 1][x]),
    )
}

pub open spec fn half_block_lines(m: Seq<Seq<bool>>) -> Seq<Seq<char>> {
    Seq::new((m.len() + 1) / 2, |i: int| half_block_line(m, i))
}

/// Each bottom row is at least as long as the top row it is drawn with.
pub open spec fn pairs_fit(m: Seq<Seq<bool>>) -> bool {
    forall|i: int| 0 <= i && 2 * i + 1 < m.len() ==> #[trigger] m[2 * i + 1].len() >= m[2 * i].len()
}

fn block_char_exec(top: bool, bottom: bool) -> (c: char)
    ensures
        c == block_char(top, bottom),
{
    if top && bottom {
        '█'
    } else if top {
        '▀'
    } else if bottom {
        '▄'
    } else {
        ' '
    }
}

/// Lines of half blocks: one character shows two modules, one above the other.
pub fn half_blocks(m: &[Vec<bool>]) -> (out: Vec<String>)
    requires
        pairs_fit(rows_view(m@)),
    ensures
        out@.len() == half_block_lines(rows_view(m@)).len(),
        forall|i: int| 0 <= i < out@.len() ==> (#[trigger] out@[i])@ == half_block_lines(rows_view(m@))[i],
{
    let ghost mv = rows_view(m@);
    let lines = m.len() / 2 + m.len() % 2;
    let mut out: Vec<String> = Vec::new();
    let mut j: usize = 0;
    while j < lines
        invariant
            mv == rows_view(m@),
            pairs_fit(mv),
            lines == (mv.len() + 1) / 2,
            lines == m.len() / 2 + m.len() % 2,
            j <= lines,
            out@.len() == j,
            forall|k: int| 0 <= k < out@.len() ==> (#[trigger] out@[k])@ == half_block_line(mv, k),
        decreases lines - j,
    {
        assert(2 * j < m.len()) by (nonlinear_arith)
            requires
                j < lines,
                lines == m.len() / 2 + m.len() % 2,
        ;
        let i = 2 * j;
        let top = &m[i];
        let has_bottom = i + 1 < m.len();
        if has_bottom {
            assert(mv[2 * (j as int) + 1].len() >= mv[2 * (j as int)].len());
        }
        let mut line: Vec<char> = Vec::new();
        let mut x: usize = 0;
        while x < top.len()
            invariant
                mv == rows_view(m@),
                i == 2 * j,
                i < m.len(),
                has_bottom == (i + 1 < m.len()),
                has_bottom ==> m@[i + 1]@.len() >= top@.len(),
                top@ == mv[i as int],
                x <= top.len(),
                line@.len() == x,
                forall|k: int| 0 <= k < x ==> #[trigger] line@[k] == half_block_line(mv, j as int)[k],
            decreases top.len() - x,
        {
            let b = has_bottom && m[i + 1][x];
            line.push(block_char_exec(top[x], b));
            x = x + 1;
        }
        assert(line@ =~= half_block_line(mv, j as int));
        out.push(chars_to_string(line.as_slice()));
        j = j + 1;
    }
    out
}

} // verus!
