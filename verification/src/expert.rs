//! The output under the expert settings: the end of the log (scrolled back page by page), or
//! the system check with its advice, cut to the rows there are. Which lines show is decided
//! here; the window only colours them.

use vstd::prelude::*;
use crate::doctor::{Check, Status};
use crate::text::{chars_to_string, str_chars, strs};
use crate::ui::{head, spinner_char, spinner_frame, truncate_chars, wrap_words, wrapped_words};

verus! {

broadcast use vstd::slice::group_slice_axioms;

/// What the expert section shows below its settings.
pub enum ExpertOutput {
    Empty,
    Loading,
    /// The log, oldest line first.
    Log(Vec<String>),
    Doctor(Vec<Check>),
}

/// One line of the output.
pub enum OutputLine {
    /// The spinner's frame, then "loading".
    Loading(char),
    /// A log line cut to the width; a heading starts with "──".
    Log { text: String, heading: bool },
    /// A check: its mark, title and detail.
    Check { status: Status, title: String, detail: String },
    /// A line of a check's advice, indented by two spaces.
    Advice(String),
    /// The closing line: all checks passed, or there are problems.
    Verdict(bool),
}

pub ghost enum LineModel {
    Loading(char),
    Log { text: Seq<char>, heading: bool },
    Check { status: Status, title: Seq<char>, detail: Seq<char> },
    Advice(Seq<char>),
    Verdict(bool),
}

impl View for OutputLine {
    type V = LineModel;

    open spec fn view(&self) -> LineModel {
        match self {
            OutputLine::Loading(c) => LineModel::Loading(*c),
            OutputLine::Log { text, heading } => LineModel::Log { text: text@, heading: *heading },
            OutputLine::Check { status, title, detail } => LineModel::Check {
                status: *status,
                title: title@,
                detail: detail@,
            },
            OutputLine::Advice(t) => LineModel::Advice(t@),
            OutputLine::Verdict(b) => LineModel::Verdict(*b),
        }
    }
}

pub open spec fn line_models(v: Seq<OutputLine>) -> Seq<LineModel> {
    v.map_values(|l: OutputLine| l@)
}

/// The log lines shown, as `[start, end)`: the last `rows` lines, moved back by `scroll`
/// lines, never before the first one.
pub open spec fn log_window_spec(len: nat, scroll: nat, rows: nat) -> (nat, nat) {
    let max_scroll: nat = if len > rows {
        (len - rows) as nat
    } else {
        0
    };
    let s: nat = if scroll < max_scroll {
        scroll
    } else {
        max_scroll
    };
    let end: nat = (len - s) as nat;
    let start: nat = if end > rows {
        (end - rows) as nat
    } else {
        0
    };
    (start, end)
}

pub fn log_window(len: usize, scroll: usize, rows: usize) -> (r: (usize, usize))
    ensures
        r.0 as nat == log_window_spec(len as nat, scroll as nat, rows as nat).0,
        r.1 as nat == log_window_spec(len as nat, scroll as nat, rows as nat).1,
{
    let max_scroll = if len > rows {
        len - rows
    } else {
        0
    };
    let s = if scroll < max_scroll {
        scroll
    } else {
        max_scroll
    };
    let end = len - s;
    let start = if end > rows {
        end - rows
    } else {
        0
    };
    (start, end)
}

/// A section heading of the log.
pub open spec fn is_heading(s: Seq<char>) -> bool {
    s.len() >= 2 && s[0] == '─' && s[1] == '─'
}

pub open spec fn log_models(lines: Seq<Seq<char>>, start: int, end: int, width: nat) -> Seq<LineModel> {
    Seq::new(
        (end - start) as nat,
        |k: int| LineModel::Log { text: head(lines[start + k], width), heading: is_heading(lines[start + k]) },
    )
}

/// The width left for advice after its indent.
pub open spec fn advice_width(width: nat) -> nat {
    if width >= 2 {
        (width - 2) as nat
    } else {
        0
    }
}

pub open spec fn advice_model(l: Seq<char>) -> LineModel {
    LineModel::Advice(seq![' ', ' '] + l)
}

/// A check's lines: the check, then its advice wrapped to the width.
pub open spec fn check_models(c: Check, width: nat) -> Seq<LineModel> {
    seq![LineModel::Check { status: c.status, title: c.id.title_text(), detail: c.detail.detail_text() }]
        + match c.advice {
        Some(a) => wrapped_words(a.advice_text(), advice_width(width)).map_values(
            |l: Seq<char>| advice_model(l),
        ),
        None => seq![],
    }
}

pub open spec fn doctor_models(checks: Seq<Check>, width: nat) -> Seq<LineModel>
    decreases checks.len(),
{
    if checks.len() == 0 {
        seq![]
    } else {
        doctor_models(checks.drop_last(), width) + check_models(checks.last(), width)
    }
}

pub open spec fn all_ok(checks: Seq<Check>) -> bool {
    forall|i: int| 0 <= i < checks.len() ==> #[trigger] checks[i].status == Status::Good
}

/// At most `rows` of them.
pub open spec fn first_rows(v: Seq<LineModel>, rows: nat) -> Seq<LineModel> {
    if v.len() > rows {
        v.take(rows as int)
    } else {
        v
    }
}

/// The output lines: only in the expert section and with room; the loading line; the log
/// window (see `log_window_spec`) with each line cut to the width; or each check with its
/// advice and the closing verdict, cut to the rows.
pub open spec fn output_models(
    expert: bool,
    out: ExpertOutput,
    scroll: nat,
    rows: nat,
    width: nat,
    tick: nat,
) -> Seq<LineModel> {
    if !expert || rows == 0 {
        seq![]
    } else {
        match out {
            ExpertOutput::Empty => seq![],
            ExpertOutput::Loading => seq![LineModel::Loading(spinner_frame(tick % 10))],
            ExpertOutput::Log(lines) => {
                let (s, e) = log_window_spec(lines@.len(), scroll, rows);
                log_models(strs(lines@), s as int, e as int, width)
            },
            ExpertOutput::Doctor(checks) => first_rows(
                doctor_models(checks@, width) + seq![LineModel::Verdict(all_ok(checks@))],
                rows,
            ),
        }
    }
}

fn starts_as_heading(s: &str) -> (b: bool)
    ensures
        b == is_heading(s@),
{
    let cs = str_chars(s);
    cs.len() >= 2 && cs[0] == '─' && cs[1] == '─'
}

fn log_output(lines: &Vec<String>, scroll: usize, rows: usize, width: usize) -> (v: Vec<OutputLine>)
    ensures
        line_models(v@) == ({
            let (s, e) = log_window_spec(lines@.len(), scroll as nat, rows as nat);
            log_models(strs(lines@), s as int, e as int, width as nat)
        }),
{
    let (start, end) = log_window(lines.len(), scroll, rows);
    let ghost want = log_models(strs(lines@), start as int, end as int, width as nat);
    let mut v: Vec<OutputLine> = Vec::new();
    let mut i: usize = start;
    while i < end
        invariant
            start <= i <= end <= lines@.len(),
            want == log_models(strs(lines@), start as int, end as int, width as nat),
            line_models(v@) == want.take(i - start),
        decreases end - i,
    {
        let text = truncate_chars(lines[i].as_str(), width);
        let heading = starts_as_heading(lines[i].as_str());
        let ghost prev = line_models(v@);
        v.push(OutputLine::Log { text, heading });
        assert(strs(lines@)[i as int] == lines@[i as int]@);
        assert(want[i - start] == LineModel::Log { text: text@, heading });
        assert(line_models(v@) =~= prev.push(LineModel::Log { text: text@, heading }));
        assert(line_models(v@) =~= want.take(i + 1 - start));
        i = i + 1;
    }
    assert(want.take(end - start) =~= want);
    v
}

/// `"  "` before a line.
fn indented(l: &str) -> (s: String)
    ensures
        s@ == seq![' ', ' '] + l@,
{
    let mut v: Vec<char> = Vec::new();
    v.push(' ');
    v.push(' ');
    let mut w = str_chars(l);
    v.append(&mut w);
    chars_to_string(v.as_slice())
}

fn push_check(v: &mut Vec<OutputLine>, c: &Check, width: usize)
    ensures
        line_models(final(v)@) == line_models(old(v)@) + check_models(*c, width as nat),
{
    let ghost before = line_models(v@);
    v.push(
        OutputLine::Check { status: c.status, title: c.id.title().to_string(), detail: c.detail.text() },
    );
    match c.advice {
        Some(a) => {
            let w = if width >= 2 {
                width - 2
            } else {
                0
            };
            let lines = wrap_words(a.text(), w);
            let ghost ws = wrapped_words(a.advice_text(), advice_width(width as nat));
            let ghost first = seq![LineModel::Check { status: c.status, title: c.id.title_text(), detail: c.detail.detail_text() }];
            assert(line_models(v@) =~= before + first);
            let mut j: usize = 0;
            while j < lines.len()
                invariant
                    j <= lines@.len(),
                    strs(lines@) == ws,
                    line_models(v@) == before + first + ws.take(j as int).map_values(
                        |l: Seq<char>| advice_model(l),
                    ),
                decreases lines.len() - j,
            {
                let t = indented(lines[j].as_str());
                let ghost prev = line_models(v@);
                v.push(OutputLine::Advice(t));
                assert(strs(lines@)[j as int] == lines@[j as int]@);
                assert(line_models(v@) =~= prev.push(advice_model(ws[j as int])));
                assert(ws.take(j + 1).map_values(|l: Seq<char>| advice_model(l)) =~= ws.take(
                    j as int,
                ).map_values(|l: Seq<char>| advice_model(l)).push(advice_model(ws[j as int])));
                assert(line_models(v@) =~= before + first + ws.take(j + 1).map_values(
                    |l: Seq<char>| advice_model(l),
                ));
                j = j + 1;
            }
            assert(ws.take(lines@.len() as int) =~= ws);
            assert(line_models(v@) =~= before + check_models(*c, width as nat));
        },
        None => {
            assert(line_models(v@) =~= before + check_models(*c, width as nat));
        },
    }
}

fn doctor_output(checks: &Vec<Check>, rows: usize, width: usize) -> (v: Vec<OutputLine>)
    ensures
        line_models(v@) == first_rows(
            doctor_models(checks@, width as nat) + seq![LineModel::Verdict(all_ok(checks@))],
            rows as nat,
        ),
{
    let mut v: Vec<OutputLine> = Vec::new();
    let mut ok = true;
    let mut i: usize = 0;
    assert(line_models(v@) =~= doctor_models(checks@.take(0), width as nat));
    while i < checks.len()
        invariant
            i <= checks@.len(),
            line_models(v@) == doctor_models(checks@.take(i as int), width as nat),
            ok == all_ok(checks@.take(i as int)),
        decreases checks.len() - i,
    {
        push_check(&mut v, &checks[i], width);
        assert(checks@.take(i + 1).drop_last() =~= checks@.take(i as int));
        assert(checks@.take(i + 1).last() == checks@[i as int]);
        ok = ok && checks[i].status == Status::Good;
        assert(ok == all_ok(checks@.take(i + 1))) by {
            if ok {
                assert forall|k: int| 0 <= k < i + 1 implies #[trigger] checks@.take(i + 1)[k].status
                    == Status::Good by {
                    if k < i {
                        assert(checks@.take(i as int)[k] == checks@.take(i + 1)[k]);
                    }
                }
            } else if checks[i as int].status == Status::Good {
                let k = choose|k: int| 0 <= k < i && !(#[trigger] checks@.take(i as int)[k].status
                    == Status::Good);
                assert(checks@.take(i + 1)[k] == checks@.take(i as int)[k]);
            } else {
                assert(checks@.take(i + 1)[i as int] == checks@[i as int]);
            }
        }
        i = i + 1;
    }
    assert(checks@.take(checks@.len() as int) =~= checks@);
    let ghost all = line_models(v@) + seq![LineModel::Verdict(ok)];
    v.push(OutputLine::Verdict(ok));
    assert(line_models(v@) =~= all);
    v.truncate(rows);
    assert(all.len() > rows ==> line_models(v@) =~= all.take(rows as int));
    v
}

/// The output lines (see `output_models`).
pub fn output_lines(
    expert: bool,
    out: &ExpertOutput,
    scroll: usize,
    rows: usize,
    width: usize,
    tick: usize,
) -> (v: Vec<OutputLine>)
    ensures
        line_models(v@) == output_models(expert, *out, scroll as nat, rows as nat, width as nat, tick as nat),
{
    if !expert || rows == 0 {
        let v: Vec<OutputLine> = Vec::new();
        assert(line_models(v@) =~= seq![]);
        return v;
    }
    match out {
        ExpertOutput::Empty => {
            let v: Vec<OutputLine> = Vec::new();
            assert(line_models(v@) =~= seq![]);
            v
        },
        ExpertOutput::Loading => {
            let mut v: Vec<OutputLine> = Vec::new();
            v.push(OutputLine::Loading(spinner_char(tick)));
            assert(line_models(v@) =~= seq![LineModel::Loading(spinner_frame((tick % 10) as nat))]);
            v
        },
        ExpertOutput::Log(lines) => log_output(lines, scroll, rows, width),
        ExpertOutput::Doctor(checks) => doctor_output(checks, rows, width),
    }
}

} // verus!
