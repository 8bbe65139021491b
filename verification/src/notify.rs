//! Desktop notifications (`notify-send`; Omarchy shows them with mako): what is sent and
//! how a guest's text is made safe for markup.

use vstd::prelude::*;
use crate::text::{chars_to_string, str_chars};

verus! {

broadcast use vstd::slice::group_slice_axioms;

#[derive(Debug, Clone, Copy, PartialEq, Eq, Structural)]
pub enum Urgency {
    Low,
    Normal,
}

impl Urgency {
    pub open spec fn spec_text(self) -> Seq<char> {
        match self {
            Urgency::Low => "low"@,
            Urgency::Normal => "normal"@,
        }
    }

    /// The value of `--urgency=`.
    pub fn as_str(self) -> (r: &'static str)
        ensures
            r@ == self.spec_text(),
    {
        match self {
            Urgency::Low => "low",
            Urgency::Normal => "normal",
        }
    }
}

/// Whether notifications go out.
#[derive(Debug, Clone, Copy, PartialEq, Eq, Structural)]
pub struct Notifier {
    /// Switched off in the settings (`access.notifications = false`).
    enabled: bool,
    /// `notify-send` is installed.
    available: bool,
}

impl Notifier {
    pub closed spec fn spec_enabled(self) -> bool {
        self.enabled
    }

    pub closed spec fn spec_available(self) -> bool {
        self.available
    }

    /// `available`: whether `notify-send` could be run.
    pub fn new(enabled: bool, available: bool) -> (n: Notifier)
        ensures
            n.spec_enabled() == enabled,
            n.spec_available() == available,
    {
        Notifier { enabled, available }
    }

    pub fn set_enabled(&mut self, enabled: bool)
        ensures
            final(self).spec_enabled() == enabled,
            final(self).spec_available() == old(self).spec_available(),
    {
        self.enabled = enabled;
    }

    /// A notification is shown only when switched on and `notify-send` is there.
    pub fn sends(&self) -> (r: bool)
        ensures
            r == (self.spec_enabled() && self.spec_available()),
    {
        self.enabled && self.available
    }
}

/// `&`, `<` and `>` written as entities: a device's name is made up by the guest, and many
/// notification servers read HTML tags.
pub open spec fn escaped_char(c: char) -> Seq<char> {
    if c == '&' {
        "&amp;"@
    } else if c == '<' {
        "&lt;"@
    } else if c == '>' {
        "&gt;"@
    } else {
        seq![c]
    }
}

pub open spec fn escaped_markup(s: Seq<char>) -> Seq<char>
    decreases s.len(),
{
    if s.len() == 0 {
        seq![]
    } else {
        escaped_markup(s.drop_last()) + escaped_char(s.last())
    }
}

/// A guest's text cannot open a tag: no `<` or `>` is left after escaping.
pub proof fn lemma_escaped_has_no_tags(s: Seq<char>)
    ensures
        !escaped_markup(s).contains('<'),
        !escaped_markup(s).contains('>'),
    decreases s.len(),
{
    reveal_strlit("&amp;");
    reveal_strlit("&lt;");
    reveal_strlit("&gt;");
    if s.len() > 0 {
        lemma_escaped_has_no_tags(s.drop_last());
        let p = escaped_markup(s.drop_last());
        let e = escaped_char(s.last());
        assert(!e.contains('<') && !e.contains('>'));
        let r = p + e;
        assert forall|i: int| 0 <= i < r.len() implies r[i] != '<' && r[i] != '>' by {
            if i < p.len() {
                assert(r[i] == p[i]);
            } else {
                assert(r[i] == e[i - p.len()]);
            }
        }
    }
}

pub fn escape_markup(text: &str) -> (r: String)
    ensures
        r@ == escaped_markup(text@),
{
    let cs = str_chars(text);
    let mut out: Vec<char> = Vec::new();
    let mut i: usize = 0;
    while i < cs.len()
        invariant
            i <= cs@.len(),
            cs@ == text@,
            out@ == escaped_markup(cs@.take(i as int)),
        decreases cs.len() - i,
    {
        assert(cs@.take(i + 1).drop_last() =~= cs@.take(i as int));
        let c = cs[i];
        let mut piece = if c == '&' {
            str_chars("&amp;")
        } else if c == '<' {
            str_chars("&lt;")
        } else if c == '>' {
            str_chars("&gt;")
        } else {
            let mut v: Vec<char> = Vec::new();
            v.push(c);
            assert(v@ =~= seq![c]);
            v
        };
        out.append(&mut piece);
        i = i + 1;
    }
    assert(cs@.take(cs.len() as int) =~= cs@);
    chars_to_string(out.as_slice())
}

} // verus!
