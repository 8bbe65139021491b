//! A password held in memory: its debug text never shows the value, and its bytes are
//! overwritten when it is dropped.

use vstd::prelude::*;
use crate::text::{lit, chars_to_string};

verus! {

#[derive(Clone, Default)]
pub struct Secret {
    value: String,
}

impl View for Secret {
    type V = Seq<char>;

    closed spec fn view(&self) -> Seq<char> {
        self.value@
    }
}

impl Secret {
    pub fn new(s: &str) -> (r: Secret)
        ensures
            r@ == s@,
    {
        Secret { value: s.to_owned() }
    }

    pub fn from_string(s: String) -> (r: Secret)
        ensures
            r@ == s@,
    {
        Secret { value: s }
    }

    /// The password itself: only for NetworkManager, the QR code and showing it to the user.
    pub fn expose(&self) -> (r: &str)
        ensures
            r@ == self@,
    {
        self.value.as_str()
    }

    /// What `{:?}` shows of a secret: never the value.
    pub fn debug_text(&self) -> (r: String)
        ensures
            r@ == "Secret(***)"@,
    {
        let v = lit("Secret(***)");
        chars_to_string(v.as_slice())
    }
}

/// `zeroize::Zeroize::zeroize` on a `String`: the crate's source writes zeros over the
/// bytes (and the spare capacity) and then empties the string.
#[verifier::external_body]
pub(crate) fn wipe(s: &mut String)
    ensures
        final(s)@ == Seq::<char>::empty(),
    opens_invariants none
    no_unwind
{
    zeroize::Zeroize::zeroize(s);
}

impl Drop for Secret {
    fn drop(&mut self)
        opens_invariants none
        no_unwind
    {
        wipe(&mut self.value);
    }
}

} // verus!
