//! The overlay that changes the network name and the password: typing, deleting, switching
//! fields, generating a password, and the checks made when it is submitted.

use vstd::prelude::*;
use crate::error::CoreError;
use crate::password::{Strength, generate, generated_ok, validate_spec, validate_user_password};
use crate::secret::{Secret, wipe};
use crate::ssid::{ssid_check, validate_ssid};
use crate::text::{chars_to_string, push_char, str_chars, trim, trim_exec};

verus! {

/// The window's mode: the simple panel or the advanced settings.
#[derive(Debug, Clone, Copy, PartialEq, Eq, Structural)]
pub enum Mode {
    Simple,
    Advanced,
}

#[derive(Debug, Clone, Copy, PartialEq, Eq, Structural)]
pub enum EditField {
    Ssid,
    Password,
}

/// The other field.
pub open spec fn other_field(f: EditField) -> EditField {
    match f {
        EditField::Ssid => EditField::Password,
        EditField::Password => EditField::Ssid,
    }
}

/// A text without its last character (an empty text stays empty).
pub open spec fn without_last(s: Seq<char>) -> Seq<char> {
    if s.len() == 0 {
        s
    } else {
        s.drop_last()
    }
}

/// The network name and a new password being typed (an empty password keeps the old one),
/// and why the last submit was refused.
pub struct Editor {
    pub field: EditField,
    pub ssid: String,
    pub password: String,
    pub error: Option<CoreError>,
}

/// What a submit that passed the checks hands on: the trimmed network name, the new
/// password if one was typed, and whether that password is weak (the user is warned).
pub struct Submission {
    pub ssid: String,
    pub password: Option<Secret>,
    pub weak: bool,
}

pub(crate) fn without_last_exec(s: &String) -> (r: String)
    ensures
        r@ == without_last(s@),
{
    let mut cs = str_chars(s.as_str());
    if cs.len() > 0 {
        cs.pop();
    }
    chars_to_string(cs.as_slice())
}

impl Editor {
    /// Opens on the network name with the current name and an empty password.
    pub fn new(ssid: &str) -> (e: Editor)
        ensures
            e.field == EditField::Ssid,
            e.ssid@ == ssid@,
            e.password@.len() == 0,
            e.error is None,
    {
        Editor {
            field: EditField::Ssid,
            ssid: ssid.to_string(),
            password: String::new(),
            error: None,
        }
    }

    pub fn toggle_field(&mut self)
        ensures
            final(self).field == other_field(old(self).field),
            final(self).ssid@ == old(self).ssid@,
            final(self).password@ == old(self).password@,
            final(self).error == old(self).error,
    {
        self.field = match self.field {
            EditField::Ssid => EditField::Password,
            EditField::Password => EditField::Ssid,
        };
    }

    /// Types a character into the current field; the last refusal goes.
    pub fn push_char(&mut self, c: char)
        ensures
            final(self).field == old(self).field,
            final(self).error is None,
            final(self).ssid@ == if old(self).field == EditField::Ssid {
                old(self).ssid@.push(c)
            } else {
                old(self).ssid@
            },
            final(self).password@ == if old(self).field == EditField::Password {
                old(self).password@.push(c)
            } else {
                old(self).password@
            },
    {
        self.error = None;
        match self.field {
            EditField::Ssid => push_char(&mut self.ssid, c),
            EditField::Password => push_char(&mut self.password, c),
        }
    }

    /// Deletes the last character of the current field; the last refusal goes.
    pub fn backspace(&mut self)
        ensures
            final(self).field == old(self).field,
            final(self).error is None,
            final(self).ssid@ == if old(self).field == EditField::Ssid {
                without_last(old(self).ssid@)
            } else {
                old(self).ssid@
            },
            final(self).password@ == if old(self).field == EditField::Password {
                without_last(old(self).password@)
            } else {
                old(self).password@
            },
    {
        self.error = None;
        match self.field {
            EditField::Ssid => {
                self.ssid = without_last_exec(&self.ssid);
            },
            EditField::Password => {
                let shorter = without_last_exec(&self.password);
                wipe(&mut self.password);
                self.password = shorter;
            },
        }
    }

    /// On an empty password field, puts in a generated password (or the reason there is
    /// none); anywhere else nothing happens.
    pub fn generate(&mut self)
        ensures
            final(self).field == old(self).field,
            final(self).ssid@ == old(self).ssid@,
            (old(self).field != EditField::Password || old(self).password@.len() > 0) ==> (
            final(self).password@ == old(self).password@ && final(self).error == old(self).error),
            (old(self).field == EditField::Password && old(self).password@.len() == 0) ==> ((
            final(self).error == old(self).error && generated_ok(final(self).password@)) || (
            final(self).error is Some && final(self).password@ == old(self).password@)),
    {
        let pw = str_chars(self.password.as_str());
        if self.field != EditField::Password || pw.len() != 0 {
            return;
        }
        match generate() {
            Ok(secret) => {
                wipe(&mut self.password);
                self.password = secret.expose().to_string();
            },
            Err(e) => {
                self.error = Some(e);
            },
        }
    }

    /// Checks what was typed: the trimmed network name, then the password if one was typed.
    /// A refusal stays in `error` and nothing is handed on; otherwise the password leaves the
    /// editor with the submission.
    pub fn submit(&mut self) -> (r: Option<Submission>)
        ensures
            final(self).field == old(self).field,
            final(self).ssid@ == old(self).ssid@,
            ssid_check(trim(old(self).ssid@)) is Err ==> (r is None && final(self).error == Some(
                CoreError::Ssid(ssid_check(trim(old(self).ssid@))->Err_0),
            ) && final(self).password@ == old(self).password@),
            (ssid_check(trim(old(self).ssid@)) is Ok && old(self).password@.len() > 0
                && validate_spec(old(self).password@) is Err) ==> (r is None && final(self).error
                == Some(CoreError::Password(validate_spec(old(self).password@)->Err_0))
                && final(self).password@ == old(self).password@),
            (ssid_check(trim(old(self).ssid@)) is Ok && (old(self).password@.len() == 0
                || validate_spec(old(self).password@) is Ok)) ==> (r matches Some(s) && s.ssid@
                == trim(old(self).ssid@) && final(self).password@.len() == 0 && final(self).error
                == old(self).error && (old(self).password@.len() == 0 ==> (s.password is None
                && !s.weak)) && (old(self).password@.len() > 0 ==> (s.password matches Some(p)
                && p@ == old(self).password@ && s.weak == (validate_spec(old(self).password@)
                == Ok::<Strength, crate::password::PasswordError>(Strength::Weak))))),
    {
        let cs = str_chars(self.ssid.as_str());
        let t = trim_exec(cs.as_slice());
        let ssid = chars_to_string(t.as_slice());
        match validate_ssid(ssid.as_str()) {
            Ok(()) => {},
            Err(e) => {
                self.error = Some(CoreError::Ssid(e));
                return None;
            },
        }
        let pw = str_chars(self.password.as_str());
        if pw.len() == 0 {
            return Some(Submission { ssid, password: None, weak: false });
        }
        let strength = match validate_user_password(self.password.as_str()) {
            Ok(s) => s,
            Err(e) => {
                self.error = Some(CoreError::Password(e));
                return None;
            },
        };
        let secret = Secret::from_string(self.password.clone());
        wipe(&mut self.password);
        let weak = match strength {
            Strength::Weak => true,
            _ => false,
        };
        Some(Submission { ssid, password: Some(secret), weak })
    }
}

/// The typed password is overwritten when the editor closes.
impl Drop for Editor {
    fn drop(&mut self)
        opens_invariants none
        no_unwind
    {
        wipe(&mut self.password);
    }
}

} // verus!
