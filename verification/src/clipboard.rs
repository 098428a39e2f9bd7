//! Clipboard for copy and paste: the text last copied, kept as a fallback
//! for when the system clipboard cannot be reached.

use vstd::prelude::*;
use crate::error::Result;

verus! {

/// What a paste gives: the system clipboard's text when it answered, else
/// the text last copied here.
pub open spec fn paste_text(c: &Clipboard, system: Option<Seq<char>>) -> Seq<char> {
    match system {
        Some(t) => t,
        None => c.internal@,
    }
}

/// Clipboard state.
pub struct Clipboard {
    /// The text last copied.
    pub internal: String,
}

impl Clipboard {
    /// A clipboard holding no text.
    pub fn new() -> (c: Clipboard)
        ensures
            c.internal@ == Seq::<char>::empty(),
    {
        Clipboard { internal: String::new() }
    }

    /// Copy text: it is kept as the fallback content. Copying always
    /// succeeds; whether the system clipboard also took it is its own affair.
    pub fn copy(&mut self, text: &str) -> (r: Result<()>)
        ensures
            r.is_ok(),
            final(self).internal@ == text@,
    {
        self.internal = text.to_string();
        Ok(())
    }

    /// The text a paste gives, given what the system clipboard answered:
    /// the system's text when it gave one, else the text last copied here.
    pub fn paste(&self, system: Option<String>) -> (r: Result<String>)
        ensures
            r.is_ok(),
            r.unwrap()@ == paste_text(self, match system { Some(t) => Some(t@), None => None }),
    {
        match system {
            Some(t) => Ok(t),
            None => Ok(self.internal.clone()),
        }
    }

    /// The text last copied.
    pub fn internal_content(&self) -> (s: &str)
        ensures
            s@ == self.internal@,
    {
        self.internal.as_str()
    }
}

impl Default for Clipboard {
    fn default() -> (c: Clipboard)
        ensures
            c.internal@ == Seq::<char>::empty(),
    {
        Clipboard::new()
    }
}

/// After a copy of some text, a paste that finds the system clipboard
/// unreachable gives exactly that text back.
pub proof fn law_paste_after_copy(copied: Seq<char>, after_copy: Clipboard)
    requires
        after_copy.internal@ == copied,
    ensures
        paste_text(&after_copy, None) == copied,
{
}

} // verus!
