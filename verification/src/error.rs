//! The library's error type.

use vstd::prelude::*;
use crate::text::{chars_of, string_from_chars};

verus! {

#[verifier::external_type_specification]
#[verifier::external_body]
pub struct ExIoError(std::io::Error);

/// Errors of the terminal and its surroundings.
#[derive(Debug)]
pub enum Error {
    Pty(String),
    Config(String),
    Render(String),
    Font(String),
    Window(String),
    Io(std::io::Error),
    Parse(String),
    Clipboard(String),
    Ssh(String),
}

/// Results of the library's fallible operations.
pub type Result<T> = std::result::Result<T, Error>;

/// `Display` for `std::io::Error`: its message.
#[verifier::external_body]
fn io_error_text(e: &std::io::Error) -> String {
    format!("{}", e)
}

/// The prefix each kind of error is shown with.
pub open spec fn error_prefix(e: &Error) -> Seq<char> {
    match e {
        Error::Pty(_) => "PTY error: "@,
        Error::Config(_) => "Config error: "@,
        Error::Render(_) => "Render error: "@,
        Error::Font(_) => "Font error: "@,
        Error::Window(_) => "Window error: "@,
        Error::Io(_) => "IO error: "@,
        Error::Parse(_) => "Parse error: "@,
        Error::Clipboard(_) => "Clipboard error: "@,
        Error::Ssh(_) => "SSH error: "@,
    }
}

impl Error {
    /// The message: the kind's prefix, then the detail.
    pub fn to_string(&self) -> (s: String)
        ensures
            s@.len() >= error_prefix(self).len(),
            s@.subrange(0, error_prefix(self).len() as int) == error_prefix(self),
            match self {
                Error::Io(_) => true,
                Error::Pty(d) => s@ == error_prefix(self) + d@,
                Error::Config(d) => s@ == error_prefix(self) + d@,
                Error::Render(d) => s@ == error_prefix(self) + d@,
                Error::Font(d) => s@ == error_prefix(self) + d@,
                Error::Window(d) => s@ == error_prefix(self) + d@,
                Error::Parse(d) => s@ == error_prefix(self) + d@,
                Error::Clipboard(d) => s@ == error_prefix(self) + d@,
                Error::Ssh(d) => s@ == error_prefix(self) + d@,
            },
    {
        let (prefix, detail) = match self {
            Error::Pty(d) => ("PTY error: ", d.clone()),
            Error::Config(d) => ("Config error: ", d.clone()),
            Error::Render(d) => ("Render error: ", d.clone()),
            Error::Font(d) => ("Font error: ", d.clone()),
            Error::Window(d) => ("Window error: ", d.clone()),
            Error::Io(e) => ("IO error: ", io_error_text(e)),
            Error::Parse(d) => ("Parse error: ", d.clone()),
            Error::Clipboard(d) => ("Clipboard error: ", d.clone()),
            Error::Ssh(d) => ("SSH error: ", d.clone()),
        };
        let mut v = chars_of(prefix);
        let ghost p = v@;
        let w = chars_of(detail.as_str());
        let mut i: usize = 0;
        while i < w.len()
            invariant
                i <= w@.len(),
                v@ == p + w@.subrange(0, i as int),
            decreases w@.len() - i,
        {
            v.push(w[i]);
            i += 1;
            proof {
                assert(v@ =~= p + w@.subrange(0, i as int));
            }
        }
        proof {
            assert(w@.subrange(0, w@.len() as int) =~= w@);
            assert((p + w@).subrange(0, p.len() as int) =~= p);
        }
        string_from_chars(v.as_slice())
    }
}

impl From<std::io::Error> for Error {
    fn from(e: std::io::Error) -> (r: Error) {
        Error::Io(e)
    }
}

impl vstd::std_specs::convert::FromSpecImpl<std::io::Error> for Error {
    open spec fn obeys_from_spec() -> bool {
        true
    }

    open spec fn from_spec(e: std::io::Error) -> Error {
        Error::Io(e)
    }
}

} // verus!
