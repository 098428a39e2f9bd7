//! What the command line asks for: the shell line that runs a command, and
//! finding and attaching to running sessions by their sockets.

use vstd::prelude::*;
use crate::error::{Error, Result};
use crate::text::{chars_of, concat_string, string_from_chars, path_join, join_path, index_of_last, rfind_char, chars_between, chars_eq};

verus! {

/// The text with each `'` written as `'\''`, so that it can stand between
/// single quotes in a shell line.
pub open spec fn quote_escaped(s: Seq<char>) -> Seq<char>
    decreases s.len(),
{
    if s.len() == 0 {
        Seq::<char>::empty()
    } else {
        quote_escaped(s.drop_last()) + (if s.last() == '\'' { seq!['\'', '\\', '\'', '\''] } else { seq![s.last()] })
    }
}

/// The shell line that runs `cmd`: `/bin/sh -c '...'`; with `hold`, it then
/// says the process exited and waits for Enter.
pub open spec fn execute_line(cmd: Seq<char>, hold: bool) -> Seq<char> {
    if hold {
        "/bin/sh -c '"@ + quote_escaped(cmd) + "; echo; echo \"[Process exited - press Enter to close]\"; read'"@
    } else {
        "/bin/sh -c '"@ + quote_escaped(cmd) + "'"@
    }
}

fn escape_quotes(s: &[char]) -> (r: Vec<char>)
    ensures
        r@ == quote_escaped(s@),
{
    let mut r: Vec<char> = Vec::new();
    let mut i: usize = 0;
    while i < s.len()
        invariant
            i <= s@.len(),
            r@ == quote_escaped(s@.take(i as int)),
        decreases s@.len() - i,
    {
        proof {
            assert(s@.take(i + 1).drop_last() =~= s@.take(i as int));
            assert(s@.take(i + 1).last() == s@[i as int]);
        }
        if s[i] == '\'' {
            r.push('\'');
            r.push('\\');
            r.push('\'');
            r.push('\'');
        } else {
            r.push(s[i]);
        }
        i = i + 1;
        proof { assert(r@ =~= quote_escaped(s@.take(i as int))); }
    }
    proof { assert(s@.take(i as int) =~= s@); }
    r
}

/// The shell line that runs `cmd` (see `execute_line`).
pub fn execute_command(cmd: &str, hold: bool) -> (s: String)
    ensures
        s@ == execute_line(cmd@, hold),
{
    let c = chars_of(cmd);
    let e = escape_quotes(c.as_slice());
    let head = chars_of("/bin/sh -c '");
    let a = concat_string(head.as_slice(), e.as_slice());
    let a = chars_of(a.as_str());
    if hold {
        let tail = chars_of("; echo; echo \"[Process exited - press Enter to close]\"; read'");
        concat_string(a.as_slice(), tail.as_slice())
    } else {
        let tail = chars_of("'");
        concat_string(a.as_slice(), tail.as_slice())
    }
}

/// The session a socket file is for: the file name before its last `.`,
/// when what follows is `sock` (a leading `.` starts no extension).
pub open spec fn sock_stem(name: Seq<char>) -> Option<Seq<char>> {
    match index_of_last(name, '.') {
        Some(i) => if i > 0 && name.subrange(i + 1, name.len() as int) == "sock"@ { Some(name.subrange(0, i)) } else { None },
        None => None,
    }
}

/// The sessions the file names stand for, in order.
pub open spec fn sock_sessions(names: Seq<Seq<char>>) -> Seq<Seq<char>>
    decreases names.len(),
{
    if names.len() == 0 {
        Seq::<Seq<char>>::empty()
    } else {
        let rest = sock_sessions(names.drop_last());
        match sock_stem(names.last()) {
            Some(s) => rest.push(s),
            None => rest,
        }
    }
}

/// The session a socket file is for, if it is one.
pub fn socket_stem(name: &str) -> (r: Option<String>)
    ensures
        r is None <==> sock_stem(name@) is None,
        r matches Some(s) ==> sock_stem(name@) == Some(s@),
{
    let c = chars_of(name);
    match rfind_char(c.as_slice(), '.') {
        Some(i) => {
            let n = c.len();
            assert(i < n);
            let ext = chars_between(c.as_slice(), i + 1, n);
            let sock = chars_of("sock");
            if i > 0 && chars_eq(ext.as_slice(), sock.as_slice()) {
                Some(string_from_chars(chars_between(c.as_slice(), 0, i).as_slice()))
            } else {
                None
            }
        }
        None => None,
    }
}

/// The sessions whose sockets the file names are (see `sock_stem`).
pub fn session_names(file_names: &[String]) -> (v: Vec<String>)
    ensures
        v@.len() == sock_sessions(file_names@.map_values(|f: String| f@)).len(),
        forall|i: int| 0 <= i < v@.len() ==> #[trigger] v@[i]@ == sock_sessions(file_names@.map_values(|f: String| f@))[i],
{
    let ghost all = file_names@.map_values(|f: String| f@);
    let mut v: Vec<String> = Vec::new();
    let mut i: usize = 0;
    while i < file_names.len()
        invariant
            i <= file_names@.len(),
            all == file_names@.map_values(|f: String| f@),
            v@.len() == sock_sessions(all.take(i as int)).len(),
            forall|k: int| 0 <= k < v@.len() ==> #[trigger] v@[k]@ == sock_sessions(all.take(i as int))[k],
        decreases file_names@.len() - i,
    {
        proof {
            assert(all.take(i + 1).drop_last() =~= all.take(i as int));
            assert(all.take(i + 1).last() == file_names@[i as int]@);
        }
        match socket_stem(file_names[i].as_str()) {
            Some(s) => v.push(s),
            None => {}
        }
        i = i + 1;
    }
    proof { assert(all.take(i as int) =~= all); }
    v
}

/// The lines that list running sessions.
pub open spec fn listing_of(names: Seq<Seq<char>>) -> Seq<Seq<char>> {
    if names.len() == 0 {
        seq!["No sessions running"@]
    } else {
        seq!["Sessions:"@] + names.map_values(|n: Seq<char>| "  "@ + n)
    }
}

/// The lines listing the sessions: a notice when there are none, else a
/// heading and each name indented.
pub fn session_listing(names: &[String]) -> (v: Vec<String>)
    ensures
        v@.len() == listing_of(names@.map_values(|n: String| n@)).len(),
        forall|i: int| 0 <= i < v@.len() ==> #[trigger] v@[i]@ == listing_of(names@.map_values(|n: String| n@))[i],
{
    let mut v: Vec<String> = Vec::new();
    if names.len() == 0 {
        v.push("No sessions running".to_string());
        return v;
    }
    v.push("Sessions:".to_string());
    let indent = chars_of("  ");
    let mut i: usize = 0;
    while i < names.len()
        invariant
            i <= names@.len(),
            indent@ == "  "@,
            v@.len() == i + 1,
            v@[0]@ == "Sessions:"@,
            forall|k: int| 1 <= k <= i ==> #[trigger] v@[k]@ == "  "@ + names@[k - 1]@,
        decreases names@.len() - i,
    {
        let n = chars_of(names[i].as_str());
        v.push(concat_string(indent.as_slice(), n.as_slice()));
        i = i + 1;
    }
    v
}

/// The session to attach: the one asked for, else the first running one;
/// with none running, an error.
pub fn choose_session(requested: Option<String>, running: &[String]) -> (r: Result<String>)
    ensures
        requested matches Some(n) ==> (r matches Ok(s) && s@ == n@),
        requested is None && running@.len() > 0 ==> (r matches Ok(s) && s@ == running@[0]@),
        requested is None && running@.len() == 0 ==> (r matches Err(Error::Config(m)) && m@ == "No sessions available"@),
{
    match requested {
        Some(n) => Ok(n),
        None => {
            if running.len() > 0 {
                Ok(running[0].as_str().to_string())
            } else {
                Err(Error::Config("No sessions available".to_string()))
            }
        }
    }
}

/// `dirs::runtime_dir`, as text (lossily, where the path is not Unicode);
/// it depends on the environment.
#[verifier::external_body]
fn runtime_dir() -> Option<String> {
    dirs::runtime_dir().map(|p| p.to_string_lossy().into_owned())
}

/// `dirs::cache_dir`, as text (lossily, where the path is not Unicode); it
/// depends on the environment.
#[verifier::external_body]
fn cache_dir() -> Option<String> {
    dirs::cache_dir().map(|p| p.to_string_lossy().into_owned())
}

/// Where session sockets are: `basilisk/sessions` in the runtime directory,
/// else the cache directory, else `/tmp`.
pub open spec fn session_dir_of(runtime: Option<Seq<char>>, cache: Option<Seq<char>>) -> Seq<char> {
    let base = match runtime {
        Some(r) => r,
        None => match cache {
            Some(c) => c,
            None => "/tmp"@,
        },
    };
    path_join(path_join(base, "basilisk"@), "sessions"@)
}

/// The socket directory for the runtime and cache directories given.
pub fn session_directory_for(runtime: Option<&str>, cache: Option<&str>) -> (s: String)
    ensures
        s@ == session_dir_of(match runtime { Some(r) => Some(r@), None => None }, match cache { Some(c) => Some(c@), None => None }),
{
    proof {
        reveal_strlit("basilisk");
        reveal_strlit("sessions");
    }
    let base = match runtime {
        Some(r) => r.to_string(),
        None => match cache {
            Some(c) => c.to_string(),
            None => "/tmp".to_string(),
        },
    };
    let b = join_path(base.as_str(), "basilisk");
    join_path(b.as_str(), "sessions")
}

/// The socket directory.
pub fn session_directory() -> (s: String)
    ensures
        exists|r: Option<Seq<char>>, c: Option<Seq<char>>| s@ == session_dir_of(r, c),
{
    let r = runtime_dir();
    let c = cache_dir();
    let rs: Option<&str> = match &r { Some(x) => Some(x.as_str()), None => None };
    let cs: Option<&str> = match &c { Some(x) => Some(x.as_str()), None => None };
    session_directory_for(rs, cs)
}

/// The socket of the session named `name` in the directory `dir`.
pub fn session_socket_path_in(dir: &str, name: &str) -> (s: String)
    ensures
        s@ == path_join(dir@, name@ + ".sock"@),
{
    let n = chars_of(name);
    let ext = chars_of(".sock");
    let file = concat_string(n.as_slice(), ext.as_slice());
    proof {
        reveal_strlit(".sock");
    }
    join_path(dir, file.as_str())
}

/// The message for a session that has no socket.
pub open spec fn not_found_message(name: Seq<char>) -> Seq<char> {
    "Session '"@ + name + "' not found"@
}

/// The error for a session that has no socket.
pub fn session_not_found(name: &str) -> (e: Error)
    ensures
        e matches Error::Config(m) && m@ == not_found_message(name@),
{
    let a = chars_of("Session '");
    let n = chars_of(name);
    let s = concat_string(a.as_slice(), n.as_slice());
    let s = chars_of(s.as_str());
    let b = chars_of("' not found");
    Error::Config(concat_string(s.as_slice(), b.as_slice()))
}

} // verus!
