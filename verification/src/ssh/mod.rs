//! SSH connection targets and client settings.

pub mod assoc;
pub mod known_hosts;
pub mod client;

use vstd::prelude::*;
use crate::error::{Error, Result};
use crate::text::{
    chars_of, chars_between, concat_string, find_char, rfind_char, index_of_first, index_of_last,
    parse_unsigned, parse_unsigned_chars, u64_to_decimal, decimal_digits, string_from_chars,
    path_join, join_path,
};

verus! {

/// Default SSH port.
pub const DEFAULT_PORT: u16 = 22;

/// SSH connection target.
#[derive(Debug, Clone)]
pub struct SshTarget {
    /// Hostname or IP address.
    pub host: String,
    /// Port number (default 22).
    pub port: u16,
    /// Username for authentication.
    pub user: String,
}

/// The user part and the rest of `[user@]host[:port]`: split at the first `@`.
pub open spec fn split_user(s: Seq<char>) -> (Option<Seq<char>>, Seq<char>) {
    match index_of_first(s, '@') {
        Some(i) => (Some(s.subrange(0, i)), s.subrange(i + 1, s.len() as int)),
        None => (None, s),
    }
}

/// The host and the port text of `host[:port]`: split at the last `:`.
pub open spec fn split_port(rest: Seq<char>) -> (Seq<char>, Option<Seq<char>>) {
    match index_of_last(rest, ':') {
        Some(j) => (rest.subrange(0, j), Some(rest.subrange(j + 1, rest.len() as int))),
        None => (rest, None),
    }
}

/// What `[user@]host[:port]` names: `Ok((host, port, user))`, the user
/// falling back to `fallback_user` and then to `root`; `Err(port text)` when
/// the port is not a number from 0 to 65535.
pub open spec fn target_of(s: Seq<char>, fallback_user: Option<Seq<char>>) -> std::result::Result<(Seq<char>, u16, Seq<char>), Seq<char>> {
    let (user_part, rest) = split_user(s);
    let (host, port_text) = split_port(rest);
    let user = match user_part {
        Some(u) => u,
        None => match fallback_user {
            Some(u) => u,
            None => "root"@,
        },
    };
    match port_text {
        None => Ok((host, DEFAULT_PORT, user)),
        Some(p) => match parse_unsigned(p, 65535) {
            Some(n) => Ok((host, n as u16, user)),
            None => Err(p),
        },
    }
}

impl SshTarget {
    /// A target on the default port.
    pub fn new(host: &str, user: &str) -> (t: SshTarget)
        ensures
            t.host@ == host@,
            t.user@ == user@,
            t.port == DEFAULT_PORT,
    {
        SshTarget { host: host.to_string(), port: DEFAULT_PORT, user: user.to_string() }
    }

    /// The same target on another port.
    pub fn with_port(self, port: u16) -> (t: SshTarget)
        ensures
            t.host@ == self.host@,
            t.user@ == self.user@,
            t.port == port,
    {
        SshTarget { port, ..self }
    }

    /// Parse `[user@]host[:port]`. Without a user part the user is
    /// `fallback_user` (the login name from the environment, which the
    /// caller reads) or else `root`. A port that is not a number from 0 to
    /// 65535 is an error.
    pub fn parse(s: &str, fallback_user: Option<String>) -> (r: Result<SshTarget>)
        ensures
            match r {
                Ok(t) => target_of(s@, match fallback_user { Some(u) => Some(u@), None => None })
                    == Ok::<(Seq<char>, u16, Seq<char>), Seq<char>>((t.host@, t.port, t.user@)),
                Err(e) => match target_of(s@, match fallback_user { Some(u) => Some(u@), None => None }) {
                    Err(p) => e matches Error::Ssh(m) && m@ == "invalid port number: "@ + p,
                    Ok(_) => false,
                },
            },
    {
        let cs = chars_of(s);
        let n = cs.len();
        let (user_part, rest): (Option<Vec<char>>, Vec<char>) = match find_char(cs.as_slice(), '@') {
            Some(i) => (Some(chars_between(cs.as_slice(), 0, i)), chars_between(cs.as_slice(), i + 1, n)),
            None => (None, cs),
        };
        let (host, port): (Vec<char>, u16) = match rfind_char(rest.as_slice(), ':') {
            Some(j) => {
                let port_text = chars_between(rest.as_slice(), j + 1, rest.len());
                match parse_unsigned_chars(port_text.as_slice(), 65535) {
                    Some(n) => (chars_between(rest.as_slice(), 0, j), n as u16),
                    None => {
                        let prefix = chars_of("invalid port number: ");
                        return Err(Error::Ssh(concat_string(prefix.as_slice(), port_text.as_slice())));
                    },
                }
            },
            None => (rest, DEFAULT_PORT),
        };
        let user: String = match user_part {
            Some(u) => string_from_chars(u.as_slice()),
            None => match fallback_user {
                Some(u) => u,
                None => "root".to_string(),
            },
        };
        Ok(SshTarget { host: string_from_chars(host.as_slice()), port, user })
    }

    /// `user@host:port`.
    pub fn to_string_full(&self) -> (s: String)
        ensures
            s@ == self.user@ + "@"@ + self.host@ + ":"@ + decimal_digits(self.port as nat),
    {
        let mut v = chars_of(self.user.as_str());
        let at = chars_of("@");
        let h = chars_of(self.host.as_str());
        let colon = chars_of(":");
        let p = u64_to_decimal(self.port as u64);
        let a = concat_string(v.as_slice(), at.as_slice());
        let a = chars_of(a.as_str());
        let b = concat_string(a.as_slice(), h.as_slice());
        let b = chars_of(b.as_str());
        let c = concat_string(b.as_slice(), colon.as_slice());
        let c = chars_of(c.as_str());
        concat_string(c.as_slice(), p.as_slice())
    }

    /// `user@host`, with `:port` when the port is not the default.
    pub fn to_string(&self) -> (s: String)
        ensures
            self.port == DEFAULT_PORT ==> s@ == self.user@ + "@"@ + self.host@,
            self.port != DEFAULT_PORT ==> s@ == self.user@ + "@"@ + self.host@ + ":"@ + decimal_digits(self.port as nat),
    {
        if self.port == DEFAULT_PORT {
            let u = chars_of(self.user.as_str());
            let at = chars_of("@");
            let h = chars_of(self.host.as_str());
            let a = concat_string(u.as_slice(), at.as_slice());
            let a = chars_of(a.as_str());
            concat_string(a.as_slice(), h.as_slice())
        } else {
            self.to_string_full()
        }
    }
}

/// What to do with a host key that is not yet known.
#[derive(Debug, Clone, Copy, PartialEq, Eq, Structural)]
pub enum HostKeyAction {
    /// Accept and continue.
    Accept,
    /// Reject the connection.
    Reject,
    /// Accept and save to known_hosts.
    AcceptAndSave,
}

/// SSH client configuration.
#[derive(Debug, Clone, Copy, PartialEq, Eq, Structural)]
pub struct SshConfig {
    /// Connection timeout in seconds.
    pub timeout_secs: u64,
    /// Keepalive interval in seconds (0 = disabled).
    pub keepalive_secs: u64,
    /// Whether to verify host keys.
    pub verify_host_key: bool,
    /// The action taken for every unknown host key.
    pub on_unknown_host: HostKeyAction,
}

impl Default for SshConfig {
    fn default() -> (c: SshConfig)
        ensures
            c == (SshConfig { timeout_secs: 30, keepalive_secs: 60, verify_host_key: true, on_unknown_host: HostKeyAction::Reject }),
    {
        SshConfig { timeout_secs: 30, keepalive_secs: 60, verify_host_key: true, on_unknown_host: HostKeyAction::Reject }
    }
}

impl SshConfig {
    /// Accept every host key without checking (insecure, for testing).
    pub fn insecure() -> (c: SshConfig)
        ensures
            c == (SshConfig { timeout_secs: 30, keepalive_secs: 60, verify_host_key: false, on_unknown_host: HostKeyAction::Accept }),
    {
        SshConfig { verify_host_key: false, on_unknown_host: HostKeyAction::Accept, ..SshConfig::default() }
    }

    /// Accept and save unknown host keys.
    pub fn trust_on_first_use() -> (c: SshConfig)
        ensures
            c == (SshConfig { timeout_secs: 30, keepalive_secs: 60, verify_host_key: true, on_unknown_host: HostKeyAction::AcceptAndSave }),
    {
        SshConfig { on_unknown_host: HostKeyAction::AcceptAndSave, ..SshConfig::default() }
    }

    /// The action for an unknown host key of `host` with fingerprint `fingerprint`.
    pub fn unknown_host_action(&self, host: &str, fingerprint: &str) -> (a: HostKeyAction)
        ensures
            a == self.on_unknown_host,
    {
        self.on_unknown_host
    }
}

/// `dirs::home_dir`: the user's home directory, if one can be found, as text
/// (lossily, where the path is not Unicode). It depends on the environment;
/// nothing is stated of it.
#[verifier::external_body]
fn home_dir() -> Option<String> {
    dirs::home_dir().map(|p| p.to_string_lossy().into_owned())
}

/// The SSH directory: `.ssh` in the home directory, or `.ssh` when there is none.
pub open spec fn ssh_dir_of(home: Option<Seq<char>>) -> Seq<char> {
    match home {
        Some(h) => path_join(h, ".ssh"@),
        None => ".ssh"@,
    }
}

/// The paths are those of the identity files in the SSH directory for `home`.
pub open spec fn identity_paths(v: Seq<String>, home: Option<Seq<char>>) -> bool {
    v.len() == 4 && forall|i: int| 0 <= i < 4 ==> #[trigger] v[i]@ == path_join(ssh_dir_of(home), identity_names()[i])
}

/// The names of the identity files tried, in order.
pub open spec fn identity_names() -> Seq<Seq<char>> {
    seq!["id_ed25519"@, "id_rsa"@, "id_ecdsa"@, "id_dsa"@]
}

fn join_name(base: &str, name: &str) -> (s: String)
    ensures
        s@ == path_join(base@, name@),
{
    join_path(base, name)
}

/// The SSH directory for the home directory `home` (see `ssh_dir_of`).
pub fn ssh_dir_for(home: Option<&str>) -> (s: String)
    ensures
        s@ == ssh_dir_of(match home { Some(h) => Some(h@), None => None }),
{
    proof { reveal_strlit(".ssh"); }
    match home {
        Some(h) => join_name(h, ".ssh"),
        None => ".ssh".to_string(),
    }
}

/// The user's SSH directory.
pub fn ssh_dir() -> (s: String)
    ensures
        exists|home: Option<Seq<char>>| s@ == ssh_dir_of(home),
{
    let home = home_dir();
    match home {
        Some(h) => ssh_dir_for(Some(h.as_str())),
        None => ssh_dir_for(None),
    }
}

/// The known_hosts file in the SSH directory for `home`.
pub fn known_hosts_path_for(home: Option<&str>) -> (s: String)
    ensures
        s@ == path_join(ssh_dir_of(match home { Some(h) => Some(h@), None => None }), "known_hosts"@),
{
    proof { reveal_strlit("known_hosts"); }
    let d = ssh_dir_for(home);
    join_name(d.as_str(), "known_hosts")
}

/// The user's known_hosts file.
pub fn known_hosts_path() -> (s: String)
    ensures
        exists|home: Option<Seq<char>>| s@ == path_join(ssh_dir_of(home), "known_hosts"@),
{
    let home = home_dir();
    match home {
        Some(h) => known_hosts_path_for(Some(h.as_str())),
        None => known_hosts_path_for(None),
    }
}

/// The identity files tried for `home`: `id_ed25519`, `id_rsa`, `id_ecdsa`
/// and `id_dsa` in its SSH directory.
pub fn default_identity_files_for(home: Option<&str>) -> (v: Vec<String>)
    ensures
        identity_paths(v@, match home { Some(h) => Some(h@), None => None }),
{
    proof {
        reveal_strlit("id_ed25519");
        reveal_strlit("id_rsa");
        reveal_strlit("id_ecdsa");
        reveal_strlit("id_dsa");
    }
    let d = ssh_dir_for(home);
    let mut v: Vec<String> = Vec::new();
    v.push(join_name(d.as_str(), "id_ed25519"));
    v.push(join_name(d.as_str(), "id_rsa"));
    v.push(join_name(d.as_str(), "id_ecdsa"));
    v.push(join_name(d.as_str(), "id_dsa"));
    v
}

/// The identity files tried for the user.
pub fn default_identity_files() -> (v: Vec<String>)
    ensures
        exists|home: Option<Seq<char>>| #[trigger] identity_paths(v@, home),
{
    let home = home_dir();
    match home {
        Some(h) => default_identity_files_for(Some(h.as_str())),
        None => default_identity_files_for(None),
    }
}

} // verus!
