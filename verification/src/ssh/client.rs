//! The SSH client's own decisions: what to make of a server's host key.
//! The connection itself is driven by its owner.

use vstd::prelude::*;
use crate::error::{Error, Result};
use crate::ssh::{SshTarget, SshConfig, HostKeyAction};
use crate::ssh::known_hosts::{
    KnownHosts, HostKey, HostKeyVerification, verification_of, recorded_differs,
    host_entry_name, base64_standard, with_key, fingerprint_text, expected_text, key_hash,
};
use crate::text::{chars_of, concat_string, chars_in_bytes};

verus! {

/// An SSH client: its settings and the host keys it knows.
pub struct SshClient {
    pub config: SshConfig,
    pub known_hosts: KnownHosts,
}

impl SshClient {
    /// A client with the default settings and the known hosts given (read
    /// from the known_hosts file by the caller).
    pub fn new(known_hosts: KnownHosts) -> (r: Result<SshClient>)
        ensures
            r matches Ok(c) && c.config == (SshConfig { timeout_secs: 30, keepalive_secs: 60, verify_host_key: true, on_unknown_host: HostKeyAction::Reject })
                && c.known_hosts == known_hosts,
    {
        Ok(SshClient { config: SshConfig::default(), known_hosts })
    }

    /// A client with the settings and the known hosts given.
    pub fn with_config(config: SshConfig, known_hosts: KnownHosts) -> (r: Result<SshClient>)
        ensures
            r matches Ok(c) && c.config == config && c.known_hosts == known_hosts,
    {
        Ok(SshClient { config, known_hosts })
    }
}

/// What a connection keeps while it is set up.
pub struct ConnectionState {
    pub known_hosts: KnownHosts,
    pub target: SshTarget,
    pub config: SshConfig,
    /// What was done with an unknown host key, once one was seen.
    pub host_key_action: Option<HostKeyAction>,
}

/// The message a changed host key is refused with.
pub open spec fn changed_key_message(host: Seq<char>, fingerprint: Seq<char>, expected: Seq<char>) -> Seq<char> {
    "HOST KEY CHANGED for "@ + host + ": got "@ + fingerprint + ", expected "@ + expected + ". Possible MITM attack!"@
}

impl ConnectionState {
    /// The state a connection to `target` starts in.
    pub fn new(known_hosts: KnownHosts, target: SshTarget, config: SshConfig) -> (s: ConnectionState)
        ensures
            s.known_hosts == known_hosts,
            s.target == target,
            s.config == config,
            s.host_key_action.is_none(),
    {
        ConnectionState { known_hosts, target, config, host_key_action: None }
    }

    /// The name the target is listed under.
    pub open spec fn target_name(&self) -> Seq<char> {
        host_entry_name(self.target.host@, self.target.port)
    }

    /// Whether checking `key` can give an answer (see `KnownHosts::verify`).
    pub open spec fn checkable(&self, key: &HostKey) -> bool {
        self.config.verify_host_key && recorded_differs(self.known_hosts@, self.target_name(), key.key_type@, base64_standard(key.key_bytes@))
            ==> chars_in_bytes(self.known_hosts@[self.target_name()][key.key_type@], 16) is Some
    }

    /// Decide on the server's host key. Without host key checking every key
    /// is accepted. A known key is accepted; a changed key is refused with an
    /// error; for an unknown key the configured action is taken and
    /// recorded: accept, accept and add it to the known hosts, or reject.
    pub fn check_server_key(&mut self, key: &HostKey) -> (r: Result<bool>)
        requires
            old(self).known_hosts.wf(),
            old(self).checkable(key),
        ensures
            final(self).known_hosts.wf(),
            final(self).target == old(self).target,
            final(self).config == old(self).config,
            ({
                let m = old(self).known_hosts@;
                let name = old(self).target_name();
                let kt = key.key_type@;
                let kd = base64_standard(key.key_bytes@);
                if !old(self).config.verify_host_key {
                    r matches Ok(b) && b && *final(self) == *old(self)
                } else if m.contains_key(name) && m[name].contains_key(kt) {
                    if m[name][kt] == kd {
                        r matches Ok(b) && b && *final(self) == *old(self)
                    } else {
                        &&& r matches Err(Error::Ssh(msg)) && msg@ == changed_key_message(
                                old(self).target.host@, fingerprint_text(key_hash(key.key_bytes@)), expected_text(kt, m[name][kt]))
                        &&& *final(self) == *old(self)
                    }
                } else {
                    let action = old(self).config.on_unknown_host;
                    &&& final(self).host_key_action == Some(action)
                    &&& action == HostKeyAction::Reject ==> (r matches Ok(b) && !b) && final(self).known_hosts == old(self).known_hosts
                    &&& action == HostKeyAction::Accept ==> (r matches Ok(b) && b) && final(self).known_hosts == old(self).known_hosts
                    &&& action == HostKeyAction::AcceptAndSave ==> (r matches Ok(b) && b)
                        && final(self).known_hosts@ == with_key(m, name, kt, kd)
                        && final(self).known_hosts.path == old(self).known_hosts.path
                }
            }),
    {
        if !self.config.verify_host_key {
            return Ok(true);
        }
        let verification = self.known_hosts.verify(self.target.host.as_str(), self.target.port, key);
        match verification {
            HostKeyVerification::Verified => Ok(true),
            HostKeyVerification::Unknown { fingerprint } => {
                let action = self.config.unknown_host_action(self.target.host.as_str(), fingerprint.as_str());
                self.host_key_action = Some(action);
                match action {
                    HostKeyAction::Accept => Ok(true),
                    HostKeyAction::AcceptAndSave => {
                        self.known_hosts.add(self.target.host.as_str(), self.target.port, key);
                        Ok(true)
                    }
                    HostKeyAction::Reject => Ok(false),
                }
            }
            HostKeyVerification::Changed { fingerprint, expected_fingerprint } => {
                let a = chars_of("HOST KEY CHANGED for ");
                let h = chars_of(self.target.host.as_str());
                let s1 = concat_string(a.as_slice(), h.as_slice());
                let s1 = chars_of(s1.as_str());
                let b = chars_of(": got ");
                let s2 = concat_string(s1.as_slice(), b.as_slice());
                let s2 = chars_of(s2.as_str());
                let f = chars_of(fingerprint.as_str());
                let s3 = concat_string(s2.as_slice(), f.as_slice());
                let s3 = chars_of(s3.as_str());
                let c = chars_of(", expected ");
                let s4 = concat_string(s3.as_slice(), c.as_slice());
                let s4 = chars_of(s4.as_str());
                let e = chars_of(expected_fingerprint.as_str());
                let s5 = concat_string(s4.as_slice(), e.as_slice());
                let s5 = chars_of(s5.as_str());
                let d = chars_of(". Possible MITM attack!");
                let msg = concat_string(s5.as_slice(), d.as_slice());
                Err(Error::Ssh(msg))
            }
        }
    }

    /// `check_server_key` where it is defined; none, and nothing changes,
    /// where checking is on and the recorded key differs but its first 16
    /// bytes do not end a character.
    pub fn try_check_server_key(&mut self, key: &HostKey) -> (r: Option<Result<bool>>)
        requires
            old(self).known_hosts.wf(),
        ensures
            final(self).known_hosts.wf(),
            r is None <==> !old(self).checkable(key),
            r is None ==> *final(self) == *old(self),
    {
        if self.config.verify_host_key {
            match self.known_hosts.try_verify(self.target.host.as_str(), self.target.port, key) {
                None => return None,
                Some(_) => {}
            }
        }
        Some(self.check_server_key(key))
    }

    /// Whether a host key was added that the known_hosts file should keep.
    pub fn needs_save(&self) -> (b: bool)
        ensures
            b == (self.host_key_action == Some(HostKeyAction::AcceptAndSave)),
    {
        match self.host_key_action {
            Some(HostKeyAction::AcceptAndSave) => true,
            _ => false,
        }
    }
}

} // verus!
