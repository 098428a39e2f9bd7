use std::hash::{Hash, Hasher};
use basilisk::ssh::known_hosts::{HostKey, HostKeyVerification, KnownHosts};
use basilisk::ssh::client::{ConnectionState, SshClient};
use basilisk::ssh::{
    default_identity_files_for, known_hosts_path, known_hosts_path_for, ssh_dir, ssh_dir_for, HostKeyAction,
    SshConfig, SshTarget,
};
use basilisk::Error;

fn key(bytes: &[u8]) -> HostKey {
    HostKey { key_type: "ssh-ed25519".to_string(), key_bytes: bytes.to_vec() }
}

#[test]
fn test_known_hosts_empty() {
    let kh = KnownHosts::parse("known_hosts".to_string(), "");
    assert!(kh.is_empty());
}

#[test]
fn test_host_string_standard_port() {
    let kh = KnownHosts::new("kh".to_string());
    assert_eq!(kh.host_string("example.com", 22), "example.com");
}

#[test]
fn test_host_string_custom_port() {
    let kh = KnownHosts::new("kh".to_string());
    assert_eq!(kh.host_string("example.com", 2222), "[example.com]:2222");
}

#[test]
fn test_known_hosts_parse_file() {
    let kh = KnownHosts::parse("known_hosts".to_string(), "example.com ssh-ed25519 AAAAC3NzaC1lZDI1NTE5AAAAITest\n");
    assert_eq!(kh.len(), 1);
    assert!(kh.is_known("example.com", 22));
}

#[test]
fn test_known_hosts_skip_comments() {
    let kh = KnownHosts::parse(
        "known_hosts".to_string(),
        "# comment\nexample.com ssh-ed25519 AAAAC3NzaC1lZDI1NTE5AAAAITest\n\n",
    );
    assert_eq!(kh.len(), 1);
}

#[test]
fn test_is_known() {
    let kh = KnownHosts::parse("known_hosts".to_string(), "example.com ssh-ed25519 AAAAC3NzaC1lZDI1NTE5AAAAITest\n");
    assert!(kh.is_known("example.com", 22));
    assert!(!kh.is_known("other.com", 22));
    assert!(!kh.is_known("example.com", 2222));
}

#[test]
fn known_hosts_parse_details() {
    let text = "  a.com ssh-rsa AAAA comment here\r\nshort line\n[b.com]:2222\tssh-ed25519   BBBB\na.com ecdsa-sha2-nistp256 CCCC\na.com ssh-rsa DDDD\n";
    let kh = KnownHosts::parse("p".to_string(), text);
    assert_eq!(kh.len(), 2);
    assert!(kh.is_known("b.com", 2222));
    assert!(!kh.is_known("short", 22));
    assert_eq!(kh.to_file_text(), "a.com ssh-rsa DDDD\na.com ecdsa-sha2-nistp256 CCCC\n[b.com]:2222 ssh-ed25519 BBBB\n");
}

#[test]
fn known_hosts_verify_outcomes() {
    let mut kh = KnownHosts::new("p".to_string());
    let k = key(&[1, 2, 3]);
    match kh.verify("host", 22, &k) {
        HostKeyVerification::Unknown { fingerprint } => {
            assert!(fingerprint.starts_with("SHA256:"));
            assert_eq!(fingerprint.len(), 7 + 16);
        }
        other => panic!("expected Unknown, got {:?}", other),
    }
    kh.add("host", 22, &k);
    assert_eq!(kh.to_file_text(), "host ssh-ed25519 AQID\n");
    assert_eq!(kh.verify("host", 22, &k), HostKeyVerification::Verified);
    assert!(matches!(kh.verify("host", 2200, &k), HostKeyVerification::Unknown { .. }));

    let recorded = KnownHosts::parse("p".to_string(), "host ssh-ed25519 AAAAC3NzaC1lZDI1NTE5AAAAITest\n");
    match recorded.verify("host", 22, &k) {
        HostKeyVerification::Changed { fingerprint, expected_fingerprint } => {
            assert!(fingerprint.starts_with("SHA256:"));
            assert_eq!(expected_fingerprint, "ssh-ed25519:AAAAC3NzaC1lZDI1");
        }
        other => panic!("expected Changed, got {:?}", other),
    }
    let other_type = HostKey { key_type: "ssh-rsa".to_string(), key_bytes: vec![1, 2, 3] };
    assert!(matches!(recorded.verify("host", 22, &other_type), HostKeyVerification::Unknown { .. }));
}

#[test]
fn known_hosts_try_verify_short_record() {
    let recorded = KnownHosts::parse("p".to_string(), "host ssh-ed25519 SHORT\n");
    assert!(recorded.try_verify("host", 22, &key(&[9])).is_none());
    let recorded = KnownHosts::parse("p".to_string(), "host ssh-ed25519 AQID\n");
    assert_eq!(recorded.try_verify("host", 22, &key(&[1, 2, 3])), Some(HostKeyVerification::Verified));
}

#[test]
fn known_hosts_add_remove() {
    let mut kh = KnownHosts::new("p".to_string());
    kh.add("h", 2222, &key(&[0xff]));
    assert!(kh.is_known("h", 2222));
    assert_eq!(kh.to_file_text(), "[h]:2222 ssh-ed25519 /w==\n");
    kh.add("h", 2222, &key(&[0]));
    assert_eq!(kh.to_file_text(), "[h]:2222 ssh-ed25519 AA==\n");
    kh.remove("h", 2222);
    assert!(kh.is_empty());
    kh.remove("h", 2222);
    assert!(kh.is_empty());
}

#[test]
fn test_default_paths() {
    let dir = ssh_dir();
    assert!(dir.contains(".ssh"));

    let known = known_hosts_path();
    assert!(known.contains("known_hosts"));
}

#[test]
fn ssh_paths_for_home() {
    assert_eq!(ssh_dir_for(Some("/home/u")), "/home/u/.ssh");
    assert_eq!(ssh_dir_for(Some("/home/u/")), "/home/u/.ssh");
    assert_eq!(ssh_dir_for(None), ".ssh");
    assert_eq!(known_hosts_path_for(Some("/h")), "/h/.ssh/known_hosts");
    assert_eq!(
        default_identity_files_for(Some("/h")),
        vec![
            "/h/.ssh/id_ed25519".to_string(),
            "/h/.ssh/id_rsa".to_string(),
            "/h/.ssh/id_ecdsa".to_string(),
            "/h/.ssh/id_dsa".to_string()
        ]
    );
}

fn state(config: SshConfig, known: &str) -> ConnectionState {
    ConnectionState::new(KnownHosts::parse("p".to_string(), known), SshTarget::new("host", "me"), config)
}

#[test]
fn check_server_key_decisions() {
    let k = key(&[1, 2, 3]);
    let mut s = state(SshConfig::insecure(), "host ssh-ed25519 OTHERKEYOTHERKEYOTHER\n");
    assert!(matches!(s.check_server_key(&k), Ok(true)));

    let mut s = state(SshConfig::default(), "host ssh-ed25519 AQID\n");
    assert!(matches!(s.check_server_key(&k), Ok(true)));
    assert!(!s.needs_save());

    let mut s = state(SshConfig::default(), "");
    assert!(matches!(s.check_server_key(&k), Ok(false)));
    assert_eq!(s.host_key_action, Some(HostKeyAction::Reject));

    let mut s = state(SshConfig::trust_on_first_use(), "");
    assert!(matches!(s.check_server_key(&k), Ok(true)));
    assert!(s.needs_save());
    assert!(s.known_hosts.is_known("host", 22));

    let mut s = state(SshConfig::default(), "host ssh-ed25519 AAAAC3NzaC1lZDI1NTE5AAAAITest\n");
    match s.check_server_key(&k) {
        Err(Error::Ssh(msg)) => {
            assert!(msg.starts_with("HOST KEY CHANGED for host: got SHA256:"));
            assert!(msg.ends_with(", expected ssh-ed25519:AAAAC3NzaC1lZDI1. Possible MITM attack!"));
        }
        _ => panic!("expected a changed-key error"),
    }
}

#[test]
fn ssh_client_with_config() {
    let c = SshClient::with_config(SshConfig::insecure(), KnownHosts::new("p".to_string())).unwrap();
    assert!(!c.config.verify_host_key);
    let c = SshClient::new(KnownHosts::new("p".to_string())).unwrap();
    assert_eq!(c.config.timeout_secs, 30);
}

#[test]
fn known_hosts_fingerprint_is_hash_of_key_bytes() {
    let kh = KnownHosts::new("p".to_string());
    let bytes = [9u8, 8, 7, 6];
    let mut hasher = std::collections::hash_map::DefaultHasher::new();
    bytes[..].hash(&mut hasher);
    let expected = format!("SHA256:{:016x}", hasher.finish());
    match kh.verify("host", 22, &key(&bytes)) {
        HostKeyVerification::Unknown { fingerprint } => assert_eq!(fingerprint, expected),
        other => panic!("expected Unknown, got {:?}", other),
    }
}
