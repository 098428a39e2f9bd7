use basilisk::ssh::{HostKeyAction, SshConfig, SshTarget};

#[test]
fn test_target_new() {
    let target = SshTarget::new("example.com", "admin");
    assert_eq!(target.host, "example.com");
    assert_eq!(target.user, "admin");
    assert_eq!(target.port, 22);
}

#[test]
fn test_target_with_port() {
    let target = SshTarget::new("example.com", "admin").with_port(2222);
    assert_eq!(target.port, 2222);
}

#[test]
fn test_target_parse_full() {
    let target = SshTarget::parse("user@host.com:2222", None).unwrap();
    assert_eq!(target.user, "user");
    assert_eq!(target.host, "host.com");
    assert_eq!(target.port, 2222);
}

#[test]
fn test_target_parse_no_port() {
    let target = SshTarget::parse("user@host.com", None).unwrap();
    assert_eq!(target.user, "user");
    assert_eq!(target.host, "host.com");
    assert_eq!(target.port, 22);
}

#[test]
fn test_target_parse_host_only() {
    let target = SshTarget::parse("host.com", None).unwrap();
    assert_eq!(target.host, "host.com");
    assert_eq!(target.port, 22);
}

#[test]
fn test_target_parse_user_fallback() {
    let target = SshTarget::parse("host.com", Some("alice".to_string())).unwrap();
    assert_eq!(target.user, "alice");
    let target = SshTarget::parse("host.com", None).unwrap();
    assert_eq!(target.user, "root");
}

#[test]
fn test_target_parse_bad_port() {
    let err = SshTarget::parse("user@host:99999", None).err().unwrap();
    assert_eq!(err.to_string(), "SSH error: invalid port number: 99999");
    assert!(SshTarget::parse("host:", None).is_err());
}

#[test]
fn test_target_display() {
    let target = SshTarget::new("example.com", "admin");
    assert_eq!(target.to_string(), "admin@example.com");

    let target_port = target.with_port(2222);
    assert_eq!(target_port.to_string(), "admin@example.com:2222");
    assert_eq!(target_port.to_string_full(), "admin@example.com:2222");
}

#[test]
fn test_ssh_config_default() {
    let config = SshConfig::default();
    assert_eq!(config.timeout_secs, 30);
    assert!(config.verify_host_key);
}

#[test]
fn test_ssh_config_insecure() {
    let config = SshConfig::insecure();
    assert!(!config.verify_host_key);
}

#[test]
fn test_ssh_config_tofu() {
    let config = SshConfig::trust_on_first_use();
    assert!(config.verify_host_key);
    let action = config.unknown_host_action("host", "fp");
    assert_eq!(action, HostKeyAction::AcceptAndSave);
}
