use crossscp::prompts::PromptError;
use crossscp::security::{CredentialRef, CredentialSecret, SecretString, SecurityError};
use crossscp::session::SessionProtocol;
use crossscp::sftp::{
    copy_with_progress, env_value, sftp_material_from_loaded, SftpConnectionConfig, parse_host_key_line, parse_host_keys, render_host_key, render_host_keys,
    unescape_field, HostKeyRecord, HostKeyTrust, InMemoryHostKeyStore, LiveSftpEnv, LiveSftpTestConfig,
    ProgressThrottle, SftpError,
};

fn live_env() -> LiveSftpEnv {
    LiveSftpEnv {
        host: Some("127.0.0.1".to_string()),
        username: Some("alice".to_string()),
        credential_ref: Some("vault://live".to_string()),
        port: Some("2222".to_string()),
        timeout_secs: Some("3".to_string()),
        list_path: Some("/upload".to_string()),
        local_file: Some("/tmp/crossscp-local.txt".to_string()),
        remote_file: Some("/upload/crossscp-remote.txt".to_string()),
    }
}

#[test]
fn live_test_config_is_none_when_required_env_is_absent() {
    assert_eq!(LiveSftpTestConfig::from_env(&LiveSftpEnv::default()).expect("parse env"), None);
}

#[test]
fn live_test_config_parses_when_env_is_complete() {
    let env = live_env();
    let config = LiveSftpTestConfig::from_env(&env).expect("parse env").expect("config present");

    assert_eq!(config.host, "127.0.0.1");
    assert_eq!(config.port, 2222);
    assert_eq!(config.username, "alice");
    assert_eq!(config.credential_ref, "vault://live");
    assert_eq!(config.timeout_secs, 3);
    assert_eq!(config.initial_list_path(&env), "/upload");
    assert_eq!(
        config.transfer_paths(&env),
        Some(("/tmp/crossscp-local.txt".to_string(), "/upload/crossscp-remote.txt".to_string()))
    );
    assert_eq!(config.to_session_profile().protocol, SessionProtocol::Sftp);
}

#[test]
fn live_test_config_defaults_and_rejects_bad_numbers() {
    let mut env = live_env();
    env.port = None;
    env.timeout_secs = Some("  ".to_string());
    env.list_path = None;
    env.remote_file = None;
    let config = LiveSftpTestConfig::from_env(&env).unwrap().unwrap();
    assert_eq!(config.port, 22);
    assert_eq!(config.timeout_secs, 10);
    assert_eq!(config.initial_list_path(&env), ".");
    assert_eq!(config.transfer_paths(&env), None);

    let mut bad_port = live_env();
    bad_port.port = Some("70000".to_string());
    match LiveSftpTestConfig::from_env(&bad_port) {
        Err(e) => assert_eq!(e.message(), "invalid live SFTP test configuration: invalid test port"),
        Ok(_) => panic!("port out of range must fail"),
    }

    let mut bad_timeout = live_env();
    bad_timeout.timeout_secs = Some("soon".to_string());
    match LiveSftpTestConfig::from_env(&bad_timeout) {
        Err(e) => assert_eq!(e.message(), "invalid live SFTP test configuration: invalid test timeout"),
        Ok(_) => panic!("unreadable timeout must fail"),
    }

    let mut blank_host = live_env();
    blank_host.host = Some(" ".to_string());
    assert_eq!(LiveSftpTestConfig::from_env(&blank_host).unwrap(), None);
}

#[test]
fn env_value_ignores_blank_values() {
    assert_eq!(env_value(&Some(" x ".to_string())), Some(" x ".to_string()));
    assert_eq!(env_value(&Some("\t".to_string())), None);
    assert_eq!(env_value(&None), None);
}

#[test]
fn file_host_key_store_persists_trusted_records() {
    let record = HostKeyRecord::new("sftp\texample.com", 2222, "ssh-ed25519", "SHA256:abc");
    let mut store = InMemoryHostKeyStore::new();
    store.trust(record.clone()).expect("trust record");

    let text = render_host_keys(store.records());
    let reopened = parse_host_keys(&text).expect("reopen store");
    assert!(matches!(reopened.check(&record).expect("check record"), HostKeyTrust::Trusted));
}

#[test]
fn known_hosts_text_escapes_fields() {
    let record = HostKeyRecord::new("a\tb\\c\nd", 22, "ssh-rsa", "SHA256:x");
    assert_eq!(render_host_key(&record), "a\\tb\\\\c\\nd\t22\tssh-rsa\tSHA256:x");
    let text = render_host_keys(&[record.clone()]);
    assert_eq!(text, "# CrossSCP known hosts v1\na\\tb\\\\c\\nd\t22\tssh-rsa\tSHA256:x\n");
    let line: Vec<char> = "a\\tb\\\\c\\nd\t22\tssh-rsa\tSHA256:x".chars().collect();
    assert!(parse_host_key_line(&line).unwrap() == record);
}

#[test]
fn known_hosts_parser_skips_comments_and_blank_lines() {
    let text = "# comment\n\n   \nhost\t+22\tssh-rsa\tfp\r\nother\t2200\tssh-ed25519\tfp2";
    let store = parse_host_keys(text).unwrap();
    assert_eq!(store.records().len(), 2);
    assert!(matches!(
        store.check(&HostKeyRecord::new("host", 22, "ssh-rsa", "fp")).unwrap(),
        HostKeyTrust::Trusted
    ));
    assert!(matches!(
        store.check(&HostKeyRecord::new("other", 2200, "ssh-ed25519", "fp2")).unwrap(),
        HostKeyTrust::Trusted
    ));
}

#[test]
fn known_hosts_parser_names_bad_records() {
    match parse_host_keys("host\t22\tssh-rsa") {
        Err(e) => assert_eq!(e.message(), "invalid known-host record: host\t22\tssh-rsa"),
        Ok(_) => panic!("three fields must fail"),
    }
    match parse_host_keys("host\t99999\tssh-rsa\tfp") {
        Err(e) => assert_eq!(e.message(), "invalid known-host record: host\t99999\tssh-rsa\tfp"),
        Ok(_) => panic!("bad port must fail"),
    }
    match parse_host_keys("ho\\xst\t22\tssh-rsa\tfp") {
        Err(e) => assert_eq!(e.message(), "invalid known-host record: ho\\xst"),
        Ok(_) => panic!("bad escape must fail"),
    }
    assert!(matches!(unescape_field("trailing\\"), Err(SftpError::InvalidKnownHostRecord(_))));
    assert_eq!(unescape_field("a\\tb").unwrap(), "a\tb");
}

#[test]
fn later_known_host_line_replaces_earlier_one() {
    let store = parse_host_keys("h\t22\tssh-rsa\told\nh\t22\tssh-rsa\tnew\n").unwrap();
    assert_eq!(store.records().len(), 1);
    assert_eq!(store.records()[0].fingerprint, "new");
}

#[test]
fn forgotten_host_key_becomes_unknown() {
    let record = HostKeyRecord::new("example.com", 22, "ssh-ed25519", "SHA256:abc");
    let mut store = InMemoryHostKeyStore::new();
    store.trust(record.clone()).unwrap();
    assert_eq!(store.forget(&record.key()).unwrap(), true);
    assert!(matches!(store.check(&record).unwrap(), HostKeyTrust::Unknown));
    assert_eq!(store.forget(&record.key()).unwrap(), false);
}

#[test]
fn sftp_error_messages() {
    assert_eq!(SftpError::MissingHost.message(), "SFTP host is required");
    assert_eq!(SftpError::InvalidProtocol(SessionProtocol::Ftp).message(), "SFTP adapter cannot use Ftp");
    assert_eq!(SftpError::Prompt(PromptError::Unavailable).message(), "SFTP prompt error: prompt broker unavailable");
    assert_eq!(SftpError::Backend("boom".to_string()).message(), "SFTP backend error: boom");
    assert!(SftpError::Security(SecurityError::EmptySecret).message().starts_with("SFTP credential error: "));
}

#[test]
fn copy_with_progress_reports_empty_source_once_started() {
    let mut written = Vec::new();
    let (copied, events) = copy_with_progress(&[], &mut written, Some(0));
    assert_eq!(copied, 0);
    assert!(written.is_empty());
    assert_eq!(events.first(), Some(&(0, Some(0))));
    assert_eq!(events.last(), Some(&(0, Some(0))));
}

#[test]
fn progress_throttle_reports_only_after_interval() {
    let (mut throttle, first) = ProgressThrottle::start(Some(10));
    assert_eq!(first, (0, Some(10)));
    assert_eq!(throttle.advance(4, false), None);
    assert_eq!(throttle.advance(3, true), Some((7, Some(10))));
    assert_eq!(throttle.finish(), None);
    assert_eq!(throttle.advance(3, false), None);
    assert_eq!(throttle.finish(), Some((10, Some(10))));
}

#[test]
fn sftp_material_follows_what_the_service_answered() {
    let config = SftpConnectionConfig {
        host: "h".to_string(),
        port: 22,
        username: Some("alice".to_string()),
        initial_remote_path: None,
        credential_ref: None,
    };
    let reference = CredentialRef::new("vault://k").unwrap();
    assert!(matches!(
        sftp_material_from_loaded(&config, &reference, Err(SecurityError::VaultLocked)),
        Err(SftpError::Security(SecurityError::VaultLocked))
    ));
    match sftp_material_from_loaded(&config, &reference, Ok(None)) {
        Err(SftpError::CredentialNotFound(t)) => assert_eq!(t, "vault://k"),
        _ => panic!("missing secret must be reported"),
    }
    let secret = CredentialSecret::Password(SecretString::new("pw").unwrap());
    let m = sftp_material_from_loaded(&config, &reference, Ok(Some(secret.clone()))).unwrap();
    assert!(m.secret == secret);
    assert_eq!(m.username.as_deref(), Some("alice"));
}
