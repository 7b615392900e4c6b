use crossscp::config::{
    escape, parse_port, parse_profiles, parse_record, render_profiles, render_record, str_to_protocol, unescape,
    validate_profile, ConfigError, InMemorySessionStore,
};
use crossscp::security::{optional_credential_ref, SecretString, SecurityError};
use crossscp::session::{parse_session_protocol, SessionProfile, SessionProtocol};
use crossscp::transfer::{TransferJobId, TransferQueueError};

fn sample_profile(name: &str) -> SessionProfile {
    SessionProfile {
        name: name.to_string(),
        protocol: SessionProtocol::Sftp,
        host: "example.com".to_string(),
        port: Some(22),
        username: Some("alice".to_string()),
        initial_remote_path: Some("/home/alice".to_string()),
        credential_ref: Some("keychain://site-a".to_string()),
    }
}

#[test]
fn session_file_round_trips_tab_in_name() {
    let profile = sample_profile("prod\tsite");
    let mut store = InMemorySessionStore::new();
    store.save(profile.clone()).expect("save profile");

    let text = render_profiles(&store.list().unwrap());
    let reopened = parse_profiles(&text).expect("reopen store");
    assert_eq!(reopened.get("prod\tsite").expect("get profile"), Some(profile));
}

#[test]
fn session_file_after_remove_has_no_profile() {
    let mut store = InMemorySessionStore::new();
    store.save(sample_profile("to-remove")).unwrap();
    assert!(store.remove("to-remove").unwrap());
    let text = render_profiles(&store.list().unwrap());
    assert_eq!(text, "# CrossSCP sessions v1\n");
    let reopened = parse_profiles(&text).unwrap();
    assert!(reopened.get("to-remove").unwrap().is_none());
}

#[test]
fn session_record_layout() {
    let mut profile = sample_profile("a\\b");
    profile.port = None;
    profile.username = None;
    assert_eq!(
        render_record(&profile),
        "a\\\\b\tsftp\texample.com\t\t\t/home/alice\tkeychain://site-a"
    );
    let line: Vec<char> = render_record(&profile).chars().collect();
    assert_eq!(parse_record(&line).unwrap(), profile);
}

#[test]
fn session_file_rejects_bad_records() {
    match parse_profiles("only\tthree\tfields") {
        Err(e) => assert_eq!(e.message(), "invalid session record: only\tthree\tfields"),
        Ok(_) => panic!("short record must fail"),
    }
    match parse_profiles("n\tgopher\th\t\t\t\t") {
        Err(e) => assert_eq!(e.message(), "invalid session protocol: gopher"),
        Ok(_) => panic!("unknown protocol must fail"),
    }
    match parse_profiles("n\tsftp\th\tx1\t\t\t") {
        Err(e) => assert_eq!(e.message(), "invalid session record: invalid port: x1"),
        Ok(_) => panic!("bad port must fail"),
    }
    match parse_profiles("   \tsftp\th\t\t\t\t") {
        Err(e) => assert_eq!(e.message(), "session profile name cannot be empty"),
        Ok(_) => panic!("blank name must fail"),
    }
}

#[test]
fn session_file_skips_comments_and_keeps_last_record_for_a_name() {
    let text = "# c\n\nsite\tftp\ta\t21\t\t\t\nsite\tftps\tb\t\t\t\t\n";
    let store = parse_profiles(text).unwrap();
    let listed = store.list().unwrap();
    assert_eq!(listed.len(), 1);
    assert_eq!(listed[0].protocol, SessionProtocol::Ftps);
    assert_eq!(listed[0].host, "b");
    assert_eq!(listed[0].port, None);
}

#[test]
fn escape_and_unescape_fields() {
    assert_eq!(escape("a\tb\nc\\d"), "a\\tb\\nc\\\\d");
    assert_eq!(unescape("a\\tb\\nc\\\\d").unwrap(), "a\tb\nc\\d");
    assert!(matches!(unescape("bad\\q"), Err(ConfigError::InvalidRecord(_))));
    assert!(matches!(unescape("bad\\"), Err(ConfigError::InvalidRecord(_))));
}

#[test]
fn ports_and_protocol_names() {
    assert_eq!(parse_port("").unwrap(), None);
    assert_eq!(parse_port("+8022").unwrap(), Some(8022));
    assert!(parse_port("65536").is_err());
    assert_eq!(str_to_protocol("webdav").unwrap(), SessionProtocol::WebDav);
    assert!(matches!(str_to_protocol("SFTP"), Err(ConfigError::InvalidProtocol(_))));
}

#[test]
fn profiles_need_a_non_blank_name() {
    assert!(validate_profile(&sample_profile("x")).is_ok());
    assert!(matches!(validate_profile(&sample_profile(" \t")), Err(ConfigError::EmptyProfileName)));
}

#[test]
fn session_protocol_names_are_trimmed_and_case_insensitive() {
    assert_eq!(parse_session_protocol(" Web-Dav ").unwrap(), SessionProtocol::WebDav);
    assert_eq!(parse_session_protocol("LOCAL").unwrap(), SessionProtocol::Local);
    let err = parse_session_protocol("gopher").unwrap_err();
    assert_eq!(err.value(), "gopher");
    assert_eq!(err.message(), "unsupported session protocol: gopher");
}

#[test]
fn empty_secrets_and_references_are_refused() {
    assert!(matches!(SecretString::new(""), Err(SecurityError::EmptySecret)));
    assert!(matches!(optional_credential_ref(&Some("  ".to_string())), Err(SecurityError::InvalidCredentialRef)));
    assert!(matches!(optional_credential_ref(&None), Ok(None)));
    let r = optional_credential_ref(&Some("vault://a".to_string())).unwrap().unwrap();
    assert_eq!(r.as_str(), "vault://a");
}

#[test]
fn unknown_job_message_names_the_id() {
    assert_eq!(
        TransferQueueError::UnknownJob(TransferJobId::from_u64(42)).message(),
        "unknown transfer job 42"
    );
}

#[test]
fn protocol_identifiers_parse_back() {
    for protocol in SessionProtocol::all() {
        assert_eq!(parse_session_protocol(protocol.as_str()).unwrap(), protocol);
        assert_eq!(protocol.as_str().parse::<SessionProtocol>().unwrap(), protocol);
    }
}
