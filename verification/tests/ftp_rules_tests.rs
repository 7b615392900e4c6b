use crossscp::ftp::{
    ftp_material_from_loaded, ftp_transport, join_remote_path, mlst_may_overflow, parse_list_line, parse_list_lines,
    resolve_ftp_credentials, FtpConnectionConfig, FtpError, FtpTransferSummary, FtpTransport, FtpsMode,
};
use crossscp::security::{CredentialRef, CredentialSecret, InMemoryCredentialService, SecretString, SecurityError};
use crossscp::session::{SessionProfile, SessionProtocol};

fn profile(protocol: SessionProtocol) -> SessionProfile {
    SessionProfile {
        name: "ftp".to_string(),
        protocol,
        host: "example.com".to_string(),
        port: None,
        username: Some("alice".to_string()),
        initial_remote_path: None,
        credential_ref: Some("env://PW".to_string()),
    }
}

fn service_with(secret: CredentialSecret) -> InMemoryCredentialService {
    let mut service = InMemoryCredentialService::new();
    service
        .store(CredentialRef::new("env://PW").expect("ref"), secret)
        .expect("store");
    service
}

#[test]
fn ftp_address_joins_host_and_port() {
    let mut p = profile(SessionProtocol::Ftp);
    p.port = Some(2121);
    let config = FtpConnectionConfig::from_profile(&p).expect("config");
    assert_eq!(config.address(), "example.com:2121");
    assert!(config.passive_mode);
    assert_eq!(config.ftps_mode, None);
}

#[test]
fn ftp_config_errors() {
    let mut p = profile(SessionProtocol::Ftp);
    p.host = "  ".to_string();
    assert!(matches!(FtpConnectionConfig::from_profile(&p), Err(FtpError::MissingHost)));
    let mut p = profile(SessionProtocol::Ftp);
    p.credential_ref = Some(" ".to_string());
    assert!(matches!(
        FtpConnectionConfig::from_profile(&p),
        Err(FtpError::Security(SecurityError::InvalidCredentialRef))
    ));
}

#[test]
fn ftp_credentials_accept_tokens_and_refuse_keys() {
    let config = FtpConnectionConfig::from_profile(&profile(SessionProtocol::Ftp)).expect("config");
    let token = service_with(CredentialSecret::Token(SecretString::new("tok").expect("secret")));
    let auth = resolve_ftp_credentials(&config, &token).expect("auth");
    assert_eq!(auth.password, "tok");

    let key = service_with(CredentialSecret::PrivateKey { private_key_path: "/k".to_string(), passphrase: None });
    match resolve_ftp_credentials(&config, &key) {
        Err(FtpError::UnsupportedAuthMethod(message)) => {
            assert_eq!(message, "FTP/FTPS supports password or token credentials only")
        }
        other => panic!("unexpected: {other:?}"),
    }

    let mut anonymous = FtpConnectionConfig::from_profile(&profile(SessionProtocol::Ftp)).expect("config");
    anonymous.username = None;
    let password = service_with(CredentialSecret::Password(SecretString::new("pw").expect("secret")));
    assert!(matches!(resolve_ftp_credentials(&anonymous, &password), Err(FtpError::MissingUsername)));

    let empty = InMemoryCredentialService::new();
    match resolve_ftp_credentials(&config, &empty) {
        Err(FtpError::CredentialNotFound(reference)) => assert_eq!(reference, "env://PW"),
        other => panic!("unexpected: {other:?}"),
    }
    let mut no_ref = FtpConnectionConfig::from_profile(&profile(SessionProtocol::Ftp)).expect("config");
    no_ref.credential_ref = None;
    assert!(matches!(resolve_ftp_credentials(&no_ref, &password), Err(FtpError::MissingCredentialRef)));
}

#[test]
fn ftp_transport_follows_protocol_and_tls_mode() {
    let plain = FtpConnectionConfig::from_profile(&profile(SessionProtocol::Ftp)).expect("config");
    assert_eq!(ftp_transport(&plain).expect("transport"), FtpTransport::Plain);
    let mut secure = FtpConnectionConfig::from_profile(&profile(SessionProtocol::Ftps)).expect("config");
    assert_eq!(ftp_transport(&secure).expect("transport"), FtpTransport::ExplicitTls);
    secure.ftps_mode = Some(FtpsMode::Implicit);
    assert!(matches!(ftp_transport(&secure), Err(FtpError::UnsupportedOperation(_))));
    secure.protocol = SessionProtocol::Sftp;
    assert!(matches!(ftp_transport(&secure), Err(FtpError::InvalidProtocol(SessionProtocol::Sftp))));
}

#[test]
fn ftp_errors_classify_login_failures() {
    assert!(matches!(
        FtpError::from_backend_message("530 Login incorrect.".to_string()),
        FtpError::AuthenticationFailed
    ));
    assert!(matches!(FtpError::from_backend_message("LOGIN refused".to_string()), FtpError::AuthenticationFailed));
    match FtpError::from_backend_message("550 file unavailable".to_string()) {
        FtpError::Backend(message) => assert_eq!(message, "550 file unavailable"),
        other => panic!("unexpected: {other:?}"),
    }
}

#[test]
fn ftp_error_messages() {
    assert_eq!(
        FtpError::InvalidProtocol(SessionProtocol::Sftp).message(),
        "FTP/FTPS adapter cannot use sftp"
    );
    assert_eq!(
        FtpError::Security(SecurityError::EmptySecret).message(),
        "FTP/FTPS credential error: secret cannot be empty"
    );
    assert_eq!(
        FtpError::UnsupportedOperation("resume").message(),
        "FTP/FTPS operation is not supported: resume"
    );
}

#[test]
fn blank_bases_join_under_the_root() {
    assert_eq!(join_remote_path("  ", "f"), "/f");
    assert_eq!(join_remote_path(" /pub ", "f"), "/pub/f");
}

#[test]
fn listing_lines_become_remote_files() {
    let file = parse_list_line("/pub", "-rw-rw-r-- 1 0  1  8192 Nov 5 2018 omar.txt").expect("posix file");
    assert_eq!(file.name, "omar.txt");
    assert_eq!(file.path, "/pub/omar.txt");
    assert_eq!(file.size, Some(8192));
    assert!(!file.is_directory);
    let dir = parse_list_line("/pub/", "04-08-14  03:09PM  <DIR> docs").expect("dos directory");
    assert_eq!(dir.path, "/pub/docs");
    assert!(dir.is_directory);
    let link = parse_list_line("/", "lrwxrwxrwx 1 root root 9 Nov 5 2018 link -> /tmp/target").expect("link");
    assert!(link.is_symlink);
    assert_eq!(link.path, "/link");
}

#[test]
fn listings_drop_dot_entries() {
    let lines = vec![
        "drwxrwxr-x 1 root  dialout  4096 Nov 5 2018 .".to_string(),
        "drwxrwxr-x 1 root  dialout  4096 Nov 5 2018 ..".to_string(),
        "drwxrwxr-x 1 root  dialout  4096 Nov 5 2018 provola".to_string(),
    ];
    let files = parse_list_lines("/srv", &lines);
    assert_eq!(files.len(), 1);
    assert_eq!(files[0].path, "/srv/provola");
}

#[test]
fn transfer_summaries_sum_their_entries() {
    let mut summary = FtpTransferSummary::new("/local", "/remote");
    assert_eq!(summary.bytes_total, Some(0));
    summary.add_entry(10);
    summary.add_entry(5);
    assert_eq!(summary.bytes_done, 15);
    assert_eq!(summary.bytes_total, Some(15));
}

#[test]
fn mlst_lines_parse_and_leap_second_before_epoch_is_skipped() {
    let file = parse_list_line("/srv", "type=file;size=5;modify=20201019151930; a.txt").expect("mlst file");
    assert_eq!(file.path, "/srv/a.txt");
    assert_eq!(file.size, Some(5));
    assert!(mlst_may_overflow("type=file;modify=19691231235960; x"));
    assert!(parse_list_line("/srv", "type=file;modify=19691231235960; x").is_none());
    assert!(parse_list_line("/srv", "type=file;modify=19691231235960.5; x").is_none());
    assert!(!mlst_may_overflow("type=file;size=5;modify=20201019151930; a.txt"));
}

#[test]
fn ftp_login_follows_what_the_service_answered() {
    let config = FtpConnectionConfig::from_profile(&profile(SessionProtocol::Ftp)).unwrap();
    let reference = CredentialRef::new("vault://x").unwrap();
    assert!(matches!(
        ftp_material_from_loaded(&config, &reference, Err(SecurityError::AccessDenied)),
        Err(FtpError::Security(SecurityError::AccessDenied))
    ));
    match ftp_material_from_loaded(&config, &reference, Ok(None)) {
        Err(FtpError::CredentialNotFound(t)) => assert_eq!(t, "vault://x"),
        _ => panic!("missing secret must be reported"),
    }
    let secret = CredentialSecret::Password(SecretString::new("pw").unwrap());
    let m = ftp_material_from_loaded(&config, &reference, Ok(Some(secret))).unwrap();
    assert_eq!(m.password, "pw");
    let key = CredentialSecret::PrivateKey { private_key_path: "/k".to_string(), passphrase: None };
    assert!(matches!(
        ftp_material_from_loaded(&config, &reference, Ok(Some(key))),
        Err(FtpError::UnsupportedAuthMethod(_))
    ));
}

#[test]
fn mlst_guard_looks_only_at_the_modify_fact() {
    assert!(!mlst_may_overflow("type=file;size=1969; a5960"));
    let file = parse_list_line("/", "type=file;size=1969; a5960").expect("mlst file");
    assert_eq!(file.name, "a5960");
    assert_eq!(file.size, Some(1969));
    assert!(mlst_may_overflow("type=file;MODIFY=19691231235960; x"));
    assert!(!mlst_may_overflow("type=file; modify=19691231235960"));
    assert!(!mlst_may_overflow("  modify=19691231235960; x"));
}

#[test]
fn listing_lines_keep_order_and_drop_dot_entries() {
    let lines = vec![
        "type=dir;modify=20201019151930; .".to_string(),
        "type=file;size=3;modify=20201019151930; b".to_string(),
        "type=dir;modify=20201019151930; a".to_string(),
    ];
    let files = parse_list_lines("/x", &lines);
    let names: Vec<&str> = files.iter().map(|f| f.name.as_str()).collect();
    assert_eq!(names, vec!["b", "a"]);
    assert!(files[1].is_directory);
}

#[test]
fn mlst_guard_skips_only_the_leap_second_before_epoch() {
    assert!(!mlst_may_overflow("type=file;size=3;modify=19690605235900; a.txt"));
    let file = parse_list_line("/", "type=file;size=3;modify=19690605235900; a.txt").expect("mlst file");
    assert_eq!(file.name, "a.txt");
    assert!(mlst_may_overflow("type=file;modify=+01969 12 31 23 59 60.25; x"));
    assert!(!mlst_may_overflow("type=file;modify=19691231235960x; x"));
    assert!(parse_list_line("/", "type=file;modify=19691231235960x; x").is_none());
}

#[test]
fn posix_kind_name_and_size_come_from_the_line() {
    let dir = parse_list_line("/p", "drwxr-xr-x 2 0 0 4096 Nov 5 2018 docs").expect("dir");
    assert!(dir.is_directory && !dir.is_symlink);
    assert_eq!(dir.size, Some(4096));
    let link = parse_list_line("/p", "lrwxrwxrwx 1 0 0 7 Nov 5 2018 cur -> target").expect("link");
    assert!(link.is_symlink && !link.is_directory);
    assert_eq!(link.name, "cur");
    assert_eq!(link.path, "/p/cur");
}
