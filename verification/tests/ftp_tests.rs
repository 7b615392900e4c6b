use crossscp::ftp::{
    capabilities, join_remote_path, resolve_ftp_credentials, FtpConnectionConfig, FtpError, FtpsMode,
    DEFAULT_FTP_PORT,
};
use crossscp::security::{CredentialRef, CredentialSecret, InMemoryCredentialService, SecretString};
use crossscp::session::{SessionProfile, SessionProtocol};

fn sample_profile(protocol: SessionProtocol) -> SessionProfile {
    SessionProfile {
        name: "ftp".to_string(),
        protocol,
        host: "example.com".to_string(),
        port: None,
        username: Some("alice".to_string()),
        initial_remote_path: Some("/".to_string()),
        credential_ref: Some("env://CROSSSCP_REMOTE_PASSWORD".to_string()),
    }
}

#[test]
fn ftps_defaults_to_explicit_mode_and_tls_capabilities() {
    let profile = sample_profile(SessionProtocol::Ftps);
    let config = FtpConnectionConfig::from_profile(&profile).expect("config");
    assert_eq!(config.port, DEFAULT_FTP_PORT);
    assert_eq!(config.ftps_mode, Some(FtpsMode::Explicit));
    assert!(capabilities(SessionProtocol::Ftps).supports_tls_policy);
}

#[test]
fn ftp_config_rejects_wrong_protocol() {
    let mut profile = sample_profile(SessionProtocol::Ftp);
    profile.protocol = SessionProtocol::Sftp;
    assert!(matches!(
        FtpConnectionConfig::from_profile(&profile),
        Err(FtpError::InvalidProtocol(SessionProtocol::Sftp))
    ));
}

#[test]
fn credentials_resolve_password_only() {
    let profile = sample_profile(SessionProtocol::Ftp);
    let config = FtpConnectionConfig::from_profile(&profile).expect("config");
    let mut service = InMemoryCredentialService::new();
    service
        .store(
            CredentialRef::new("env://CROSSSCP_REMOTE_PASSWORD").expect("ref"),
            CredentialSecret::Password(SecretString::new("secret").expect("secret")),
        )
        .expect("store");
    let auth = resolve_ftp_credentials(&config, &service).expect("auth");
    assert_eq!(auth.username, "alice");
    assert_eq!(auth.password, "secret");
}

#[test]
fn joins_remote_paths() {
    assert_eq!(join_remote_path("/", "file.txt"), "/file.txt");
    assert_eq!(join_remote_path("/pub", "file.txt"), "/pub/file.txt");
    assert_eq!(join_remote_path("/pub/", "file.txt"), "/pub/file.txt");
}
