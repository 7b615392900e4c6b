use crossscp::scp::{capabilities, resolve_scp_credentials, scp_material_from_loaded, ScpConnectionConfig, ScpError};
use crossscp::security::SecurityError;
use crossscp::security::{CredentialRef, CredentialSecret, InMemoryCredentialService, SecretString};
use crossscp::session::{SessionProfile, SessionProtocol};

fn sample_profile() -> SessionProfile {
    SessionProfile {
        name: "site".to_string(),
        protocol: SessionProtocol::Scp,
        host: "example.com".to_string(),
        port: None,
        username: Some("alice".to_string()),
        initial_remote_path: Some("/tmp".to_string()),
        credential_ref: Some("env://CROSSSCP_REMOTE_PASSWORD".to_string()),
    }
}

#[test]
fn scp_config_defaults_port() {
    let profile = sample_profile();
    assert_eq!(ScpConnectionConfig::from_profile(&profile).expect("config").port, 22);
}

#[test]
fn scp_capabilities_are_transfer_only() {
    let caps = capabilities();
    assert!(!caps.can_list);
    assert!(caps.can_upload);
    assert!(caps.can_download);
}

#[test]
fn credentials_resolve_password() {
    let profile = sample_profile();
    let config = ScpConnectionConfig::from_profile(&profile).expect("config");
    let mut service = InMemoryCredentialService::new();
    service
        .store(
            CredentialRef::new("env://CROSSSCP_REMOTE_PASSWORD").expect("ref"),
            CredentialSecret::Password(SecretString::new("secret").expect("secret")),
        )
        .expect("store");
    let auth = resolve_scp_credentials(&config, &service).expect("auth");
    assert_eq!(auth.username, Some("alice".to_string()));
    assert!(matches!(auth.secret, CredentialSecret::Password(_)));
}

#[test]
fn scp_material_follows_what_the_service_answered() {
    let config = ScpConnectionConfig {
        host: "h".to_string(),
        port: 22,
        username: None,
        initial_remote_path: None,
        credential_ref: None,
    };
    let reference = CredentialRef::new("vault://k").unwrap();
    assert!(matches!(
        scp_material_from_loaded(&config, &reference, Err(SecurityError::AccessDenied)),
        Err(ScpError::Security(SecurityError::AccessDenied))
    ));
    assert!(matches!(scp_material_from_loaded(&config, &reference, Ok(None)), Err(ScpError::CredentialNotFound(_))));
    let secret = CredentialSecret::Token(SecretString::new("t").unwrap());
    let m = scp_material_from_loaded(&config, &reference, Ok(Some(secret))).unwrap();
    assert!(m.username.is_none());
}
