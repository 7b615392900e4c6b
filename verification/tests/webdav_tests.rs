use crossscp::session::{SessionProfile, SessionProtocol};
use crossscp::webdav::{capabilities, WebDavConnectionConfig};

#[test]
fn webdav_config_requires_base_url_and_defaults_tls() {
    let profile = SessionProfile {
        name: "dav".to_string(),
        protocol: SessionProtocol::WebDav,
        host: "https://example.com/dav".to_string(),
        port: None,
        username: Some("alice".to_string()),
        initial_remote_path: Some("/".to_string()),
        credential_ref: Some("env://CROSSSCP_REMOTE_PASSWORD".to_string()),
    };
    let config = WebDavConnectionConfig::from_profile(&profile).expect("config");
    assert!(config.tls_policy.require_valid_certificate);
    assert!(capabilities().supports_http_version_policy);
}
