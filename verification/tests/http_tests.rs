use crossscp::http::TlsPolicy;

#[test]
fn tls_policy_requires_valid_certificates_by_default() {
    assert!(TlsPolicy::default().require_valid_certificate);
}
