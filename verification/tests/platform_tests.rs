use crossscp::security::{
    CredentialRef, CredentialService, MacOsKeychainCredentialService, WindowsCredentialService,
};

#[test]
fn macos_keychain_scaffold_reports_unavailable() {
    let service = MacOsKeychainCredentialService::new();
    let reference = CredentialRef::new("keychain://site").expect("valid ref");

    assert!(service.load(&reference).is_err());
}

#[test]
fn windows_credential_scaffold_reports_unavailable() {
    let service = WindowsCredentialService::new();
    let reference = CredentialRef::new("wincred://site").expect("valid ref");

    assert!(service.load(&reference).is_err());
}
