use crossscp::security::{
    CredentialRef, CredentialSecret, InMemoryCredentialService, MasterPasswordVault, SecretString,
    SecurityError,
};

#[test]
fn secret_string_redacts_debug_and_display() {
    let secret = SecretString::new("hunter2").expect("secret should be valid");

    assert_eq!(secret.expose(), "hunter2");
    assert_eq!(secret.display_text(), "REDACTED");
    assert_eq!(secret.debug_text(), "SecretString(REDACTED)");
    assert!(!secret.debug_text().contains("hunter2"));
}

#[test]
fn credential_reference_rejects_empty_values() {
    assert!(CredentialRef::new("   ").is_err());
}

#[test]
fn memory_credential_service_stores_loads_and_deletes_secrets() {
    let mut service = InMemoryCredentialService::new();
    let reference = CredentialRef::new("keychain://site-a").expect("valid ref");
    let secret = CredentialSecret::Password(SecretString::new("password").expect("valid secret"));

    service
        .store(reference.clone(), secret.clone())
        .expect("store secret");

    assert!(service.load(&reference).expect("load secret") == Some(secret));
    assert!(service.delete(&reference).expect("delete secret"));
    assert!(service.load(&reference).expect("load deleted").is_none());
}

#[test]
fn master_password_vault_tracks_locked_state() {
    let mut vault = MasterPasswordVault::new();

    assert_eq!(vault.require_unlocked(), Err(SecurityError::VaultLocked));

    vault.unlock(SecretString::new("master-password").expect("valid master"));
    assert!(vault.is_unlocked());
    assert_eq!(vault.require_unlocked(), Ok(()));

    vault.lock();
    assert!(!vault.is_unlocked());
}
