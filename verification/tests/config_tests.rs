use crossscp::config::InMemorySessionStore;
use crossscp::session::{SessionProfile, SessionProtocol};

fn sample_profile(name: &str) -> SessionProfile {
    SessionProfile {
        name: name.to_string(),
        protocol: SessionProtocol::Sftp,
        host: "example.com".to_string(),
        port: Some(22),
        username: Some("alice".to_string()),
        initial_remote_path: Some("/home/alice".to_string()),
        credential_ref: Some("keychain://site-a".to_string()),
    }
}

#[test]
fn memory_store_saves_lists_gets_and_removes_profiles() {
    let mut store = InMemorySessionStore::new();
    let profile = sample_profile("site-a");

    store.save(profile.clone()).expect("save profile");

    assert_eq!(store.get("site-a").expect("get profile"), Some(profile));
    assert_eq!(store.list().expect("list profiles").len(), 1);
    assert!(store.remove("site-a").expect("remove profile"));
    assert!(store.get("site-a").expect("get removed").is_none());
}

#[test]
fn memory_store_rejects_empty_profile_names() {
    let mut store = InMemorySessionStore::new();
    let mut profile = sample_profile("");
    profile.name = "   ".to_string();

    assert!(store.save(profile).is_err());
}
