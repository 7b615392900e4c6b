use crossscp::local::LocalFileSystem;
use crossscp::session::SessionProfile;

#[test]
fn local_adapter_connects_only_to_local_profiles() {
    let mut adapter = LocalFileSystem::new();

    adapter
        .connect(&SessionProfile::local("local"))
        .expect("local profile should connect");

    assert!(adapter.is_connected());
}
