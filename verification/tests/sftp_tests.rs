use crossscp::prompts::{FixedPromptBroker, PromptBroker, PromptError, PromptRequest, PromptResponse};
use crossscp::security::{CredentialRef, CredentialSecret, InMemoryCredentialService, SecretString};
use crossscp::session::{SessionProfile, SessionProtocol};
use crossscp::sftp::{
    copy_with_progress, resolve_sftp_credentials, verify_host_key, verify_host_key_with_store,
    BackendNotLinked, HostKeyDecision, HostKeyRecord, HostKeyTrust, InMemoryHostKeyStore, SftpAdapter,
    SftpBackend, SftpConnectionConfig, SftpError, SftpFileProgress, SftpRemoteFile, DEFAULT_SFTP_PORT,
    INITIAL_SFTP_BACKEND_CANDIDATE, SFTP_TRANSFER_BUFFER_SIZE,
};

fn sample_sftp_profile(port: Option<u16>, credential_ref: Option<&str>) -> SessionProfile {
    SessionProfile {
        name: "site-a".to_string(),
        protocol: SessionProtocol::Sftp,
        host: "sftp.example.com".to_string(),
        port,
        username: Some("alice".to_string()),
        initial_remote_path: Some("/home/alice".to_string()),
        credential_ref: credential_ref.map(str::to_string),
    }
}

fn sample_host_key(fingerprint: &str) -> HostKeyRecord {
    HostKeyRecord::new("sftp.example.com", 22, "ssh-ed25519", fingerprint)
}

struct RememberBroker;

impl PromptBroker for RememberBroker {
    fn prompt(&self, request: PromptRequest) -> Result<PromptResponse, PromptError> {
        assert!(matches!(request, PromptRequest::HostKey(_)));
        Ok(PromptResponse::RememberAccepted)
    }
}

struct ChangedKeyAssertingBroker;

impl PromptBroker for ChangedKeyAssertingBroker {
    fn prompt(&self, request: PromptRequest) -> Result<PromptResponse, PromptError> {
        let PromptRequest::HostKey(prompt) = request else {
            panic!("expected host-key prompt");
        };
        assert_eq!(prompt.fingerprint, "SHA256:new");
        assert_eq!(prompt.expected_fingerprint.as_deref(), Some("SHA256:old"));
        assert_eq!(prompt.expected_algorithm.as_deref(), Some("ssh-ed25519"));
        Ok(PromptResponse::Reject)
    }
}

#[derive(Default)]
struct FakeSftpBackend {
    connected: bool,
}

impl SftpBackend for FakeSftpBackend {
    fn connect(&mut self, _config: &SftpConnectionConfig) -> Result<(), SftpError> {
        self.connected = true;
        Ok(())
    }

    fn disconnect(&mut self) -> Result<(), SftpError> {
        self.connected = false;
        Ok(())
    }

    fn is_connected(&self) -> bool {
        self.connected
    }

    fn list_directory(&mut self, path: &str) -> Result<Vec<SftpRemoteFile>, SftpError> {
        assert_eq!(path, "/home/alice");
        Ok(vec![SftpRemoteFile {
            name: "readme.txt".to_string(),
            path: "/home/alice/readme.txt".to_string(),
            size: Some(12),
            is_directory: false,
            is_symlink: false,
            permissions: Some(0o644),
        }])
    }

    fn upload_file(&mut self, local_path: &str, remote_path: &str) -> Result<SftpFileProgress, SftpError> {
        assert_eq!(local_path, "/tmp/local.txt");
        assert_eq!(remote_path, "/remote/local.txt");
        Ok(SftpFileProgress {
            source: local_path.to_string(),
            destination: remote_path.to_string(),
            bytes_done: 10,
            bytes_total: Some(10),
        })
    }

    fn download_file(&mut self, remote_path: &str, local_path: &str) -> Result<SftpFileProgress, SftpError> {
        assert_eq!(remote_path, "/remote/local.txt");
        assert_eq!(local_path, "/tmp/downloaded.txt");
        Ok(SftpFileProgress {
            source: remote_path.to_string(),
            destination: local_path.to_string(),
            bytes_done: 11,
            bytes_total: Some(11),
        })
    }

    fn create_directory(&mut self, _remote_path: &str) -> Result<(), SftpError> {
        Ok(())
    }

    fn delete_path(&mut self, _remote_path: &str) -> Result<(), SftpError> {
        Ok(())
    }
}

#[test]
fn connection_config_rejects_non_sftp_profiles() {
    let profile = SessionProfile::local("local");

    assert!(matches!(
        SftpConnectionConfig::from_profile(&profile),
        Err(SftpError::InvalidProtocol(SessionProtocol::Local))
    ));
}

#[test]
fn connection_config_applies_default_port_and_credential_ref() {
    let profile = sample_sftp_profile(None, Some("vault://site-a"));

    let config = SftpConnectionConfig::from_profile(&profile).expect("valid config");

    assert_eq!(config.host, "sftp.example.com");
    assert_eq!(config.port, DEFAULT_SFTP_PORT);
    assert_eq!(config.username, Some("alice".to_string()));
    assert_eq!(config.credential_ref.expect("credential ref").as_str(), "vault://site-a");
}

#[test]
fn credential_resolution_uses_credential_service_boundary() {
    let profile = sample_sftp_profile(Some(2222), Some("vault://site-a"));
    let config = SftpConnectionConfig::from_profile(&profile).expect("valid config");
    let mut credentials = InMemoryCredentialService::new();
    let reference = CredentialRef::new("vault://site-a").expect("valid ref");
    credentials
        .store(
            reference,
            CredentialSecret::Password(SecretString::new("secret").expect("valid secret")),
        )
        .expect("store credential");

    let auth = resolve_sftp_credentials(&config, &credentials).expect("resolve auth");

    assert_eq!(auth.username, Some("alice".to_string()));
    assert!(matches!(auth.secret, CredentialSecret::Password(_)));
}

#[test]
fn credential_resolution_requires_reference() {
    let profile = sample_sftp_profile(None, None);
    let config = SftpConnectionConfig::from_profile(&profile).expect("valid config");
    let credentials = InMemoryCredentialService::new();

    assert!(matches!(
        resolve_sftp_credentials(&config, &credentials),
        Err(SftpError::MissingCredentialRef)
    ));
}

#[test]
fn host_key_prompt_accepts_and_remembers() {
    let broker = RememberBroker;

    assert_eq!(
        verify_host_key(&broker, "sftp.example.com", "ssh-ed25519", "SHA256:abc")
            .expect("host key decision"),
        HostKeyDecision::AcceptAndRemember
    );
}

#[test]
fn host_key_prompt_rejects() {
    let broker = FixedPromptBroker::reject();

    assert_eq!(
        verify_host_key(&broker, "sftp.example.com", "ssh-ed25519", "SHA256:abc")
            .expect("host key decision"),
        HostKeyDecision::Reject
    );
}

#[test]
fn host_key_store_trusts_matching_record() {
    let mut store = InMemoryHostKeyStore::new();
    let record = sample_host_key("SHA256:abc");

    store.trust(record.clone()).expect("trust record");

    assert_eq!(store.check(&record).expect("check record"), HostKeyTrust::Trusted);
}

#[test]
fn host_key_store_detects_changed_key() {
    let mut store = InMemoryHostKeyStore::new();
    let expected = sample_host_key("SHA256:old");
    let observed = sample_host_key("SHA256:new");

    store.trust(expected.clone()).expect("trust record");

    assert_eq!(
        store.check(&observed).expect("check changed"),
        HostKeyTrust::Changed { expected, observed }
    );
}

#[test]
fn host_key_verify_remembers_unknown_key_when_prompt_requests_remember() {
    let mut store = InMemoryHostKeyStore::new();
    let broker = RememberBroker;
    let record = sample_host_key("SHA256:abc");

    assert_eq!(
        verify_host_key_with_store(&mut store, &broker, record.clone()).expect("verify host key"),
        HostKeyDecision::AcceptAndRemember
    );
    assert_eq!(store.check(&record).expect("check remembered"), HostKeyTrust::Trusted);
}

#[test]
fn host_key_verify_rejects_unknown_key_without_storing() {
    let mut store = InMemoryHostKeyStore::new();
    let broker = FixedPromptBroker::reject();
    let record = sample_host_key("SHA256:abc");

    assert_eq!(
        verify_host_key_with_store(&mut store, &broker, record.clone()).expect("verify host key"),
        HostKeyDecision::Reject
    );
    assert_eq!(store.check(&record).expect("check rejected"), HostKeyTrust::Unknown);
}

#[test]
fn changed_host_key_prompt_includes_expected_key_details() {
    let mut store = InMemoryHostKeyStore::new();
    let expected = sample_host_key("SHA256:old");
    let observed = sample_host_key("SHA256:new");
    store.trust(expected).expect("trust old key");
    let broker = ChangedKeyAssertingBroker;

    assert_eq!(
        verify_host_key_with_store(&mut store, &broker, observed).expect("verify changed"),
        HostKeyDecision::Reject
    );
}

#[test]
fn adapter_connect_reports_backend_not_linked() {
    let config = SftpConnectionConfig::from_profile(&sample_sftp_profile(None, None)).expect("valid config");
    let mut adapter = SftpAdapter::new(config, BackendNotLinked);

    assert!(matches!(adapter.connect(), Err(SftpError::BackendNotLinked)));
    assert!(INITIAL_SFTP_BACKEND_CANDIDATE.contains("ssh2"));
}

#[test]
fn adapter_delegates_lifecycle_to_backend() {
    let config = SftpConnectionConfig::from_profile(&sample_sftp_profile(None, None)).expect("valid config");
    let mut adapter = SftpAdapter::new(config, FakeSftpBackend::default());

    assert!(!adapter.is_connected());
    adapter.connect().expect("fake connect");
    assert!(adapter.is_connected());
    adapter.disconnect().expect("fake disconnect");
    assert!(!adapter.is_connected());
}

#[test]
fn adapter_delegates_directory_listing_to_backend() {
    let config = SftpConnectionConfig::from_profile(&sample_sftp_profile(None, None)).expect("valid config");
    let mut adapter = SftpAdapter::new(config, FakeSftpBackend::default());

    let entries = adapter.list_directory("/home/alice").expect("list directory");

    assert_eq!(entries.len(), 1);
    assert_eq!(entries[0].name, "readme.txt");
}

#[test]
fn adapter_delegates_upload_and_download_to_backend() {
    let config = SftpConnectionConfig::from_profile(&sample_sftp_profile(None, None)).expect("valid config");
    let mut adapter = SftpAdapter::new(config, FakeSftpBackend::default());

    let upload = adapter
        .upload_file("/tmp/local.txt", "/remote/local.txt")
        .expect("upload file");
    let download = adapter
        .download_file("/remote/local.txt", "/tmp/downloaded.txt")
        .expect("download file");

    assert_eq!(upload.bytes_done, 10);
    assert_eq!(upload.bytes_total, Some(10));
    assert_eq!(download.bytes_done, 11);
    assert_eq!(download.bytes_total, Some(11));
}

#[test]
fn sftp_remote_file_converts_to_core_remote_file() {
    let remote = SftpRemoteFile {
        name: "readme.txt".to_string(),
        path: "/home/alice/readme.txt".to_string(),
        size: Some(12),
        is_directory: false,
        is_symlink: false,
        permissions: Some(0o644),
    }
    .into_remote_file();

    assert_eq!(remote.name, "readme.txt");
    assert_eq!(remote.path, "/home/alice/readme.txt");
    assert_eq!(remote.permissions.as_deref(), Some("644"));
}

#[test]
fn fast_copy_reports_start_and_finish_without_per_buffer_noise() {
    let bytes_total = (SFTP_TRANSFER_BUFFER_SIZE * 2) as u64;
    let source = vec![7_u8; bytes_total as usize];
    let mut writer = Vec::new();

    let (bytes_done, events) = copy_with_progress(&source, &mut writer, Some(bytes_total));

    assert_eq!(bytes_done, bytes_total);
    assert_eq!(writer.len(), bytes_total as usize);
    assert_eq!(events.first(), Some(&(0, Some(bytes_total))));
    assert_eq!(events.last(), Some(&(bytes_total, Some(bytes_total))));
    assert!(
        events.len() <= 3,
        "fast copy should not emit one progress event per buffer: {events:?}"
    );
}
