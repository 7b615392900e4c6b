//! SFTP foundation: connection settings, credential resolution, host-key
//! verification and the known-hosts store, and the adapter over a backend.

use vstd::prelude::*;

use crate::config::{
    escape, escape_seq, join_fields, lemma_decimal_plain, lemma_escape_last, lemma_escape_len,
    lemma_join_no_char, lemma_join_prefix, lemma_join_split, lemma_no_char_escape,
    lemma_unescape_escape, opt_view, skipped_line, unescape, unescape_seq,
};
use crate::protocol::RemoteFile;
use crate::prompts::{HostKeyPrompt, PromptBroker, PromptError, PromptRequest, PromptResponse};
use crate::security::{
    opt_ref_view, optional_credential_ref, CredentialRef, CredentialSecret, CredentialService,
    SecurityError,
};
use crate::session::{clone_opt_string, SessionProfile, SessionProtocol};
use crate::ssh::{plan_ssh_auth, planned_auth, PlanView, SshAuthPlan, SshAuthRefusal};
use crate::table::{SortedTable, TableEntry};
use crate::text::{
    blank, chars_of, decimal, decimal_string, is_blank, lemma_decimal_digits, lemma_parse_decimal,
    lemma_split_append_plain, lemma_split_append_sep, lemma_split_plain, lines_chars, lines_of,
    no_char, octal_numeral, octal_string, parse_unsigned, parse_unsigned_chars, push_char, push_str, seqs_view, split_chars,
    split_on, string_from_chars, strip_cr,
};

verus! {

pub const DEFAULT_SFTP_PORT: u16 = 22;

/// Dependency direction selected for the first live SFTP backend.
pub const INITIAL_SFTP_BACKEND_CANDIDATE: &'static str = "ssh2/libssh2 first POC; keep russh/libssh alternatives open";

/// SFTP errors.
#[derive(Debug)]
pub enum SftpError {
    InvalidProtocol(SessionProtocol),
    MissingHost,
    MissingUsername,
    MissingCredentialRef,
    CredentialNotFound(String),
    UnsupportedAuthMethod(String),
    AuthenticationFailed,
    NotConnected,
    Security(SecurityError),
    Prompt(PromptError),
    BackendNotLinked,
    Backend(String),
    Io(String),
    InvalidLiveTestConfig(String),
    InvalidKnownHostRecord(String),
}

impl SftpError {
    /// The message of the error, as its `Display` writes it.
    pub open spec fn text(&self) -> Seq<char> {
        match self {
            SftpError::InvalidProtocol(p) => "SFTP adapter cannot use "@ + p.variant_name(),
            SftpError::MissingHost => "SFTP host is required"@,
            SftpError::MissingUsername => "SFTP username is required"@,
            SftpError::MissingCredentialRef => "SFTP credential reference is required"@,
            SftpError::CredentialNotFound(r) => "SFTP credential not found: "@ + r@,
            SftpError::UnsupportedAuthMethod(m) => "unsupported SFTP auth method: "@ + m@,
            SftpError::AuthenticationFailed => "SFTP authentication failed"@,
            SftpError::NotConnected => "SFTP backend is not connected"@,
            SftpError::Security(e) => "SFTP credential error: "@ + e.text(),
            SftpError::Prompt(e) => "SFTP prompt error: "@ + e.text(),
            SftpError::BackendNotLinked => "SFTP backend is not linked yet"@,
            SftpError::Backend(m) => "SFTP backend error: "@ + m@,
            SftpError::Io(m) => "SFTP I/O error: "@ + m@,
            SftpError::InvalidLiveTestConfig(m) => "invalid live SFTP test configuration: "@ + m@,
            SftpError::InvalidKnownHostRecord(r) => "invalid known-host record: "@ + r@,
        }
    }

    /// The error message.
    pub fn message(&self) -> (r: String)
        ensures
            r@ == self.text(),
    {
        let (head, tail): (&str, &str) = match self {
            SftpError::InvalidProtocol(p) => ("SFTP adapter cannot use ", p.debug_name()),
            SftpError::MissingHost => ("SFTP host is required", ""),
            SftpError::MissingUsername => ("SFTP username is required", ""),
            SftpError::MissingCredentialRef => ("SFTP credential reference is required", ""),
            SftpError::CredentialNotFound(r) => ("SFTP credential not found: ", r.as_str()),
            SftpError::UnsupportedAuthMethod(m) => ("unsupported SFTP auth method: ", m.as_str()),
            SftpError::AuthenticationFailed => ("SFTP authentication failed", ""),
            SftpError::NotConnected => ("SFTP backend is not connected", ""),
            SftpError::Security(e) => ("SFTP credential error: ", e.message()),
            SftpError::Prompt(e) => ("SFTP prompt error: ", e.message()),
            SftpError::BackendNotLinked => ("SFTP backend is not linked yet", ""),
            SftpError::Backend(m) => ("SFTP backend error: ", m.as_str()),
            SftpError::Io(m) => ("SFTP I/O error: ", m.as_str()),
            SftpError::InvalidLiveTestConfig(m) => ("invalid live SFTP test configuration: ", m.as_str()),
            SftpError::InvalidKnownHostRecord(r) => ("invalid known-host record: ", r.as_str()),
        };
        let mut r = String::from_str(head);
        push_str(&mut r, tail);
        proof {
            reveal_strlit("");
            assert(r@ =~= self.text());
        }
        r
    }
}

/// Connection settings derived from a session profile.
#[derive(Debug)]
pub struct SftpConnectionConfig {
    pub host: String,
    pub port: u16,
    pub username: Option<String>,
    pub initial_remote_path: Option<String>,
    pub credential_ref: Option<CredentialRef>,
}

impl Clone for SftpConnectionConfig {
    fn clone(&self) -> (r: Self)
        ensures
            r == *self,
    {
        SftpConnectionConfig {
            host: self.host.clone(),
            port: self.port,
            username: clone_opt_string(&self.username),
            initial_remote_path: clone_opt_string(&self.initial_remote_path),
            credential_ref: match &self.credential_ref {
                Some(c) => Some(c.clone()),
                None => None,
            },
        }
    }
}

/// A profile can be turned into SFTP settings: it is an SFTP profile, its host
/// is not blank and its credential reference, if any, is not blank.
pub open spec fn sftp_profile_usable(p: SessionProfile) -> bool {
    &&& p.protocol == SessionProtocol::Sftp
    &&& !is_blank(p.host@)
    &&& p.credential_ref matches Some(c) ==> !is_blank(c@)
}

impl SftpConnectionConfig {
    /// Settings for an SFTP profile; the default port is 22.
    pub fn from_profile(profile: &SessionProfile) -> (r: Result<Self, SftpError>)
        ensures
            profile.protocol != SessionProtocol::Sftp ==> r == Err::<Self, SftpError>(
                SftpError::InvalidProtocol(profile.protocol),
            ),
            profile.protocol == SessionProtocol::Sftp && is_blank(profile.host@) ==> r == Err::<Self, SftpError>(
                SftpError::MissingHost,
            ),
            profile.protocol == SessionProtocol::Sftp && !is_blank(profile.host@) && !sftp_profile_usable(*profile)
                ==> r == Err::<Self, SftpError>(SftpError::Security(SecurityError::InvalidCredentialRef)),
            r is Ok <==> sftp_profile_usable(*profile),
            r matches Ok(c) ==> {
                &&& c.host@ == profile.host@
                &&& c.port == (match profile.port {
                    Some(p) => p,
                    None => DEFAULT_SFTP_PORT,
                })
                &&& opt_view(c.username) == opt_view(profile.username)
                &&& opt_view(c.initial_remote_path) == opt_view(profile.initial_remote_path)
                &&& opt_ref_view(c.credential_ref) == opt_view(profile.credential_ref)
            },
    {
        if profile.protocol != SessionProtocol::Sftp {
            return Err(SftpError::InvalidProtocol(profile.protocol));
        }
        if blank(profile.host.as_str()) {
            return Err(SftpError::MissingHost);
        }
        let credential_ref = match optional_credential_ref(&profile.credential_ref) {
            Ok(c) => c,
            Err(e) => return Err(SftpError::Security(e)),
        };
        Ok(SftpConnectionConfig {
            host: profile.host.clone(),
            port: match profile.port {
                Some(p) => p,
                None => DEFAULT_SFTP_PORT,
            },
            username: clone_opt_string(&profile.username),
            initial_remote_path: clone_opt_string(&profile.initial_remote_path),
            credential_ref,
        })
    }
}

/// Authentication material resolved for an SFTP connection attempt.
pub struct SftpAuthMaterial {
    pub username: Option<String>,
    pub secret: CredentialSecret,
}

impl Clone for SftpAuthMaterial {
    fn clone(&self) -> (r: Self)
        ensures
            r == *self,
    {
        SftpAuthMaterial { username: clone_opt_string(&self.username), secret: self.secret.clone() }
    }
}

/// The authentication material for what a credential service answered when
/// asked for `reference`: its failure is a `Security` error, no stored secret
/// is `CredentialNotFound`, and a stored secret is used with the settings'
/// user name.
pub fn sftp_material_from_loaded(
    config: &SftpConnectionConfig,
    reference: &CredentialRef,
    loaded: Result<Option<CredentialSecret>, SecurityError>,
) -> (r: Result<SftpAuthMaterial, SftpError>)
    ensures
        match loaded {
            Err(e) => r matches Err(SftpError::Security(f)) && f == e,
            Ok(None) => r matches Err(SftpError::CredentialNotFound(t)) && t@ == reference@,
            Ok(Some(s)) => r matches Ok(m) && m.secret == s && opt_view(m.username) == opt_view(config.username),
        },
{
    match loaded {
        Err(e) => Err(SftpError::Security(e)),
        Ok(None) => Err(SftpError::CredentialNotFound(reference.as_str().to_owned())),
        Ok(Some(secret)) => Ok(SftpAuthMaterial { username: clone_opt_string(&config.username), secret }),
    }
}

/// Resolves the credential that the settings refer to through a credential
/// service. Without a reference the result is `MissingCredentialRef` and the
/// service is not asked; a reference the service does not hold gives
/// `CredentialNotFound`; a failing load gives its error, and a load fails
/// only where the service may fail.
pub fn resolve_sftp_credentials<S: CredentialService>(
    config: &SftpConnectionConfig,
    credential_service: &S,
) -> (r: Result<SftpAuthMaterial, SftpError>)
    ensures
        config.credential_ref is None ==> r == Err::<SftpAuthMaterial, SftpError>(SftpError::MissingCredentialRef),
        config.credential_ref matches Some(c) ==> match r {
            Ok(m) => {
                &&& credential_service.stored().contains_key(c@)
                &&& m.secret == credential_service.stored()[c@]
                &&& opt_view(m.username) == opt_view(config.username)
            },
            Err(SftpError::CredentialNotFound(t)) => t@ == c@ && !credential_service.stored().contains_key(c@),
            Err(SftpError::Security(_)) => credential_service.load_may_fail(c@),
            Err(_) => false,
        },
{
    let reference = match &config.credential_ref {
        Some(c) => c,
        None => return Err(SftpError::MissingCredentialRef),
    };
    let loaded = credential_service.load(reference);
    sftp_material_from_loaded(config, reference, loaded)
}

/// Outcome of a host-key verification.
#[derive(Clone, Copy, Debug, PartialEq, Eq, Structural)]
pub enum HostKeyDecision {
    AcceptOnce,
    AcceptAndRemember,
    Reject,
}

/// The decision that a prompt response stands for: accepting accepts once,
/// remembering accepts and stores the key, rejecting rejects, and a cancel
/// or a broker failure is an error.
pub open spec fn decision_for(response: Result<PromptResponse, PromptError>) -> Result<HostKeyDecision, SftpError> {
    match response {
        Err(e) => Err(SftpError::Prompt(e)),
        Ok(PromptResponse::Accept) => Ok(HostKeyDecision::AcceptOnce),
        Ok(PromptResponse::AcceptAll) => Ok(HostKeyDecision::AcceptOnce),
        Ok(PromptResponse::RememberAccepted) => Ok(HostKeyDecision::AcceptAndRemember),
        Ok(PromptResponse::Reject) => Ok(HostKeyDecision::Reject),
        Ok(PromptResponse::RejectAll) => Ok(HostKeyDecision::Reject),
        Ok(PromptResponse::Cancel) => Err(SftpError::Prompt(PromptError::Cancelled)),
    }
}

/// The decision for a prompt response.
pub fn host_key_decision(response: Result<PromptResponse, PromptError>) -> (r: Result<HostKeyDecision, SftpError>)
    ensures
        r == decision_for(response),
{
    match response {
        Err(e) => Err(SftpError::Prompt(e)),
        Ok(PromptResponse::Accept) | Ok(PromptResponse::AcceptAll) => Ok(HostKeyDecision::AcceptOnce),
        Ok(PromptResponse::RememberAccepted) => Ok(HostKeyDecision::AcceptAndRemember),
        Ok(PromptResponse::Reject) | Ok(PromptResponse::RejectAll) => Ok(HostKeyDecision::Reject),
        Ok(PromptResponse::Cancel) => Err(SftpError::Prompt(PromptError::Cancelled)),
    }
}

/// `request` asks about the given host key; `expected` is the algorithm and
/// fingerprint known before, if the key changed.
pub open spec fn asks_host_key(
    request: PromptRequest,
    host: Seq<char>,
    algorithm: Seq<char>,
    fingerprint: Seq<char>,
    expected: Option<(Seq<char>, Seq<char>)>,
) -> bool {
    match request {
        PromptRequest::HostKey(p) => {
            &&& p.host@ == host
            &&& p.algorithm@ == algorithm
            &&& p.fingerprint@ == fingerprint
            &&& match expected {
                None => p.expected_fingerprint is None && p.expected_algorithm is None,
                Some((a, f)) => opt_view(p.expected_algorithm) == Some(a) && opt_view(p.expected_fingerprint) == Some(f),
            }
        },
        _ => false,
    }
}

/// Builds the host-key prompt request.
pub fn host_key_request(
    host: &str,
    algorithm: &str,
    fingerprint: &str,
    expected_algorithm: Option<String>,
    expected_fingerprint: Option<String>,
) -> (r: PromptRequest)
    requires
        expected_algorithm is Some <==> expected_fingerprint is Some,
    ensures
        asks_host_key(
            r,
            host@,
            algorithm@,
            fingerprint@,
            match (expected_algorithm, expected_fingerprint) {
                (Some(a), Some(f)) => Some((a@, f@)),
                _ => None,
            },
        ),
{
    PromptRequest::HostKey(HostKeyPrompt {
        host: host.to_owned(),
        algorithm: algorithm.to_owned(),
        fingerprint: fingerprint.to_owned(),
        expected_fingerprint,
        expected_algorithm,
    })
}

/// Asks the broker to verify a host key seen for the first time. The result
/// is the decision for whatever the broker answered to that request.
pub fn verify_host_key<B: PromptBroker>(
    broker: &B,
    host: &str,
    algorithm: &str,
    fingerprint: &str,
) -> (r: Result<HostKeyDecision, SftpError>)
    ensures
        exists|request: PromptRequest, response: Result<PromptResponse, PromptError>|
            asks_host_key(request, host@, algorithm@, fingerprint@, None) && #[trigger] broker.answers(
                request,
                response,
            ) && r == decision_for(response),
{
    let request = host_key_request(host, algorithm, fingerprint, None, None);
    let ghost asked = request;
    let response = broker.prompt(request);
    assert(broker.answers(asked, response));
    host_key_decision(response)
}

/// Host-key material observed during the SSH handshake.
#[derive(Debug)]
pub struct HostKeyRecord {
    pub host: String,
    pub port: u16,
    pub algorithm: String,
    pub fingerprint: String,
}

/// A host-key record, its texts taken as character sequences.
pub struct HostKeyView {
    pub host: Seq<char>,
    pub port: u16,
    pub algorithm: Seq<char>,
    pub fingerprint: Seq<char>,
}

impl View for HostKeyRecord {
    type V = HostKeyView;

    open spec fn view(&self) -> HostKeyView {
        HostKeyView {
            host: self.host@,
            port: self.port,
            algorithm: self.algorithm@,
            fingerprint: self.fingerprint@,
        }
    }
}

impl Clone for HostKeyRecord {
    fn clone(&self) -> (r: Self)
        ensures
            r == *self,
    {
        HostKeyRecord {
            host: self.host.clone(),
            port: self.port,
            algorithm: self.algorithm.clone(),
            fingerprint: self.fingerprint.clone(),
        }
    }
}

impl PartialEq for HostKeyRecord {
    fn eq(&self, other: &Self) -> (r: bool) {
        self.port == other.port && crate::text::str_eq(self.host.as_str(), other.host.as_str())
            && crate::text::str_eq(self.algorithm.as_str(), other.algorithm.as_str())
            && crate::text::str_eq(self.fingerprint.as_str(), other.fingerprint.as_str())
    }
}

impl vstd::std_specs::cmp::PartialEqSpecImpl for HostKeyRecord {
    open spec fn obeys_eq_spec() -> bool {
        true
    }

    open spec fn eq_spec(&self, other: &Self) -> bool {
        self@ == other@
    }
}

/// The store key of a host-key view: its host and port.
pub open spec fn view_key(v: HostKeyView) -> (Seq<char>, u16) {
    (v.host, v.port)
}

impl HostKeyRecord {
    pub fn new(host: &str, port: u16, algorithm: &str, fingerprint: &str) -> (r: Self)
        ensures
            r@ == (HostKeyView { host: host@, port, algorithm: algorithm@, fingerprint: fingerprint@ }),
    {
        HostKeyRecord {
            host: host.to_owned(),
            port,
            algorithm: algorithm.to_owned(),
            fingerprint: fingerprint.to_owned(),
        }
    }

    /// The key under which the record is stored.
    pub fn key(&self) -> (r: HostKeyStoreKey)
        ensures
            (r.host@, r.port) == view_key(self@),
    {
        HostKeyStoreKey { host: self.host.clone(), port: self.port }
    }
}

/// Store key for known host entries.
#[derive(Clone, Debug, Eq, Hash, Ord, PartialEq, PartialOrd)]
pub struct HostKeyStoreKey {
    pub host: String,
    pub port: u16,
}

/// Result of comparing an observed host key with the known host state.
#[derive(Debug)]
pub enum HostKeyTrust {
    Trusted,
    Unknown,
    Changed { expected: HostKeyRecord, observed: HostKeyRecord },
}

/// A trust result, its records taken by their views.
pub enum TrustView {
    Trusted,
    Unknown,
    Changed { expected: HostKeyView, observed: HostKeyView },
}

impl View for HostKeyTrust {
    type V = TrustView;

    open spec fn view(&self) -> TrustView {
        match self {
            HostKeyTrust::Trusted => TrustView::Trusted,
            HostKeyTrust::Unknown => TrustView::Unknown,
            HostKeyTrust::Changed { expected, observed } => TrustView::Changed {
                expected: expected@,
                observed: observed@,
            },
        }
    }
}

impl PartialEq for HostKeyTrust {
    fn eq(&self, other: &Self) -> (r: bool) {
        match (self, other) {
            (HostKeyTrust::Trusted, HostKeyTrust::Trusted) => true,
            (HostKeyTrust::Unknown, HostKeyTrust::Unknown) => true,
            (
                HostKeyTrust::Changed { expected: e1, observed: o1 },
                HostKeyTrust::Changed { expected: e2, observed: o2 },
            ) => e1.eq(e2) && o1.eq(o2),
            _ => false,
        }
    }
}

impl vstd::std_specs::cmp::PartialEqSpecImpl for HostKeyTrust {
    open spec fn obeys_eq_spec() -> bool {
        true
    }

    open spec fn eq_spec(&self, other: &Self) -> bool {
        self@ == other@
    }
}

/// What the known-host state says of an observed key: unknown when nothing is
/// stored for its host and port, trusted when the stored algorithm and
/// fingerprint are the observed ones, and changed otherwise.
pub open spec fn trust_of(known: Map<(Seq<char>, u16), HostKeyView>, observed: HostKeyView) -> TrustView {
    if !known.contains_key(view_key(observed)) {
        TrustView::Unknown
    } else if known[view_key(observed)].algorithm == observed.algorithm
        && known[view_key(observed)].fingerprint == observed.fingerprint {
        TrustView::Trusted
    } else {
        TrustView::Changed { expected: known[view_key(observed)], observed }
    }
}

/// Host-key persistence. `known` is the state a store holds, by host and
/// port. `check_may_fail` and `trust_may_fail` say where a store may fail to
/// answer (by default anywhere: a store backed by a file may meet an I/O
/// error); its successful answers are bound to `known`.
pub trait HostKeyStore {
    spec fn known(&self) -> Map<(Seq<char>, u16), HostKeyView>;

    open spec fn check_may_fail(&self, observed: HostKeyView) -> bool {
        true
    }

    open spec fn trust_may_fail(&self, record: HostKeyView) -> bool {
        true
    }

    fn check(&self, observed: &HostKeyRecord) -> (r: Result<HostKeyTrust, SftpError>)
        ensures
            r matches Ok(t) ==> t@ == trust_of(self.known(), observed@),
            r is Err ==> self.check_may_fail(observed@),
    ;

    fn trust(&mut self, record: HostKeyRecord) -> (r: Result<(), SftpError>)
        ensures
            r is Ok ==> final(self).known() == old(self).known().insert(view_key(record@), record@),
            r is Err ==> old(self).trust_may_fail(record@),
    ;

    fn forget(&mut self, key: &HostKeyStoreKey) -> (r: Result<bool, SftpError>)
        ensures
            r matches Ok(b) ==> b == old(self).known().contains_key((key.host@, key.port))
                && final(self).known() == old(self).known().remove((key.host@, key.port)),
    ;
}

impl TableEntry for HostKeyRecord {
    open spec fn entry_key(&self) -> (Seq<char>, u16) {
        (self.host@, self.port)
    }

    fn key_text(&self) -> (r: &str) {
        self.host.as_str()
    }

    fn key_number(&self) -> (r: u16) {
        self.port
    }

    fn duplicate(&self) -> (r: Self) {
        self.clone()
    }
}

pub open spec fn known_map(t: Map<(Seq<char>, u16), HostKeyRecord>) -> Map<(Seq<char>, u16), HostKeyView> {
    Map::new(|k: (Seq<char>, u16)| t.contains_key(k), |k: (Seq<char>, u16)| t[k]@)
}

/// Deterministic in-memory known-host store, ordered by host and port.
pub struct InMemoryHostKeyStore {
    records: SortedTable<HostKeyRecord>,
}

impl InMemoryHostKeyStore {
    pub closed spec fn known_hosts(&self) -> Map<(Seq<char>, u16), HostKeyView> {
        known_map(self.records.map())
    }

    /// The records, in host and port order.
    pub closed spec fn listing(&self) -> Seq<HostKeyRecord> {
        self.records.seq()
    }

    pub fn new() -> (r: Self)
        ensures
            r.known_hosts() == Map::<(Seq<char>, u16), HostKeyView>::empty(),
            r.listing() == Seq::<HostKeyRecord>::empty(),
    {
        let r = InMemoryHostKeyStore { records: SortedTable::new() };
        assert(r.known_hosts() =~= Map::<(Seq<char>, u16), HostKeyView>::empty());
        r
    }

    /// The stored records, in increasing host and port order.
    pub fn records(&self) -> (r: &[HostKeyRecord])
        ensures
            r@ == self.listing(),
            forall|i: int, j: int| 0 <= i < j < r@.len() ==> crate::table::key_less(
                #[trigger] view_key(r@[i]@),
                #[trigger] view_key(r@[j]@),
            ),
            forall|i: int| 0 <= i < r@.len() ==> self.known_hosts().contains_key(view_key(#[trigger] r@[i]@))
                && self.known_hosts()[view_key(r@[i]@)] == r@[i]@,
            forall|k: (Seq<char>, u16)| #[trigger] self.known_hosts().contains_key(k) ==> exists|i: int|
                0 <= i < r@.len() && view_key(#[trigger] r@[i]@) == k,
    {
        let v = self.records.entries();
        proof {
            let s = self.records.seq();
            assert forall|i: int, j: int| 0 <= i < j < s.len() implies crate::table::key_less(
                #[trigger] view_key(s[i]@),
                #[trigger] view_key(s[j]@),
            ) by {
                assert(crate::table::key_less(s[i].entry_key(), s[j].entry_key()));
            }
            assert forall|i: int| 0 <= i < s.len() implies self.known_hosts().contains_key(view_key(#[trigger] s[i]@))
                && self.known_hosts()[view_key(s[i]@)] == s[i]@ by {
                crate::table::lemma_entries_map_at(s, i);
            }
            assert forall|k: (Seq<char>, u16)| #[trigger] self.known_hosts().contains_key(k) implies exists|i: int|
                0 <= i < s.len() && view_key(#[trigger] s[i]@) == k by {
                let i = choose|i: int| 0 <= i < s.len() && #[trigger] s[i].entry_key() == k;
                assert(view_key(s[i]@) == k);
            }
        }
        v.as_slice()
    }

    /// Compares an observed key with the stored one; never fails.
    pub fn check(&self, observed: &HostKeyRecord) -> (r: Result<HostKeyTrust, SftpError>)
        ensures
            r matches Ok(t) && t@ == trust_of(self.known_hosts(), observed@),
    {
        let key = chars_of(observed.host.as_str());
        match self.records.get(key.as_slice(), observed.port) {
            None => Ok(HostKeyTrust::Unknown),
            Some(expected) => {
                if crate::text::str_eq(expected.algorithm.as_str(), observed.algorithm.as_str())
                    && crate::text::str_eq(expected.fingerprint.as_str(), observed.fingerprint.as_str()) {
                    Ok(HostKeyTrust::Trusted)
                } else {
                    Ok(HostKeyTrust::Changed { expected: expected.clone(), observed: observed.clone() })
                }
            },
        }
    }

    /// Stores a record, replacing the one for the same host and port; never fails.
    pub fn trust(&mut self, record: HostKeyRecord) -> (r: Result<(), SftpError>)
        ensures
            r is Ok,
            final(self).known_hosts() == old(self).known_hosts().insert(view_key(record@), record@),
    {
        let ghost v = record@;
        self.records.upsert(record);
        assert(self.known_hosts() =~= old(self).known_hosts().insert(view_key(v), v));
        Ok(())
    }

    /// Removes the record for a host and port; reports whether there was one.
    pub fn forget(&mut self, key: &HostKeyStoreKey) -> (r: Result<bool, SftpError>)
        ensures
            r == Ok::<bool, SftpError>(old(self).known_hosts().contains_key((key.host@, key.port))),
            final(self).known_hosts() == old(self).known_hosts().remove((key.host@, key.port)),
    {
        let text = chars_of(key.host.as_str());
        let removed = self.records.remove_key(text.as_slice(), key.port);
        assert(self.known_hosts() =~= old(self).known_hosts().remove((key.host@, key.port)));
        Ok(removed.is_some())
    }
}

impl HostKeyStore for InMemoryHostKeyStore {
    open spec fn known(&self) -> Map<(Seq<char>, u16), HostKeyView> {
        self.known_hosts()
    }

    open spec fn check_may_fail(&self, observed: HostKeyView) -> bool {
        false
    }

    open spec fn trust_may_fail(&self, record: HostKeyView) -> bool {
        false
    }

    fn check(&self, observed: &HostKeyRecord) -> (r: Result<HostKeyTrust, SftpError>)
        ensures
            r matches Ok(t) && t@ == trust_of(self.known_hosts(), observed@),
    {
        InMemoryHostKeyStore::check(self, observed)
    }

    fn trust(&mut self, record: HostKeyRecord) -> (r: Result<(), SftpError>)
        ensures
            r is Ok,
            final(self).known_hosts() == old(self).known_hosts().insert(view_key(record@), record@),
    {
        InMemoryHostKeyStore::trust(self, record)
    }

    fn forget(&mut self, key: &HostKeyStoreKey) -> (r: Result<bool, SftpError>)
        ensures
            r == Ok::<bool, SftpError>(old(self).known_hosts().contains_key((key.host@, key.port))),
            final(self).known_hosts() == old(self).known_hosts().remove((key.host@, key.port)),
    {
        InMemoryHostKeyStore::forget(self, key)
    }
}

/// The broker was asked about `observed` (with the previously known algorithm
/// and fingerprint in `expected`, if the key changed), and `r` and the store
/// state `after` follow from its answer: a remembered key is stored, unless
/// storing fails where the store may fail (`store_may_fail`); any other answer
/// leaves the store as it was.
pub open spec fn prompted<B: PromptBroker>(
    broker: &B,
    before: Map<(Seq<char>, u16), HostKeyView>,
    after: Map<(Seq<char>, u16), HostKeyView>,
    observed: HostKeyView,
    expected: Option<(Seq<char>, Seq<char>)>,
    store_may_fail: bool,
    r: Result<HostKeyDecision, SftpError>,
) -> bool {
    exists|request: PromptRequest, response: Result<PromptResponse, PromptError>|
        asks_host_key(request, observed.host, observed.algorithm, observed.fingerprint, expected)
            && #[trigger] broker.answers(request, response) && match decision_for(response) {
            Ok(HostKeyDecision::AcceptAndRemember) => (r == Ok::<HostKeyDecision, SftpError>(
                HostKeyDecision::AcceptAndRemember,
            ) && after == before.insert(view_key(observed), observed)) || (r is Err && store_may_fail),
            d => r == d && after == before,
        }
}

/// What verifying `observed` against the known state `before` may give:
/// a trusted key is accepted once without asking; an unknown or changed key is
/// put to the broker, as `prompted` says.
pub open spec fn verified_host_key<B: PromptBroker>(
    broker: &B,
    before: Map<(Seq<char>, u16), HostKeyView>,
    after: Map<(Seq<char>, u16), HostKeyView>,
    observed: HostKeyView,
    store_may_fail: bool,
    r: Result<HostKeyDecision, SftpError>,
) -> bool {
    match trust_of(before, observed) {
        TrustView::Trusted => r == Ok::<HostKeyDecision, SftpError>(HostKeyDecision::AcceptOnce) && after == before,
        TrustView::Unknown => prompted(broker, before, after, observed, None, store_may_fail, r),
        TrustView::Changed { expected, .. } => prompted(
            broker,
            before,
            after,
            observed,
            Some((expected.algorithm, expected.fingerprint)),
            store_may_fail,
            r,
        ),
    }
}

fn prompt_and_maybe_store_host_key<S: HostKeyStore, B: PromptBroker>(
    store: &mut S,
    broker: &B,
    observed: HostKeyRecord,
) -> (r: Result<HostKeyDecision, SftpError>)
    ensures
        prompted(broker, old(store).known(), final(store).known(), observed@, None, old(store).trust_may_fail(observed@), r),
{
    let ghost v = observed@;
    let decision = verify_host_key(broker, observed.host.as_str(), observed.algorithm.as_str(), observed.fingerprint.as_str());
    let ghost (request, response) = choose|request: PromptRequest, response: Result<PromptResponse, PromptError>|
        asks_host_key(request, v.host, v.algorithm, v.fingerprint, None) && #[trigger] broker.answers(
            request,
            response,
        ) && decision == decision_for(response);
    let d = match decision {
        Err(e) => return Err(e),
        Ok(d) => d,
    };
    if d == HostKeyDecision::AcceptAndRemember {
        match store.trust(observed) {
            Ok(()) => {},
            Err(e) => return Err(e),
        }
    }
    Ok(d)
}

fn prompt_changed_and_maybe_store_host_key<S: HostKeyStore, B: PromptBroker>(
    store: &mut S,
    broker: &B,
    expected: HostKeyRecord,
    observed: HostKeyRecord,
) -> (r: Result<HostKeyDecision, SftpError>)
    ensures
        prompted(
            broker,
            old(store).known(),
            final(store).known(),
            observed@,
            Some((expected@.algorithm, expected@.fingerprint)),
            old(store).trust_may_fail(observed@),
            r,
        ),
{
    let ghost v = observed@;
    let ghost e = expected@;
    let request = host_key_request(
        observed.host.as_str(),
        observed.algorithm.as_str(),
        observed.fingerprint.as_str(),
        Some(expected.algorithm),
        Some(expected.fingerprint),
    );
    let ghost asked = request;
    let response = broker.prompt(request);
    assert(broker.answers(asked, response));
    let d = match host_key_decision(response) {
        Err(e) => return Err(e),
        Ok(d) => d,
    };
    if d == HostKeyDecision::AcceptAndRemember {
        match store.trust(observed) {
            Ok(()) => {},
            Err(e) => return Err(e),
        }
    }
    Ok(d)
}

/// A verification that remembers a key stores it: afterwards the key is
/// trusted, and a later verification of it accepts it once without asking
/// and changes nothing.
pub proof fn lemma_remembered_key_accepted_without_prompt<B: PromptBroker, C: PromptBroker>(
    broker: &B,
    before: Map<(Seq<char>, u16), HostKeyView>,
    after: Map<(Seq<char>, u16), HostKeyView>,
    observed: HostKeyView,
    store_may_fail: bool,
    later_broker: &C,
    later: Map<(Seq<char>, u16), HostKeyView>,
    later_may_fail: bool,
    r: Result<HostKeyDecision, SftpError>,
)
    requires
        verified_host_key(
            broker,
            before,
            after,
            observed,
            store_may_fail,
            Ok::<HostKeyDecision, SftpError>(HostKeyDecision::AcceptAndRemember),
        ),
        verified_host_key(later_broker, after, later, observed, later_may_fail, r),
    ensures
        after == before.insert(view_key(observed), observed),
        trust_of(after, observed) == TrustView::Trusted,
        r == Ok::<HostKeyDecision, SftpError>(HostKeyDecision::AcceptOnce),
        later == after,
{
    lemma_remembered_key_is_trusted(before, observed);
}

/// A verification that does not remember the key (accepted once or
/// rejected) leaves the known state, and so the key's trust, as it was.
pub proof fn lemma_unremembered_verification_keeps_state<B: PromptBroker>(
    broker: &B,
    before: Map<(Seq<char>, u16), HostKeyView>,
    after: Map<(Seq<char>, u16), HostKeyView>,
    observed: HostKeyView,
    store_may_fail: bool,
    d: HostKeyDecision,
)
    requires
        verified_host_key(broker, before, after, observed, store_may_fail, Ok::<HostKeyDecision, SftpError>(d)),
        d != HostKeyDecision::AcceptAndRemember,
    ensures
        after == before,
        trust_of(after, observed) == trust_of(before, observed),
{
}

/// Verifies an observed host key against the known-host state, asking the
/// broker when the key is unknown or changed. A key the user chose to
/// remember is trusted afterwards; a key accepted once or rejected leaves the
/// store unchanged.
pub fn verify_host_key_with_store<S: HostKeyStore, B: PromptBroker>(
    store: &mut S,
    broker: &B,
    observed: HostKeyRecord,
) -> (r: Result<HostKeyDecision, SftpError>)
    ensures
        (r is Err && final(store).known() == old(store).known() && old(store).check_may_fail(observed@))
            || verified_host_key(
            broker,
            old(store).known(),
            final(store).known(),
            observed@,
            old(store).trust_may_fail(observed@),
            r,
        ),
        r == Ok::<HostKeyDecision, SftpError>(HostKeyDecision::AcceptAndRemember) ==> trust_of(
            final(store).known(),
            observed@,
        ) == TrustView::Trusted,
        r matches Ok(d) && d != HostKeyDecision::AcceptAndRemember ==> final(store).known() == old(store).known(),
{
    let ghost v = observed@;
    let checked = store.check(&observed);
    match checked {
        Err(e) => Err(e),
        Ok(HostKeyTrust::Trusted) => Ok(HostKeyDecision::AcceptOnce),
        Ok(HostKeyTrust::Unknown) => {
            let r = prompt_and_maybe_store_host_key(store, broker, observed);
            proof {
                lemma_remembered_key_is_trusted(old(store).known(), v);
            }
            r
        },
        Ok(HostKeyTrust::Changed { expected, observed }) => {
            let r = prompt_changed_and_maybe_store_host_key(store, broker, expected, observed);
            proof {
                lemma_remembered_key_is_trusted(old(store).known(), v);
            }
            r
        },
    }
}

/// Once a key is stored, the state trusts it.
pub proof fn lemma_remembered_key_is_trusted(known: Map<(Seq<char>, u16), HostKeyView>, observed: HostKeyView)
    ensures
        trust_of(known.insert(view_key(observed), observed), observed) == TrustView::Trusted,
{
}

/// Once the entry for a key's host and port is forgotten, the key is unknown.
pub proof fn lemma_forgotten_key_is_unknown(known: Map<(Seq<char>, u16), HostKeyView>, observed: HostKeyView)
    ensures
        trust_of(known.remove(view_key(observed)), observed) == TrustView::Unknown,
{
}

/// Storing a key for one host and port changes nothing for another.
pub proof fn lemma_trust_keeps_other_hosts(
    known: Map<(Seq<char>, u16), HostKeyView>,
    stored: HostKeyView,
    observed: HostKeyView,
)
    requires
        view_key(stored) != view_key(observed),
    ensures
        trust_of(known.insert(view_key(stored), stored), observed) == trust_of(known, observed),
{
}

/// The fields of the known-hosts line of a record: host, port, algorithm and
/// fingerprint.
pub open spec fn host_key_fields(v: HostKeyView) -> Seq<Seq<char>> {
    seq![escape_seq(v.host), decimal(v.port as nat), escape_seq(v.algorithm), escape_seq(v.fingerprint)]
}

/// A record as a line of the known-hosts file (without the line break).
pub open spec fn host_key_line(v: HostKeyView) -> Seq<char> {
    join_fields(host_key_fields(v), '\t')
}

/// The first line of a known-hosts file.
pub open spec fn known_hosts_header() -> Seq<char> {
    "# CrossSCP known hosts v1"@
}

/// The lines of `vs`, each followed by a line break.
pub open spec fn host_key_lines(vs: Seq<HostKeyView>) -> Seq<char>
    decreases vs.len(),
{
    if vs.len() == 0 {
        Seq::empty()
    } else {
        host_key_lines(vs.drop_last()) + host_key_line(vs.last()) + seq!['\n']
    }
}

/// A known-hosts file holding `vs`, in that order.
pub open spec fn known_hosts_text(vs: Seq<HostKeyView>) -> Seq<char> {
    known_hosts_header().push('\n') + host_key_lines(vs)
}

pub open spec fn record_views(rs: Seq<HostKeyRecord>) -> Seq<HostKeyView> {
    rs.map_values(|r: HostKeyRecord| r@)
}

/// Reads a line of the known-hosts file: four tab-separated fields, the port
/// read as `str::parse` reads a `u16`. An error carries the text it names: the
/// whole line for a bad field count or port, else the field that does not
/// unescape.
pub open spec fn read_host_key_line(line: Seq<char>) -> Result<HostKeyView, Seq<char>> {
    let f = split_on(line, '\t');
    if f.len() != 4 {
        Err(line)
    } else {
        match parse_unsigned(f[1], 65535) {
            None => Err(line),
            Some(port) => match unescape_seq(f[0]) {
                None => Err(f[0]),
                Some(host) => match unescape_seq(f[2]) {
                    None => Err(f[2]),
                    Some(algorithm) => match unescape_seq(f[3]) {
                        None => Err(f[3]),
                        Some(fingerprint) => Ok(HostKeyView { host, port: port as u16, algorithm, fingerprint }),
                    },
                },
            },
        }
    }
}

/// Reads the lines of a known-hosts file into `acc`, in order, passing over
/// blank lines and comments; a later record replaces an earlier one for the
/// same host and port.
pub open spec fn read_host_key_lines(
    lines: Seq<Seq<char>>,
    acc: Map<(Seq<char>, u16), HostKeyView>,
) -> Result<Map<(Seq<char>, u16), HostKeyView>, Seq<char>>
    decreases lines.len(),
{
    if lines.len() == 0 {
        Ok(acc)
    } else if skipped_line(lines[0]) {
        read_host_key_lines(lines.drop_first(), acc)
    } else {
        match read_host_key_line(lines[0]) {
            Err(e) => Err(e),
            Ok(v) => read_host_key_lines(lines.drop_first(), acc.insert(view_key(v), v)),
        }
    }
}

/// The known-host state that a known-hosts file holds, or the text named by
/// its first bad record.
pub open spec fn read_known_hosts(input: Seq<char>) -> Result<Map<(Seq<char>, u16), HostKeyView>, Seq<char>> {
    read_host_key_lines(lines_of(input), Map::empty())
}

/// Writes one record as a line of the known-hosts file.
pub fn render_host_key(record: &HostKeyRecord) -> (r: String)
    ensures
        r@ == host_key_line(record@),
{
    let ghost f = host_key_fields(record@);
    let mut r = escape(record.host.as_str());
    assert(r@ == join_fields(f.take(1), '\t'));
    push_char(&mut r, '\t');
    let port = decimal_string(record.port as u64);
    push_str(&mut r, port.as_str());
    assert(f.take(2).drop_last() =~= f.take(1));
    assert(r@ =~= join_fields(f.take(2), '\t'));
    push_char(&mut r, '\t');
    let a = escape(record.algorithm.as_str());
    push_str(&mut r, a.as_str());
    assert(f.take(3).drop_last() =~= f.take(2));
    assert(r@ =~= join_fields(f.take(3), '\t'));
    push_char(&mut r, '\t');
    let fp = escape(record.fingerprint.as_str());
    push_str(&mut r, fp.as_str());
    assert(f.take(4).drop_last() =~= f.take(3));
    assert(f.take(4) =~= f);
    assert(r@ =~= join_fields(f, '\t'));
    r
}

/// Writes a known-hosts file holding `records`, in order.
pub fn render_host_keys(records: &[HostKeyRecord]) -> (r: String)
    ensures
        r@ == known_hosts_text(record_views(records@)),
{
    let mut out = String::from_str("# CrossSCP known hosts v1");
    push_char(&mut out, '\n');
    let ghost views = record_views(records@);
    let mut i: usize = 0;
    assert(views.take(0) =~= Seq::<HostKeyView>::empty());
    assert(out@ =~= known_hosts_header().push('\n') + host_key_lines(views.take(0)));
    while i < records.len()
        invariant
            i <= records.len(),
            views == record_views(records@),
            out@ == known_hosts_header().push('\n') + host_key_lines(views.take(i as int)),
        decreases records.len() - i,
    {
        let line = render_host_key(&records[i]);
        push_str(&mut out, line.as_str());
        push_char(&mut out, '\n');
        i = i + 1;
        assert(views.take(i as int).drop_last() =~= views.take(i - 1));
        assert(out@ =~= known_hosts_header().push('\n') + host_key_lines(views.take(i as int)));
    }
    assert(views.take(records.len() as int) =~= views);
    out
}

/// Reads a field of the known-hosts file; a malformed escape names the field.
pub fn unescape_field(value: &str) -> (r: Result<String, SftpError>)
    ensures
        match r {
            Ok(s) => unescape_seq(value@) == Some(s@),
            Err(e) => unescape_seq(value@) is None && (e matches SftpError::InvalidKnownHostRecord(t) && t@ == value@),
        },
{
    match unescape(value) {
        Ok(s) => Ok(s),
        Err(_) => Err(SftpError::InvalidKnownHostRecord(value.to_owned())),
    }
}

/// Reads one line of the known-hosts file as a record.
pub fn parse_host_key_line(line: &[char]) -> (r: Result<HostKeyRecord, SftpError>)
    ensures
        match r {
            Ok(rec) => read_host_key_line(line@) == Ok::<HostKeyView, Seq<char>>(rec@),
            Err(e) => e matches SftpError::InvalidKnownHostRecord(t) && read_host_key_line(line@) == Err::<
                HostKeyView,
                Seq<char>,
            >(t@),
        },
{
    let fields = split_chars(line, '\t');
    if fields.len() != 4 {
        return Err(SftpError::InvalidKnownHostRecord(string_from_chars(line)));
    }
    assert(fields@[0]@ == split_on(line@, '\t')[0]);
    assert(fields@[1]@ == split_on(line@, '\t')[1]);
    assert(fields@[2]@ == split_on(line@, '\t')[2]);
    assert(fields@[3]@ == split_on(line@, '\t')[3]);
    let port = match parse_unsigned_chars(fields[1].as_slice(), 65535) {
        Some(p) => p as u16,
        None => return Err(SftpError::InvalidKnownHostRecord(string_from_chars(line))),
    };
    let f0 = string_from_chars(fields[0].as_slice());
    let f2 = string_from_chars(fields[2].as_slice());
    let f3 = string_from_chars(fields[3].as_slice());
    let host = unescape_field(f0.as_str())?;
    let algorithm = unescape_field(f2.as_str())?;
    let fingerprint = unescape_field(f3.as_str())?;
    Ok(HostKeyRecord { host, port, algorithm, fingerprint })
}

/// Reads a known-hosts file into a store.
pub fn parse_host_keys(input: &str) -> (r: Result<InMemoryHostKeyStore, SftpError>)
    ensures
        match r {
            Ok(store) => read_known_hosts(input@) == Ok::<Map<(Seq<char>, u16), HostKeyView>, Seq<char>>(
                store.known_hosts(),
            ),
            Err(e) => e matches SftpError::InvalidKnownHostRecord(t) && read_known_hosts(input@) == Err::<
                Map<(Seq<char>, u16), HostKeyView>,
                Seq<char>,
            >(t@),
        },
{
    let chars = chars_of(input);
    let lines = lines_chars(chars.as_slice());
    let ghost lv = seqs_view(lines@);
    let mut store = InMemoryHostKeyStore::new();
    let mut i: usize = 0;
    assert(lv.skip(0) =~= lv);
    while i < lines.len()
        invariant
            i <= lines.len(),
            lv == seqs_view(lines@),
            lv == lines_of(input@),
            read_known_hosts(input@) == read_host_key_lines(lv.skip(i as int), store.known_hosts()),
        decreases lines.len() - i,
    {
        let line = lines[i].as_slice();
        assert(lv.skip(i as int)[0] == line@);
        assert(lv.skip(i as int).drop_first() =~= lv.skip(i + 1));
        let is_blank_line = {
            let s = string_from_chars(line);
            blank(s.as_str())
        };
        if is_blank_line || (line.len() > 0 && line[0] == '#') {
            i = i + 1;
        } else {
            let record = parse_host_key_line(line)?;
            let _ = store.trust(record);
            i = i + 1;
        }
    }
    assert(lv.skip(lines.len() as int) =~= Seq::<Seq<char>>::empty());
    Ok(store)
}

/// A record that the known-hosts file gives back unchanged: its host does not
/// start with `#` (the line would read as a comment) and its fingerprint,
/// written last on the line, does not end with a carriage return (line
/// reading drops it).
pub open spec fn host_key_round_trips(v: HostKeyView) -> bool {
    &&& (v.host.len() == 0 || v.host[0] != '#')
    &&& (v.fingerprint.len() == 0 || v.fingerprint.last() != '\r')
}

/// The records of `vs` inserted into `acc` in order, later ones replacing
/// earlier ones for the same host and port.
pub open spec fn insert_host_keys(
    vs: Seq<HostKeyView>,
    acc: Map<(Seq<char>, u16), HostKeyView>,
) -> Map<(Seq<char>, u16), HostKeyView>
    decreases vs.len(),
{
    if vs.len() == 0 {
        acc
    } else {
        insert_host_keys(vs.drop_first(), acc.insert(view_key(vs[0]), vs[0]))
    }
}

proof fn lemma_host_key_fields_plain(v: HostKeyView)
    ensures
        host_key_fields(v).len() == 4,
        forall|i: int| 0 <= i < 4 ==> no_char(#[trigger] host_key_fields(v)[i], '\t') && no_char(
            host_key_fields(v)[i],
            '\n',
        ),
{
    lemma_no_char_escape(v.host);
    lemma_no_char_escape(v.algorithm);
    lemma_no_char_escape(v.fingerprint);
    lemma_decimal_plain(v.port as nat);
}

/// The line of a round-tripping record reads back as the record, is not
/// passed over, and holds no line break.
proof fn lemma_host_key_line_round_trip(v: HostKeyView)
    requires
        host_key_round_trips(v),
    ensures
        read_host_key_line(host_key_line(v)) == Ok::<HostKeyView, Seq<char>>(v),
        !skipped_line(host_key_line(v)),
        no_char(host_key_line(v), '\n'),
        strip_cr(host_key_line(v)) == host_key_line(v),
{
    let f = host_key_fields(v);
    let line = host_key_line(v);
    lemma_host_key_fields_plain(v);
    lemma_join_split(f, '\t');
    lemma_decimal_digits(v.port as nat);
    lemma_parse_decimal(v.port as nat, 65535);
    lemma_unescape_escape(v.host);
    lemma_unescape_escape(v.algorithm);
    lemma_unescape_escape(v.fingerprint);
    assert(read_host_key_line(line) == Ok::<HostKeyView, Seq<char>>(v));
    lemma_join_no_char(f, '\t', '\n');
    // The line is not blank: the port field holds a digit.
    let pre3 = f.take(3);
    let j3 = join_fields(pre3, '\t');
    assert(pre3.drop_last() =~= f.take(2));
    assert(f.take(4) =~= f);
    assert(f.drop_last() =~= pre3);
    assert(line == j3.push('\t') + f[3]);
    let j2 = join_fields(f.take(2), '\t');
    assert(f.take(2).drop_last() =~= f.take(1));
    let j1 = join_fields(f.take(1), '\t');
    assert(j1 == f[0]);
    assert(j2 == j1.push('\t') + f[1]);
    assert(j3 == j2.push('\t') + f[2]);
    let k: int = f[0].len() as int + 1;
    assert(j2[k] == f[1][0]);
    assert(j3[k] == j2[k]);
    assert(line[k] == j3[k]);
    assert(crate::text::is_digit(line[k]));
    assert(!crate::text::is_white_space(line[k]));
    // The line does not start with '#'.
    if v.host.len() > 0 {
        lemma_escape_len(v.host);
        lemma_join_prefix(f, '\t', 0);
    } else {
        assert(f[0] =~= Seq::<char>::empty());
        assert(line[0] == j3[0]);
        assert(j3[0] == j2[0]);
        assert(j2[0] == '\t');
    }
    // The line does not end with a carriage return.
    if v.fingerprint.len() > 0 {
        lemma_escape_last(v.fingerprint);
        assert(line.last() == f[3].last());
    } else {
        assert(f[3] =~= Seq::<char>::empty());
        assert(line =~= j3.push('\t'));
    }
}

proof fn lemma_known_hosts_split(vs: Seq<HostKeyView>)
    requires
        forall|i: int| 0 <= i < vs.len() ==> host_key_round_trips(#[trigger] vs[i]),
    ensures
        split_on(known_hosts_text(vs), '\n') == seq![known_hosts_header()] + vs.map_values(
            |v: HostKeyView| host_key_line(v),
        ) + seq![Seq::<char>::empty()],
    decreases vs.len(),
{
    if vs.len() == 0 {
        reveal_strlit("# CrossSCP known hosts v1");
        assert(no_char(known_hosts_header(), '\n'));
        lemma_split_plain(known_hosts_header(), '\n');
        lemma_split_append_sep(known_hosts_header(), '\n');
        assert(known_hosts_text(vs) =~= known_hosts_header().push('\n'));
        assert(seq![known_hosts_header()] + vs.map_values(|v: HostKeyView| host_key_line(v)) + seq![
            Seq::<char>::empty(),
        ] =~= seq![known_hosts_header(), Seq::<char>::empty()]);
    } else {
        let us = vs.drop_last();
        let v = vs.last();
        assert forall|i: int| 0 <= i < us.len() implies host_key_round_trips(#[trigger] us[i]) by {
            assert(us[i] == vs[i]);
        }
        lemma_known_hosts_split(us);
        lemma_host_key_line_round_trip(v);
        let x = known_hosts_text(us);
        assert(known_hosts_text(vs) =~= (x + host_key_line(v)).push('\n'));
        lemma_split_append_sep(x + host_key_line(v), '\n');
        lemma_split_append_plain(x, host_key_line(v), '\n');
        let prev = seq![known_hosts_header()] + us.map_values(|v: HostKeyView| host_key_line(v));
        assert(split_on(x, '\n') == prev + seq![Seq::<char>::empty()]);
        assert(Seq::<char>::empty() + host_key_line(v) =~= host_key_line(v));
        assert((prev + seq![Seq::<char>::empty()]).update(prev.len() as int, host_key_line(v)) =~= prev.push(
            host_key_line(v),
        ));
        assert(seq![known_hosts_header()] + vs.map_values(|v: HostKeyView| host_key_line(v)) =~= prev.push(
            host_key_line(v),
        ));
    }
}

proof fn lemma_read_host_key_lines(vs: Seq<HostKeyView>, acc: Map<(Seq<char>, u16), HostKeyView>)
    requires
        forall|i: int| 0 <= i < vs.len() ==> host_key_round_trips(#[trigger] vs[i]),
    ensures
        read_host_key_lines(vs.map_values(|v: HostKeyView| host_key_line(v)), acc) == Ok::<
            Map<(Seq<char>, u16), HostKeyView>,
            Seq<char>,
        >(insert_host_keys(vs, acc)),
    decreases vs.len(),
{
    let lines = vs.map_values(|v: HostKeyView| host_key_line(v));
    if vs.len() > 0 {
        lemma_host_key_line_round_trip(vs[0]);
        assert(lines[0] == host_key_line(vs[0]));
        assert(lines.drop_first() =~= vs.drop_first().map_values(|v: HostKeyView| host_key_line(v)));
        assert forall|i: int| 0 <= i < vs.drop_first().len() implies host_key_round_trips(
            #[trigger] vs.drop_first()[i],
        ) by {
            assert(vs.drop_first()[i] == vs[i + 1]);
        }
        lemma_read_host_key_lines(vs.drop_first(), acc.insert(view_key(vs[0]), vs[0]));
    }
}

/// Writing records to a known-hosts file and reading it back gives the
/// records again, as a store that took them in order holds them, provided
/// each record round-trips.
pub proof fn lemma_known_hosts_round_trip(vs: Seq<HostKeyView>)
    requires
        forall|i: int| 0 <= i < vs.len() ==> host_key_round_trips(#[trigger] vs[i]),
    ensures
        read_known_hosts(known_hosts_text(vs)) == Ok::<Map<(Seq<char>, u16), HostKeyView>, Seq<char>>(
            insert_host_keys(vs, Map::empty()),
        ),
{
    lemma_known_hosts_split(vs);
    let recs = vs.map_values(|v: HostKeyView| host_key_line(v));
    let segs = split_on(known_hosts_text(vs), '\n');
    assert(segs.last() == Seq::<char>::empty());
    let body = segs.take(segs.len() - 1);
    assert(body =~= seq![known_hosts_header()] + recs);
    reveal_strlit("# CrossSCP known hosts v1");
    assert(strip_cr(known_hosts_header()) == known_hosts_header());
    assert forall|i: int| 0 <= i < recs.len() implies strip_cr(#[trigger] recs[i]) == recs[i] by {
        lemma_host_key_line_round_trip(vs[i]);
    }
    let lines = lines_of(known_hosts_text(vs));
    assert(lines =~= seq![known_hosts_header()] + recs);
    assert(skipped_line(known_hosts_header()));
    assert(lines.drop_first() =~= recs);
    lemma_read_host_key_lines(vs, Map::empty());
}

proof fn lemma_insert_host_keys_distinct(vs: Seq<HostKeyView>, acc: Map<(Seq<char>, u16), HostKeyView>)
    requires
        forall|i: int, j: int| 0 <= i < j < vs.len() ==> view_key(#[trigger] vs[i]) != view_key(#[trigger] vs[j]),
    ensures
        forall|k: (Seq<char>, u16)| #[trigger] insert_host_keys(vs, acc).contains_key(k) <==> (acc.contains_key(k)
            || exists|i: int| 0 <= i < vs.len() && view_key(#[trigger] vs[i]) == k),
        forall|i: int| 0 <= i < vs.len() ==> #[trigger] insert_host_keys(vs, acc)[view_key(vs[i])] == vs[i],
        forall|k: (Seq<char>, u16)| acc.contains_key(k) && !(exists|i: int| 0 <= i < vs.len() && view_key(#[trigger] vs[i]) == k)
            ==> #[trigger] insert_host_keys(vs, acc)[k] == acc[k],
    decreases vs.len(),
{
    if vs.len() > 0 {
        let rest = vs.drop_first();
        let acc2 = acc.insert(view_key(vs[0]), vs[0]);
        assert forall|i: int, j: int| 0 <= i < j < rest.len() implies view_key(#[trigger] rest[i]) != view_key(
            #[trigger] rest[j],
        ) by {
            assert(rest[i] == vs[i + 1]);
            assert(rest[j] == vs[j + 1]);
        }
        lemma_insert_host_keys_distinct(rest, acc2);
        let r = insert_host_keys(vs, acc);
        assert(r == insert_host_keys(rest, acc2));
        assert forall|k: (Seq<char>, u16)| #[trigger] r.contains_key(k) <==> (acc.contains_key(k) || exists|i: int|
            0 <= i < vs.len() && view_key(#[trigger] vs[i]) == k) by {
            if exists|i: int| 0 <= i < rest.len() && view_key(#[trigger] rest[i]) == k {
                let i = choose|i: int| 0 <= i < rest.len() && view_key(#[trigger] rest[i]) == k;
                assert(view_key(vs[i + 1]) == k);
            }
            if exists|i: int| 0 <= i < vs.len() && view_key(#[trigger] vs[i]) == k {
                let i = choose|i: int| 0 <= i < vs.len() && view_key(#[trigger] vs[i]) == k;
                if i > 0 {
                    assert(view_key(rest[i - 1]) == k);
                }
            }
        }
        assert forall|i: int| 0 <= i < vs.len() implies #[trigger] r[view_key(vs[i])] == vs[i] by {
            if i > 0 {
                assert(rest[i - 1] == vs[i]);
            } else {
                assert(!(exists|j: int| 0 <= j < rest.len() && view_key(#[trigger] rest[j]) == view_key(vs[0]))) by {
                    if exists|j: int| 0 <= j < rest.len() && view_key(#[trigger] rest[j]) == view_key(vs[0]) {
                        let j = choose|j: int| 0 <= j < rest.len() && view_key(#[trigger] rest[j]) == view_key(vs[0]);
                        assert(view_key(vs[j + 1]) == view_key(vs[0]));
                    }
                }
            }
        }
        assert forall|k: (Seq<char>, u16)| acc.contains_key(k) && !(exists|i: int| 0 <= i < vs.len() && view_key(#[trigger] vs[i]) == k)
            implies #[trigger] r[k] == acc[k] by {
            assert(view_key(vs[0]) != k);
            if exists|i: int| 0 <= i < rest.len() && view_key(#[trigger] rest[i]) == k {
                let i = choose|i: int| 0 <= i < rest.len() && view_key(#[trigger] rest[i]) == k;
                assert(view_key(vs[i + 1]) == k);
            }
        }
    }
}

/// A store written to a known-hosts file and read back gives the same known
/// state, provided each of its records round-trips: the file store keeps its
/// trusted keys across a reopen.
pub proof fn lemma_store_known_hosts_round_trip(store: &InMemoryHostKeyStore)
    requires
        forall|i: int, j: int| 0 <= i < j < store.listing().len() ==> crate::table::key_less(
            #[trigger] view_key(store.listing()[i]@),
            #[trigger] view_key(store.listing()[j]@),
        ),
        forall|i: int| 0 <= i < store.listing().len() ==> host_key_round_trips(#[trigger] store.listing()[i]@),
    ensures
        read_known_hosts(known_hosts_text(record_views(store.listing()))) == Ok::<
            Map<(Seq<char>, u16), HostKeyView>,
            Seq<char>,
        >(store.known_hosts()),
{
    let s = store.records.seq();
    let vs = record_views(s);
    assert forall|i: int| 0 <= i < vs.len() implies host_key_round_trips(#[trigger] vs[i]) by {
        assert(vs[i] == s[i]@);
    }
    lemma_known_hosts_round_trip(vs);
    assert forall|i: int, j: int| 0 <= i < j < vs.len() implies view_key(#[trigger] vs[i]) != view_key(
        #[trigger] vs[j],
    ) by {
        assert(crate::table::key_less(view_key(s[i]@), view_key(s[j]@)));
        crate::table::lemma_key_order(s[i].entry_key(), s[i].entry_key(), s[i].entry_key());
    }
    assert(crate::table::keys_increasing(s)) by {
        assert forall|i: int, j: int| 0 <= i < j < s.len() implies crate::table::key_less(
            #[trigger] s[i].entry_key(),
            #[trigger] s[j].entry_key(),
        ) by {
            assert(view_key(store.listing()[i]@) == s[i].entry_key());
            assert(view_key(store.listing()[j]@) == s[j].entry_key());
        }
    }
    lemma_insert_host_keys_distinct(vs, Map::empty());
    let r = insert_host_keys(vs, Map::empty());
    let m = store.known_hosts();
    assert forall|k: (Seq<char>, u16)| #[trigger] r.contains_key(k) <==> m.contains_key(k) by {
        if m.contains_key(k) {
            let i = choose|i: int| 0 <= i < s.len() && #[trigger] s[i].entry_key() == k;
            assert(view_key(vs[i]) == k);
        }
        if r.contains_key(k) {
            let i = choose|i: int| 0 <= i < vs.len() && view_key(#[trigger] vs[i]) == k;
            assert(s[i].entry_key() == k);
        }
    }
    assert forall|k: (Seq<char>, u16)| #[trigger] r.contains_key(k) implies r[k] == m[k] by {
        let i = choose|i: int| 0 <= i < vs.len() && view_key(#[trigger] vs[i]) == k;
        crate::table::lemma_entries_map_at(s, i);
        assert(s[i].entry_key() == k);
    }
    assert(r =~= m);
}

/// Backend interface that a concrete SSH/SFTP implementation satisfies.
/// Each operation's answer, and the backend's state after it, is one that the
/// matching spec function admits for the backend's state before it and the
/// arguments handed over; by default any answer. A backend written in Verus
/// states its own.
pub trait SftpBackend: Sized {
    open spec fn connects(&self, config: SftpConnectionConfig, after: Self, r: Result<(), SftpError>) -> bool {
        true
    }

    open spec fn disconnects(&self, after: Self, r: Result<(), SftpError>) -> bool {
        true
    }

    open spec fn reports_connected(&self, r: bool) -> bool {
        true
    }

    open spec fn lists(&self, path: Seq<char>, after: Self, r: Result<Vec<SftpRemoteFile>, SftpError>) -> bool {
        true
    }

    open spec fn uploads(
        &self,
        local_path: Seq<char>,
        remote_path: Seq<char>,
        after: Self,
        r: Result<SftpFileProgress, SftpError>,
    ) -> bool {
        true
    }

    open spec fn downloads(
        &self,
        remote_path: Seq<char>,
        local_path: Seq<char>,
        after: Self,
        r: Result<SftpFileProgress, SftpError>,
    ) -> bool {
        true
    }

    open spec fn creates_directory(&self, remote_path: Seq<char>, after: Self, r: Result<(), SftpError>) -> bool {
        true
    }

    open spec fn deletes(&self, remote_path: Seq<char>, after: Self, r: Result<(), SftpError>) -> bool {
        true
    }

    fn connect(&mut self, config: &SftpConnectionConfig) -> (r: Result<(), SftpError>)
        ensures
            old(self).connects(*config, *final(self), r),
    ;

    fn disconnect(&mut self) -> (r: Result<(), SftpError>)
        ensures
            old(self).disconnects(*final(self), r),
    ;

    fn is_connected(&self) -> (r: bool)
        ensures
            self.reports_connected(r),
    ;

    fn list_directory(&mut self, path: &str) -> (r: Result<Vec<SftpRemoteFile>, SftpError>)
        ensures
            old(self).lists(path@, *final(self), r),
    ;

    fn upload_file(&mut self, local_path: &str, remote_path: &str) -> (r: Result<SftpFileProgress, SftpError>)
        ensures
            old(self).uploads(local_path@, remote_path@, *final(self), r),
    ;

    fn download_file(&mut self, remote_path: &str, local_path: &str) -> (r: Result<SftpFileProgress, SftpError>)
        ensures
            old(self).downloads(remote_path@, local_path@, *final(self), r),
    ;

    fn create_directory(&mut self, remote_path: &str) -> (r: Result<(), SftpError>)
        ensures
            old(self).creates_directory(remote_path@, *final(self), r),
    ;

    fn delete_path(&mut self, remote_path: &str) -> (r: Result<(), SftpError>)
        ensures
            old(self).deletes(remote_path@, *final(self), r),
    ;
}

/// SFTP remote file metadata returned by backend list operations.
#[derive(Clone, Debug, PartialEq, Eq)]
pub struct SftpRemoteFile {
    pub name: String,
    pub path: String,
    pub size: Option<u64>,
    pub is_directory: bool,
    pub is_symlink: bool,
    pub permissions: Option<u32>,
}

impl SftpRemoteFile {
    /// The protocol-neutral form, with the permission bits written in octal.
    pub fn into_remote_file(self) -> (r: RemoteFile)
        ensures
            r.path@ == self.path@,
            r.name@ == self.name@,
            r.size == self.size,
            r.is_directory == self.is_directory,
            r.is_symlink == self.is_symlink,
            opt_view(r.permissions) == match self.permissions {
                Some(p) => Some(octal_numeral(p as nat)),
                None => None,
            },
    {
        RemoteFile {
            path: self.path,
            name: self.name,
            size: self.size,
            is_directory: self.is_directory,
            is_symlink: self.is_symlink,
            permissions: match self.permissions {
                Some(p) => Some(octal_string(p)),
                None => None,
            },
        }
    }
}

impl crate::protocol::NamedEntry for SftpRemoteFile {
    open spec fn entry_name(&self) -> Seq<char> {
        self.name@
    }

    fn name_text(&self) -> (r: &str) {
        self.name.as_str()
    }
}

/// Progress summary for a completed SFTP file operation.
#[derive(Clone, Debug, PartialEq, Eq)]
pub struct SftpFileProgress {
    pub source: String,
    pub destination: String,
    pub bytes_done: u64,
    pub bytes_total: Option<u64>,
}

/// SFTP adapter that owns validated settings and hands the transport to a
/// backend.
#[derive(Debug)]
pub struct SftpAdapter<B> {
    config: SftpConnectionConfig,
    backend: B,
}

impl<B: SftpBackend> SftpAdapter<B> {
    pub closed spec fn settings(&self) -> SftpConnectionConfig {
        self.config
    }

    pub closed spec fn transport(&self) -> B {
        self.backend
    }

    pub fn new(config: SftpConnectionConfig, backend: B) -> (r: Self)
        ensures
            r.settings() == config,
            r.transport() == backend,
    {
        SftpAdapter { config, backend }
    }

    pub fn config(&self) -> (r: &SftpConnectionConfig)
        ensures
            *r == self.settings(),
    {
        &self.config
    }

    pub fn backend(&self) -> (r: &B)
        ensures
            *r == self.transport(),
    {
        &self.backend
    }

    pub fn backend_mut(&mut self) -> (r: &mut B)
        ensures
            *r == old(self).transport(),
            final(self).settings() == old(self).settings(),
            final(self).transport() == *final(r),
    {
        &mut self.backend
    }

    /// Connects the backend with the adapter's settings; the answer is the
    /// backend's.
    pub fn connect(&mut self) -> (r: Result<(), SftpError>)
        ensures
            final(self).settings() == old(self).settings(),
            old(self).transport().connects(old(self).settings(), final(self).transport(), r),
    {
        self.backend.connect(&self.config)
    }

    /// Disconnects the backend; the answer is the backend's.
    pub fn disconnect(&mut self) -> (r: Result<(), SftpError>)
        ensures
            final(self).settings() == old(self).settings(),
            old(self).transport().disconnects(final(self).transport(), r),
    {
        self.backend.disconnect()
    }

    /// Lists `path` through the backend.
    pub fn list_directory(&mut self, path: &str) -> (r: Result<Vec<SftpRemoteFile>, SftpError>)
        ensures
            final(self).settings() == old(self).settings(),
            old(self).transport().lists(path@, final(self).transport(), r),
    {
        self.backend.list_directory(path)
    }

    /// Uploads `local_path` to `remote_path` through the backend.
    pub fn upload_file(&mut self, local_path: &str, remote_path: &str) -> (r: Result<SftpFileProgress, SftpError>)
        ensures
            final(self).settings() == old(self).settings(),
            old(self).transport().uploads(local_path@, remote_path@, final(self).transport(), r),
    {
        self.backend.upload_file(local_path, remote_path)
    }

    /// Downloads `remote_path` to `local_path` through the backend.
    pub fn download_file(&mut self, remote_path: &str, local_path: &str) -> (r: Result<SftpFileProgress, SftpError>)
        ensures
            final(self).settings() == old(self).settings(),
            old(self).transport().downloads(remote_path@, local_path@, final(self).transport(), r),
    {
        self.backend.download_file(remote_path, local_path)
    }

    /// Creates `remote_path` through the backend.
    pub fn create_directory(&mut self, remote_path: &str) -> (r: Result<(), SftpError>)
        ensures
            final(self).settings() == old(self).settings(),
            old(self).transport().creates_directory(remote_path@, final(self).transport(), r),
    {
        self.backend.create_directory(remote_path)
    }

    /// Deletes `remote_path` through the backend.
    pub fn delete_path(&mut self, remote_path: &str) -> (r: Result<(), SftpError>)
        ensures
            final(self).settings() == old(self).settings(),
            old(self).transport().deletes(remote_path@, final(self).transport(), r),
    {
        self.backend.delete_path(remote_path)
    }

    /// Whether the backend reports a live connection.
    pub fn is_connected(&self) -> (r: bool)
        ensures
            self.transport().reports_connected(r),
    {
        self.backend.is_connected()
    }
}

/// Backend used until a live SSH implementation is linked: it never
/// connects, and every transfer operation reports `BackendNotLinked`.
#[derive(Clone, Copy, Debug, Default, PartialEq, Eq, Structural)]
pub struct BackendNotLinked;

impl SftpBackend for BackendNotLinked {
    open spec fn connects(&self, config: SftpConnectionConfig, after: Self, r: Result<(), SftpError>) -> bool {
        r matches Err(SftpError::BackendNotLinked)
    }

    open spec fn disconnects(&self, after: Self, r: Result<(), SftpError>) -> bool {
        r is Ok
    }

    open spec fn reports_connected(&self, r: bool) -> bool {
        !r
    }

    open spec fn lists(&self, path: Seq<char>, after: Self, r: Result<Vec<SftpRemoteFile>, SftpError>) -> bool {
        r matches Err(SftpError::BackendNotLinked)
    }

    open spec fn uploads(
        &self,
        local_path: Seq<char>,
        remote_path: Seq<char>,
        after: Self,
        r: Result<SftpFileProgress, SftpError>,
    ) -> bool {
        r matches Err(SftpError::BackendNotLinked)
    }

    open spec fn downloads(
        &self,
        remote_path: Seq<char>,
        local_path: Seq<char>,
        after: Self,
        r: Result<SftpFileProgress, SftpError>,
    ) -> bool {
        r matches Err(SftpError::BackendNotLinked)
    }

    open spec fn creates_directory(&self, remote_path: Seq<char>, after: Self, r: Result<(), SftpError>) -> bool {
        r matches Err(SftpError::BackendNotLinked)
    }

    open spec fn deletes(&self, remote_path: Seq<char>, after: Self, r: Result<(), SftpError>) -> bool {
        r matches Err(SftpError::BackendNotLinked)
    }

    fn connect(&mut self, config: &SftpConnectionConfig) -> (r: Result<(), SftpError>) {
        Err(SftpError::BackendNotLinked)
    }

    fn disconnect(&mut self) -> (r: Result<(), SftpError>) {
        Ok(())
    }

    fn is_connected(&self) -> (r: bool) {
        false
    }

    fn list_directory(&mut self, path: &str) -> (r: Result<Vec<SftpRemoteFile>, SftpError>) {
        Err(SftpError::BackendNotLinked)
    }

    fn upload_file(&mut self, local_path: &str, remote_path: &str) -> (r: Result<SftpFileProgress, SftpError>) {
        Err(SftpError::BackendNotLinked)
    }

    fn download_file(&mut self, remote_path: &str, local_path: &str) -> (r: Result<SftpFileProgress, SftpError>) {
        Err(SftpError::BackendNotLinked)
    }

    fn create_directory(&mut self, remote_path: &str) -> (r: Result<(), SftpError>) {
        Err(SftpError::BackendNotLinked)
    }

    fn delete_path(&mut self, remote_path: &str) -> (r: Result<(), SftpError>) {
        Err(SftpError::BackendNotLinked)
    }
}

/// The environment variables that gate the live SFTP tests, as read from the
/// process environment (`None` where a variable is not set).
#[derive(Clone, Debug, Default)]
pub struct LiveSftpEnv {
    pub host: Option<String>,
    pub username: Option<String>,
    pub credential_ref: Option<String>,
    pub port: Option<String>,
    pub timeout_secs: Option<String>,
    pub list_path: Option<String>,
    pub local_file: Option<String>,
    pub remote_file: Option<String>,
}

/// A variable's value counts only when it is not blank.
pub open spec fn non_blank_value(o: Option<String>) -> Option<Seq<char>> {
    match o {
        Some(v) => if is_blank(v@) {
            None
        } else {
            Some(v@)
        },
        None => None,
    }
}

/// A variable's value, unless it is missing or blank.
pub fn env_value(value: &Option<String>) -> (r: Option<String>)
    ensures
        opt_view(r) == non_blank_value(*value),
{
    match value {
        Some(v) => if blank(v.as_str()) {
            None
        } else {
            Some(v.clone())
        },
        None => None,
    }
}

/// Settings for the gated live SFTP tests.
#[derive(Clone, Debug, PartialEq, Eq)]
pub struct LiveSftpTestConfig {
    pub host: String,
    pub port: u16,
    pub username: String,
    pub credential_ref: String,
    pub timeout_secs: u64,
}

impl LiveSftpTestConfig {
    /// The live-test settings: none unless host, username and credential
    /// reference are all given; the port defaults to 22 and the timeout to ten
    /// seconds, and an unreadable port or timeout is an error.
    pub fn from_env(env: &LiveSftpEnv) -> (r: Result<Option<Self>, SftpError>)
        ensures
            (non_blank_value(env.host) is None || non_blank_value(env.username) is None
                || non_blank_value(env.credential_ref) is None) ==> r matches Ok(None),
            (non_blank_value(env.host) is Some && non_blank_value(env.username) is Some
                && non_blank_value(env.credential_ref) is Some) ==> match r {
                Ok(Some(c)) => {
                    &&& Some(c.host@) == non_blank_value(env.host)
                    &&& Some(c.username@) == non_blank_value(env.username)
                    &&& Some(c.credential_ref@) == non_blank_value(env.credential_ref)
                    &&& match non_blank_value(env.port) {
                        Some(p) => parse_unsigned(p, 65535) == Some(c.port as nat),
                        None => c.port == DEFAULT_SFTP_PORT,
                    }
                    &&& (non_blank_value(env.port) matches Some(p) ==> parse_unsigned(p, 65535) is Some)
                    &&& match non_blank_value(env.timeout_secs) {
                        Some(t) => parse_unsigned(t, u64::MAX as nat) == Some(c.timeout_secs as nat),
                        None => c.timeout_secs == 10,
                    }
                },
                Ok(None) => false,
                Err(SftpError::InvalidLiveTestConfig(m)) => {
                    ||| (non_blank_value(env.port) matches Some(p) && parse_unsigned(p, 65535) is None
                        && m@ == "invalid test port"@)
                    ||| ((non_blank_value(env.port) matches Some(p) ==> parse_unsigned(p, 65535) is Some)
                        && (non_blank_value(env.timeout_secs) matches Some(t) && parse_unsigned(t, u64::MAX as nat) is None)
                        && m@ == "invalid test timeout"@)
                },
                Err(_) => false,
            },
    {
        let host = match env_value(&env.host) {
            Some(h) => h,
            None => return Ok(None),
        };
        let username = match env_value(&env.username) {
            Some(u) => u,
            None => return Ok(None),
        };
        let credential_ref = match env_value(&env.credential_ref) {
            Some(c) => c,
            None => return Ok(None),
        };
        let port: u16 = match env_value(&env.port) {
            Some(p) => {
                let v = chars_of(p.as_str());
                match parse_unsigned_chars(v.as_slice(), 65535) {
                    Some(n) => n as u16,
                    None => return Err(SftpError::InvalidLiveTestConfig(String::from_str("invalid test port"))),
                }
            },
            None => DEFAULT_SFTP_PORT,
        };
        let timeout_secs: u64 = match env_value(&env.timeout_secs) {
            Some(t) => {
                let v = chars_of(t.as_str());
                match parse_unsigned_chars(v.as_slice(), u64::MAX) {
                    Some(n) => n,
                    None => return Err(SftpError::InvalidLiveTestConfig(String::from_str("invalid test timeout"))),
                }
            },
            None => 10,
        };
        Ok(Some(LiveSftpTestConfig { host, port, username, credential_ref, timeout_secs }))
    }

    /// The SFTP profile the live tests connect with.
    pub fn to_session_profile(&self) -> (r: SessionProfile)
        ensures
            r.name@ == "live-sftp-test"@,
            r.protocol == SessionProtocol::Sftp,
            r.host@ == self.host@,
            r.port == Some(self.port),
            opt_view(r.username) == Some(self.username@),
            r.initial_remote_path is None,
            opt_view(r.credential_ref) == Some(self.credential_ref@),
    {
        SessionProfile {
            name: String::from_str("live-sftp-test"),
            protocol: SessionProtocol::Sftp,
            host: self.host.clone(),
            port: Some(self.port),
            username: Some(self.username.clone()),
            initial_remote_path: None,
            credential_ref: Some(self.credential_ref.clone()),
        }
    }

    /// The directory the live tests list: the given one, or `.`.
    pub fn initial_list_path(&self, env: &LiveSftpEnv) -> (r: String)
        ensures
            r@ == match non_blank_value(env.list_path) {
                Some(p) => p,
                None => "."@,
            },
    {
        match env_value(&env.list_path) {
            Some(p) => p,
            None => String::from_str("."),
        }
    }

    /// The local and remote files the live tests transfer, when both are given.
    pub fn transfer_paths(&self, env: &LiveSftpEnv) -> (r: Option<(String, String)>)
        ensures
            match r {
                Some((l, m)) => non_blank_value(env.local_file) == Some(l@) && non_blank_value(env.remote_file) == Some(m@),
                None => non_blank_value(env.local_file) is None || non_blank_value(env.remote_file) is None,
            },
    {
        let local = env_value(&env.local_file)?;
        let remote = env_value(&env.remote_file)?;
        Some((local, remote))
    }
}

/// The authentication the SFTP backend attempts for `auth`, falling back to
/// the profile's user name. A missing user name is `MissingUsername`; a
/// secret other than a password or a private key is refused.
pub fn sftp_auth_plan(auth: &SftpAuthMaterial, config: &SftpConnectionConfig) -> (r: Result<SshAuthPlan, SftpError>)
    ensures
        match r {
            Ok(p) => planned_auth(auth.username, config.username, auth.secret) == Ok::<PlanView, SshAuthRefusal>(p@),
            Err(SftpError::MissingUsername) => planned_auth(auth.username, config.username, auth.secret) == Err::<
                PlanView,
                SshAuthRefusal,
            >(SshAuthRefusal::MissingUsername),
            Err(SftpError::UnsupportedAuthMethod(m)) => planned_auth(auth.username, config.username, auth.secret)
                == Err::<PlanView, SshAuthRefusal>(SshAuthRefusal::UnsupportedSecret)
                && m@ == "ssh2 backend supports password auth or private-key auth with an optional passphrase"@,
            Err(_) => false,
        },
{
    match plan_ssh_auth(&auth.username, &config.username, &auth.secret) {
        Ok(p) => Ok(p),
        Err(SshAuthRefusal::MissingUsername) => Err(SftpError::MissingUsername),
        Err(SshAuthRefusal::UnsupportedSecret) => Err(
            SftpError::UnsupportedAuthMethod(
                String::from_str("ssh2 backend supports password auth or private-key auth with an optional passphrase"),
            ),
        ),
    }
}

/// Large streaming buffer: one copy step moves at most this many bytes.
pub const SFTP_TRANSFER_BUFFER_SIZE: usize = 8388608;

/// Progress is reported at most once per this many milliseconds while copying.
pub const SFTP_PROGRESS_INTERVAL_MS: u64 = 250;

/// Decides which progress reports a copy emits: the start, then at most one
/// report per interval, then the final count unless it was just reported.
#[derive(Clone, Copy, Debug, PartialEq, Eq, Structural)]
pub struct ProgressThrottle {
    pub bytes_total: Option<u64>,
    pub bytes_done: u64,
    pub last_reported: u64,
}

impl ProgressThrottle {
    /// A throttle for a copy of `bytes_total` bytes, and the first report.
    pub fn start(bytes_total: Option<u64>) -> (r: (Self, (u64, Option<u64>)))
        ensures
            r.0 == (ProgressThrottle { bytes_total, bytes_done: 0, last_reported: 0 }),
            r.1 == (0u64, bytes_total),
    {
        (ProgressThrottle { bytes_total, bytes_done: 0, last_reported: 0 }, (0, bytes_total))
    }

    /// Counts `read` more bytes copied. When the reporting interval has
    /// passed (`interval_elapsed`), the new count is reported.
    pub fn advance(&mut self, read: u64, interval_elapsed: bool) -> (r: Option<(u64, Option<u64>)>)
        requires
            old(self).bytes_done + read <= u64::MAX,
        ensures
            final(self).bytes_total == old(self).bytes_total,
            final(self).bytes_done == old(self).bytes_done + read,
            interval_elapsed ==> r == Some((final(self).bytes_done, final(self).bytes_total))
                && final(self).last_reported == final(self).bytes_done,
            !interval_elapsed ==> r is None && final(self).last_reported == old(self).last_reported,
    {
        self.bytes_done = self.bytes_done + read;
        if interval_elapsed {
            self.last_reported = self.bytes_done;
            Some((self.bytes_done, self.bytes_total))
        } else {
            None
        }
    }

    /// The closing report: the final count, unless it was the last reported.
    pub fn finish(&self) -> (r: Option<(u64, Option<u64>)>)
        ensures
            r == (if self.last_reported != self.bytes_done {
                Some((self.bytes_done, self.bytes_total))
            } else {
                None
            }),
    {
        if self.last_reported != self.bytes_done {
            Some((self.bytes_done, self.bytes_total))
        } else {
            None
        }
    }
}

/// `std::time::Instant`, carried through opaquely to time progress reports.
#[verifier::external_type_specification]
#[verifier::external_body]
pub struct ExInstant(std::time::Instant);

/// `Instant::now`: the current time; nothing is stated of it.
pub assume_specification[ std::time::Instant::now ]() -> std::time::Instant;

/// `Instant::elapsed`: the time since an instant; nothing is stated of it.
pub assume_specification[ std::time::Instant::elapsed ](instant: &std::time::Instant) -> std::time::Duration;

/// `Duration::as_millis`: whole milliseconds of a duration; the duration is
/// opaque here, so nothing is stated of the result.
pub assume_specification[ core::time::Duration::as_millis ](duration: &core::time::Duration) -> u128;

/// The reports of a copy of `len` bytes: the first is `(0, total)`; counts
/// strictly increase, never pass `len`, and stop at copy-step boundaries;
/// every report carries `total`; and a non-empty copy ends with `(len, total)`.
pub open spec fn progress_reports_ok(events: Seq<(u64, Option<u64>)>, len: nat, total: Option<u64>) -> bool {
    &&& events.len() >= 1
    &&& events[0] == (0u64, total)
    &&& forall|i: int| 0 <= i < events.len() ==> (#[trigger] events[i]).1 == total
    &&& forall|i: int, j: int| 0 <= i < j < events.len() ==> (#[trigger] events[i]).0 < (#[trigger] events[j]).0
    &&& forall|i: int| 0 <= i < events.len() ==> (#[trigger] events[i]).0 <= len && ((events[i].0 as nat)
        == len || (events[i].0 as nat) % (SFTP_TRANSFER_BUFFER_SIZE as nat) == 0)
    &&& len > 0 ==> events.last().0 == len
}

/// Copies `source` to the end of `writer` in steps of at most
/// `SFTP_TRANSFER_BUFFER_SIZE` bytes and returns the count of bytes copied
/// with the progress reports, at most one per reporting interval besides the
/// first and the last.
pub fn copy_with_progress(source: &[u8], writer: &mut Vec<u8>, bytes_total: Option<u64>) -> (r: (
    u64,
    Vec<(u64, Option<u64>)>,
))
    requires
        source@.len() <= u64::MAX,
    ensures
        r.0 == source@.len(),
        final(writer)@ == old(writer)@ + source@,
        progress_reports_ok(r.1@, source@.len(), bytes_total),
{
    let (mut throttle, first) = ProgressThrottle::start(bytes_total);
    let mut events: Vec<(u64, Option<u64>)> = Vec::new();
    events.push(first);
    let mut last_at = std::time::Instant::now();
    let n = source.len();
    let mut pos: usize = 0;
    while pos < n
        invariant
            n == source@.len(),
            n <= u64::MAX,
            pos <= n,
            throttle.bytes_done == pos,
            throttle.bytes_total == bytes_total,
            throttle.last_reported <= pos,
            writer@ == old(writer)@ + source@.take(pos as int),
            events@.len() >= 1,
            events@[0] == (0u64, bytes_total),
            events@.last().0 == throttle.last_reported,
            forall|i: int| 0 <= i < events@.len() ==> (#[trigger] events@[i]).1 == bytes_total,
            forall|i: int, j: int| 0 <= i < j < events@.len() ==> (#[trigger] events@[i]).0 < (#[trigger] events@[j]).0,
            forall|i: int| 0 <= i < events@.len() ==> (#[trigger] events@[i]).0 <= pos && ((events@[i].0 as nat)
                == n || (events@[i].0 as nat) % (SFTP_TRANSFER_BUFFER_SIZE as nat) == 0),
            pos < n ==> (pos as nat) % (SFTP_TRANSFER_BUFFER_SIZE as nat) == 0,
        decreases n - pos,
    {
        let step: usize = if n - pos < SFTP_TRANSFER_BUFFER_SIZE {
            n - pos
        } else {
            SFTP_TRANSFER_BUFFER_SIZE
        };
        let end = pos + step;
        let mut k = pos;
        while k < end
            invariant
                pos <= k <= end <= n,
                n == source@.len(),
                writer@ == old(writer)@ + source@.take(k as int),
            decreases end - k,
        {
            writer.push(source[k]);
            k = k + 1;
            assert(source@.take(k as int) =~= source@.take(k - 1).push(source@[k - 1]));
            assert(writer@ =~= old(writer)@ + source@.take(k as int));
        }
        let elapsed = last_at.elapsed();
        let due = elapsed.as_millis() >= SFTP_PROGRESS_INTERVAL_MS as u128;
        let ghost before = events@;
        let report = throttle.advance(step as u64, due);
        match report {
            Some(e) => {
                events.push(e);
                last_at = std::time::Instant::now();
                assert forall|i: int, j: int| 0 <= i < j < events@.len() implies (#[trigger] events@[i]).0 < (
                #[trigger] events@[j]).0 by {
                    if j == events@.len() - 1 && i < j {
                        assert(before[i].0 <= before.last().0 || i == before.len() - 1);
                    }
                }
            },
            None => {},
        }
        proof {
            if end < n {
                assert(step == SFTP_TRANSFER_BUFFER_SIZE);
                assert((end as nat) % (SFTP_TRANSFER_BUFFER_SIZE as nat) == 0) by (nonlinear_arith)
                    requires
                        (pos as nat) % (SFTP_TRANSFER_BUFFER_SIZE as nat) == 0,
                        end == pos + SFTP_TRANSFER_BUFFER_SIZE,
                        SFTP_TRANSFER_BUFFER_SIZE > 0,
                ;
            }
        }
        pos = end;
    }
    match throttle.finish() {
        Some(e) => {
            events.push(e);
        },
        None => {},
    }
    assert(source@.take(n as int) =~= source@);
    (n as u64, events)
}

} // verus!
