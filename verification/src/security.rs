//! Secret redaction, credential references and credential lookup.

use vstd::prelude::*;

use crate::table::{SortedTable, TableEntry};
use crate::text::{blank, chars_of, is_blank};

verus! {

/// A stable, non-blank reference to secret material stored outside profiles.
#[derive(Debug, PartialEq, Eq, Hash, PartialOrd, Ord)]
pub struct CredentialRef(String);

impl View for CredentialRef {
    type V = Seq<char>;

    closed spec fn view(&self) -> Seq<char> {
        self.0@
    }
}

impl Clone for CredentialRef {
    fn clone(&self) -> (r: Self)
        ensures
            r == *self,
    {
        CredentialRef(self.0.clone())
    }
}

impl CredentialRef {
    /// A reference with the given text; a blank text is refused.
    pub fn new(value: &str) -> (r: Result<Self, SecurityError>)
        ensures
            match r {
                Ok(c) => !is_blank(value@) && c@ == value@,
                Err(e) => is_blank(value@) && e == SecurityError::InvalidCredentialRef,
            },
    {
        if blank(value) {
            return Err(SecurityError::InvalidCredentialRef);
        }
        Ok(CredentialRef(value.to_owned()))
    }

    pub fn as_str(&self) -> (r: &str)
        ensures
            r@ == self@,
    {
        self.0.as_str()
    }
}

/// The texts of an optional credential reference.
pub open spec fn opt_ref_view(o: Option<CredentialRef>) -> Option<Seq<char>> {
    match o {
        Some(c) => Some(c@),
        None => None,
    }
}

/// An optional reference text as an optional credential reference; a blank
/// text is refused.
pub fn optional_credential_ref(value: &Option<String>) -> (r: Result<Option<CredentialRef>, SecurityError>)
    ensures
        match *value {
            None => r == Ok::<Option<CredentialRef>, SecurityError>(None),
            Some(v) => if is_blank(v@) {
                r == Err::<Option<CredentialRef>, SecurityError>(SecurityError::InvalidCredentialRef)
            } else {
                r matches Ok(Some(c)) && c@ == v@
            },
        },
{
    match value {
        None => Ok(None),
        Some(v) => {
            let c = CredentialRef::new(v.as_str())?;
            Ok(Some(c))
        },
    }
}

/// A non-empty secret whose textual forms never show it.
#[derive(PartialEq, Eq)]
pub struct SecretString(String);

impl View for SecretString {
    type V = Seq<char>;

    closed spec fn view(&self) -> Seq<char> {
        self.0@
    }
}

impl Clone for SecretString {
    fn clone(&self) -> (r: Self)
        ensures
            r == *self,
    {
        SecretString(self.0.clone())
    }
}

impl SecretString {
    /// A secret with the given text; an empty text is refused.
    pub fn new(value: &str) -> (r: Result<Self, SecurityError>)
        ensures
            match r {
                Ok(s) => value@.len() > 0 && s@ == value@,
                Err(e) => value@.len() == 0 && e == SecurityError::EmptySecret,
            },
    {
        if value.is_empty() {
            return Err(SecurityError::EmptySecret);
        }
        Ok(SecretString(value.to_owned()))
    }

    /// The secret text itself.
    pub fn expose(&self) -> (r: &str)
        ensures
            r@ == self@,
    {
        self.0.as_str()
    }

    /// What the secret's `Display` shows: never the secret.
    pub fn display_text(&self) -> (r: &'static str)
        ensures
            r@ == "REDACTED"@,
    {
        "REDACTED"
    }

    /// What the secret's `Debug` shows: never the secret.
    pub fn debug_text(&self) -> (r: &'static str)
        ensures
            r@ == "SecretString(REDACTED)"@,
    {
        "SecretString(REDACTED)"
    }
}

/// Credential material returned by credential services.
#[derive(PartialEq, Eq)]
pub enum CredentialSecret {
    Password(SecretString),
    PrivateKey { private_key_path: String, passphrase: Option<SecretString> },
    PrivateKeyPassphrase(SecretString),
    Token(SecretString),
}

impl Clone for CredentialSecret {
    fn clone(&self) -> (r: Self)
        ensures
            r == *self,
    {
        match self {
            CredentialSecret::Password(s) => CredentialSecret::Password(s.clone()),
            CredentialSecret::PrivateKey { private_key_path, passphrase } => CredentialSecret::PrivateKey {
                private_key_path: private_key_path.clone(),
                passphrase: match passphrase {
                    Some(p) => Some(p.clone()),
                    None => None,
                },
            },
            CredentialSecret::PrivateKeyPassphrase(s) => CredentialSecret::PrivateKeyPassphrase(s.clone()),
            CredentialSecret::Token(s) => CredentialSecret::Token(s.clone()),
        }
    }
}

/// Master-password vault: models lock and unlock; the master secret is kept
/// only while unlocked.
#[derive(Clone, PartialEq, Eq)]
pub struct MasterPasswordVault {
    master: Option<SecretString>,
}

impl MasterPasswordVault {
    pub closed spec fn unlocked(&self) -> bool {
        self.master is Some
    }

    pub fn new() -> (r: Self)
        ensures
            !r.unlocked(),
    {
        MasterPasswordVault { master: None }
    }

    pub fn unlock(&mut self, master: SecretString)
        ensures
            final(self).unlocked(),
    {
        self.master = Some(master);
    }

    pub fn lock(&mut self)
        ensures
            !final(self).unlocked(),
    {
        self.master = None;
    }

    pub fn is_unlocked(&self) -> (r: bool)
        ensures
            r == self.unlocked(),
    {
        self.master.is_some()
    }

    /// Succeeds exactly when the vault is unlocked.
    pub fn require_unlocked(&self) -> (r: Result<(), SecurityError>)
        ensures
            r is Ok <==> self.unlocked(),
            r matches Err(e) ==> e == SecurityError::VaultLocked,
    {
        if self.is_unlocked() {
            Ok(())
        } else {
            Err(SecurityError::VaultLocked)
        }
    }
}

/// Credential service interface. `stored` is what a service holds; its
/// successful answers are bound to `stored`. `load_may_fail` says for which
/// references a load may fail (by default any: a keychain or vault backend
/// may be unavailable or deny access).
pub trait CredentialService {
    spec fn stored(&self) -> Map<Seq<char>, CredentialSecret>;

    open spec fn load_may_fail(&self, reference: Seq<char>) -> bool {
        true
    }

    fn store(&mut self, reference: CredentialRef, secret: CredentialSecret) -> (r: Result<(), SecurityError>)
        ensures
            r is Ok ==> final(self).stored() == old(self).stored().insert(reference@, secret),
    ;

    fn load(&self, reference: &CredentialRef) -> (r: Result<Option<CredentialSecret>, SecurityError>)
        ensures
            r matches Ok(o) ==> o == (if self.stored().contains_key(reference@) {
                Some(self.stored()[reference@])
            } else {
                None
            }),
            r is Err ==> self.load_may_fail(reference@),
    ;

    fn delete(&mut self, reference: &CredentialRef) -> (r: Result<bool, SecurityError>)
        ensures
            r matches Ok(b) ==> b == old(self).stored().contains_key(reference@)
                && final(self).stored() == old(self).stored().remove(reference@),
    ;
}

/// A reference and the secret stored under it.
pub struct CredentialEntry {
    pub reference: CredentialRef,
    pub secret: CredentialSecret,
}

impl TableEntry for CredentialEntry {
    open spec fn entry_key(&self) -> (Seq<char>, u16) {
        (self.reference@, 0)
    }

    fn key_text(&self) -> (r: &str) {
        self.reference.as_str()
    }

    fn key_number(&self) -> (r: u16) {
        0
    }

    fn duplicate(&self) -> (r: Self) {
        CredentialEntry { reference: self.reference.clone(), secret: self.secret.clone() }
    }
}

/// Non-persistent credential service for tests and local orchestration.
pub struct InMemoryCredentialService {
    secrets: SortedTable<CredentialEntry>,
}

pub open spec fn secret_map(t: Map<(Seq<char>, u16), CredentialEntry>) -> Map<Seq<char>, CredentialSecret> {
    Map::new(|k: Seq<char>| t.contains_key((k, 0u16)), |k: Seq<char>| t[(k, 0u16)].secret)
}

impl InMemoryCredentialService {
    pub closed spec fn secrets_spec(&self) -> Map<Seq<char>, CredentialSecret> {
        secret_map(self.secrets.map())
    }

    pub fn new() -> (r: Self)
        ensures
            r.secrets_spec() == Map::<Seq<char>, CredentialSecret>::empty(),
    {
        let r = InMemoryCredentialService { secrets: SortedTable::new() };
        assert(r.secrets_spec() =~= Map::<Seq<char>, CredentialSecret>::empty());
        r
    }

    /// Stores `secret` under `reference`, replacing any earlier one; never fails.
    pub fn store(&mut self, reference: CredentialRef, secret: CredentialSecret) -> (r: Result<(), SecurityError>)
        ensures
            r is Ok,
            final(self).secrets_spec() == old(self).secrets_spec().insert(reference@, secret),
    {
        let ghost k = reference@;
        let ghost s = secret;
        self.secrets.upsert(CredentialEntry { reference, secret });
        assert(self.secrets_spec() =~= old(self).secrets_spec().insert(k, s));
        Ok(())
    }

    /// The secret stored under `reference`, if any; never fails.
    pub fn load(&self, reference: &CredentialRef) -> (r: Result<Option<CredentialSecret>, SecurityError>)
        ensures
            r == Ok::<Option<CredentialSecret>, SecurityError>(if self.secrets_spec().contains_key(reference@) {
                Some(self.secrets_spec()[reference@])
            } else {
                None
            }),
    {
        let key = chars_of(reference.as_str());
        match self.secrets.get(key.as_slice(), 0) {
            Some(e) => Ok(Some(e.secret.clone())),
            None => Ok(None),
        }
    }

    /// Removes the secret stored under `reference`; reports whether there was one.
    pub fn delete(&mut self, reference: &CredentialRef) -> (r: Result<bool, SecurityError>)
        ensures
            r == Ok::<bool, SecurityError>(old(self).secrets_spec().contains_key(reference@)),
            final(self).secrets_spec() == old(self).secrets_spec().remove(reference@),
    {
        let key = chars_of(reference.as_str());
        let removed = self.secrets.remove_key(key.as_slice(), 0);
        assert(self.secrets_spec() =~= old(self).secrets_spec().remove(reference@));
        Ok(removed.is_some())
    }
}

impl CredentialService for InMemoryCredentialService {
    open spec fn stored(&self) -> Map<Seq<char>, CredentialSecret> {
        self.secrets_spec()
    }

    open spec fn load_may_fail(&self, reference: Seq<char>) -> bool {
        false
    }

    fn store(&mut self, reference: CredentialRef, secret: CredentialSecret) -> (r: Result<(), SecurityError>)
        ensures
            r is Ok,
            final(self).secrets_spec() == old(self).secrets_spec().insert(reference@, secret),
    {
        InMemoryCredentialService::store(self, reference, secret)
    }

    fn load(&self, reference: &CredentialRef) -> (r: Result<Option<CredentialSecret>, SecurityError>)
        ensures
            r == Ok::<Option<CredentialSecret>, SecurityError>(if self.secrets_spec().contains_key(reference@) {
                Some(self.secrets_spec()[reference@])
            } else {
                None
            }),
    {
        InMemoryCredentialService::load(self, reference)
    }

    fn delete(&mut self, reference: &CredentialRef) -> (r: Result<bool, SecurityError>)
        ensures
            r == Ok::<bool, SecurityError>(old(self).secrets_spec().contains_key(reference@)),
            final(self).secrets_spec() == old(self).secrets_spec().remove(reference@),
    {
        InMemoryCredentialService::delete(self, reference)
    }
}

/// Security and credential errors.
#[derive(Clone, Copy, Debug, PartialEq, Eq, Structural)]
pub enum SecurityError {
    InvalidCredentialRef,
    EmptySecret,
    BackendUnavailable,
    AccessDenied,
    VaultLocked,
}

impl SecurityError {
    pub open spec fn text(self) -> Seq<char> {
        match self {
            SecurityError::InvalidCredentialRef => "credential reference cannot be empty"@,
            SecurityError::EmptySecret => "secret cannot be empty"@,
            SecurityError::BackendUnavailable => "credential backend unavailable"@,
            SecurityError::AccessDenied => "credential access denied"@,
            SecurityError::VaultLocked => "credential vault is locked"@,
        }
    }

    /// The error message, as the error's `Display` writes it.
    pub fn message(&self) -> (r: &'static str)
        ensures
            r@ == self.text(),
    {
        match self {
            SecurityError::InvalidCredentialRef => "credential reference cannot be empty",
            SecurityError::EmptySecret => "secret cannot be empty",
            SecurityError::BackendUnavailable => "credential backend unavailable",
            SecurityError::AccessDenied => "credential access denied",
            SecurityError::VaultLocked => "credential vault is locked",
        }
    }
}

/// Placeholder for a macOS Keychain-backed credential service: every request
/// reports the backend as unavailable.
#[derive(Clone, Copy, Debug, Default)]
pub struct MacOsKeychainCredentialService;

impl MacOsKeychainCredentialService {
    pub fn new() -> Self {
        MacOsKeychainCredentialService
    }
}

impl CredentialService for MacOsKeychainCredentialService {
    open spec fn stored(&self) -> Map<Seq<char>, CredentialSecret> {
        Map::empty()
    }

    fn store(&mut self, reference: CredentialRef, secret: CredentialSecret) -> (r: Result<(), SecurityError>)
        ensures
            r == Err::<(), SecurityError>(SecurityError::BackendUnavailable),
    {
        Err(SecurityError::BackendUnavailable)
    }

    fn load(&self, reference: &CredentialRef) -> (r: Result<Option<CredentialSecret>, SecurityError>)
        ensures
            r == Err::<Option<CredentialSecret>, SecurityError>(SecurityError::BackendUnavailable),
    {
        Err(SecurityError::BackendUnavailable)
    }

    fn delete(&mut self, reference: &CredentialRef) -> (r: Result<bool, SecurityError>)
        ensures
            r == Err::<bool, SecurityError>(SecurityError::BackendUnavailable),
    {
        Err(SecurityError::BackendUnavailable)
    }
}

/// Placeholder for a Windows Credential Manager / DPAPI-backed service: every
/// request reports the backend as unavailable.
#[derive(Clone, Copy, Debug, Default)]
pub struct WindowsCredentialService;

impl WindowsCredentialService {
    pub fn new() -> Self {
        WindowsCredentialService
    }
}

impl CredentialService for WindowsCredentialService {
    open spec fn stored(&self) -> Map<Seq<char>, CredentialSecret> {
        Map::empty()
    }

    fn store(&mut self, reference: CredentialRef, secret: CredentialSecret) -> (r: Result<(), SecurityError>)
        ensures
            r == Err::<(), SecurityError>(SecurityError::BackendUnavailable),
    {
        Err(SecurityError::BackendUnavailable)
    }

    fn load(&self, reference: &CredentialRef) -> (r: Result<Option<CredentialSecret>, SecurityError>)
        ensures
            r == Err::<Option<CredentialSecret>, SecurityError>(SecurityError::BackendUnavailable),
    {
        Err(SecurityError::BackendUnavailable)
    }

    fn delete(&mut self, reference: &CredentialRef) -> (r: Result<bool, SecurityError>)
        ensures
            r == Err::<bool, SecurityError>(SecurityError::BackendUnavailable),
    {
        Err(SecurityError::BackendUnavailable)
    }
}

/// The answer a successful `load` of `reference` gives from `service`.
pub open spec fn loaded<S: CredentialService>(service: S, reference: Seq<char>) -> Option<CredentialSecret> {
    if service.stored().contains_key(reference) {
        Some(service.stored()[reference])
    } else {
        None
    }
}

/// For any credential service, once a store of `secret` under `reference`
/// has succeeded (taking `before` to `after`), a successful load of that
/// reference answers `secret`, and loads of other references answer as
/// before.
pub proof fn lemma_store_then_load<S: CredentialService>(
    before: S,
    after: S,
    reference: Seq<char>,
    secret: CredentialSecret,
    other: Seq<char>,
)
    requires
        after.stored() == before.stored().insert(reference, secret),
    ensures
        loaded(after, reference) == Some(secret),
        other != reference ==> loaded(after, other) == loaded(before, other),
{
}

/// For any credential service, once a delete of `reference` has succeeded
/// (taking `before` to `after`), a successful load of it answers that nothing
/// is stored, and loads of other references answer as before.
pub proof fn lemma_delete_then_load<S: CredentialService>(
    before: S,
    after: S,
    reference: Seq<char>,
    other: Seq<char>,
)
    requires
        after.stored() == before.stored().remove(reference),
    ensures
        loaded(after, reference) is None,
        other != reference ==> loaded(after, other) == loaded(before, other),
{
}

} // verus!
