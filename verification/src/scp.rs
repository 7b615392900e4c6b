//! SCP: connection settings, credential resolution, the authentication
//! plan and error classification. The SSH session itself is driven by the
//! caller.

use vstd::prelude::*;

use crate::config::opt_view;
use crate::protocol::{scp_capabilities, ProtocolCapabilities};
use crate::security::{
    opt_ref_view, optional_credential_ref, CredentialRef, CredentialSecret, CredentialService,
    SecurityError,
};
use crate::session::{clone_opt_string, SessionProfile, SessionProtocol};
use crate::ssh::{plan_ssh_auth, planned_auth, PlanView, SshAuthPlan, SshAuthRefusal};
use crate::text::{
    ascii_lower, ascii_lowercase_chars, blank, chars_of, contains_chars, contains_seq, is_blank, push_str,
};

verus! {

pub const DEFAULT_SCP_PORT: u16 = 22;

/// SCP errors.
#[derive(Debug)]
pub enum ScpError {
    InvalidProtocol(SessionProtocol),
    MissingHost,
    MissingUsername,
    MissingCredentialRef,
    CredentialNotFound(String),
    UnsupportedAuthMethod(String),
    AuthenticationFailed,
    NotConnected,
    Security(SecurityError),
    Backend(String),
    Io(String),
    UnsupportedOperation(&'static str),
}

impl ScpError {
    /// The message of the error, as its `Display` writes it.
    pub open spec fn text(&self) -> Seq<char> {
        match self {
            ScpError::InvalidProtocol(p) => "SCP adapter cannot use "@ + p.identifier(),
            ScpError::MissingHost => "SCP host is required"@,
            ScpError::MissingUsername => "SCP username is required"@,
            ScpError::MissingCredentialRef => "SCP credential reference is required"@,
            ScpError::CredentialNotFound(r) => "SCP credential not found: "@ + r@,
            ScpError::UnsupportedAuthMethod(m) => "unsupported SCP auth method: "@ + m@,
            ScpError::AuthenticationFailed => "SCP authentication failed"@,
            ScpError::NotConnected => "SCP backend is not connected"@,
            ScpError::Security(e) => "SCP credential error: "@ + e.text(),
            ScpError::Backend(m) => "SCP backend error: "@ + m@,
            ScpError::Io(m) => "SCP I/O error: "@ + m@,
            ScpError::UnsupportedOperation(o) => "SCP operation is not supported: "@ + o@,
        }
    }

    /// The error message.
    pub fn message(&self) -> (r: String)
        ensures
            r@ == self.text(),
    {
        let (head, tail): (&str, &str) = match self {
            ScpError::InvalidProtocol(p) => ("SCP adapter cannot use ", p.as_str()),
            ScpError::MissingHost => ("SCP host is required", ""),
            ScpError::MissingUsername => ("SCP username is required", ""),
            ScpError::MissingCredentialRef => ("SCP credential reference is required", ""),
            ScpError::CredentialNotFound(r) => ("SCP credential not found: ", r.as_str()),
            ScpError::UnsupportedAuthMethod(m) => ("unsupported SCP auth method: ", m.as_str()),
            ScpError::AuthenticationFailed => ("SCP authentication failed", ""),
            ScpError::NotConnected => ("SCP backend is not connected", ""),
            ScpError::Security(e) => ("SCP credential error: ", e.message()),
            ScpError::Backend(m) => ("SCP backend error: ", m.as_str()),
            ScpError::Io(m) => ("SCP I/O error: ", m.as_str()),
            ScpError::UnsupportedOperation(o) => ("SCP operation is not supported: ", *o),
        };
        let mut r = String::from_str(head);
        push_str(&mut r, tail);
        proof {
            reveal_strlit("");
            assert(r@ =~= self.text());
        }
        r
    }

    /// The error an SSH failure reports, from the message of the client
    /// library's error: a message that mentions `auth` (in any case) is an
    /// authentication failure.
    pub fn from_backend_message(message: String) -> (r: ScpError)
        ensures
            contains_seq(ascii_lower(message@), "auth"@) ==> r matches ScpError::AuthenticationFailed,
            !contains_seq(ascii_lower(message@), "auth"@) ==> (r matches ScpError::Backend(m) && m@ == message@),
    {
        let m = chars_of(message.as_str());
        let lower = ascii_lowercase_chars(m.as_slice());
        let auth = chars_of("auth");
        if contains_chars(lower.as_slice(), auth.as_slice()) {
            ScpError::AuthenticationFailed
        } else {
            ScpError::Backend(message)
        }
    }
}

/// SCP connection settings.
#[derive(Debug)]
pub struct ScpConnectionConfig {
    pub host: String,
    pub port: u16,
    pub username: Option<String>,
    pub initial_remote_path: Option<String>,
    pub credential_ref: Option<CredentialRef>,
}

/// A profile can be turned into SCP settings: it is an SCP profile, its host
/// is not blank and its credential reference, if any, is not blank.
pub open spec fn scp_profile_usable(p: SessionProfile) -> bool {
    &&& p.protocol == SessionProtocol::Scp
    &&& !is_blank(p.host@)
    &&& p.credential_ref matches Some(c) ==> !is_blank(c@)
}

impl ScpConnectionConfig {
    /// Settings for an SCP profile; the default port is 22.
    pub fn from_profile(profile: &SessionProfile) -> (r: Result<Self, ScpError>)
        ensures
            profile.protocol != SessionProtocol::Scp ==> (r matches Err(ScpError::InvalidProtocol(p))
                && p == profile.protocol),
            profile.protocol == SessionProtocol::Scp && is_blank(profile.host@) ==> r matches Err(ScpError::MissingHost),
            profile.protocol == SessionProtocol::Scp && !is_blank(profile.host@) && !scp_profile_usable(*profile)
                ==> r matches Err(ScpError::Security(SecurityError::InvalidCredentialRef)),
            r is Ok <==> scp_profile_usable(*profile),
            r matches Ok(c) ==> {
                &&& c.host@ == profile.host@
                &&& c.port == (match profile.port {
                    Some(p) => p,
                    None => DEFAULT_SCP_PORT,
                })
                &&& opt_view(c.username) == opt_view(profile.username)
                &&& opt_view(c.initial_remote_path) == opt_view(profile.initial_remote_path)
                &&& opt_ref_view(c.credential_ref) == opt_view(profile.credential_ref)
            },
    {
        if profile.protocol != SessionProtocol::Scp {
            return Err(ScpError::InvalidProtocol(profile.protocol));
        }
        if blank(profile.host.as_str()) {
            return Err(ScpError::MissingHost);
        }
        let credential_ref = match optional_credential_ref(&profile.credential_ref) {
            Ok(c) => c,
            Err(e) => return Err(ScpError::Security(e)),
        };
        Ok(ScpConnectionConfig {
            host: profile.host.clone(),
            port: match profile.port {
                Some(p) => p,
                None => DEFAULT_SCP_PORT,
            },
            username: clone_opt_string(&profile.username),
            initial_remote_path: clone_opt_string(&profile.initial_remote_path),
            credential_ref,
        })
    }
}

/// Authentication material resolved for an SCP connection attempt.
pub struct ScpAuthMaterial {
    pub username: Option<String>,
    pub secret: CredentialSecret,
}

/// The authentication material for what a credential service answered when
/// asked for `reference`: its failure is a `Security` error, no stored secret
/// is `CredentialNotFound`, and a stored secret is used with the settings'
/// user name.
pub fn scp_material_from_loaded(
    config: &ScpConnectionConfig,
    reference: &CredentialRef,
    loaded: Result<Option<CredentialSecret>, SecurityError>,
) -> (r: Result<ScpAuthMaterial, ScpError>)
    ensures
        match loaded {
            Err(e) => r matches Err(ScpError::Security(f)) && f == e,
            Ok(None) => r matches Err(ScpError::CredentialNotFound(t)) && t@ == reference@,
            Ok(Some(s)) => r matches Ok(m) && m.secret == s && opt_view(m.username) == opt_view(config.username),
        },
{
    match loaded {
        Err(e) => Err(ScpError::Security(e)),
        Ok(None) => Err(ScpError::CredentialNotFound(reference.as_str().to_owned())),
        Ok(Some(secret)) => Ok(ScpAuthMaterial { username: clone_opt_string(&config.username), secret }),
    }
}

/// Resolves the credential that the settings refer to through a credential
/// service. Without a reference the result is `MissingCredentialRef` and the
/// service is not asked; a reference the service does not hold gives
/// `CredentialNotFound`; a failing load gives its error, and a load fails
/// only where the service may fail.
pub fn resolve_scp_credentials<S: CredentialService>(
    config: &ScpConnectionConfig,
    credential_service: &S,
) -> (r: Result<ScpAuthMaterial, ScpError>)
    ensures
        config.credential_ref is None ==> r matches Err(ScpError::MissingCredentialRef),
        config.credential_ref matches Some(c) ==> match r {
            Ok(m) => {
                &&& credential_service.stored().contains_key(c@)
                &&& m.secret == credential_service.stored()[c@]
                &&& opt_view(m.username) == opt_view(config.username)
            },
            Err(ScpError::CredentialNotFound(t)) => t@ == c@ && !credential_service.stored().contains_key(c@),
            Err(ScpError::Security(_)) => credential_service.load_may_fail(c@),
            Err(_) => false,
        },
{
    let reference = match &config.credential_ref {
        Some(c) => c,
        None => return Err(ScpError::MissingCredentialRef),
    };
    let loaded = credential_service.load(reference);
    scp_material_from_loaded(config, reference, loaded)
}

/// SCP transfers files only: it can neither list nor manage directories.
pub fn capabilities() -> (r: ProtocolCapabilities)
    ensures
        r == scp_capabilities(),
{
    ProtocolCapabilities::scp_transfer_only()
}

/// The authentication the SCP adapter attempts for `auth`, falling back to
/// the profile's user name.
pub fn scp_auth_plan(auth: &ScpAuthMaterial, config: &ScpConnectionConfig) -> (r: Result<SshAuthPlan, ScpError>)
    ensures
        match r {
            Ok(p) => planned_auth(auth.username, config.username, auth.secret) == Ok::<PlanView, SshAuthRefusal>(p@),
            Err(ScpError::MissingUsername) => planned_auth(auth.username, config.username, auth.secret) == Err::<
                PlanView,
                SshAuthRefusal,
            >(SshAuthRefusal::MissingUsername),
            Err(ScpError::UnsupportedAuthMethod(m)) => planned_auth(auth.username, config.username, auth.secret)
                == Err::<PlanView, SshAuthRefusal>(SshAuthRefusal::UnsupportedSecret)
                && m@ == "SCP supports password auth or private-key auth with an optional passphrase"@,
            Err(_) => false,
        },
{
    match plan_ssh_auth(&auth.username, &config.username, &auth.secret) {
        Ok(p) => Ok(p),
        Err(SshAuthRefusal::MissingUsername) => Err(ScpError::MissingUsername),
        Err(SshAuthRefusal::UnsupportedSecret) => Err(
            ScpError::UnsupportedAuthMethod(
                String::from_str("SCP supports password auth or private-key auth with an optional passphrase"),
            ),
        ),
    }
}

/// Bytes moved by an SCP transfer.
#[derive(Clone, Debug, PartialEq, Eq)]
pub struct ScpTransferSummary {
    pub source: String,
    pub destination: String,
    pub bytes_done: u64,
    pub bytes_total: Option<u64>,
}

} // verus!
