//! WebDAV connection settings.

use vstd::prelude::*;

use crate::config::opt_view;
use crate::http::{HttpVersionPolicy, TlsMinimumVersion, TlsPolicy};
use crate::protocol::{webdav_capabilities, ProtocolCapabilities};
use crate::session::{clone_opt_string, SessionProfile, SessionProtocol};
use crate::text::{blank, is_blank, push_str};

verus! {

/// WebDAV connection settings.
#[derive(Debug, PartialEq, Eq)]
pub struct WebDavConnectionConfig {
    pub base_url: String,
    pub username: Option<String>,
    pub root_path: Option<String>,
    pub credential_ref: Option<String>,
    pub tls_policy: TlsPolicy,
    pub http_version_policy: HttpVersionPolicy,
}

impl WebDavConnectionConfig {
    /// Settings for a WebDAV profile, whose host is the base URL; TLS
    /// certificates must be valid and the HTTP version is negotiated.
    pub fn from_profile(profile: &SessionProfile) -> (r: Result<Self, WebDavError>)
        ensures
            profile.protocol != SessionProtocol::WebDav ==> r == Err::<Self, WebDavError>(
                WebDavError::InvalidProtocol(profile.protocol),
            ),
            profile.protocol == SessionProtocol::WebDav && is_blank(profile.host@) ==> r == Err::<Self, WebDavError>(
                WebDavError::MissingBaseUrl,
            ),
            r is Ok <==> profile.protocol == SessionProtocol::WebDav && !is_blank(profile.host@),
            r matches Ok(c) ==> {
                &&& c.base_url@ == profile.host@
                &&& opt_view(c.username) == opt_view(profile.username)
                &&& opt_view(c.root_path) == opt_view(profile.initial_remote_path)
                &&& opt_view(c.credential_ref) == opt_view(profile.credential_ref)
                &&& c.tls_policy == (TlsPolicy {
                    minimum_version: TlsMinimumVersion::Default,
                    require_valid_certificate: true,
                })
                &&& c.http_version_policy == HttpVersionPolicy::Auto
            },
    {
        if profile.protocol != SessionProtocol::WebDav {
            return Err(WebDavError::InvalidProtocol(profile.protocol));
        }
        if blank(profile.host.as_str()) {
            return Err(WebDavError::MissingBaseUrl);
        }
        Ok(WebDavConnectionConfig {
            base_url: profile.host.clone(),
            username: clone_opt_string(&profile.username),
            root_path: clone_opt_string(&profile.initial_remote_path),
            credential_ref: clone_opt_string(&profile.credential_ref),
            tls_policy: TlsPolicy::default(),
            http_version_policy: HttpVersionPolicy::default(),
        })
    }
}

/// What a WebDAV session can do.
pub fn capabilities() -> (r: ProtocolCapabilities)
    ensures
        r == webdav_capabilities(),
{
    ProtocolCapabilities::webdav()
}

/// WebDAV errors.
#[derive(Clone, Copy, Debug, PartialEq, Eq)]
pub enum WebDavError {
    InvalidProtocol(SessionProtocol),
    MissingBaseUrl,
    UnsupportedOperation(&'static str),
}

impl WebDavError {
    /// The message of the error, as its `Display` writes it.
    pub open spec fn text(&self) -> Seq<char> {
        match self {
            WebDavError::InvalidProtocol(p) => "WebDAV adapter cannot use "@ + p.identifier(),
            WebDavError::MissingBaseUrl => "WebDAV base URL is required"@,
            WebDavError::UnsupportedOperation(o) => "WebDAV operation is not implemented yet: "@ + o@,
        }
    }

    /// The error message.
    pub fn message(&self) -> (r: String)
        ensures
            r@ == self.text(),
    {
        let (head, tail): (&str, &str) = match self {
            WebDavError::InvalidProtocol(p) => ("WebDAV adapter cannot use ", p.as_str()),
            WebDavError::MissingBaseUrl => ("WebDAV base URL is required", ""),
            WebDavError::UnsupportedOperation(o) => ("WebDAV operation is not implemented yet: ", *o),
        };
        let mut r = String::from_str(head);
        push_str(&mut r, tail);
        proof {
            reveal_strlit("");
            assert(r@ =~= self.text());
        }
        r
    }
}

} // verus!
