//! HTTP and TLS policies shared by the WebDAV and S3 settings.

use vstd::prelude::*;

verus! {

/// Which HTTP versions a connection may use.
#[derive(Clone, Copy, Debug, PartialEq, Eq, Structural)]
pub enum HttpVersionPolicy {
    Auto,
    Http1Only,
    Http2Preferred,
    Http2Only,
    Http3Preferred,
    Http3Only,
}

impl Default for HttpVersionPolicy {
    fn default() -> (r: Self)
        ensures
            r == HttpVersionPolicy::Auto,
    {
        HttpVersionPolicy::Auto
    }
}

/// The lowest TLS version a connection accepts.
#[derive(Clone, Copy, Debug, PartialEq, Eq, Structural)]
pub enum TlsMinimumVersion {
    Default,
    Tls12,
    Tls13,
}

impl Default for TlsMinimumVersion {
    fn default() -> (r: Self)
        ensures
            r == TlsMinimumVersion::Default,
    {
        TlsMinimumVersion::Default
    }
}

/// TLS settings of a connection.
#[derive(Clone, Copy, Debug, PartialEq, Eq, Structural)]
pub struct TlsPolicy {
    pub minimum_version: TlsMinimumVersion,
    pub require_valid_certificate: bool,
}

impl Default for TlsPolicy {
    /// By default certificates must be valid, at the library's minimum TLS
    /// version.
    fn default() -> (r: Self)
        ensures
            r == (TlsPolicy { minimum_version: TlsMinimumVersion::Default, require_valid_certificate: true }),
    {
        TlsPolicy { minimum_version: TlsMinimumVersion::Default, require_valid_certificate: true }
    }
}

} // verus!
