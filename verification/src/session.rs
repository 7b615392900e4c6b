//! Session profiles shared by protocol adapters and frontends.

use vstd::prelude::*;

use crate::text::{
    ascii_lower, ascii_lowercase_chars, chars_eq_str, chars_of, push_str, trim, trim_chars,
};

verus! {

/// Supported protocol choices.
#[derive(Clone, Copy, Debug, PartialEq, Eq, Structural)]
pub enum SessionProtocol {
    Sftp,
    Scp,
    Ftp,
    Ftps,
    WebDav,
    S3,
    Local,
}

impl SessionProtocol {
    /// The stable lowercase identifier of the protocol.
    pub open spec fn identifier(self) -> Seq<char> {
        match self {
            SessionProtocol::Sftp => "sftp"@,
            SessionProtocol::Scp => "scp"@,
            SessionProtocol::Ftp => "ftp"@,
            SessionProtocol::Ftps => "ftps"@,
            SessionProtocol::WebDav => "webdav"@,
            SessionProtocol::S3 => "s3"@,
            SessionProtocol::Local => "local"@,
        }
    }

    /// The human-oriented label of the protocol.
    pub open spec fn label(self) -> Seq<char> {
        match self {
            SessionProtocol::Sftp => "SFTP"@,
            SessionProtocol::Scp => "SCP"@,
            SessionProtocol::Ftp => "FTP"@,
            SessionProtocol::Ftps => "FTPS"@,
            SessionProtocol::WebDav => "WebDAV"@,
            SessionProtocol::S3 => "S3"@,
            SessionProtocol::Local => "Local"@,
        }
    }

    /// The default TCP port of the protocol, where it has one.
    pub open spec fn port_default(self) -> Option<u16> {
        match self {
            SessionProtocol::Sftp | SessionProtocol::Scp => Some(22u16),
            SessionProtocol::Ftp | SessionProtocol::Ftps => Some(21u16),
            SessionProtocol::WebDav | SessionProtocol::S3 => Some(443u16),
            SessionProtocol::Local => None,
        }
    }

    /// The name of the variant, as `{:?}` prints it.
    pub open spec fn variant_name(self) -> Seq<char> {
        match self {
            SessionProtocol::Sftp => "Sftp"@,
            SessionProtocol::Scp => "Scp"@,
            SessionProtocol::Ftp => "Ftp"@,
            SessionProtocol::Ftps => "Ftps"@,
            SessionProtocol::WebDav => "WebDav"@,
            SessionProtocol::S3 => "S3"@,
            SessionProtocol::Local => "Local"@,
        }
    }

    /// Stable lowercase identifier used by config, CLI, and GUI bridges.
    pub fn as_str(&self) -> (r: &'static str)
        ensures
            r@ == self.identifier(),
    {
        match self {
            SessionProtocol::Sftp => "sftp",
            SessionProtocol::Scp => "scp",
            SessionProtocol::Ftp => "ftp",
            SessionProtocol::Ftps => "ftps",
            SessionProtocol::WebDav => "webdav",
            SessionProtocol::S3 => "s3",
            SessionProtocol::Local => "local",
        }
    }

    /// Human-oriented protocol label.
    pub fn display_name(&self) -> (r: &'static str)
        ensures
            r@ == self.label(),
    {
        match self {
            SessionProtocol::Sftp => "SFTP",
            SessionProtocol::Scp => "SCP",
            SessionProtocol::Ftp => "FTP",
            SessionProtocol::Ftps => "FTPS",
            SessionProtocol::WebDav => "WebDAV",
            SessionProtocol::S3 => "S3",
            SessionProtocol::Local => "Local",
        }
    }

    /// The variant name, as the derived `Debug` prints it.
    pub fn debug_name(&self) -> (r: &'static str)
        ensures
            r@ == self.variant_name(),
    {
        match self {
            SessionProtocol::Sftp => "Sftp",
            SessionProtocol::Scp => "Scp",
            SessionProtocol::Ftp => "Ftp",
            SessionProtocol::Ftps => "Ftps",
            SessionProtocol::WebDav => "WebDav",
            SessionProtocol::S3 => "S3",
            SessionProtocol::Local => "Local",
        }
    }

    /// Default TCP port where a protocol has one.
    pub fn default_port(&self) -> (r: Option<u16>)
        ensures
            r == self.port_default(),
    {
        match self {
            SessionProtocol::Sftp | SessionProtocol::Scp => Some(22),
            SessionProtocol::Ftp | SessionProtocol::Ftps => Some(21),
            SessionProtocol::WebDav | SessionProtocol::S3 => Some(443),
            SessionProtocol::Local => None,
        }
    }

    /// All protocols exposed by the domain model, in declaration order.
    pub fn all() -> (r: Vec<SessionProtocol>)
        ensures
            r@ == seq![
                SessionProtocol::Sftp,
                SessionProtocol::Scp,
                SessionProtocol::Ftp,
                SessionProtocol::Ftps,
                SessionProtocol::WebDav,
                SessionProtocol::S3,
                SessionProtocol::Local,
            ],
    {
        let r = vec![
            SessionProtocol::Sftp,
            SessionProtocol::Scp,
            SessionProtocol::Ftp,
            SessionProtocol::Ftps,
            SessionProtocol::WebDav,
            SessionProtocol::S3,
            SessionProtocol::Local,
        ];
        assert(r@ =~= seq![
            SessionProtocol::Sftp,
            SessionProtocol::Scp,
            SessionProtocol::Ftp,
            SessionProtocol::Ftps,
            SessionProtocol::WebDav,
            SessionProtocol::S3,
            SessionProtocol::Local,
        ]);
        r
    }
}

/// The protocol that a user-supplied name denotes: surrounding white space is
/// ignored, ASCII letters are compared case-insensitively, and `web-dav` is
/// accepted beside `webdav`.
pub open spec fn protocol_named(value: Seq<char>) -> Option<SessionProtocol> {
    let n = ascii_lower(trim(value));
    if n == "sftp"@ {
        Some(SessionProtocol::Sftp)
    } else if n == "scp"@ {
        Some(SessionProtocol::Scp)
    } else if n == "ftp"@ {
        Some(SessionProtocol::Ftp)
    } else if n == "ftps"@ {
        Some(SessionProtocol::Ftps)
    } else if n == "webdav"@ || n == "web-dav"@ {
        Some(SessionProtocol::WebDav)
    } else if n == "s3"@ {
        Some(SessionProtocol::S3)
    } else if n == "local"@ {
        Some(SessionProtocol::Local)
    } else {
        None
    }
}

/// Every protocol's identifier, as `as_str` gives it, parses back to the
/// protocol.
pub proof fn lemma_identifier_round_trip(p: SessionProtocol)
    ensures
        protocol_named(p.identifier()) == Some(p),
{
    reveal_strlit("sftp");
    reveal_strlit("scp");
    reveal_strlit("ftp");
    reveal_strlit("ftps");
    reveal_strlit("webdav");
    reveal_strlit("web-dav");
    reveal_strlit("s3");
    reveal_strlit("local");
    let s = p.identifier();
    assert(s.len() > 0 && !crate::text::is_white_space(s[0]));
    assert(crate::text::trim_start(s) == s);
    assert(!crate::text::is_white_space(s.last()));
    assert(crate::text::trim(s) == s);
    assert(crate::text::ascii_lower(s) =~= s);
}

/// Distinct protocols have distinct identifiers.
pub proof fn lemma_identifier_injective(p: SessionProtocol, q: SessionProtocol)
    requires
        p.identifier() == q.identifier(),
    ensures
        p == q,
{
    lemma_identifier_round_trip(p);
    lemma_identifier_round_trip(q);
}

/// A protocol name that is not supported; it keeps the name as given.
#[derive(Clone, Debug, PartialEq, Eq)]
pub struct ParseSessionProtocolError(String);

impl ParseSessionProtocolError {
    pub closed spec fn value_spec(&self) -> Seq<char> {
        self.0@
    }

    /// The rejected name.
    pub fn value(&self) -> (r: &str)
        ensures
            r@ == self.value_spec(),
    {
        self.0.as_str()
    }

    /// The error message: `unsupported session protocol: <name>`.
    pub fn message(&self) -> (r: String)
        ensures
            r@ == "unsupported session protocol: "@ + self.value_spec(),
    {
        let mut r = String::from_str("unsupported session protocol: ");
        push_str(&mut r, self.0.as_str());
        r
    }
}

/// Parses a protocol name as the configuration, CLI and GUI accept it.
pub fn parse_session_protocol(value: &str) -> (r: Result<SessionProtocol, ParseSessionProtocolError>)
    ensures
        match r {
            Ok(p) => protocol_named(value@) == Some(p),
            Err(e) => protocol_named(value@) is None && e.value_spec() == value@,
        },
{
    let chars = chars_of(value);
    let trimmed = trim_chars(chars.as_slice());
    let n = ascii_lowercase_chars(trimmed.as_slice());
    let n = n.as_slice();
    if chars_eq_str(n, "sftp") {
        Ok(SessionProtocol::Sftp)
    } else if chars_eq_str(n, "scp") {
        Ok(SessionProtocol::Scp)
    } else if chars_eq_str(n, "ftp") {
        Ok(SessionProtocol::Ftp)
    } else if chars_eq_str(n, "ftps") {
        Ok(SessionProtocol::Ftps)
    } else if chars_eq_str(n, "webdav") || chars_eq_str(n, "web-dav") {
        Ok(SessionProtocol::WebDav)
    } else if chars_eq_str(n, "s3") {
        Ok(SessionProtocol::S3)
    } else if chars_eq_str(n, "local") {
        Ok(SessionProtocol::Local)
    } else {
        Err(ParseSessionProtocolError(value.to_owned()))
    }
}

impl core::str::FromStr for SessionProtocol {
    type Err = ParseSessionProtocolError;

    fn from_str(value: &str) -> (r: Result<Self, Self::Err>)
        ensures
            match r {
                Ok(p) => protocol_named(value@) == Some(p),
                Err(e) => protocol_named(value@) is None && e.value_spec() == value@,
            },
    {
        parse_session_protocol(value)
    }
}

/// A connection profile without secret material; secrets are reached through
/// `credential_ref`.
#[derive(Debug, PartialEq, Eq)]
pub struct SessionProfile {
    pub name: String,
    pub protocol: SessionProtocol,
    pub host: String,
    pub port: Option<u16>,
    pub username: Option<String>,
    pub initial_remote_path: Option<String>,
    pub credential_ref: Option<String>,
}

/// A copy of an optional string.
pub fn clone_opt_string(s: &Option<String>) -> (r: Option<String>)
    ensures
        r == *s,
{
    match s {
        Some(v) => Some(v.clone()),
        None => None,
    }
}

impl Clone for SessionProfile {
    fn clone(&self) -> (r: Self)
        ensures
            r == *self,
    {
        SessionProfile {
            name: self.name.clone(),
            protocol: self.protocol,
            host: self.host.clone(),
            port: self.port,
            username: clone_opt_string(&self.username),
            initial_remote_path: clone_opt_string(&self.initial_remote_path),
            credential_ref: clone_opt_string(&self.credential_ref),
        }
    }
}

impl SessionProfile {
    /// Creates a local-only profile for local-to-local workflows.
    pub fn local(name: &str) -> (r: Self)
        ensures
            r.name@ == name@,
            r.protocol == SessionProtocol::Local,
            r.host@ == Seq::<char>::empty(),
            r.port is None,
            r.username is None,
            r.initial_remote_path is None,
            r.credential_ref is None,
    {
        SessionProfile {
            name: name.to_owned(),
            protocol: SessionProtocol::Local,
            host: String::new(),
            port: None,
            username: None,
            initial_remote_path: None,
            credential_ref: None,
        }
    }
}

} // verus!
