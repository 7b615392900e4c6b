//! FTP/FTPS: connection settings, credential resolution, the choice of
//! transport, listing-line interpretation and remote path joining. The
//! control and data connections themselves are driven by the caller.

use vstd::prelude::*;

use crate::config::opt_view;
use crate::protocol::{ftp_like_capabilities, ProtocolCapabilities, RemoteFile};
use crate::security::{
    opt_ref_view, optional_credential_ref, CredentialRef, CredentialSecret, CredentialService,
    SecurityError,
};
use crate::session::{clone_opt_string, SessionProfile, SessionProtocol};
use crate::text::{
    ascii_lower, ascii_lowercase_chars, blank, is_white_space, is_whitespace, chars_eq_str, chars_of, contains_chars, contains_seq,
    decimal, decimal_string, is_blank, push_char, push_range, push_str, seqs_view, split_chars, split_on,
    string_from_chars, trim, trim_chars,
};

verus! {

pub const DEFAULT_FTP_PORT: u16 = 21;

pub const DEFAULT_IMPLICIT_FTPS_PORT: u16 = 990;

/// How FTPS negotiates TLS.
#[derive(Clone, Copy, Debug, PartialEq, Eq, Structural)]
pub enum FtpsMode {
    Explicit,
    Implicit,
}

/// FTP/FTPS errors.
#[derive(Debug)]
pub enum FtpError {
    InvalidProtocol(SessionProtocol),
    MissingHost,
    MissingUsername,
    MissingCredentialRef,
    CredentialNotFound(String),
    UnsupportedAuthMethod(String),
    AuthenticationFailed,
    NotConnected,
    Security(SecurityError),
    Tls(String),
    Backend(String),
    Io(String),
    UnsupportedOperation(&'static str),
}

impl FtpError {
    /// The message of the error, as its `Display` writes it.
    pub open spec fn text(&self) -> Seq<char> {
        match self {
            FtpError::InvalidProtocol(p) => "FTP/FTPS adapter cannot use "@ + p.identifier(),
            FtpError::MissingHost => "FTP/FTPS host is required"@,
            FtpError::MissingUsername => "FTP/FTPS username is required"@,
            FtpError::MissingCredentialRef => "FTP/FTPS credential reference is required"@,
            FtpError::CredentialNotFound(r) => "FTP/FTPS credential not found: "@ + r@,
            FtpError::UnsupportedAuthMethod(m) => "unsupported FTP/FTPS auth method: "@ + m@,
            FtpError::AuthenticationFailed => "FTP/FTPS authentication failed"@,
            FtpError::NotConnected => "FTP/FTPS backend is not connected"@,
            FtpError::Security(e) => "FTP/FTPS credential error: "@ + e.text(),
            FtpError::Tls(m) => "FTPS TLS error: "@ + m@,
            FtpError::Backend(m) => "FTP/FTPS backend error: "@ + m@,
            FtpError::Io(m) => "FTP/FTPS I/O error: "@ + m@,
            FtpError::UnsupportedOperation(o) => "FTP/FTPS operation is not supported: "@ + o@,
        }
    }

    /// The error message.
    pub fn message(&self) -> (r: String)
        ensures
            r@ == self.text(),
    {
        let (head, tail): (&str, &str) = match self {
            FtpError::InvalidProtocol(p) => ("FTP/FTPS adapter cannot use ", p.as_str()),
            FtpError::MissingHost => ("FTP/FTPS host is required", ""),
            FtpError::MissingUsername => ("FTP/FTPS username is required", ""),
            FtpError::MissingCredentialRef => ("FTP/FTPS credential reference is required", ""),
            FtpError::CredentialNotFound(r) => ("FTP/FTPS credential not found: ", r.as_str()),
            FtpError::UnsupportedAuthMethod(m) => ("unsupported FTP/FTPS auth method: ", m.as_str()),
            FtpError::AuthenticationFailed => ("FTP/FTPS authentication failed", ""),
            FtpError::NotConnected => ("FTP/FTPS backend is not connected", ""),
            FtpError::Security(e) => ("FTP/FTPS credential error: ", e.message()),
            FtpError::Tls(m) => ("FTPS TLS error: ", m.as_str()),
            FtpError::Backend(m) => ("FTP/FTPS backend error: ", m.as_str()),
            FtpError::Io(m) => ("FTP/FTPS I/O error: ", m.as_str()),
            FtpError::UnsupportedOperation(o) => ("FTP/FTPS operation is not supported: ", *o),
        };
        let mut r = String::from_str(head);
        push_str(&mut r, tail);
        proof {
            reveal_strlit("");
            assert(r@ =~= self.text());
        }
        r
    }

    /// The error a failed FTP command reports, from the message of the
    /// client library's error: a message that mentions a login (in any case)
    /// or the reply code 530 is an authentication failure.
    pub fn from_backend_message(message: String) -> (r: FtpError)
        ensures
            (contains_seq(ascii_lower(message@), "login"@) || contains_seq(message@, "530"@)) ==> r matches FtpError::AuthenticationFailed,
            !(contains_seq(ascii_lower(message@), "login"@) || contains_seq(message@, "530"@)) ==> (r matches FtpError::Backend(m)
                && m@ == message@),
    {
        let m = chars_of(message.as_str());
        let lower = ascii_lowercase_chars(m.as_slice());
        let login = chars_of("login");
        let code = chars_of("530");
        if contains_chars(lower.as_slice(), login.as_slice()) || contains_chars(m.as_slice(), code.as_slice()) {
            FtpError::AuthenticationFailed
        } else {
            FtpError::Backend(message)
        }
    }
}

/// FTP/FTPS connection settings.
#[derive(Debug)]
pub struct FtpConnectionConfig {
    pub protocol: SessionProtocol,
    pub host: String,
    pub port: u16,
    pub username: Option<String>,
    pub passive_mode: bool,
    pub ftps_mode: Option<FtpsMode>,
    pub initial_remote_path: Option<String>,
    pub credential_ref: Option<CredentialRef>,
}

/// A profile can be turned into FTP settings: it is an FTP or FTPS profile,
/// its host is not blank and its credential reference, if any, is not blank.
pub open spec fn ftp_profile_usable(p: SessionProfile) -> bool {
    &&& (p.protocol == SessionProtocol::Ftp || p.protocol == SessionProtocol::Ftps)
    &&& !is_blank(p.host@)
    &&& p.credential_ref matches Some(c) ==> !is_blank(c@)
}

impl FtpConnectionConfig {
    /// Settings for an FTP or FTPS profile: port 21 unless given, passive
    /// mode, and explicit TLS for FTPS.
    pub fn from_profile(profile: &SessionProfile) -> (r: Result<Self, FtpError>)
        ensures
            !(profile.protocol == SessionProtocol::Ftp || profile.protocol == SessionProtocol::Ftps) ==> (r matches Err(
                FtpError::InvalidProtocol(p),
            ) && p == profile.protocol),
            (profile.protocol == SessionProtocol::Ftp || profile.protocol == SessionProtocol::Ftps) && is_blank(
                profile.host@,
            ) ==> r matches Err(FtpError::MissingHost),
            (profile.protocol == SessionProtocol::Ftp || profile.protocol == SessionProtocol::Ftps) && !is_blank(
                profile.host@,
            ) && !ftp_profile_usable(*profile) ==> r matches Err(
                FtpError::Security(SecurityError::InvalidCredentialRef),
            ),
            r is Ok <==> ftp_profile_usable(*profile),
            r matches Ok(c) ==> {
                &&& c.protocol == profile.protocol
                &&& c.host@ == profile.host@
                &&& c.port == (match profile.port {
                    Some(p) => p,
                    None => DEFAULT_FTP_PORT,
                })
                &&& opt_view(c.username) == opt_view(profile.username)
                &&& c.passive_mode
                &&& c.ftps_mode == (if profile.protocol == SessionProtocol::Ftps {
                    Some(FtpsMode::Explicit)
                } else {
                    None
                })
                &&& opt_view(c.initial_remote_path) == opt_view(profile.initial_remote_path)
                &&& opt_ref_view(c.credential_ref) == opt_view(profile.credential_ref)
            },
    {
        if !(profile.protocol == SessionProtocol::Ftp || profile.protocol == SessionProtocol::Ftps) {
            return Err(FtpError::InvalidProtocol(profile.protocol));
        }
        if blank(profile.host.as_str()) {
            return Err(FtpError::MissingHost);
        }
        let credential_ref = match optional_credential_ref(&profile.credential_ref) {
            Ok(c) => c,
            Err(e) => return Err(FtpError::Security(e)),
        };
        Ok(FtpConnectionConfig {
            protocol: profile.protocol,
            host: profile.host.clone(),
            port: match profile.port {
                Some(p) => p,
                None => DEFAULT_FTP_PORT,
            },
            username: clone_opt_string(&profile.username),
            passive_mode: true,
            ftps_mode: if profile.protocol == SessionProtocol::Ftps {
                Some(FtpsMode::Explicit)
            } else {
                None
            },
            initial_remote_path: clone_opt_string(&profile.initial_remote_path),
            credential_ref,
        })
    }

    /// The `host:port` address to connect to.
    pub fn address(&self) -> (r: String)
        ensures
            r@ == self.host@.push(':') + decimal(self.port as nat),
    {
        let mut r = self.host.clone();
        push_char(&mut r, ':');
        let p = decimal_string(self.port as u64);
        push_str(&mut r, p.as_str());
        r
    }
}

/// User name and password for an FTP login.
#[derive(Clone, Debug, PartialEq, Eq)]
pub struct FtpAuthMaterial {
    pub username: String,
    pub password: String,
}

/// What resolving FTP credentials gives for a stored secret and the profile's
/// user name: a password or a token is the login password; other secrets are
/// refused before the user name is looked at; a missing user name is an error.
pub open spec fn ftp_login(secret: CredentialSecret, username: Option<String>) -> Option<Result<(Seq<char>, Seq<char>), ()>> {
    match secret {
        CredentialSecret::Password(p) => match username {
            Some(u) => Some(Ok((u@, p@))),
            None => Some(Err(())),
        },
        CredentialSecret::Token(p) => match username {
            Some(u) => Some(Ok((u@, p@))),
            None => Some(Err(())),
        },
        _ => None,
    }
}

/// The login for what a credential service answered when asked for
/// `reference`: its failure is a `Security` error, no stored secret is
/// `CredentialNotFound`, a stored password or token is the login password with
/// the settings' user name, another secret is `UnsupportedAuthMethod`, and a
/// missing user name is `MissingUsername`.
pub fn ftp_material_from_loaded(
    config: &FtpConnectionConfig,
    reference: &CredentialRef,
    loaded: Result<Option<CredentialSecret>, SecurityError>,
) -> (r: Result<FtpAuthMaterial, FtpError>)
    ensures
        match loaded {
            Err(e) => r matches Err(FtpError::Security(f)) && f == e,
            Ok(None) => r matches Err(FtpError::CredentialNotFound(t)) && t@ == reference@,
            Ok(Some(s)) => match ftp_login(s, config.username) {
                Some(Ok((u, p))) => r matches Ok(m) && m.username@ == u && m.password@ == p,
                Some(Err(())) => r matches Err(FtpError::MissingUsername),
                None => r matches Err(FtpError::UnsupportedAuthMethod(m))
                    && m@ == "FTP/FTPS supports password or token credentials only"@,
            },
        },
{
    let secret = match loaded {
        Err(e) => return Err(FtpError::Security(e)),
        Ok(None) => return Err(FtpError::CredentialNotFound(reference.as_str().to_owned())),
        Ok(Some(s)) => s,
    };
    let password = match &secret {
        CredentialSecret::Password(s) => s.expose().to_owned(),
        CredentialSecret::Token(s) => s.expose().to_owned(),
        _ => {
            return Err(
                FtpError::UnsupportedAuthMethod(String::from_str("FTP/FTPS supports password or token credentials only")),
            )
        },
    };
    let username = match &config.username {
        Some(u) => u.clone(),
        None => return Err(FtpError::MissingUsername),
    };
    Ok(FtpAuthMaterial { username, password })
}

/// Resolves the login for the settings through a credential service. Without
/// a reference the result is `MissingCredentialRef` and the service is not
/// asked; a reference the service does not hold gives `CredentialNotFound`; a
/// failing load gives its error, and a load fails only where the service may
/// fail; a stored private key is `UnsupportedAuthMethod`; a missing user name
/// is `MissingUsername`.
pub fn resolve_ftp_credentials<S: CredentialService>(
    config: &FtpConnectionConfig,
    credential_service: &S,
) -> (r: Result<FtpAuthMaterial, FtpError>)
    ensures
        config.credential_ref is None ==> r matches Err(FtpError::MissingCredentialRef),
        config.credential_ref matches Some(c) ==> match r {
            Ok(m) => credential_service.stored().contains_key(c@) && ftp_login(
                credential_service.stored()[c@],
                config.username,
            ) == Some(Ok::<(Seq<char>, Seq<char>), ()>((m.username@, m.password@))),
            Err(FtpError::CredentialNotFound(t)) => t@ == c@ && !credential_service.stored().contains_key(c@),
            Err(FtpError::UnsupportedAuthMethod(m)) => credential_service.stored().contains_key(c@) && ftp_login(
                credential_service.stored()[c@],
                config.username,
            ) is None && m@ == "FTP/FTPS supports password or token credentials only"@,
            Err(FtpError::MissingUsername) => credential_service.stored().contains_key(c@) && ftp_login(
                credential_service.stored()[c@],
                config.username,
            ) == Some(Err::<(Seq<char>, Seq<char>), ()>(())),
            Err(FtpError::Security(_)) => credential_service.load_may_fail(c@),
            Err(_) => false,
        },
{
    let reference = match &config.credential_ref {
        Some(c) => c,
        None => return Err(FtpError::MissingCredentialRef),
    };
    let loaded = credential_service.load(reference);
    ftp_material_from_loaded(config, reference, loaded)
}

/// What an FTP or FTPS session can do; FTPS adds the TLS policy.
pub fn capabilities(protocol: SessionProtocol) -> (r: ProtocolCapabilities)
    ensures
        r == ftp_like_capabilities(protocol == SessionProtocol::Ftps),
{
    ProtocolCapabilities::ftp_like(protocol == SessionProtocol::Ftps)
}

/// The transport an FTP adapter opens.
#[derive(Clone, Copy, Debug, PartialEq, Eq, Structural)]
pub enum FtpTransport {
    Plain,
    ExplicitTls,
}

/// The transport for the settings: plain FTP, or FTPS upgraded with explicit
/// TLS; implicit FTPS is not supported, and other protocols are refused.
pub fn ftp_transport(config: &FtpConnectionConfig) -> (r: Result<FtpTransport, FtpError>)
    ensures
        config.protocol == SessionProtocol::Ftp ==> r == Ok::<FtpTransport, FtpError>(FtpTransport::Plain),
        config.protocol == SessionProtocol::Ftps && config.ftps_mode != Some(FtpsMode::Implicit) ==> r == Ok::<
            FtpTransport,
            FtpError,
        >(FtpTransport::ExplicitTls),
        config.protocol == SessionProtocol::Ftps && config.ftps_mode == Some(FtpsMode::Implicit) ==> (r matches Err(
            FtpError::UnsupportedOperation(o),
        ) && o@ == "implicit FTPS is not supported by the selected backend yet"@),
        !(config.protocol == SessionProtocol::Ftp || config.protocol == SessionProtocol::Ftps) ==> (r matches Err(
            FtpError::InvalidProtocol(p),
        ) && p == config.protocol),
{
    match config.protocol {
        SessionProtocol::Ftp => Ok(FtpTransport::Plain),
        SessionProtocol::Ftps => {
            if config.ftps_mode == Some(FtpsMode::Implicit) {
                Err(FtpError::UnsupportedOperation("implicit FTPS is not supported by the selected backend yet"))
            } else {
                Ok(FtpTransport::ExplicitTls)
            }
        },
        p => Err(FtpError::InvalidProtocol(p)),
    }
}

/// Bytes moved by an FTP transfer, summed over the files of a directory.
#[derive(Clone, Debug, PartialEq, Eq)]
pub struct FtpTransferSummary {
    pub source: String,
    pub destination: String,
    pub bytes_done: u64,
    pub bytes_total: Option<u64>,
}

impl FtpTransferSummary {
    /// An empty summary: nothing moved of nothing.
    pub fn new(source: &str, destination: &str) -> (r: Self)
        ensures
            r.source@ == source@,
            r.destination@ == destination@,
            r.bytes_done == 0,
            r.bytes_total == Some(0u64),
    {
        FtpTransferSummary {
            source: source.to_owned(),
            destination: destination.to_owned(),
            bytes_done: 0,
            bytes_total: Some(0),
        }
    }

    /// Adds the bytes of one more transferred entry; the total follows the
    /// bytes done.
    pub fn add_entry(&mut self, bytes: u64)
        requires
            old(self).bytes_done + bytes <= u64::MAX,
        ensures
            final(self).source == old(self).source,
            final(self).destination == old(self).destination,
            final(self).bytes_done == old(self).bytes_done + bytes,
            final(self).bytes_total == Some(final(self).bytes_done),
    {
        self.bytes_done = self.bytes_done + bytes;
        self.bytes_total = Some(self.bytes_done);
    }
}

/// A remote path under `base`: a blank base is the root; one slash separates
/// base and name unless the base already ends with one.
pub open spec fn joined_remote_path(base: Seq<char>, name: Seq<char>) -> Seq<char> {
    let b = if is_blank(base) {
        "/"@
    } else {
        trim(base)
    };
    if b.last() == '/' {
        b + name
    } else {
        b.push('/') + name
    }
}

/// Joins a remote directory and an entry name.
pub fn join_remote_path(base: &str, name: &str) -> (r: String)
    ensures
        r@ == joined_remote_path(base@, name@),
{
    let bc = chars_of(base);
    let t = trim_chars(bc.as_slice());
    let b = if t.len() == 0 {
        chars_of("/")
    } else {
        t
    };
    proof {
        reveal_strlit("/");
        crate::text::lemma_blank_trim(base@);
    }
    let mut out = string_from_chars(b.as_slice());
    if b[b.len() - 1] != '/' {
        push_char(&mut out, '/');
    }
    push_str(&mut out, name);
    out
}

/// One entry of a remote listing as the client library parsed it.
#[derive(Clone, Debug, PartialEq, Eq)]
pub struct FtpListEntry {
    pub name: String,
    pub size: u64,
    pub is_directory: bool,
    pub is_symlink: bool,
}

/// An entry's name, size and kind flags (directory, symbolic link).
pub open spec fn entry_view(e: Option<FtpListEntry>) -> Option<(Seq<char>, u64, bool, bool)> {
    match e {
        Some(x) => Some((x.name@, x.size, x.is_directory, x.is_symlink)),
        None => None,
    }
}

/// A line in the POSIX `LIST` form starts with the file type `-`, `l` or `d`.
pub open spec fn posix_form(line: Seq<char>) -> bool {
    line.len() > 0 && (line[0] == '-' || line[0] == 'l' || line[0] == 'd')
}

/// What `suppaftp::list::ListParser::parse_posix` reads from a line in the
/// POSIX form: the name and size (regex captures of the line; a link's name
/// ends before `" -> "`), and whether it reads the line whatever the current
/// date (the pattern matches and the date and size read on every day; only a
/// day without a year, such as Feb 29, can fail in some years).
pub uninterp spec fn posix_fields(line: Seq<char>) -> (Seq<char>, u64, bool);

/// The entry that `suppaftp::list::ListParser::parse_dos` reads from a line.
pub uninterp spec fn dos_listing(line: Seq<char>) -> Option<(Seq<char>, u64, bool, bool)>;

/// The entry that `suppaftp::list::ListParser::parse_mlst` reads from a line.
pub uninterp spec fn mlst_listing(line: Seq<char>) -> Option<(Seq<char>, u64, bool, bool)>;

/// The entry a POSIX `LIST` line describes, as
/// `suppaftp::list::ListParser::parse_posix` reads it, or `None` when the
/// line is not of that form. The parser's pattern starts with the file type,
/// so an entry comes only from a line that starts with `-`, `l` or `d`; that
/// character makes it a directory (`d`) or a link (`l`); its name and size
/// are regex captures of the line (named `posix_fields`). A line is read
/// for certain only where that does not depend on the day (`posix_fields`
/// says so): the parser stamps dates without a year with the current year.
#[verifier::external_body]
fn posix_list_entry(line: &str) -> (r: Option<FtpListEntry>)
    ensures
        r is Some ==> posix_form(line@),
        r matches Some(e) ==> (e.is_directory <==> line@[0] == 'd') && (e.is_symlink <==> line@[0] == 'l'),
        r matches Some(e) ==> e.name@ == posix_fields(line@).0 && e.size == posix_fields(line@).1,
        posix_fields(line@).2 ==> r is Some,
{
    match suppaftp::list::ListParser::parse_posix(line) {
        Ok(file) => Some(
            FtpListEntry {
                name: file.name().to_string(),
                size: file.size() as u64,
                is_directory: file.is_directory(),
                is_symlink: file.is_symlink(),
            },
        ),
        Err(_) => None,
    }
}

/// The entry a DOS `LIST` line describes, as
/// `suppaftp::list::ListParser::parse_dos` reads it (named `dos_listing`: it
/// depends on the line alone), or `None` when the line is not of that form.
/// The parser's pattern starts with a digit of the date, so an entry never
/// comes from a line in the POSIX form.
#[verifier::external_body]
fn dos_list_entry(line: &str) -> (r: Option<FtpListEntry>)
    ensures
        entry_view(r) == dos_listing(line@),
        r is Some ==> line@.len() > 0 && !posix_form(line@),
{
    match suppaftp::list::ListParser::parse_dos(line) {
        Ok(file) => Some(
            FtpListEntry {
                name: file.name().to_string(),
                size: file.size() as u64,
                is_directory: file.is_directory(),
                is_symlink: file.is_symlink(),
            },
        ),
        Err(_) => None,
    }
}

/// The text MLST parsing takes its facts from: one leading space is dropped;
/// a further leading space means no facts; otherwise the facts run up to and
/// including the `;` of the first `"; "`, or over the whole line.
pub open spec fn mlst_facts(line: Seq<char>) -> Seq<char> {
    let b = if line.len() > 0 && line[0] == ' ' {
        line.drop_first()
    } else {
        line
    };
    if b.len() > 0 && b[0] == ' ' {
        Seq::empty()
    } else {
        let e = fact_end(b, 0);
        if e >= 0 {
            b.take(e + 1)
        } else {
            b
        }
    }
}

/// The first position at or after `i` where `"; "` starts, or -1.
pub open spec fn fact_end(b: Seq<char>, i: int) -> int
    decreases b.len() - i,
{
    if i < 0 || i + 1 >= b.len() {
        -1
    } else if b[i] == ';' && b[i + 1] == ' ' {
        i
    } else {
        fact_end(b, i + 1)
    }
}

/// `s` without its white space characters.
pub open spec fn without_white_space(s: Seq<char>) -> Seq<char>
    decreases s.len(),
{
    if s.len() == 0 {
        s
    } else if is_white_space(s.last()) {
        without_white_space(s.drop_last())
    } else {
        without_white_space(s.drop_last()).push(s.last())
    }
}

/// `s` without its leading `0` digits.
pub open spec fn without_leading_zeros(s: Seq<char>) -> Seq<char>
    decreases s.len(),
{
    if s.len() > 0 && s[0] == '0' {
        without_leading_zeros(s.drop_first())
    } else {
        s
    }
}

/// A `modify` value that may read, with the format `%Y%m%d%H%M%S%.f`, as the
/// leap second 1969-12-31 23:59:60: leaving out white space (the format
/// skips it before each number), a `+` sign and leading zeros of a signed
/// year, it is `19691231235960`, alone or followed by a fraction.
pub open spec fn leap_time_value(v: Seq<char>) -> bool {
    let w = without_white_space(v);
    let u = if w.len() > 0 && w[0] == '+' {
        w.drop_first()
    } else {
        w
    };
    let z = without_leading_zeros(u);
    &&& z.len() >= 14
    &&& z.take(14) == "19691231235960"@
    &&& (z.len() == 14 || z[14] == '.')
}

/// A `modify` fact (the key compared in lower case) whose value may read as
/// the time 1969-12-31 23:59:60.
pub open spec fn leap_modify_fact(token: Seq<char>) -> bool {
    let parts = split_on(token, '=');
    &&& parts.len() >= 2
    &&& ascii_lower(parts[0]) == "modify"@
    &&& leap_time_value(parts[1])
}

fn without_white_space_chars(v: &[char]) -> (r: Vec<char>)
    ensures
        r@ == without_white_space(v@),
{
    let mut out: Vec<char> = Vec::new();
    let mut i: usize = 0;
    while i < v.len()
        invariant
            i <= v.len(),
            out@ == without_white_space(v@.take(i as int)),
        decreases v.len() - i,
    {
        assert(v@.take(i + 1).drop_last() =~= v@.take(i as int));
        if !is_whitespace(v[i]) {
            out.push(v[i]);
        }
        i = i + 1;
    }
    assert(v@.take(v.len() as int) =~= v@);
    out
}

fn leap_time_value_chars(v: &[char]) -> (r: bool)
    ensures
        r == leap_time_value(v@),
{
    let w = without_white_space_chars(v);
    let mut k: usize = if w.len() > 0 && w[0] == '+' {
        1
    } else {
        0
    };
    let ghost u = if w@.len() > 0 && w@[0] == '+' {
        w@.drop_first()
    } else {
        w@
    };
    assert(w@.skip(k as int) =~= u);
    while k < w.len() && w[k] == '0'
        invariant
            k <= w.len(),
            without_leading_zeros(u) == without_leading_zeros(w@.skip(k as int)),
        decreases w.len() - k,
    {
        assert(w@.skip(k as int).drop_first() =~= w@.skip(k + 1));
        k = k + 1;
    }
    let ghost z = w@.skip(k as int);
    assert(without_leading_zeros(z) == z);
    if w.len() - k < 14 {
        return false;
    }
    let digits = chars_of("19691231235960");
    proof {
        reveal_strlit("19691231235960");
    }
    assert(leap_time_value(v@) == (z.len() >= 14 && z.take(14) == "19691231235960"@ && (z.len() == 14 || z[14] == '.')));
    let mut j: usize = 0;
    while j < 14
        invariant
            j <= 14,
            k + 14 <= w.len(),
            digits@ == "19691231235960"@,
            digits@.len() == 14,
            z == w@.skip(k as int),
            forall|t: int| 0 <= t < j ==> z[t] == digits@[t],
            leap_time_value(v@) == (z.len() >= 14 && z.take(14) == "19691231235960"@ && (z.len() == 14 || z[14] == '.')),
        decreases 14 - j,
    {
        if w[k + j] != digits[j] {
            assert(z.take(14)[j as int] != digits@[j as int]);
            return false;
        }
        j = j + 1;
    }
    assert(z.take(14) =~= digits@);
    w.len() - k == 14 || w[k + 14] == '.'
}

/// A line whose MLST facts could set the time 1969-12-31 23:59:60, a leap
/// second one second before the Unix epoch: suppaftp turns that time into a
/// `Duration` whose seconds wrap to `u64::MAX` and whose nanoseconds carry
/// over, and `Duration::new` panics.
pub open spec fn mlst_time_may_overflow(line: Seq<char>) -> bool {
    exists|i: int|
        0 <= i < split_on(mlst_facts(line), ';').len() && #[trigger] leap_modify_fact(
            split_on(mlst_facts(line), ';')[i],
        )
}

fn mlst_facts_chars(line: &[char]) -> (r: Vec<char>)
    ensures
        r@ == mlst_facts(line@),
{
    let start: usize = if line.len() > 0 && line[0] == ' ' {
        1
    } else {
        0
    };
    let mut b: Vec<char> = Vec::new();
    push_range(&mut b, line, start, line.len());
    assert(b@ =~= (if line@.len() > 0 && line@[0] == ' ' {
        line@.drop_first()
    } else {
        line@
    }));
    let mut facts: Vec<char> = Vec::new();
    if b.len() > 0 && b[0] == ' ' {
        assert(facts@ =~= mlst_facts(line@));
        return facts;
    }
    let mut i: usize = 0;
    while i < b.len() && i + 1 < b.len() && !(b[i] == ';' && b[i + 1] == ' ')
        invariant
            i <= b.len(),
            fact_end(b@, 0) == fact_end(b@, i as int),
        decreases b.len() - i,
    {
        i = i + 1;
    }
    if i < b.len() && i + 1 < b.len() {
        push_range(&mut facts, b.as_slice(), 0, i + 1);
        assert(facts@ =~= b@.take(i + 1));
    } else {
        push_range(&mut facts, b.as_slice(), 0, b.len());
        assert(facts@ =~= b@);
    }
    facts
}

fn leap_modify_fact_chars(token: &[char]) -> (r: bool)
    ensures
        r == leap_modify_fact(token@),
{
    let parts = split_chars(token, '=');
    if parts.len() < 2 {
        return false;
    }
    assert(parts@[0]@ == split_on(token@, '=')[0]);
    assert(parts@[1]@ == split_on(token@, '=')[1]);
    let key = ascii_lowercase_chars(parts[0].as_slice());
    chars_eq_str(key.as_slice(), "modify") && leap_time_value_chars(parts[1].as_slice())
}

/// Whether a listing line is left unread as MLST, lest the parser panic.
pub fn mlst_may_overflow(line: &str) -> (r: bool)
    ensures
        r == mlst_time_may_overflow(line@),
{
    let l = chars_of(line);
    let facts = mlst_facts_chars(l.as_slice());
    let tokens = split_chars(facts.as_slice(), ';');
    let ghost ts = split_on(mlst_facts(line@), ';');
    let mut j: usize = 0;
    while j < tokens.len()
        invariant
            j <= tokens.len(),
            seqs_view(tokens@) == ts,
            ts == split_on(mlst_facts(line@), ';'),
            forall|k: int| 0 <= k < j ==> !#[trigger] leap_modify_fact(ts[k]),
        decreases tokens.len() - j,
    {
        assert(tokens@[j as int]@ == ts[j as int]);
        if leap_modify_fact_chars(tokens[j].as_slice()) {
            assert(0 <= j < ts.len() && leap_modify_fact(ts[j as int]));
            return true;
        }
        j = j + 1;
    }
    false
}

/// The entry an MLST/MLSD line describes, as
/// `suppaftp::list::ListParser::parse_mlst` reads it (named `mlst_listing`:
/// it depends on the line alone), or `None` when the line is not of that
/// form. Lines whose facts could carry the leap second before the epoch are
/// left out: on them the parser panics.
#[verifier::external_body]
fn mlst_list_entry(line: &str) -> (r: Option<FtpListEntry>)
    requires
        !mlst_time_may_overflow(line@),
    ensures
        entry_view(r) == mlst_listing(line@),
{
    match suppaftp::list::ListParser::parse_mlst(line) {
        Ok(file) => Some(
            FtpListEntry {
                name: file.name().to_string(),
                size: file.size() as u64,
                is_directory: file.is_directory(),
                is_symlink: file.is_symlink(),
            },
        ),
        Err(_) => None,
    }
}

/// The entry chosen among the readings of a line: the POSIX one, else the
/// DOS one, else none when the MLST reading is skipped, else the MLST one.
pub open spec fn chosen<T>(posix: Option<T>, dos: Option<T>, mlst_skipped: bool, mlst: Option<T>) -> Option<T> {
    if posix is Some {
        posix
    } else if dos is Some {
        dos
    } else if mlst_skipped {
        None
    } else {
        mlst
    }
}

/// Chooses among the readings of a listing line in the order the client
/// library tries them: POSIX, then DOS, then MLST unless it is skipped.
pub fn choose_list_entry(
    posix: Option<FtpListEntry>,
    dos: Option<FtpListEntry>,
    mlst_skipped: bool,
    mlst: Option<FtpListEntry>,
) -> (r: Option<FtpListEntry>)
    ensures
        r == chosen(posix, dos, mlst_skipped, mlst),
        entry_view(r) == chosen(entry_view(posix), entry_view(dos), mlst_skipped, entry_view(mlst)),
{
    if posix.is_some() {
        posix
    } else if dos.is_some() {
        dos
    } else if mlst_skipped {
        None
    } else {
        mlst
    }
}

/// `p` is a possible POSIX reading of `line`: for a line in the POSIX form,
/// the entry with the line's name and size that its first character makes a
/// directory or a link; none is possible only where the POSIX parse may fail
/// (the line is not read whatever the date).
pub open spec fn possible_posix(line: Seq<char>, p: Option<(Seq<char>, u64, bool, bool)>) -> bool {
    &&& p is Some ==> posix_form(line) && p == Some(
        (posix_fields(line).0, posix_fields(line).1, line[0] == 'd', line[0] == 'l'),
    )
    &&& posix_fields(line).2 ==> p is Some
}

/// The entry that a line gives when its POSIX reading is `p`.
pub open spec fn line_entry(line: Seq<char>, p: Option<(Seq<char>, u64, bool, bool)>) -> Option<(Seq<char>, u64, bool, bool)> {
    chosen(p, dos_listing(line), mlst_time_may_overflow(line), mlst_listing(line))
}

/// The entry a listing line describes: the POSIX form, then the DOS form,
/// then the MLST form, as `suppaftp::list::File` tries them, except that a
/// line whose facts could make the MLST parser panic is not read as MLST.
fn list_entry(line: &str) -> (r: Option<FtpListEntry>)
    ensures
        exists|p: Option<(Seq<char>, u64, bool, bool)>|
            possible_posix(line@, p) && entry_view(r) == #[trigger] line_entry(line@, p),
{
    let posix = posix_list_entry(line);
    let dos = if posix.is_none() {
        dos_list_entry(line)
    } else {
        None
    };
    let skipped = mlst_may_overflow(line);
    let mlst = if posix.is_none() && dos.is_none() && !skipped {
        mlst_list_entry(line)
    } else {
        None
    };
    let r = choose_list_entry(posix, dos, skipped, mlst);
    assert(possible_posix(line@, entry_view(posix)) && entry_view(r) == line_entry(line@, entry_view(posix)));
    r
}

/// The remote file an entry under `parent` stands for; the `.` and `..`
/// entries stand for none.
pub open spec fn listed_view(
    parent: Seq<char>,
    v: Option<(Seq<char>, u64, bool, bool)>,
) -> Option<(Seq<char>, Seq<char>, u64, bool, bool)> {
    match v {
        None => None,
        Some((n, size, d, l)) => if n == "."@ || n == ".."@ {
            None
        } else {
            Some((joined_remote_path(parent, n), n, size, d, l))
        },
    }
}

/// The remote file a parsed listing entry under `parent` stands for; the
/// `.` and `..` entries stand for none.
pub open spec fn listed_file(parent: Seq<char>, e: FtpListEntry) -> Option<(Seq<char>, Seq<char>, u64, bool, bool)> {
    listed_view(parent, Some((e.name@, e.size, e.is_directory, e.is_symlink)))
}

/// `r` is the remote file that `o` describes, without permissions.
pub open spec fn file_is(r: Option<RemoteFile>, o: Option<(Seq<char>, Seq<char>, u64, bool, bool)>) -> bool {
    match o {
        None => r is None,
        Some((path, name, size, is_directory, is_symlink)) => r matches Some(f) && f.path@ == path && f.name@ == name
            && f.size == Some(size) && f.is_directory == is_directory && f.is_symlink == is_symlink
            && f.permissions is None,
    }
}

/// The remote file for a parsed listing entry.
pub fn remote_file_from_entry(parent: &str, entry: FtpListEntry) -> (r: Option<RemoteFile>)
    ensures
        file_is(r, listed_file(parent@, entry)),
{
    let n = chars_of(entry.name.as_str());
    if chars_eq_str(n.as_slice(), ".") || chars_eq_str(n.as_slice(), "..") {
        return None;
    }
    Some(
        RemoteFile {
            path: join_remote_path(parent, entry.name.as_str()),
            name: entry.name,
            size: Some(entry.size),
            is_directory: entry.is_directory,
            is_symlink: entry.is_symlink,
            permissions: None,
        },
    )
}

/// `r` is what the listing line `line` under `parent` gives for some possible
/// POSIX reading of it.
pub open spec fn line_read_as(parent: Seq<char>, line: Seq<char>, r: Option<RemoteFile>) -> bool {
    exists|p: Option<(Seq<char>, u64, bool, bool)>|
        possible_posix(line, p) && file_is(r, listed_view(parent, #[trigger] line_entry(line, p)))
}

/// The remote file a listing line under `parent` describes: the entry read
/// in the POSIX form, else the DOS form, else the MLST form, unless it is `.`
/// or `..`. A line whose facts could carry the MLST leap second before the
/// epoch (`mlst_time_may_overflow`) is read only in the POSIX and DOS forms.
pub fn parse_list_line(parent: &str, line: &str) -> (r: Option<RemoteFile>)
    ensures
        line_read_as(parent@, line@, r),
{
    let entry = list_entry(line);
    let ghost p = choose|p: Option<(Seq<char>, u64, bool, bool)>|
        possible_posix(line@, p) && entry_view(entry) == #[trigger] line_entry(line@, p);
    let r = match entry {
        Some(e) => remote_file_from_entry(parent, e),
        None => None,
    };
    assert(possible_posix(line@, p) && file_is(r, listed_view(parent@, line_entry(line@, p))));
    r
}

/// A line that the POSIX parser reads whatever the date gives its POSIX
/// reading: the POSIX form is tried first, so neither the DOS nor the MLST
/// reading can take its place.
pub proof fn lemma_posix_line_read_first(parent: Seq<char>, line: Seq<char>, r: Option<RemoteFile>)
    requires
        line_read_as(parent, line, r),
        posix_fields(line).2,
    ensures
        posix_form(line),
        file_is(
            r,
            listed_view(parent, Some((posix_fields(line).0, posix_fields(line).1, line[0] == 'd', line[0] == 'l'))),
        ),
{
    let p = choose|p: Option<(Seq<char>, u64, bool, bool)>|
        possible_posix(line, p) && file_is(r, listed_view(parent, #[trigger] line_entry(line, p)));
    assert(p is Some);
    assert(line_entry(line, p) == p);
}

/// The files among per-line outcomes, in order.
pub open spec fn somes(outs: Seq<Option<RemoteFile>>) -> Seq<RemoteFile>
    decreases outs.len(),
{
    if outs.len() == 0 {
        Seq::empty()
    } else {
        match outs.last() {
            Some(f) => somes(outs.drop_last()).push(f),
            None => somes(outs.drop_last()),
        }
    }
}

/// The remote files that the listing lines under `parent` describe, in order:
/// each line is read as `parse_list_line` reads it, and the lines that give
/// no file are left out.
pub fn parse_list_lines(parent: &str, lines: &[String]) -> (r: Vec<RemoteFile>)
    ensures
        exists|outs: Seq<Option<RemoteFile>>|
            outs.len() == lines@.len() && (forall|i: int|
                0 <= i < lines@.len() ==> line_read_as(parent@, lines@[i]@, #[trigger] outs[i])) && r@ == somes(outs),
{
    let mut out: Vec<RemoteFile> = Vec::new();
    let ghost mut outs: Seq<Option<RemoteFile>> = Seq::empty();
    let mut i: usize = 0;
    while i < lines.len()
        invariant
            i <= lines.len(),
            outs.len() == i,
            forall|k: int| 0 <= k < i ==> line_read_as(parent@, lines@[k]@, #[trigger] outs[k]),
            out@ == somes(outs),
        decreases lines.len() - i,
    {
        let o = parse_list_line(parent, lines[i].as_str());
        let ghost prev = outs;
        proof {
            outs = outs.push(o);
            assert(outs.drop_last() =~= prev);
        }
        match o {
            Some(f) => out.push(f),
            None => {},
        }
        i = i + 1;
    }
    out
}

} // verus!
