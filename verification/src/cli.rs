//! The decisions of the command-line front end: option parsing, argument
//! checks, and which adapter a remote command goes to. Printing, exiting and
//! the transfers themselves belong to the program around it.

use vstd::prelude::*;

use crate::config::opt_view;
use crate::protocol::{
    ftp_like_capabilities, no_capabilities, s3_capabilities, scp_capabilities, sftp_capabilities,
    webdav_capabilities, FileConflictPolicy, ProtocolCapabilities,
};
use crate::scp::ScpError;
use crate::ftp::FtpError;
use crate::security::{CredentialSecret, SecretString, SecurityError};
use crate::session::{parse_session_protocol, protocol_named, SessionProfile, SessionProtocol};
use crate::text::{
    blank, chars_eq_str, chars_of, decimal, decimal_string, is_blank, parse_unsigned, parse_unsigned_chars, push_str,
};
use crate::transfer::OverwriteMode;

verus! {

/// Options of a `remote-*` command.
#[derive(Debug, Default)]
pub struct RemoteCommandArgs {
    pub protocol: Option<SessionProtocol>,
    pub host: Option<String>,
    pub port: Option<String>,
    pub username: Option<String>,
    pub path: Option<String>,
    pub local: Option<String>,
    pub remote: Option<String>,
    pub conflict: Option<FileConflictPolicy>,
    pub from: Option<String>,
    pub to: Option<String>,
}

/// The options of a command, texts taken as character sequences.
pub struct ArgsView {
    pub protocol: Option<SessionProtocol>,
    pub host: Option<Seq<char>>,
    pub port: Option<Seq<char>>,
    pub username: Option<Seq<char>>,
    pub path: Option<Seq<char>>,
    pub local: Option<Seq<char>>,
    pub remote: Option<Seq<char>>,
    pub conflict: Option<FileConflictPolicy>,
    pub from: Option<Seq<char>>,
    pub to: Option<Seq<char>>,
}

impl View for RemoteCommandArgs {
    type V = ArgsView;

    open spec fn view(&self) -> ArgsView {
        ArgsView {
            protocol: self.protocol,
            host: opt_view(self.host),
            port: opt_view(self.port),
            username: opt_view(self.username),
            path: opt_view(self.path),
            local: opt_view(self.local),
            remote: opt_view(self.remote),
            conflict: self.conflict,
            from: opt_view(self.from),
            to: opt_view(self.to),
        }
    }
}

/// No option given.
pub open spec fn no_args() -> ArgsView {
    ArgsView {
        protocol: None,
        host: None,
        port: None,
        username: None,
        path: None,
        local: None,
        remote: None,
        conflict: None,
        from: None,
        to: None,
    }
}

/// The conflict policy a command-line name denotes.
pub open spec fn conflict_policy_named(value: Seq<char>) -> Option<FileConflictPolicy> {
    if value == "keep-existing"@ {
        Some(FileConflictPolicy::KeepExisting)
    } else if value == "replace"@ {
        Some(FileConflictPolicy::Replace)
    } else if value == "keep-both"@ {
        Some(FileConflictPolicy::KeepBoth)
    } else {
        None
    }
}

/// Parses a file conflict policy name.
pub fn parse_file_conflict_policy(value: &str) -> (r: Result<FileConflictPolicy, String>)
    ensures
        match r {
            Ok(p) => conflict_policy_named(value@) == Some(p),
            Err(m) => conflict_policy_named(value@) is None && m@ == "unknown file conflict policy: "@ + value@,
        },
{
    let v = chars_of(value);
    if chars_eq_str(v.as_slice(), "keep-existing") {
        Ok(FileConflictPolicy::KeepExisting)
    } else if chars_eq_str(v.as_slice(), "replace") {
        Ok(FileConflictPolicy::Replace)
    } else if chars_eq_str(v.as_slice(), "keep-both") {
        Ok(FileConflictPolicy::KeepBoth)
    } else {
        let mut m = String::from_str("unknown file conflict policy: ");
        push_str(&mut m, value);
        Err(m)
    }
}

/// The overwrite mode a command-line name denotes.
pub open spec fn overwrite_mode_named(value: Seq<char>) -> Option<OverwriteMode> {
    if value == "ask"@ {
        Some(OverwriteMode::Ask)
    } else if value == "always"@ {
        Some(OverwriteMode::Always)
    } else if value == "never"@ {
        Some(OverwriteMode::Never)
    } else if value == "if-newer"@ {
        Some(OverwriteMode::IfNewer)
    } else if value == "resume"@ {
        Some(OverwriteMode::Resume)
    } else {
        None
    }
}

/// Parses an overwrite mode name.
pub fn parse_overwrite_mode(value: &str) -> (r: Result<OverwriteMode, String>)
    ensures
        match r {
            Ok(m) => overwrite_mode_named(value@) == Some(m),
            Err(m) => overwrite_mode_named(value@) is None && m@ == "unknown overwrite mode: "@ + value@,
        },
{
    let v = chars_of(value);
    if chars_eq_str(v.as_slice(), "ask") {
        Ok(OverwriteMode::Ask)
    } else if chars_eq_str(v.as_slice(), "always") {
        Ok(OverwriteMode::Always)
    } else if chars_eq_str(v.as_slice(), "never") {
        Ok(OverwriteMode::Never)
    } else if chars_eq_str(v.as_slice(), "if-newer") {
        Ok(OverwriteMode::IfNewer)
    } else if chars_eq_str(v.as_slice(), "resume") {
        Ok(OverwriteMode::Resume)
    } else {
        let mut m = String::from_str("unknown overwrite mode: ");
        push_str(&mut m, value);
        Err(m)
    }
}

/// One option with its value applied to the options read so far.
pub open spec fn apply_option(acc: ArgsView, flag: Seq<char>, value: Seq<char>) -> Result<ArgsView, Seq<char>> {
    if flag == "--protocol"@ {
        match protocol_named(value) {
            Some(p) => Ok(ArgsView { protocol: Some(p), ..acc }),
            None => Err("unsupported protocol: "@ + value),
        }
    } else if flag == "--host"@ || flag == "--url"@ || flag == "--endpoint"@ {
        Ok(ArgsView { host: Some(value), ..acc })
    } else if flag == "--port"@ {
        Ok(ArgsView { port: Some(value), ..acc })
    } else if flag == "--username"@ {
        Ok(ArgsView { username: Some(value), ..acc })
    } else if flag == "--path"@ {
        Ok(ArgsView { path: Some(value), ..acc })
    } else if flag == "--local"@ {
        Ok(ArgsView { local: Some(value), ..acc })
    } else if flag == "--remote"@ {
        Ok(ArgsView { remote: Some(value), ..acc })
    } else if flag == "--conflict"@ {
        match conflict_policy_named(value) {
            Some(c) => Ok(ArgsView { conflict: Some(c), ..acc }),
            None => Err("unknown file conflict policy: "@ + value),
        }
    } else if flag == "--from"@ {
        Ok(ArgsView { from: Some(value), ..acc })
    } else if flag == "--to"@ {
        Ok(ArgsView { to: Some(value), ..acc })
    } else if flag == "--bucket"@ || flag == "--region"@ || flag == "--root"@ || flag == "--prefix"@ {
        Ok(acc)
    } else {
        Err("unknown remote option: "@ + flag)
    }
}

/// The options that `args` give, read as flag and value pairs from the
/// start; a later option replaces an earlier one. The error is the message
/// for the first bad pair, or for a flag without a value.
pub open spec fn read_options(args: Seq<Seq<char>>, acc: ArgsView) -> Result<ArgsView, Seq<char>>
    decreases args.len(),
{
    if args.len() == 0 {
        Ok(acc)
    } else if args.len() == 1 {
        Err("missing value for "@ + args[0])
    } else {
        match apply_option(acc, args[0], args[1]) {
            Err(e) => Err(e),
            Ok(a) => read_options(args.skip(2), a),
        }
    }
}

pub open spec fn strings_view(v: Seq<String>) -> Seq<Seq<char>> {
    v.map_values(|s: String| s@)
}

fn apply_one(parsed: &mut RemoteCommandArgs, flag: &str, value: String) -> (r: Result<(), String>)
    ensures
        match r {
            Ok(()) => apply_option(old(parsed)@, flag@, value@) == Ok::<ArgsView, Seq<char>>(final(parsed)@),
            Err(m) => apply_option(old(parsed)@, flag@, value@) == Err::<ArgsView, Seq<char>>(m@),
        },
{
    let f = chars_of(flag);
    let f = f.as_slice();
    if chars_eq_str(f, "--protocol") {
        match parse_session_protocol(value.as_str()) {
            Ok(p) => parsed.protocol = Some(p),
            Err(_) => {
                let mut m = String::from_str("unsupported protocol: ");
                push_str(&mut m, value.as_str());
                return Err(m);
            },
        }
    } else if chars_eq_str(f, "--host") || chars_eq_str(f, "--url") || chars_eq_str(f, "--endpoint") {
        parsed.host = Some(value);
    } else if chars_eq_str(f, "--port") {
        parsed.port = Some(value);
    } else if chars_eq_str(f, "--username") {
        parsed.username = Some(value);
    } else if chars_eq_str(f, "--path") {
        parsed.path = Some(value);
    } else if chars_eq_str(f, "--local") {
        parsed.local = Some(value);
    } else if chars_eq_str(f, "--remote") {
        parsed.remote = Some(value);
    } else if chars_eq_str(f, "--conflict") {
        let c = parse_file_conflict_policy(value.as_str())?;
        parsed.conflict = Some(c);
    } else if chars_eq_str(f, "--from") {
        parsed.from = Some(value);
    } else if chars_eq_str(f, "--to") {
        parsed.to = Some(value);
    } else if chars_eq_str(f, "--bucket") || chars_eq_str(f, "--region") || chars_eq_str(f, "--root") || chars_eq_str(
        f,
        "--prefix",
    ) {
    } else {
        let mut m = String::from_str("unknown remote option: ");
        push_str(&mut m, flag);
        return Err(m);
    }
    Ok(())
}

/// Parses the options of a `remote-*` command: flag and value pairs.
pub fn parse_remote_args(args: Vec<String>) -> (r: Result<RemoteCommandArgs, String>)
    ensures
        match r {
            Ok(a) => read_options(strings_view(args@), no_args()) == Ok::<ArgsView, Seq<char>>(a@),
            Err(m) => read_options(strings_view(args@), no_args()) == Err::<ArgsView, Seq<char>>(m@),
        },
{
    let ghost all = strings_view(args@);
    let mut parsed = RemoteCommandArgs {
        protocol: None,
        host: None,
        port: None,
        username: None,
        path: None,
        local: None,
        remote: None,
        conflict: None,
        from: None,
        to: None,
    };
    let mut i: usize = 0;
    assert(all.skip(0) =~= all);
    while i < args.len()
        invariant
            i <= args.len(),
            all == strings_view(args@),
            read_options(all, no_args()) == read_options(all.skip(i as int), parsed@),
        decreases args.len() - i,
    {
        let ghost rest = all.skip(i as int);
        assert(rest[0] == args@[i as int]@);
        if i + 1 >= args.len() {
            let mut m = String::from_str("missing value for ");
            push_str(&mut m, args[i].as_str());
            assert(rest.len() == 1);
            return Err(m);
        }
        assert(rest[1] == args@[i + 1]@);
        assert(rest.skip(2) =~= all.skip(i + 2));
        let value = args[i + 1].clone();
        apply_one(&mut parsed, args[i].as_str(), value)?;
        i = i + 2;
    }
    assert(all.skip(args.len() as int) =~= Seq::<Seq<char>>::empty());
    Ok(parsed)
}

/// The protocol of a remote command, which is required.
pub fn remote_protocol(args: &RemoteCommandArgs) -> (r: Result<SessionProtocol, String>)
    ensures
        match args.protocol {
            Some(p) => r == Ok::<SessionProtocol, String>(p),
            None => r matches Err(m) && m@ == "--protocol is required"@,
        },
{
    match args.protocol {
        Some(p) => Ok(p),
        None => Err(String::from_str("--protocol is required")),
    }
}

/// The port a command uses: the given one, else the protocol's default.
pub open spec fn port_or_default(port: Option<Seq<char>>, protocol: SessionProtocol) -> Option<Seq<char>> {
    match port {
        Some(q) => Some(q),
        None => match protocol.port_default() {
            Some(n) => Some(decimal(n as nat)),
            None => None,
        },
    }
}

/// Host, port and user name of a remote command: the protocol comes first;
/// then the host is required, the port defaults to the protocol's port where
/// it has one, and the user name is required.
pub open spec fn host_port_user(a: ArgsView) -> Result<(Seq<char>, Seq<char>, Seq<char>), Seq<char>> {
    match a.protocol {
        None => Err("--protocol is required"@),
        Some(p) => match a.host {
            None => Err("--host is required"@),
            Some(h) => match port_or_default(a.port, p) {
                None => Err("--port is required"@),
                Some(q) => match a.username {
                    None => Err("--username is required"@),
                    Some(u) => Ok((h, q, u)),
                },
            },
        },
    }
}

/// Host, port and user name of a remote command.
pub fn remote_host_port_username(args: &RemoteCommandArgs) -> (r: Result<(String, String, String), String>)
    ensures
        match r {
            Ok((h, q, u)) => host_port_user(args@) == Ok::<(Seq<char>, Seq<char>, Seq<char>), Seq<char>>((h@, q@, u@)),
            Err(m) => host_port_user(args@) == Err::<(Seq<char>, Seq<char>, Seq<char>), Seq<char>>(m@),
        },
{
    let protocol = remote_protocol(args)?;
    let host = match &args.host {
        Some(h) => h.clone(),
        None => return Err(String::from_str("--host is required")),
    };
    let port = match &args.port {
        Some(q) => q.clone(),
        None => match protocol.default_port() {
            Some(n) => decimal_string(n as u64),
            None => return Err(String::from_str("--port is required")),
        },
    };
    let username = match &args.username {
        Some(u) => u.clone(),
        None => return Err(String::from_str("--username is required")),
    };
    Ok((host, port, username))
}

/// What a protocol can do, as the CLI reports it; the local file system is
/// reported with no remote capabilities.
pub open spec fn capabilities_of(protocol: SessionProtocol) -> ProtocolCapabilities {
    match protocol {
        SessionProtocol::Sftp => sftp_capabilities(),
        SessionProtocol::Scp => scp_capabilities(),
        SessionProtocol::Ftp => ftp_like_capabilities(false),
        SessionProtocol::Ftps => ftp_like_capabilities(true),
        SessionProtocol::WebDav => webdav_capabilities(),
        SessionProtocol::S3 => s3_capabilities(),
        SessionProtocol::Local => no_capabilities(),
    }
}

/// What a protocol can do.
pub fn capabilities_for(protocol: &SessionProtocol) -> (r: ProtocolCapabilities)
    ensures
        r == capabilities_of(*protocol),
{
    match protocol {
        SessionProtocol::Sftp => ProtocolCapabilities::sftp(),
        SessionProtocol::Scp => ProtocolCapabilities::scp_transfer_only(),
        SessionProtocol::Ftp => ProtocolCapabilities::ftp_like(false),
        SessionProtocol::Ftps => ProtocolCapabilities::ftp_like(true),
        SessionProtocol::WebDav => ProtocolCapabilities::webdav(),
        SessionProtocol::S3 => ProtocolCapabilities::s3(),
        SessionProtocol::Local => ProtocolCapabilities::empty(),
    }
}

/// The protocol column of the session listing.
pub fn protocol_label(protocol: &SessionProtocol) -> (r: &'static str)
    ensures
        r@ == protocol.identifier(),
{
    protocol.as_str()
}

/// A value, unless it is blank.
pub fn non_empty(value: String) -> (r: Option<String>)
    ensures
        match r {
            Some(v) => !is_blank(value@) && v@ == value@,
            None => is_blank(value@),
        },
{
    if blank(value.as_str()) {
        None
    } else {
        Some(value)
    }
}

/// How the program ends a command that cannot run: with the usage text and
/// status 2, or with a message and a status.
#[derive(Debug)]
pub enum CliFailure {
    Usage,
    Exit { message: String, code: i32 },
}

/// A failure, its message taken as characters.
pub enum FailureView {
    Usage,
    Exit(Seq<char>, i32),
}

impl View for CliFailure {
    type V = FailureView;

    open spec fn view(&self) -> FailureView {
        match self {
            CliFailure::Usage => FailureView::Usage,
            CliFailure::Exit { message, code } => FailureView::Exit(message@, *code),
        }
    }
}

fn exit_failure(message: String, code: i32) -> (r: CliFailure)
    ensures
        r@ == FailureView::Exit(message@, code),
{
    CliFailure::Exit { message, code }
}

/// Direction of a transfer command.
#[derive(Clone, Copy, Debug, PartialEq, Eq, Structural)]
pub enum TransferKind {
    Upload,
    Download,
}

/// Where a transfer command goes. For SFTP, `first` and `second` are the
/// source and destination of the backend call.
#[derive(Debug)]
pub enum TransferRoute {
    Sftp {
        host: String,
        port: String,
        username: String,
        first: String,
        second: String,
        conflict_policy: FileConflictPolicy,
        exact_destination: bool,
    },
    Ftp {
        protocol: SessionProtocol,
        host: String,
        port: String,
        username: String,
        local: String,
        remote: String,
        conflict_policy: Option<FileConflictPolicy>,
    },
    Scp { host: String, port: String, username: String, local: String, remote: String },
}

/// A transfer route, texts taken as character sequences.
pub enum RouteView {
    Sftp {
        host: Seq<char>,
        port: Seq<char>,
        username: Seq<char>,
        first: Seq<char>,
        second: Seq<char>,
        conflict_policy: FileConflictPolicy,
        exact_destination: bool,
    },
    Ftp {
        protocol: SessionProtocol,
        host: Seq<char>,
        port: Seq<char>,
        username: Seq<char>,
        local: Seq<char>,
        remote: Seq<char>,
        conflict_policy: Option<FileConflictPolicy>,
    },
    Scp { host: Seq<char>, port: Seq<char>, username: Seq<char>, local: Seq<char>, remote: Seq<char> },
}

impl View for TransferRoute {
    type V = RouteView;

    open spec fn view(&self) -> RouteView {
        match self {
            TransferRoute::Sftp { host, port, username, first, second, conflict_policy, exact_destination } => RouteView::Sftp {
                host: host@,
                port: port@,
                username: username@,
                first: first@,
                second: second@,
                conflict_policy: *conflict_policy,
                exact_destination: *exact_destination,
            },
            TransferRoute::Ftp { protocol, host, port, username, local, remote, conflict_policy } => RouteView::Ftp {
                protocol: *protocol,
                host: host@,
                port: port@,
                username: username@,
                local: local@,
                remote: remote@,
                conflict_policy: *conflict_policy,
            },
            TransferRoute::Scp { host, port, username, local, remote } => RouteView::Scp {
                host: host@,
                port: port@,
                username: username@,
                local: local@,
                remote: remote@,
            },
        }
    }
}

/// The message for a protocol that has no live adapter.
pub open spec fn unsupported_live_message(p: SessionProtocol) -> Seq<char> {
    p.label() + " adapter is not implemented yet; currently SFTP, SCP, FTP, and explicit FTPS are live"@
}

fn unsupported_live_protocol(protocol: SessionProtocol) -> (r: CliFailure)
    ensures
        r@ == FailureView::Exit(unsupported_live_message(protocol), 1),
{
    let mut m = String::from_str(protocol.display_name());
    push_str(&mut m, " adapter is not implemented yet; currently SFTP, SCP, FTP, and explicit FTPS are live");
    exit_failure(m, 1)
}

/// Where a transfer command goes: the options are checked in order (protocol,
/// host, port, user name, `--conflict` only for uploads, local and remote
/// paths); SFTP gets the conflict policy (default replace) and, for uploads,
/// an exact destination; FTP gets the policy as given; SCP cannot honour a
/// policy other than replace; other protocols have no live adapter.
pub open spec fn transfer_plan(a: ArgsView, kind: TransferKind) -> Result<RouteView, FailureView> {
    match host_port_user(a) {
        Err(m) => Err(FailureView::Exit(m, 2)),
        Ok((h, q, u)) => if kind == TransferKind::Download && a.conflict is Some {
            Err(FailureView::Exit("--conflict is only valid for uploads"@, 2))
        } else {
            match a.local {
                None => Err(FailureView::Exit("--local is required"@, 2)),
                Some(l) => match a.remote {
                    None => Err(FailureView::Exit("--remote is required"@, 2)),
                    Some(r) => {
                        let p = a.protocol.unwrap();
                        let policy = match a.conflict {
                            Some(c) => c,
                            None => FileConflictPolicy::Replace,
                        };
                        match p {
                            SessionProtocol::Sftp => Ok(
                                RouteView::Sftp {
                                    host: h,
                                    port: q,
                                    username: u,
                                    first: if kind == TransferKind::Upload {
                                        l
                                    } else {
                                        r
                                    },
                                    second: if kind == TransferKind::Upload {
                                        r
                                    } else {
                                        l
                                    },
                                    conflict_policy: policy,
                                    exact_destination: kind == TransferKind::Upload,
                                },
                            ),
                            SessionProtocol::Ftp | SessionProtocol::Ftps => Ok(
                                RouteView::Ftp {
                                    protocol: p,
                                    host: h,
                                    port: q,
                                    username: u,
                                    local: l,
                                    remote: r,
                                    conflict_policy: a.conflict,
                                },
                            ),
                            SessionProtocol::Scp => if policy != FileConflictPolicy::Replace {
                                Err(
                                    FailureView::Exit(
                                        "SCP cannot inspect remote conflicts; use SFTP for keep-existing or keep-both"@,
                                        1,
                                    ),
                                )
                            } else {
                                Ok(RouteView::Scp { host: h, port: q, username: u, local: l, remote: r })
                            },
                            _ => Err(FailureView::Exit(unsupported_live_message(p), 1)),
                        }
                    },
                },
            }
        },
    }
}

/// Where a `remote-upload` or `remote-download` command goes.
pub fn plan_remote_transfer(parsed: RemoteCommandArgs, kind: TransferKind) -> (r: Result<TransferRoute, CliFailure>)
    ensures
        match r {
            Ok(route) => transfer_plan(parsed@, kind) == Ok::<RouteView, FailureView>(route@),
            Err(f) => transfer_plan(parsed@, kind) == Err::<RouteView, FailureView>(f@),
        },
{
    let (host, port, username) = match remote_host_port_username(&parsed) {
        Ok(t) => t,
        Err(m) => return Err(exit_failure(m, 2)),
    };
    let protocol = match parsed.protocol {
        Some(p) => p,
        None => return Err(exit_failure(String::from_str("--protocol is required"), 2)),
    };
    if kind == TransferKind::Download && parsed.conflict.is_some() {
        return Err(exit_failure(String::from_str("--conflict is only valid for uploads"), 2));
    }
    let requested = parsed.conflict;
    let policy = match requested {
        Some(c) => c,
        None => FileConflictPolicy::Replace,
    };
    let local = match parsed.local {
        Some(l) => l,
        None => return Err(exit_failure(String::from_str("--local is required"), 2)),
    };
    let remote = match parsed.remote {
        Some(r) => r,
        None => return Err(exit_failure(String::from_str("--remote is required"), 2)),
    };
    match protocol {
        SessionProtocol::Sftp => {
            let upload = kind == TransferKind::Upload;
            let (first, second) = if upload {
                (local, remote)
            } else {
                (remote, local)
            };
            Ok(
                TransferRoute::Sftp {
                    host,
                    port,
                    username,
                    first,
                    second,
                    conflict_policy: policy,
                    exact_destination: upload,
                },
            )
        },
        SessionProtocol::Ftp | SessionProtocol::Ftps => Ok(
            TransferRoute::Ftp { protocol, host, port, username, local, remote, conflict_policy: requested },
        ),
        SessionProtocol::Scp => {
            if policy != FileConflictPolicy::Replace {
                Err(
                    exit_failure(
                        String::from_str("SCP cannot inspect remote conflicts; use SFTP for keep-existing or keep-both"),
                        1,
                    ),
                )
            } else {
                Ok(TransferRoute::Scp { host, port, username, local, remote })
            }
        },
        other => Err(unsupported_live_protocol(other)),
    }
}

/// A remote command that works on one path.
#[derive(Clone, Copy, Debug, PartialEq, Eq, Structural)]
pub enum PathCommand {
    List,
    Mkdir,
    Delete,
}

/// The command name, as error messages write it.
pub open spec fn path_command_name(c: PathCommand) -> Seq<char> {
    match c {
        PathCommand::List => "remote-list"@,
        PathCommand::Mkdir => "remote-mkdir"@,
        PathCommand::Delete => "remote-delete"@,
    }
}

/// Where a path command goes.
#[derive(Debug)]
pub enum PathRoute {
    Sftp { host: String, port: String, username: String, path: String },
    Ftp { protocol: SessionProtocol, host: String, port: String, username: String, path: String },
}

/// A path route, texts taken as character sequences.
pub enum PathRouteView {
    Sftp(Seq<char>, Seq<char>, Seq<char>, Seq<char>),
    Ftp(SessionProtocol, Seq<char>, Seq<char>, Seq<char>, Seq<char>),
}

impl View for PathRoute {
    type V = PathRouteView;

    open spec fn view(&self) -> PathRouteView {
        match self {
            PathRoute::Sftp { host, port, username, path } => PathRouteView::Sftp(host@, port@, username@, path@),
            PathRoute::Ftp { protocol, host, port, username, path } => PathRouteView::Ftp(
                *protocol,
                host@,
                port@,
                username@,
                path@,
            ),
        }
    }
}

/// Where a list, mkdir or delete command goes: after protocol, host, port
/// and user name, the path (listing defaults to `/`, the others require
/// one); SFTP and FTP/FTPS are live, SCP is transfer-only, and other
/// protocols have no live adapter.
pub open spec fn path_plan(a: ArgsView, c: PathCommand) -> Result<PathRouteView, FailureView> {
    match host_port_user(a) {
        Err(m) => Err(FailureView::Exit(m, 2)),
        Ok((h, q, u)) => {
            let path = match a.path {
                Some(p) => Some(p),
                None => if c == PathCommand::List {
                    Some("/"@)
                } else {
                    None
                },
            };
            match path {
                None => Err(FailureView::Exit("--path is required"@, 2)),
                Some(path) => match a.protocol.unwrap() {
                    SessionProtocol::Sftp => Ok(PathRouteView::Sftp(h, q, u, path)),
                    SessionProtocol::Ftp => Ok(PathRouteView::Ftp(SessionProtocol::Ftp, h, q, u, path)),
                    SessionProtocol::Ftps => Ok(PathRouteView::Ftp(SessionProtocol::Ftps, h, q, u, path)),
                    SessionProtocol::Scp => Err(
                        FailureView::Exit("SCP is transfer-only; "@ + path_command_name(c) + " is unsupported"@, 1),
                    ),
                    p => Err(FailureView::Exit(unsupported_live_message(p), 1)),
                },
            }
        },
    }
}

/// Where a `remote-list`, `remote-mkdir` or `remote-delete` command goes.
pub fn plan_remote_path_command(parsed: RemoteCommandArgs, command: PathCommand) -> (r: Result<PathRoute, CliFailure>)
    ensures
        match r {
            Ok(route) => path_plan(parsed@, command) == Ok::<PathRouteView, FailureView>(route@),
            Err(f) => path_plan(parsed@, command) == Err::<PathRouteView, FailureView>(f@),
        },
{
    let (host, port, username) = match remote_host_port_username(&parsed) {
        Ok(t) => t,
        Err(m) => return Err(exit_failure(m, 2)),
    };
    let protocol = match parsed.protocol {
        Some(p) => p,
        None => return Err(exit_failure(String::from_str("--protocol is required"), 2)),
    };
    let path = match parsed.path {
        Some(p) => p,
        None => {
            if command == PathCommand::List {
                String::from_str("/")
            } else {
                return Err(exit_failure(String::from_str("--path is required"), 2));
            }
        },
    };
    match protocol {
        SessionProtocol::Sftp => Ok(PathRoute::Sftp { host, port, username, path }),
        SessionProtocol::Ftp | SessionProtocol::Ftps => Ok(PathRoute::Ftp { protocol, host, port, username, path }),
        SessionProtocol::Scp => {
            let mut m = String::from_str("SCP is transfer-only; ");
            push_str(
                &mut m,
                match command {
                    PathCommand::List => "remote-list",
                    PathCommand::Mkdir => "remote-mkdir",
                    PathCommand::Delete => "remote-delete",
                },
            );
            push_str(&mut m, " is unsupported");
            Err(exit_failure(m, 1))
        },
        other => Err(unsupported_live_protocol(other)),
    }
}

/// Where a rename command goes: after protocol, host, port and user name,
/// both `--from` and `--to` are required; only FTP/FTPS renames.
pub open spec fn rename_plan_of(a: ArgsView) -> Result<(SessionProtocol, Seq<char>, Seq<char>, Seq<char>, Seq<char>, Seq<char>), FailureView> {
    match host_port_user(a) {
        Err(m) => Err(FailureView::Exit(m, 2)),
        Ok((h, q, u)) => match a.from {
            None => Err(FailureView::Exit("--from is required"@, 2)),
            Some(f) => match a.to {
                None => Err(FailureView::Exit("--to is required"@, 2)),
                Some(t) => match a.protocol.unwrap() {
                    SessionProtocol::Ftp => Ok((SessionProtocol::Ftp, h, q, u, f, t)),
                    SessionProtocol::Ftps => Ok((SessionProtocol::Ftps, h, q, u, f, t)),
                    SessionProtocol::Sftp => Err(FailureView::Exit("remote-rename is not available for SFTP yet"@, 1)),
                    p => Err(FailureView::Exit(unsupported_live_message(p), 1)),
                },
            },
        },
    }
}

/// The FTP/FTPS protocol, host, port, user name, source and target of a
/// `remote-rename` command.
pub fn plan_remote_rename(parsed: RemoteCommandArgs) -> (r: Result<(SessionProtocol, String, String, String, String, String), CliFailure>)
    ensures
        match r {
            Ok((p, h, q, u, f, t)) => rename_plan_of(parsed@) == Ok::<
                (SessionProtocol, Seq<char>, Seq<char>, Seq<char>, Seq<char>, Seq<char>),
                FailureView,
            >((p, h@, q@, u@, f@, t@)),
            Err(e) => rename_plan_of(parsed@) == Err::<
                (SessionProtocol, Seq<char>, Seq<char>, Seq<char>, Seq<char>, Seq<char>),
                FailureView,
            >(e@),
        },
{
    let (host, port, username) = match remote_host_port_username(&parsed) {
        Ok(t) => t,
        Err(m) => return Err(exit_failure(m, 2)),
    };
    let protocol = match parsed.protocol {
        Some(p) => p,
        None => return Err(exit_failure(String::from_str("--protocol is required"), 2)),
    };
    let from = match parsed.from {
        Some(f) => f,
        None => return Err(exit_failure(String::from_str("--from is required"), 2)),
    };
    let to = match parsed.to {
        Some(t) => t,
        None => return Err(exit_failure(String::from_str("--to is required"), 2)),
    };
    match protocol {
        SessionProtocol::Ftp | SessionProtocol::Ftps => Ok((protocol, host, port, username, from, to)),
        SessionProtocol::Sftp => Err(exit_failure(String::from_str("remote-rename is not available for SFTP yet"), 1)),
        other => Err(unsupported_live_protocol(other)),
    }
}

/// A port given on the command line, read as `str::parse` reads a `u16`.
pub fn parse_port_arg(port: &str) -> (r: Option<u16>)
    ensures
        match r {
            Some(n) => parse_unsigned(port@, 65535) == Some(n as nat),
            None => parse_unsigned(port@, 65535) is None,
        },
{
    let v = chars_of(port);
    match parse_unsigned_chars(v.as_slice(), 65535) {
        Some(n) => Some(n as u16),
        None => None,
    }
}

/// A value, unless it is blank.
pub open spec fn unless_blank(v: Seq<char>) -> Option<Seq<char>> {
    if is_blank(v) {
        None
    } else {
        Some(v)
    }
}

/// The session file and the profile that a `session-save` command names:
/// seven arguments save an SFTP profile, eight give the protocol second; the
/// port must read as a `u16`; blank user name, path and credential
/// reference are left out.
pub open spec fn session_save_plan(args: Seq<Seq<char>>) -> Result<(Seq<char>, SessionProtocol, Seq<Seq<char>>, u16), FailureView> {
    if args.len() != 7 && args.len() != 8 {
        Err(FailureView::Usage)
    } else {
        let protocol = if args.len() == 8 {
            protocol_named(args[1])
        } else {
            Some(SessionProtocol::Sftp)
        };
        let rest = if args.len() == 8 {
            args.skip(2)
        } else {
            args.skip(1)
        };
        match protocol {
            None => Err(FailureView::Exit("session-save failed: invalid protocol"@, 2)),
            Some(p) => match parse_unsigned(rest[2], 65535) {
                None => Err(FailureView::Exit("session-save failed: port must be 1-65535"@, 2)),
                Some(port) => Ok((args[0], p, rest, port as u16)),
            },
        }
    }
}

/// The session file and the profile of a `session-save` command. The
/// profile's fields come from the arguments after the file (and protocol):
/// name, host, port, user name, remote path and credential reference.
pub fn parse_session_save_args(args: &[String]) -> (r: Result<(String, SessionProfile), CliFailure>)
    ensures
        match session_save_plan(strings_view(args@)) {
            Err(f) => r matches Err(e) && e@ == f,
            Ok((path, protocol, rest, port)) => r matches Ok((file, profile)) && file@ == path && profile.protocol
                == protocol && profile.name@ == rest[0] && profile.host@ == rest[1] && profile.port == Some(port)
                && opt_view(profile.username) == unless_blank(rest[3]) && opt_view(profile.initial_remote_path)
                == unless_blank(rest[4]) && opt_view(profile.credential_ref) == unless_blank(rest[5]),
        },
{
    let ghost all = strings_view(args@);
    if args.len() != 7 && args.len() != 8 {
        return Err(CliFailure::Usage);
    }
    let start: usize = if args.len() == 8 {
        2
    } else {
        1
    };
    let protocol = if args.len() == 8 {
        match parse_session_protocol(args[1].as_str()) {
            Ok(p) => p,
            Err(_) => return Err(exit_failure(String::from_str("session-save failed: invalid protocol"), 2)),
        }
    } else {
        SessionProtocol::Sftp
    };
    let ghost rest = all.skip(start as int);
    assert(rest[2] == args@[start + 2]@);
    let port = match parse_port_arg(args[start + 2].as_str()) {
        Some(p) => p,
        None => return Err(exit_failure(String::from_str("session-save failed: port must be 1-65535"), 2)),
    };
    assert(rest[0] == args@[start as int]@);
    assert(rest[1] == args@[start + 1]@);
    assert(rest[3] == args@[start + 3]@);
    assert(rest[4] == args@[start + 4]@);
    assert(rest[5] == args@[start + 5]@);
    assert(all[0] == args@[0]@);
    let profile = SessionProfile {
        name: args[start].clone(),
        protocol,
        host: args[start + 1].clone(),
        port: Some(port),
        username: non_empty(args[start + 3].clone()),
        initial_remote_path: non_empty(args[start + 4].clone()),
        credential_ref: non_empty(args[start + 5].clone()),
    };
    Ok((args[0].clone(), profile))
}

/// Source, destination and overwrite mode of a `local-copy` command: two or
/// three arguments; the mode defaults to always overwriting.
pub fn parse_local_copy_args(args: &[String]) -> (r: Result<(String, String, OverwriteMode), CliFailure>)
    ensures
        !(2 <= args@.len() <= 3) ==> r matches Err(CliFailure::Usage),
        2 <= args@.len() <= 3 ==> match r {
            Ok((s, d, m)) => s@ == args@[0]@ && d@ == args@[1]@ && (if args@.len() == 3 {
                overwrite_mode_named(args@[2]@) == Some(m)
            } else {
                m == OverwriteMode::Always
            }),
            Err(e) => args@.len() == 3 && overwrite_mode_named(args@[2]@) is None && e@ == FailureView::Exit(
                "unknown overwrite mode: "@ + args@[2]@,
                2,
            ),
        },
{
    if args.len() < 2 || args.len() > 3 {
        return Err(CliFailure::Usage);
    }
    let mode = if args.len() == 3 {
        match parse_overwrite_mode(args[2].as_str()) {
            Ok(m) => m,
            Err(message) => return Err(exit_failure(message, 2)),
        }
    } else {
        OverwriteMode::Always
    };
    Ok((args[0].clone(), args[1].clone(), mode))
}

/// The SSH credential the environment supplies: a non-blank private-key path
/// (with its passphrase, if a non-empty one is given) wins over a password;
/// without either the error names the variables for `protocol`.
pub fn ssh_secret_from_values(
    protocol: &str,
    private_key_path: Option<String>,
    passphrase: Option<String>,
    password: Option<String>,
) -> (r: Result<CredentialSecret, ScpError>)
    ensures
        (private_key_path matches Some(k) && !is_blank(k@)) ==> (r matches Ok(
            CredentialSecret::PrivateKey { private_key_path: k2, passphrase: q },
        ) && k2@ == private_key_path.unwrap()@ && match passphrase {
            Some(p) => if p@.len() > 0 {
                q matches Some(s) && s@ == p@
            } else {
                q is None
            },
            None => q is None,
        }),
        !(private_key_path matches Some(k) && !is_blank(k@)) ==> match password {
            None => r matches Err(ScpError::Backend(m)) && m@ == "CROSSSCP_REMOTE_PASSWORD/CROSSSCP_"@ + protocol@
                + "_PASSWORD or CROSSSCP_REMOTE_PRIVATE_KEY_PATH/CROSSSCP_"@ + protocol@ + "_KEY_PATH is required"@,
            Some(p) => if p@.len() > 0 {
                r matches Ok(CredentialSecret::Password(s)) && s@ == p@
            } else {
                r matches Err(ScpError::Security(SecurityError::EmptySecret))
            },
        },
{
    match &private_key_path {
        Some(k) => {
            if !blank(k.as_str()) {
                let q = match &passphrase {
                    Some(p) => {
                        if p.as_str().unicode_len() > 0 {
                            match SecretString::new(p.as_str()) {
                                Ok(s) => Some(s),
                                Err(e) => return Err(ScpError::Security(e)),
                            }
                        } else {
                            None
                        }
                    },
                    None => None,
                };
                return Ok(CredentialSecret::PrivateKey { private_key_path: k.clone(), passphrase: q });
            }
        },
        None => {},
    }
    match password {
        None => {
            let mut m = String::from_str("CROSSSCP_REMOTE_PASSWORD/CROSSSCP_");
            push_str(&mut m, protocol);
            push_str(&mut m, "_PASSWORD or CROSSSCP_REMOTE_PRIVATE_KEY_PATH/CROSSSCP_");
            push_str(&mut m, protocol);
            push_str(&mut m, "_KEY_PATH is required");
            Err(ScpError::Backend(m))
        },
        Some(p) => match SecretString::new(p.as_str()) {
            Ok(s) => Ok(CredentialSecret::Password(s)),
            Err(e) => Err(ScpError::Security(e)),
        },
    }
}

/// The FTP credential the environment supplies: a password is required.
pub fn ftp_secret_from_value(password: Option<String>) -> (r: Result<CredentialSecret, FtpError>)
    ensures
        match password {
            None => r matches Err(FtpError::Backend(m)) && m@ == "CROSSSCP_REMOTE_PASSWORD is required"@,
            Some(p) => if p@.len() > 0 {
                r matches Ok(CredentialSecret::Password(s)) && s@ == p@
            } else {
                r matches Err(FtpError::Security(SecurityError::EmptySecret))
            },
        },
{
    match password {
        None => Err(FtpError::Backend(String::from_str("CROSSSCP_REMOTE_PASSWORD is required"))),
        Some(p) => match SecretString::new(p.as_str()) {
            Ok(s) => Ok(CredentialSecret::Password(s)),
            Err(e) => Err(FtpError::Security(e)),
        },
    }
}

/// The SSH timeout in seconds: a positive number of seconds when one is
/// given, else five minutes.
pub fn ssh_timeout_secs(value: Option<String>) -> (r: u64)
    ensures
        r == match value {
            Some(v) => match parse_unsigned(v@, u64::MAX as nat) {
                Some(n) => if n > 0 {
                    n as u64
                } else {
                    300u64
                },
                None => 300u64,
            },
            None => 300u64,
        },
{
    match value {
        Some(v) => {
            let c = chars_of(v.as_str());
            match parse_unsigned_chars(c.as_slice(), u64::MAX) {
                Some(n) => if n > 0 {
                    n
                } else {
                    300
                },
                None => 300,
            }
        },
        None => 300,
    }
}

} // verus!
