use crossscp::cli::{
    capabilities_for, ftp_secret_from_value, non_empty, parse_local_copy_args, parse_overwrite_mode, parse_port_arg,
    parse_remote_args, parse_session_save_args, plan_remote_path_command, plan_remote_rename, plan_remote_transfer,
    protocol_label, remote_host_port_username, ssh_secret_from_values, ssh_timeout_secs, CliFailure, PathCommand,
    PathRoute, TransferKind, TransferRoute,
};
use crossscp::ftp::FtpError;
use crossscp::protocol::{FileConflictPolicy, ProtocolCapabilities};
use crossscp::scp::ScpError;
use crossscp::security::{CredentialSecret, SecurityError};
use crossscp::session::SessionProtocol;
use crossscp::transfer::OverwriteMode;

fn strings(args: &[&str]) -> Vec<String> {
    args.iter().map(|arg| arg.to_string()).collect()
}

fn exit_of<T: std::fmt::Debug>(result: Result<T, CliFailure>) -> (String, i32) {
    match result {
        Err(CliFailure::Exit { message, code }) => (message, code),
        other => panic!("expected an exit: {other:?}"),
    }
}

#[test]
fn remote_args_report_their_errors() {
    assert_eq!(parse_remote_args(strings(&["--host"])).expect_err("no value"), "missing value for --host");
    assert_eq!(
        parse_remote_args(strings(&["--bogus", "x"])).expect_err("unknown"),
        "unknown remote option: --bogus"
    );
    assert_eq!(
        parse_remote_args(strings(&["--protocol", "gopher"])).expect_err("protocol"),
        "unsupported protocol: gopher"
    );
}

#[test]
fn remote_args_read_flags_in_order() {
    let parsed = parse_remote_args(strings(&[
        "--protocol", " SFTP ", "--url", "first", "--host", "second", "--bucket", "ignored", "--port", "2200",
    ]))
    .expect("parse");
    assert_eq!(parsed.protocol, Some(SessionProtocol::Sftp));
    assert_eq!(parsed.host, Some("second".to_string()));
    assert_eq!(parsed.port, Some("2200".to_string()));
    assert_eq!(parsed.local, None);
}

#[test]
fn remote_ports_default_to_the_protocol_port() {
    let parsed = parse_remote_args(strings(&["--protocol", "sftp", "--host", "h", "--username", "u"])).expect("parse");
    assert_eq!(
        remote_host_port_username(&parsed).expect("triple"),
        ("h".to_string(), "22".to_string(), "u".to_string())
    );
    let local = parse_remote_args(strings(&["--protocol", "local", "--host", "h", "--username", "u"])).expect("parse");
    assert_eq!(remote_host_port_username(&local).expect_err("port"), "--port is required");
    let none = parse_remote_args(strings(&[])).expect("parse");
    assert_eq!(remote_host_port_username(&none).expect_err("protocol"), "--protocol is required");
}

#[test]
fn transfers_are_routed_by_protocol() {
    let base = ["--host", "h", "--username", "u", "--local", "/l", "--remote", "/r"];
    let mut args = strings(&["--protocol", "sftp"]);
    args.extend(strings(&base));
    match plan_remote_transfer(parse_remote_args(args).expect("parse"), TransferKind::Download).expect("route") {
        TransferRoute::Sftp { first, second, exact_destination, conflict_policy, port, .. } => {
            assert_eq!(first, "/r");
            assert_eq!(second, "/l");
            assert!(!exact_destination);
            assert_eq!(conflict_policy, FileConflictPolicy::Replace);
            assert_eq!(port, "22");
        }
        other => panic!("unexpected route: {other:?}"),
    }

    let mut args = strings(&["--protocol", "sftp", "--conflict", "keep-both"]);
    args.extend(strings(&base));
    assert_eq!(
        exit_of(plan_remote_transfer(parse_remote_args(args).expect("parse"), TransferKind::Download)),
        ("--conflict is only valid for uploads".to_string(), 2)
    );

    let mut args = strings(&["--protocol", "scp", "--conflict", "keep-both"]);
    args.extend(strings(&base));
    assert_eq!(
        exit_of(plan_remote_transfer(parse_remote_args(args).expect("parse"), TransferKind::Upload)),
        ("SCP cannot inspect remote conflicts; use SFTP for keep-existing or keep-both".to_string(), 1)
    );

    let mut args = strings(&["--protocol", "webdav", "--port", "443"]);
    args.extend(strings(&base));
    assert_eq!(
        exit_of(plan_remote_transfer(parse_remote_args(args).expect("parse"), TransferKind::Upload)),
        (
            "WebDAV adapter is not implemented yet; currently SFTP, SCP, FTP, and explicit FTPS are live".to_string(),
            1
        )
    );

    let args = strings(&["--protocol", "ftp", "--host", "h", "--username", "u", "--local", "/l"]);
    assert_eq!(
        exit_of(plan_remote_transfer(parse_remote_args(args).expect("parse"), TransferKind::Upload)),
        ("--remote is required".to_string(), 2)
    );
}

#[test]
fn path_commands_are_routed_by_protocol() {
    let args = strings(&["--protocol", "ftps", "--host", "h", "--username", "u"]);
    match plan_remote_path_command(parse_remote_args(args).expect("parse"), PathCommand::List).expect("route") {
        PathRoute::Ftp { protocol, port, path, .. } => {
            assert_eq!(protocol, SessionProtocol::Ftps);
            assert_eq!(port, "21");
            assert_eq!(path, "/");
        }
        other => panic!("unexpected route: {other:?}"),
    }
    let args = strings(&["--protocol", "sftp", "--host", "h", "--username", "u"]);
    assert_eq!(
        exit_of(plan_remote_path_command(parse_remote_args(args).expect("parse"), PathCommand::Mkdir)),
        ("--path is required".to_string(), 2)
    );
    let args = strings(&["--protocol", "scp", "--host", "h", "--username", "u", "--path", "/x"]);
    assert_eq!(
        exit_of(plan_remote_path_command(parse_remote_args(args).expect("parse"), PathCommand::Delete)),
        ("SCP is transfer-only; remote-delete is unsupported".to_string(), 1)
    );
}

#[test]
fn renames_are_only_live_for_ftp() {
    let args = strings(&["--protocol", "sftp", "--host", "h", "--username", "u", "--from", "a", "--to", "b"]);
    assert_eq!(
        exit_of(plan_remote_rename(parse_remote_args(args).expect("parse"))),
        ("remote-rename is not available for SFTP yet".to_string(), 1)
    );
    let args = strings(&["--protocol", "ftp", "--host", "h", "--username", "u", "--from", "a", "--to", "b"]);
    let (protocol, _, port, _, from, to) = plan_remote_rename(parse_remote_args(args).expect("parse")).expect("rename");
    assert_eq!(protocol, SessionProtocol::Ftp);
    assert_eq!((port.as_str(), from.as_str(), to.as_str()), ("21", "a", "b"));
}

#[test]
fn session_save_arguments_build_a_profile() {
    let (file, profile) = parse_session_save_args(&strings(&[
        "s.tsv", "site", "example.com", "2222", "alice", " ", "vault://x",
    ]))
    .expect("seven arguments");
    assert_eq!(file, "s.tsv");
    assert_eq!(profile.protocol, SessionProtocol::Sftp);
    assert_eq!(profile.name, "site");
    assert_eq!(profile.port, Some(2222));
    assert_eq!(profile.username, Some("alice".to_string()));
    assert_eq!(profile.initial_remote_path, None);
    assert_eq!(profile.credential_ref, Some("vault://x".to_string()));

    let (_, ftp) = parse_session_save_args(&strings(&["s.tsv", "FTP", "site", "h", "21", "", "/", ""])).expect("eight");
    assert_eq!(ftp.protocol, SessionProtocol::Ftp);
    assert_eq!(ftp.username, None);

    assert_eq!(
        exit_of(parse_session_save_args(&strings(&["s.tsv", "site", "h", "70000", "u", "/", "r"]))),
        ("session-save failed: port must be 1-65535".to_string(), 2)
    );
    assert_eq!(
        exit_of(parse_session_save_args(&strings(&["s.tsv", "gopher", "site", "h", "1", "u", "/", "r"]))),
        ("session-save failed: invalid protocol".to_string(), 2)
    );
    assert!(matches!(parse_session_save_args(&strings(&["s.tsv"])), Err(CliFailure::Usage)));
}

#[test]
fn local_copy_arguments_default_to_always() {
    assert_eq!(
        parse_local_copy_args(&strings(&["a", "b"])).expect("two"),
        ("a".to_string(), "b".to_string(), OverwriteMode::Always)
    );
    assert_eq!(parse_local_copy_args(&strings(&["a", "b", "if-newer"])).expect("three").2, OverwriteMode::IfNewer);
    assert_eq!(
        exit_of(parse_local_copy_args(&strings(&["a", "b", "sometimes"]))),
        ("unknown overwrite mode: sometimes".to_string(), 2)
    );
    assert!(matches!(parse_local_copy_args(&strings(&["a"])), Err(CliFailure::Usage)));
    assert_eq!(parse_overwrite_mode("resume"), Ok(OverwriteMode::Resume));
}

#[test]
fn ssh_secrets_prefer_private_keys() {
    match ssh_secret_from_values("SFTP", Some("/k".to_string()), Some(String::new()), Some("pw".to_string())) {
        Ok(CredentialSecret::PrivateKey { private_key_path, passphrase }) => {
            assert_eq!(private_key_path, "/k");
            assert!(passphrase.is_none());
        }
        _ => panic!("expected a private key"),
    }
    match ssh_secret_from_values("SFTP", Some(" ".to_string()), None, Some("pw".to_string())) {
        Ok(CredentialSecret::Password(secret)) => assert_eq!(secret.expose(), "pw"),
        _ => panic!("expected a password"),
    }
    match ssh_secret_from_values("SCP", None, None, None) {
        Err(ScpError::Backend(message)) => assert_eq!(
            message,
            "CROSSSCP_REMOTE_PASSWORD/CROSSSCP_SCP_PASSWORD or CROSSSCP_REMOTE_PRIVATE_KEY_PATH/CROSSSCP_SCP_KEY_PATH is required"
        ),
        _ => panic!("expected an error"),
    }
    assert!(matches!(
        ssh_secret_from_values("SCP", None, None, Some(String::new())),
        Err(ScpError::Security(SecurityError::EmptySecret))
    ));
    assert!(matches!(ftp_secret_from_value(None), Err(FtpError::Backend(_))));
    assert!(matches!(ftp_secret_from_value(Some("pw".to_string())), Ok(CredentialSecret::Password(_))));
}

#[test]
fn ssh_timeouts_default_to_five_minutes() {
    assert_eq!(ssh_timeout_secs(None), 300);
    assert_eq!(ssh_timeout_secs(Some("0".to_string())), 300);
    assert_eq!(ssh_timeout_secs(Some("x".to_string())), 300);
    assert_eq!(ssh_timeout_secs(Some("15".to_string())), 15);
}

#[test]
fn small_cli_helpers() {
    assert_eq!(capabilities_for(&SessionProtocol::Local), ProtocolCapabilities::empty());
    assert_eq!(capabilities_for(&SessionProtocol::Ftps), ProtocolCapabilities::ftp_like(true));
    assert_eq!(protocol_label(&SessionProtocol::WebDav), "webdav");
    assert_eq!(non_empty("  ".to_string()), None);
    assert_eq!(non_empty("x".to_string()), Some("x".to_string()));
    assert_eq!(parse_port_arg("+22"), Some(22));
    assert_eq!(parse_port_arg("65536"), None);
}
