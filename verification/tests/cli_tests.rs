use crossscp::cli::parse_remote_args;
use crossscp::protocol::FileConflictPolicy;

#[test]
fn remote_upload_parses_keep_both_conflict_policy() {
    let parsed = parse_remote_args(vec![
        "--protocol".to_string(),
        "sftp".to_string(),
        "--conflict".to_string(),
        "keep-both".to_string(),
    ])
    .expect("remote arguments parse");

    assert_eq!(parsed.conflict, Some(FileConflictPolicy::KeepBoth));
}

#[test]
fn remote_upload_rejects_unknown_conflict_policy() {
    let error = parse_remote_args(vec!["--conflict".to_string(), "rename-randomly".to_string()])
        .expect_err("unknown policy must fail");

    assert!(error.contains("unknown file conflict policy"));
}
