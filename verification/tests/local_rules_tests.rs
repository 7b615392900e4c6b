use crossscp::local::{
    begin_next_local_copy, decide_local_copy, finish_local_copy, local_capabilities, local_copy_progress,
    removal_kind, rename_plan, LocalCopyAction, LocalFileSystem, LocalFsError, LocalTransferQueueError, RemovalKind,
};
use crossscp::prompts::{FixedPromptBroker, PromptError};
use crossscp::protocol::{numbered_conflict_path, sort_by_name, RemoteFile, RenameOptions};
use crossscp::session::{SessionProfile, SessionProtocol};
use crossscp::transfer::{
    OverwriteMode, TransferDirection, TransferFileMetadata, TransferJobId, TransferOptions, TransferProgress,
    TransferQueue, TransferState,
};

fn meta(size: u64, modified: Option<i128>) -> TransferFileMetadata {
    TransferFileMetadata { size, modified }
}

fn file(name: &str) -> RemoteFile {
    RemoteFile {
        path: format!("/{name}"),
        name: name.to_string(),
        size: None,
        is_directory: false,
        is_symlink: false,
        permissions: None,
    }
}

#[test]
fn local_connect_refuses_remote_profiles() {
    let mut adapter = LocalFileSystem::new();
    let mut profile = SessionProfile::local("remote");
    profile.protocol = SessionProtocol::Sftp;
    let result = adapter.connect(&profile);
    assert!(matches!(result, Err(LocalFsError::InvalidProtocol(SessionProtocol::Sftp))));
    assert!(!adapter.is_connected());
    assert_eq!(
        result.unwrap_err().message(),
        "local filesystem adapter cannot connect to Sftp"
    );
}

#[test]
fn local_disconnect_clears_connection() {
    let mut adapter = LocalFileSystem::new();
    adapter.connect(&SessionProfile::local("local")).unwrap();
    adapter.disconnect().unwrap();
    assert!(!adapter.is_connected());
}

#[test]
fn resolve_joins_relative_paths_under_root() {
    let adapter = LocalFileSystem::with_root("/srv/data");
    assert_eq!(adapter.resolve("a/b.txt"), "/srv/data/a/b.txt");
    assert_eq!(adapter.resolve("/etc/hosts"), "/etc/hosts");
    let slash = LocalFileSystem::with_root("/srv/");
    assert_eq!(slash.resolve("x"), "/srv/x");
    let bare = LocalFileSystem::new();
    assert_eq!(bare.resolve("x"), "x");
}

#[test]
fn local_copy_paths_refuse_other_directions() {
    let adapter = LocalFileSystem::with_root("/root");
    let mut queue = TransferQueue::new();
    let copy = queue.enqueue(TransferDirection::LocalCopy, "a", "/b", TransferOptions::default());
    let upload = queue.enqueue(TransferDirection::Upload, "a", "b", TransferOptions::default());
    let (source, destination) = adapter.local_copy_paths(queue.get(copy).unwrap()).unwrap();
    assert_eq!(source, "/root/a");
    assert_eq!(destination, "/b");
    assert!(matches!(
        adapter.local_copy_paths(queue.get(upload).unwrap()),
        Err(LocalFsError::InvalidProtocol(SessionProtocol::Local))
    ));
}

#[test]
fn local_capabilities_follow_platform() {
    let unix = local_capabilities(true);
    assert!(unix.can_chmod && unix.can_preserve_permissions);
    let other = local_capabilities(false);
    assert!(!other.can_chmod && !other.can_preserve_permissions);
    assert!(other.can_list && other.can_server_side_copy && !other.can_hash);
}

#[test]
fn removal_kind_never_follows_links() {
    assert_eq!(removal_kind(true, false, true), RemovalKind::DirectoryTree);
    assert_eq!(removal_kind(true, false, false), RemovalKind::EmptyDirectory);
    assert_eq!(removal_kind(true, true, true), RemovalKind::File);
    assert_eq!(removal_kind(false, false, true), RemovalKind::File);
}

#[test]
fn rename_plan_refuses_existing_destination_without_overwrite() {
    let refused = rename_plan(RenameOptions { overwrite: false }, "/x", true);
    match refused {
        Err(e) => assert_eq!(e.message(), "destination already exists: /x"),
        Ok(_) => panic!("existing destination must be refused"),
    }
    assert!(matches!(rename_plan(RenameOptions { overwrite: true }, "/x", true), Ok(true)));
    assert!(matches!(rename_plan(RenameOptions { overwrite: true }, "/x", false), Ok(false)));
    assert!(matches!(rename_plan(RenameOptions { overwrite: false }, "/x", false), Ok(false)));
}

#[test]
fn local_copy_decisions_follow_mode() {
    let none: Option<&FixedPromptBroker> = None;
    let r = decide_local_copy(OverwriteMode::Never, "a", "b", meta(5, None), Some(meta(3, None)), none);
    assert!(matches!(r, Ok(LocalCopyAction::Skip)));
    let r = decide_local_copy(OverwriteMode::Never, "a", "b", meta(5, None), None, none);
    assert!(matches!(r, Ok(LocalCopyAction::CopyFromStart)));
    let r = decide_local_copy(OverwriteMode::Resume, "a", "b", meta(5, None), Some(meta(3, None)), none);
    assert!(matches!(r, Ok(LocalCopyAction::ResumeFrom(3))));
    let r = decide_local_copy(OverwriteMode::Resume, "a", "b", meta(5, None), Some(meta(9, None)), none);
    match r {
        Err(e) => assert_eq!(e.message(), "unsupported local overwrite mode: Resume"),
        Ok(_) => panic!("longer destination cannot be resumed"),
    }
    let r = decide_local_copy(OverwriteMode::IfNewer, "a", "b", meta(5, Some(20)), Some(meta(5, Some(10))), none);
    assert!(matches!(r, Ok(LocalCopyAction::CopyFromStart)));
    let r = decide_local_copy(OverwriteMode::IfNewer, "a", "b", meta(5, Some(10)), Some(meta(5, Some(10))), none);
    assert!(matches!(r, Ok(LocalCopyAction::Skip)));
}

#[test]
fn local_copy_asks_broker_only_in_ask_mode() {
    let none: Option<&FixedPromptBroker> = None;
    let r = decide_local_copy(OverwriteMode::Ask, "a", "b", meta(5, None), Some(meta(3, None)), none);
    assert!(matches!(r, Err(LocalFsError::Prompt(PromptError::Unavailable))));

    let accept = FixedPromptBroker::accept();
    let r = decide_local_copy(OverwriteMode::Ask, "a", "b", meta(5, None), Some(meta(3, None)), Some(&accept));
    assert!(matches!(r, Ok(LocalCopyAction::CopyFromStart)));

    let reject = FixedPromptBroker::reject();
    let r = decide_local_copy(OverwriteMode::Ask, "a", "b", meta(5, None), Some(meta(3, None)), Some(&reject));
    assert!(matches!(r, Ok(LocalCopyAction::Skip)));

    let cancel = FixedPromptBroker::cancel();
    let r = decide_local_copy(OverwriteMode::Ask, "a", "b", meta(5, None), Some(meta(3, None)), Some(&cancel));
    match r {
        Err(e) => assert_eq!(e.message(), "prompt error: prompt cancelled"),
        Ok(_) => panic!("cancelled prompt must fail"),
    }

    let r = decide_local_copy(OverwriteMode::Ask, "a", "b", meta(5, None), None, Some(&cancel));
    assert!(matches!(r, Ok(LocalCopyAction::CopyFromStart)));
}

#[test]
fn local_copy_progress_reports_destination_and_size() {
    let mut queue = TransferQueue::new();
    let id = queue.enqueue(TransferDirection::LocalCopy, "a", "b", TransferOptions::default());
    let progress = local_copy_progress(queue.get(id).unwrap(), 7, meta(7, None), "/dest/b");
    assert_eq!(progress.job_id, id);
    assert_eq!(progress.bytes_done, 7);
    assert_eq!(progress.bytes_total, Some(7));
    assert_eq!(progress.current_file.as_deref(), Some("/dest/b"));
}

#[test]
fn queued_local_copy_runs_and_completes() {
    let mut queue = TransferQueue::new();
    assert!(matches!(begin_next_local_copy(&mut queue), Ok(None)));
    let id = queue.enqueue(TransferDirection::LocalCopy, "a", "b", TransferOptions::default());
    let job = begin_next_local_copy(&mut queue).unwrap().unwrap();
    assert_eq!(job.id, id);
    assert_eq!(job.state, TransferState::Running);
    let progress = TransferProgress { job_id: id, bytes_done: 1, bytes_total: Some(1), current_file: None };
    let done = finish_local_copy(&mut queue, id, Ok(progress)).unwrap();
    assert_eq!(
        done,
        Some(TransferProgress { job_id: id, bytes_done: 1, bytes_total: Some(1), current_file: None })
    );
    assert_eq!(queue.get(id).unwrap().state, TransferState::Completed);
}

#[test]
fn failed_local_copy_records_message() {
    let mut queue = TransferQueue::new();
    let id = queue.enqueue(TransferDirection::LocalCopy, "a", "b", TransferOptions::default());
    begin_next_local_copy(&mut queue).unwrap();
    let outcome = Err(LocalFsError::DestinationExists("b".to_string()));
    let r = finish_local_copy(&mut queue, id, outcome);
    assert!(matches!(r, Err(LocalTransferQueueError::Local(LocalFsError::DestinationExists(_)))));
    assert_eq!(
        queue.get(id).unwrap().state,
        TransferState::Failed("destination already exists: b".to_string())
    );
}

#[test]
fn finishing_unknown_local_job_reports_queue_error() {
    let mut queue = TransferQueue::new();
    let progress = TransferProgress {
        job_id: TransferJobId::from_u64(42),
        bytes_done: 0,
        bytes_total: None,
        current_file: None,
    };
    let r = finish_local_copy(&mut queue, TransferJobId::from_u64(42), Ok(progress));
    match r {
        Err(e) => assert_eq!(e.message(), "unknown transfer job 42"),
        Ok(_) => panic!("unknown job must be reported"),
    }
}

#[test]
fn listing_sorts_by_name_keeping_ties() {
    let mut second_b = file("b");
    second_b.size = Some(2);
    let mut first_b = file("b");
    first_b.size = Some(1);
    let sorted = sort_by_name(vec![file("c"), first_b, file("a"), second_b, file("B")]);
    let names: Vec<&str> = sorted.iter().map(|f| f.name.as_str()).collect();
    assert_eq!(names, vec!["B", "a", "b", "b", "c"]);
    assert_eq!(sorted[2].size, Some(1));
    assert_eq!(sorted[3].size, Some(2));
    assert!(sort_by_name(Vec::<RemoteFile>::new()).is_empty());
}

#[test]
fn numbered_siblings_are_new_and_distinct() {
    let first = numbered_conflict_path("/up/report.pdf", 1, false);
    let second = numbered_conflict_path("/up/report.pdf", 2, false);
    assert_eq!(first, "/up/report (1).pdf");
    assert_eq!(second, "/up/report (2).pdf");
    assert_ne!(first, second);
    assert_eq!(numbered_conflict_path("/up/report.pdf", 0, false), first);
    assert_eq!(numbered_conflict_path("/", 1, true), "/ (1)");
    assert_eq!(numbered_conflict_path("", 12, false), " (12)");
}

#[test]
fn io_errors_show_their_text() {
    let local = LocalFsError::Io(std::io::Error::new(std::io::ErrorKind::Other, "disk full"));
    assert_eq!(local.message(), "local filesystem error: disk full");
    let config = crossscp::config::ConfigError::Io(std::io::Error::new(std::io::ErrorKind::Other, "denied"));
    assert_eq!(config.message(), "config I/O error: denied");
}
