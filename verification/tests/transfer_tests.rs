use crossscp::transfer::{
    decide_overwrite, OverwriteDecision, OverwriteMode, TransferDirection, TransferFileMetadata,
    TransferJobId, TransferOptions, TransferQueue, TransferQueueError, TransferState,
};

const NANOS_PER_SECOND: i128 = 1_000_000_000;

#[test]
fn queue_assigns_stable_incrementing_ids() {
    let mut queue = TransferQueue::new();

    let first = queue.enqueue(TransferDirection::Upload, "a", "b", TransferOptions::default());
    let second = queue.enqueue(TransferDirection::Download, "c", "d", TransferOptions::default());

    assert_eq!(first.as_u64(), 1);
    assert_eq!(second.as_u64(), 2);
    assert_eq!(queue.len(), 2);
}

#[test]
fn start_next_selects_first_queued_job() {
    let mut queue = TransferQueue::new();
    let first = queue.enqueue(TransferDirection::Upload, "a", "b", TransferOptions::default());
    let second = queue.enqueue(TransferDirection::Upload, "c", "d", TransferOptions::default());

    assert_eq!(queue.start_next(), Some(first));
    assert_eq!(queue.get(first).expect("first job exists").state, TransferState::Running);
    assert_eq!(queue.get(second).expect("second job exists").state, TransferState::Queued);
}

#[test]
fn next_queued_peeks_without_changing_state() {
    let mut queue = TransferQueue::new();
    let first = queue.enqueue(TransferDirection::Upload, "a", "b", TransferOptions::default());

    let next = queue.next_queued().expect("queued job exists");

    assert_eq!(next.id, first);
    assert_eq!(next.state, TransferState::Queued);
}

#[test]
fn remove_finished_keeps_active_jobs() {
    let mut queue = TransferQueue::new();
    let completed = queue.enqueue(TransferDirection::Upload, "a", "b", TransferOptions::default());
    let running = queue.enqueue(TransferDirection::Upload, "c", "d", TransferOptions::default());

    queue
        .set_state(completed, TransferState::Completed)
        .expect("completed job exists");
    queue
        .set_state(running, TransferState::Running)
        .expect("running job exists");

    assert_eq!(queue.remove_finished(), 1);
    assert_eq!(queue.len(), 1);
    assert!(queue.get(running).is_some());
}

#[test]
fn setting_state_for_unknown_job_returns_error() {
    let mut queue = TransferQueue::new();
    let result = queue.set_state(TransferJobId::from_u64(42), TransferState::Cancelled);

    assert_eq!(
        result,
        Err(TransferQueueError::UnknownJob(TransferJobId::from_u64(42)))
    );
}

#[test]
fn overwrite_decision_copies_when_destination_is_missing() {
    let source = TransferFileMetadata { size: 10, modified: None };

    assert_eq!(
        decide_overwrite(OverwriteMode::Never, source, None),
        OverwriteDecision::CopyFromStart
    );
}

#[test]
fn overwrite_decision_supports_if_newer_with_timestamps() {
    let old = NANOS_PER_SECOND;
    let new = 2 * NANOS_PER_SECOND;
    let source = TransferFileMetadata { size: 10, modified: Some(new) };
    let destination = TransferFileMetadata { size: 5, modified: Some(old) };

    assert_eq!(
        decide_overwrite(OverwriteMode::IfNewer, source, Some(destination)),
        OverwriteDecision::CopyFromStart
    );

    assert_eq!(
        decide_overwrite(OverwriteMode::IfNewer, destination, Some(source)),
        OverwriteDecision::Skip
    );
}

#[test]
fn overwrite_decision_supports_resume_when_destination_is_shorter() {
    let source = TransferFileMetadata { size: 10, modified: None };
    let destination = TransferFileMetadata { size: 4, modified: None };

    assert_eq!(
        decide_overwrite(OverwriteMode::Resume, source, Some(destination)),
        OverwriteDecision::ResumeFrom(4)
    );
}
