//! Local file system adapter: path resolution under an optional root, the
//! decisions of a local copy job (overwrite handling, prompting, progress),
//! queue bookkeeping around a job, name ordering of listings, and the
//! removal and rename rules. The file operations themselves are performed
//! by the caller between these steps.

use vstd::prelude::*;

use crate::config::{io_error_text, opt_view};
use crate::prompts::{OverwritePrompt, PromptBroker, PromptError, PromptRequest, PromptResponse};
use crate::protocol::{ProtocolCapabilities, RemoteFile, RenameOptions};
use crate::session::{SessionProfile, SessionProtocol};
use crate::ssh::local_join;
use crate::text::{chars_of, push_char, push_str};
use crate::transfer::{
    decide_overwrite, overwrite_decision, OverwriteDecision, OverwriteMode, StateView, TransferDirection,
    TransferFileMetadata, TransferJob, TransferJobId, TransferProgress, TransferQueue, TransferQueueError,
    TransferState, first_queued_at, has_queued, holds_at, with_state, JobView, queue_ok, lemma_ids_unique,
};

verus! {

/// Errors of the local file system adapter.
#[derive(Debug)]
pub enum LocalFsError {
    InvalidProtocol(SessionProtocol),
    DestinationExists(String),
    UnsupportedOverwriteMode(OverwriteMode),
    Prompt(PromptError),
    Io(std::io::Error),
}

impl LocalFsError {
    /// `m` is the error's message, as its `Display` writes it; an I/O error
    /// adds the text of the underlying error.
    pub open spec fn message_is(&self, m: Seq<char>) -> bool {
        match self {
            LocalFsError::InvalidProtocol(p) => m == "local filesystem adapter cannot connect to "@ + p.variant_name(),
            LocalFsError::DestinationExists(d) => m == "destination already exists: "@ + d@,
            LocalFsError::UnsupportedOverwriteMode(o) => m == "unsupported local overwrite mode: "@ + o.variant_name(),
            LocalFsError::Prompt(e) => m == "prompt error: "@ + e.text(),
            LocalFsError::Io(_) => exists|t: Seq<char>| m == "local filesystem error: "@ + t,
        }
    }

    /// The error message.
    pub fn message(&self) -> (r: String)
        ensures
            self.message_is(r@),
    {
        match self {
            LocalFsError::InvalidProtocol(p) => {
                let mut r = String::from_str("local filesystem adapter cannot connect to ");
                push_str(&mut r, p.debug_name());
                r
            },
            LocalFsError::DestinationExists(d) => {
                let mut r = String::from_str("destination already exists: ");
                push_str(&mut r, d.as_str());
                r
            },
            LocalFsError::UnsupportedOverwriteMode(m) => {
                let mut r = String::from_str("unsupported local overwrite mode: ");
                push_str(&mut r, m.debug_name());
                r
            },
            LocalFsError::Prompt(e) => {
                let mut r = String::from_str("prompt error: ");
                push_str(&mut r, e.message());
                r
            },
            LocalFsError::Io(e) => {
                let mut r = String::from_str("local filesystem error: ");
                let t = io_error_text(e);
                push_str(&mut r, t.as_str());
                assert(r@ == "local filesystem error: "@ + t@);
                r
            },
        }
    }
}

/// Local file system adapter rooted at an optional base directory.
#[derive(Debug, Default)]
pub struct LocalFileSystem {
    root: Option<String>,
    connected: bool,
}

/// A path under an optional root: an absolute path stands for itself; a
/// relative one is joined under the root, as `Path::join` joins it.
pub open spec fn resolved(root: Option<Seq<char>>, path: Seq<char>) -> Seq<char> {
    if path.len() > 0 && path[0] == '/' {
        path
    } else {
        match root {
            Some(r) => local_join(r, path),
            None => path,
        }
    }
}

impl LocalFileSystem {
    pub closed spec fn root_spec(&self) -> Option<Seq<char>> {
        opt_view(self.root)
    }

    pub closed spec fn connected_spec(&self) -> bool {
        self.connected
    }

    /// An adapter without a root, not connected.
    pub fn new() -> (r: Self)
        ensures
            r.root_spec() is None,
            !r.connected_spec(),
    {
        LocalFileSystem { root: None, connected: false }
    }

    /// An adapter whose relative paths are taken under `root`, not connected.
    pub fn with_root(root: &str) -> (r: Self)
        ensures
            r.root_spec() == Some(root@),
            !r.connected_spec(),
    {
        LocalFileSystem { root: Some(root.to_owned()), connected: false }
    }

    pub fn is_connected(&self) -> (r: bool)
        ensures
            r == self.connected_spec(),
    {
        self.connected
    }

    /// The path that `path` stands for under the adapter's root.
    pub fn resolve(&self, path: &str) -> (r: String)
        ensures
            r@ == resolved(self.root_spec(), path@),
    {
        let p = chars_of(path);
        if p.len() > 0 && p[0] == '/' {
            return path.to_owned();
        }
        match &self.root {
            None => path.to_owned(),
            Some(root) => {
                let mut out = root.clone();
                let rc = chars_of(root.as_str());
                if rc.len() == 0 {
                    return path.to_owned();
                }
                if rc[rc.len() - 1] != '/' {
                    push_char(&mut out, '/');
                }
                push_str(&mut out, path);
                out
            },
        }
    }

    /// Connects to a local profile; any other protocol is refused.
    pub fn connect(&mut self, profile: &SessionProfile) -> (r: Result<(), LocalFsError>)
        ensures
            final(self).root_spec() == old(self).root_spec(),
            profile.protocol == SessionProtocol::Local ==> r is Ok && final(self).connected_spec(),
            profile.protocol != SessionProtocol::Local ==> (r matches Err(LocalFsError::InvalidProtocol(p))
                && p == profile.protocol) && final(self).connected_spec() == old(self).connected_spec(),
    {
        if profile.protocol != SessionProtocol::Local {
            return Err(LocalFsError::InvalidProtocol(profile.protocol));
        }
        self.connected = true;
        Ok(())
    }

    pub fn disconnect(&mut self) -> (r: Result<(), LocalFsError>)
        ensures
            r is Ok,
            final(self).root_spec() == old(self).root_spec(),
            !final(self).connected_spec(),
    {
        self.connected = false;
        Ok(())
    }

    /// The resolved source and destination of a local copy job; jobs of
    /// another direction are refused.
    pub fn local_copy_paths(&self, job: &TransferJob) -> (r: Result<(String, String), LocalFsError>)
        ensures
            job.direction != TransferDirection::LocalCopy ==> r matches Err(
                LocalFsError::InvalidProtocol(SessionProtocol::Local),
            ),
            job.direction == TransferDirection::LocalCopy ==> (r matches Ok((s, d)) && s@ == resolved(
                self.root_spec(),
                job.source@,
            ) && d@ == resolved(self.root_spec(), job.destination@)),
    {
        if job.direction != TransferDirection::LocalCopy {
            return Err(LocalFsError::InvalidProtocol(SessionProtocol::Local));
        }
        Ok((self.resolve(job.source.as_str()), self.resolve(job.destination.as_str())))
    }
}

/// What the local file system supports; permission bits exist only on Unix.
pub open spec fn local_capabilities_spec(unix: bool) -> ProtocolCapabilities {
    ProtocolCapabilities {
        can_list: true,
        can_upload: true,
        can_download: true,
        can_delete: true,
        can_mkdir: true,
        can_rename: true,
        can_recursive_transfer: true,
        can_resume_upload: true,
        can_resume_download: true,
        can_preserve_timestamps: true,
        can_preserve_permissions: unix,
        can_chmod: unix,
        can_symlink: true,
        can_hash: false,
        can_server_side_copy: true,
        supports_random_access: true,
        uses_real_directories: true,
        uses_object_prefixes: false,
        requires_bucket: false,
        supports_tls_policy: false,
        supports_http_version_policy: false,
    }
}

/// What the local file system supports on a Unix (`unix`) or other host.
pub fn local_capabilities(unix: bool) -> (r: ProtocolCapabilities)
    ensures
        r == local_capabilities_spec(unix),
{
    ProtocolCapabilities {
        can_list: true,
        can_upload: true,
        can_download: true,
        can_delete: true,
        can_mkdir: true,
        can_rename: true,
        can_recursive_transfer: true,
        can_resume_upload: true,
        can_resume_download: true,
        can_preserve_timestamps: true,
        can_preserve_permissions: unix,
        can_chmod: unix,
        can_symlink: true,
        can_hash: false,
        can_server_side_copy: true,
        supports_random_access: true,
        uses_real_directories: true,
        uses_object_prefixes: false,
        requires_bucket: false,
        supports_tls_policy: false,
        supports_http_version_policy: false,
    }
}

/// How a path is removed.
#[derive(Clone, Copy, Debug, PartialEq, Eq, Structural)]
pub enum RemovalKind {
    /// A directory with everything in it.
    DirectoryTree,
    /// A directory that must be empty.
    EmptyDirectory,
    /// A file or a symbolic link (never followed).
    File,
}

/// How to remove a path: a real directory (not a link to one) is removed with
/// its contents only when asked to recurse; anything else is unlinked.
pub fn removal_kind(is_directory: bool, is_symlink: bool, recursive: bool) -> (r: RemovalKind)
    ensures
        r == (if is_directory && !is_symlink {
            if recursive {
                RemovalKind::DirectoryTree
            } else {
                RemovalKind::EmptyDirectory
            }
        } else {
            RemovalKind::File
        }),
{
    if is_directory && !is_symlink {
        if recursive {
            RemovalKind::DirectoryTree
        } else {
            RemovalKind::EmptyDirectory
        }
    } else {
        RemovalKind::File
    }
}

/// Whether a rename must first remove an existing destination: an existing
/// destination is an error unless overwriting was asked for, in which case it
/// is removed first.
pub fn rename_plan(options: RenameOptions, destination: &str, destination_exists: bool) -> (r: Result<bool, LocalFsError>)
    ensures
        !options.overwrite && destination_exists ==> (r matches Err(LocalFsError::DestinationExists(d))
            && d@ == destination@),
        !(!options.overwrite && destination_exists) ==> r == Ok::<bool, LocalFsError>(
            options.overwrite && destination_exists,
        ),
{
    if !options.overwrite && destination_exists {
        return Err(LocalFsError::DestinationExists(destination.to_owned()));
    }
    Ok(options.overwrite && destination_exists)
}

/// What a local copy job does with its destination.
#[derive(Clone, Copy, Debug, PartialEq, Eq, Structural)]
pub enum LocalCopyAction {
    CopyFromStart,
    ResumeFrom(u64),
    Skip,
}

/// `request` asks whether to overwrite `destination` with `source`, giving
/// both sizes.
pub open spec fn asks_overwrite(
    request: PromptRequest,
    source: Seq<char>,
    destination: Seq<char>,
    source_meta: TransferFileMetadata,
    destination_meta: Option<TransferFileMetadata>,
) -> bool {
    match request {
        PromptRequest::Overwrite(p) => {
            &&& p.source@ == source
            &&& p.destination@ == destination
            &&& p.source_size == Some(source_meta.size)
            &&& p.destination_size == match destination_meta {
                Some(d) => Some(d.size),
                None => None,
            }
        },
        _ => false,
    }
}

/// The action an overwrite prompt's answer stands for: accepting copies from
/// the start, rejecting skips, cancelling or a broker failure is an error.
pub open spec fn action_for(response: Result<PromptResponse, PromptError>) -> Result<LocalCopyAction, PromptError> {
    match response {
        Err(e) => Err(e),
        Ok(PromptResponse::Accept) => Ok(LocalCopyAction::CopyFromStart),
        Ok(PromptResponse::AcceptAll) => Ok(LocalCopyAction::CopyFromStart),
        Ok(PromptResponse::RememberAccepted) => Ok(LocalCopyAction::CopyFromStart),
        Ok(PromptResponse::Reject) => Ok(LocalCopyAction::Skip),
        Ok(PromptResponse::RejectAll) => Ok(LocalCopyAction::Skip),
        Ok(PromptResponse::Cancel) => Err(PromptError::Cancelled),
    }
}

/// Decides what a local copy does with its destination, given the metadata
/// of the source and of the destination (when it exists). The transfer
/// options decide; `Ask` puts the question to the broker, and fails as
/// unavailable without one.
pub fn decide_local_copy<B: PromptBroker>(
    mode: OverwriteMode,
    source: &str,
    destination: &str,
    source_meta: TransferFileMetadata,
    destination_meta: Option<TransferFileMetadata>,
    broker: Option<&B>,
) -> (r: Result<LocalCopyAction, LocalFsError>)
    ensures
        match overwrite_decision(mode, source_meta, destination_meta) {
            OverwriteDecision::CopyFromStart => r == Ok::<LocalCopyAction, LocalFsError>(LocalCopyAction::CopyFromStart),
            OverwriteDecision::ResumeFrom(o) => r == Ok::<LocalCopyAction, LocalFsError>(LocalCopyAction::ResumeFrom(o)),
            OverwriteDecision::Skip => r == Ok::<LocalCopyAction, LocalFsError>(LocalCopyAction::Skip),
            OverwriteDecision::Unsupported => r matches Err(LocalFsError::UnsupportedOverwriteMode(m)) && m == mode,
            OverwriteDecision::Prompt => match broker {
                None => r matches Err(LocalFsError::Prompt(PromptError::Unavailable)),
                Some(b) => exists|request: PromptRequest, response: Result<PromptResponse, PromptError>|
                    asks_overwrite(request, source@, destination@, source_meta, destination_meta)
                        && #[trigger] b.answers(request, response) && match action_for(response) {
                        Ok(a) => r == Ok::<LocalCopyAction, LocalFsError>(a),
                        Err(e) => r matches Err(LocalFsError::Prompt(f)) && f == e,
                    },
            },
        },
{
    match decide_overwrite(mode, source_meta, destination_meta) {
        OverwriteDecision::CopyFromStart => Ok(LocalCopyAction::CopyFromStart),
        OverwriteDecision::ResumeFrom(o) => Ok(LocalCopyAction::ResumeFrom(o)),
        OverwriteDecision::Skip => Ok(LocalCopyAction::Skip),
        OverwriteDecision::Unsupported => Err(LocalFsError::UnsupportedOverwriteMode(mode)),
        OverwriteDecision::Prompt => {
            let b = match broker {
                Some(b) => b,
                None => return Err(LocalFsError::Prompt(PromptError::Unavailable)),
            };
            let request = PromptRequest::Overwrite(
                OverwritePrompt {
                    source: source.to_owned(),
                    destination: destination.to_owned(),
                    source_size: Some(source_meta.size),
                    destination_size: match destination_meta {
                        Some(d) => Some(d.size),
                        None => None,
                    },
                },
            );
            let ghost asked = request;
            let response = b.prompt(request);
            assert(b.answers(asked, response));
            match response {
                Err(e) => Err(LocalFsError::Prompt(e)),
                Ok(PromptResponse::Accept) | Ok(PromptResponse::AcceptAll) | Ok(PromptResponse::RememberAccepted) => Ok(
                    LocalCopyAction::CopyFromStart,
                ),
                Ok(PromptResponse::Reject) | Ok(PromptResponse::RejectAll) => Ok(LocalCopyAction::Skip),
                Ok(PromptResponse::Cancel) => Err(LocalFsError::Prompt(PromptError::Cancelled)),
            }
        },
    }
}

/// The progress a finished local copy job reports: the bytes written of the
/// source's size, for the resolved destination.
pub fn local_copy_progress(
    job: &TransferJob,
    bytes_done: u64,
    source_meta: TransferFileMetadata,
    destination: &str,
) -> (r: TransferProgress)
    ensures
        r.job_id == job.id,
        r.bytes_done == bytes_done,
        r.bytes_total == Some(source_meta.size),
        opt_view(r.current_file) == Some(destination@),
{
    TransferProgress {
        job_id: job.id,
        bytes_done,
        bytes_total: Some(source_meta.size),
        current_file: Some(destination.to_owned()),
    }
}

/// Errors of running a queued job through the local adapter.
#[derive(Debug)]
pub enum LocalTransferQueueError {
    Local(LocalFsError),
    Queue(TransferQueueError),
}

impl LocalTransferQueueError {
    /// The error message: that of the wrapped error.
    pub fn message(&self) -> (r: String)
        ensures
            match self {
                LocalTransferQueueError::Queue(TransferQueueError::UnknownJob(id)) => r@ == "unknown transfer job "@
                    + crate::text::decimal(id.value() as nat),
                LocalTransferQueueError::Local(e) => e.message_is(r@),
            },
    {
        match self {
            LocalTransferQueueError::Local(e) => e.message(),
            LocalTransferQueueError::Queue(e) => e.message(),
        }
    }
}

/// Marks the first queued job as running and hands out a copy of it; `None`
/// when nothing is queued.
pub fn begin_next_local_copy(queue: &mut TransferQueue) -> (r: Result<Option<TransferJob>, LocalTransferQueueError>)
    requires
        old(queue).wf(),
    ensures
        final(queue).wf(),
        match r {
            Ok(Some(job)) => exists|i: int| #![trigger old(queue).jobs_spec()[i]]
                first_queued_at(old(queue).jobs_spec(), i) && job@ == with_state(
                    old(queue).jobs_spec(),
                    i,
                    StateView::Running,
                )[i] && final(queue).jobs_spec() == with_state(old(queue).jobs_spec(), i, StateView::Running),
            Ok(None) => !has_queued(old(queue).jobs_spec()) && final(queue).jobs_spec() == old(queue).jobs_spec(),
            Err(_) => false,
        },
{
    let id = match queue.start_next() {
        Some(id) => id,
        None => return Ok(None),
    };
    let ghost i = choose|i: int| #![trigger old(queue).jobs_spec()[i]]
        first_queued_at(old(queue).jobs_spec(), i) && old(queue).jobs_spec()[i].id == id.value()
            && queue.jobs_spec() == with_state(old(queue).jobs_spec(), i, StateView::Running);
    proof {
        crate::transfer::lemma_start_next_runs_first_queued(old(queue).jobs_spec(), old(queue).next_id_spec(), i);
    }
    match queue.get(id) {
        Some(job) => {
            proof {
                let k = choose|k: int| holds_at(queue.jobs_spec(), id.value(), k) && #[trigger] queue.jobs_spec()[k] == job@;
                crate::transfer::lemma_ids_unique(queue.jobs_spec(), queue.next_id_spec(), id.value(), i, k);
            }
            Ok(Some(job.clone()))
        },
        None => Err(LocalTransferQueueError::Queue(TransferQueueError::UnknownJob(id))),
    }
}

/// Records the outcome of a running job: completed with its progress, or
/// failed with the error's message, which is handed back.
pub fn finish_local_copy(
    queue: &mut TransferQueue,
    id: TransferJobId,
    outcome: Result<TransferProgress, LocalFsError>,
) -> (r: Result<Option<TransferProgress>, LocalTransferQueueError>)
    requires
        old(queue).wf(),
    ensures
        final(queue).wf(),
        match r {
            Ok(Some(p)) => outcome == Ok::<TransferProgress, LocalFsError>(p) && exists|i: int| #![trigger old(queue).jobs_spec()[i]]
                holds_at(old(queue).jobs_spec(), id.value(), i) && final(queue).jobs_spec() == with_state(
                    old(queue).jobs_spec(),
                    i,
                    StateView::Completed,
                ),
            Ok(None) => false,
            Err(LocalTransferQueueError::Local(e)) => outcome matches Err(f) && e == f && exists|i: int, m: Seq<char>|
                #![trigger with_state(old(queue).jobs_spec(), i, StateView::Failed(m))]
                holds_at(old(queue).jobs_spec(), id.value(), i) && f.message_is(m) && final(queue).jobs_spec() == with_state(
                    old(queue).jobs_spec(),
                    i,
                    StateView::Failed(m),
                ),
            Err(LocalTransferQueueError::Queue(e)) => e == TransferQueueError::UnknownJob(id) && (forall|i: int|
                0 <= i < old(queue).jobs_spec().len() ==> #[trigger] old(queue).jobs_spec()[i].id != id.value())
                && final(queue).jobs_spec() == old(queue).jobs_spec(),
        },
{
    match outcome {
        Ok(progress) => {
            match queue.set_state(id, TransferState::Completed) {
                Ok(()) => Ok(Some(progress)),
                Err(e) => Err(LocalTransferQueueError::Queue(e)),
            }
        },
        Err(error) => {
            let message = error.message();
            let ghost m = message@;
            match queue.set_state(id, TransferState::Failed(message)) {
                Ok(()) => {
                    assert(TransferState::Failed(message)@ == StateView::Failed(m));
                    Err(LocalTransferQueueError::Local(error))
                },
                Err(e) => Err(LocalTransferQueueError::Queue(e)),
            }
        },
    }
}

/// Running the next local copy job (`begin_next_local_copy`, the copy, then
/// `finish_local_copy` with its id) takes the first queued job through
/// running to its end state `s`, completed or failed, and leaves every other
/// job as it was.
pub proof fn lemma_run_next_local_copy(jobs: Seq<JobView>, next_id: u64, i: int, k: int, s: StateView)
    requires
        queue_ok(jobs, next_id),
        first_queued_at(jobs, i),
        holds_at(with_state(jobs, i, StateView::Running), jobs[i].id, k),
    ensures
        with_state(with_state(jobs, i, StateView::Running), k, s) == with_state(jobs, i, s),
        with_state(jobs, i, s)[i].state == s,
        with_state(jobs, i, s)[i].id == jobs[i].id,
        forall|j: int| 0 <= j < jobs.len() && j != i ==> #[trigger] with_state(jobs, i, s)[j] == jobs[j],
{
    let q1 = with_state(jobs, i, StateView::Running);
    assert(q1[k].id == jobs[k].id);
    lemma_ids_unique(jobs, next_id, jobs[i].id, i, k);
    assert(with_state(q1, k, s) =~= with_state(jobs, i, s));
}

} // verus!
