//! Transfer queue semantics and destination-conflict decisions.

use vstd::prelude::*;

use crate::text::{decimal, decimal_string, push_str};

verus! {

/// Stable identifier for transfer jobs within a queue.
#[derive(Clone, Copy, Debug, PartialEq, Eq, Hash, PartialOrd, Ord, Structural)]
pub struct TransferJobId(u64);

impl TransferJobId {
    pub closed spec fn value(self) -> u64 {
        self.0
    }

    /// The identifier with the given number.
    pub fn from_u64(value: u64) -> (r: Self)
        ensures
            r.value() == value,
    {
        TransferJobId(value)
    }

    pub fn as_u64(self) -> (r: u64)
        ensures
            r == self.value(),
    {
        self.0
    }
}

/// Transfer direction from the point of view of the local user.
#[derive(Clone, Copy, Debug, PartialEq, Eq, Structural)]
pub enum TransferDirection {
    Upload,
    Download,
    LocalCopy,
}

/// Overwrite behaviour for destination conflicts.
#[derive(Clone, Copy, Debug, PartialEq, Eq, Structural)]
pub enum OverwriteMode {
    Ask,
    Always,
    Never,
    IfNewer,
    Resume,
}

impl OverwriteMode {
    /// The variant name, as the derived `Debug` prints it.
    pub open spec fn variant_name(self) -> Seq<char> {
        match self {
            OverwriteMode::Ask => "Ask"@,
            OverwriteMode::Always => "Always"@,
            OverwriteMode::Never => "Never"@,
            OverwriteMode::IfNewer => "IfNewer"@,
            OverwriteMode::Resume => "Resume"@,
        }
    }

    pub fn debug_name(&self) -> (r: &'static str)
        ensures
            r@ == self.variant_name(),
    {
        match self {
            OverwriteMode::Ask => "Ask",
            OverwriteMode::Always => "Always",
            OverwriteMode::Never => "Never",
            OverwriteMode::IfNewer => "IfNewer",
            OverwriteMode::Resume => "Resume",
        }
    }
}

/// User-visible transfer options shared by protocol adapters.
#[derive(Clone, Copy, Debug, PartialEq, Eq, Structural)]
pub struct TransferOptions {
    pub overwrite_mode: OverwriteMode,
    pub preserve_timestamps: bool,
    pub preserve_permissions: bool,
    pub create_missing_directories: bool,
}

impl Default for TransferOptions {
    fn default() -> (r: Self)
        ensures
            r.overwrite_mode == OverwriteMode::Ask,
            r.preserve_timestamps,
            !r.preserve_permissions,
            r.create_missing_directories,
    {
        TransferOptions {
            overwrite_mode: OverwriteMode::Ask,
            preserve_timestamps: true,
            preserve_permissions: false,
            create_missing_directories: true,
        }
    }
}

/// Metadata needed to decide conflict behaviour. `modified` is the last
/// modification time in nanoseconds relative to the Unix epoch (negative
/// before it), when the file system reports one.
#[derive(Clone, Copy, Debug, PartialEq, Eq, Structural)]
pub struct TransferFileMetadata {
    pub size: u64,
    pub modified: Option<i128>,
}

/// Decision produced when evaluating a destination conflict.
#[derive(Clone, Copy, Debug, PartialEq, Eq, Structural)]
pub enum OverwriteDecision {
    CopyFromStart,
    ResumeFrom(u64),
    Skip,
    Prompt,
    Unsupported,
}

/// How a destination is handled: a missing destination is always copied;
/// otherwise the mode decides. `IfNewer` copies when the source is strictly
/// newer, skips when it is not, and cannot decide without both times; `Resume`
/// continues a shorter destination, skips an equal one and cannot handle a
/// longer one.
pub open spec fn overwrite_decision(
    mode: OverwriteMode,
    source: TransferFileMetadata,
    destination: Option<TransferFileMetadata>,
) -> OverwriteDecision {
    match destination {
        None => OverwriteDecision::CopyFromStart,
        Some(d) => match mode {
            OverwriteMode::Ask => OverwriteDecision::Prompt,
            OverwriteMode::Always => OverwriteDecision::CopyFromStart,
            OverwriteMode::Never => OverwriteDecision::Skip,
            OverwriteMode::IfNewer => match (source.modified, d.modified) {
                (Some(s), Some(t)) => if s > t {
                    OverwriteDecision::CopyFromStart
                } else {
                    OverwriteDecision::Skip
                },
                _ => OverwriteDecision::Unsupported,
            },
            OverwriteMode::Resume => if d.size < source.size {
                OverwriteDecision::ResumeFrom(d.size)
            } else if d.size == source.size {
                OverwriteDecision::Skip
            } else {
                OverwriteDecision::Unsupported
            },
        },
    }
}

/// Decides how to handle a destination path using transfer options and metadata.
pub fn decide_overwrite(
    mode: OverwriteMode,
    source: TransferFileMetadata,
    destination: Option<TransferFileMetadata>,
) -> (r: OverwriteDecision)
    ensures
        r == overwrite_decision(mode, source, destination),
        destination is None ==> r == OverwriteDecision::CopyFromStart,
        destination is Some && mode == OverwriteMode::Always ==> r == OverwriteDecision::CopyFromStart,
        destination is Some && mode == OverwriteMode::Never ==> r == OverwriteDecision::Skip,
        destination is Some && mode == OverwriteMode::Ask ==> r == OverwriteDecision::Prompt,
{
    proof {
        lemma_overwrite_modes(mode, source, destination);
    }
    let destination = match destination {
        None => {
            return OverwriteDecision::CopyFromStart;
        },
        Some(d) => d,
    };
    match mode {
        OverwriteMode::Ask => OverwriteDecision::Prompt,
        OverwriteMode::Always => OverwriteDecision::CopyFromStart,
        OverwriteMode::Never => OverwriteDecision::Skip,
        OverwriteMode::IfNewer => match (source.modified, destination.modified) {
            (Some(s), Some(t)) => {
                if s > t {
                    OverwriteDecision::CopyFromStart
                } else {
                    OverwriteDecision::Skip
                }
            },
            _ => OverwriteDecision::Unsupported,
        },
        OverwriteMode::Resume => {
            if destination.size < source.size {
                OverwriteDecision::ResumeFrom(destination.size)
            } else if destination.size == source.size {
                OverwriteDecision::Skip
            } else {
                OverwriteDecision::Unsupported
            }
        },
    }
}

/// What each mode does with an existing destination: `Always` overwrites
/// it (copies from the start), `Never` keeps it (skips), `Ask` asks; `IfNewer`
/// overwrites exactly when both times are known and the source's is later,
/// and keeps it when both are known and the source's is not later; `Resume`
/// continues a shorter destination from its end and keeps an equal one. A
/// missing destination is always copied.
pub proof fn lemma_overwrite_modes(
    mode: OverwriteMode,
    source: TransferFileMetadata,
    destination: Option<TransferFileMetadata>,
)
    ensures
        destination is None ==> overwrite_decision(mode, source, destination) == OverwriteDecision::CopyFromStart,
        destination is Some && mode == OverwriteMode::Always ==> overwrite_decision(mode, source, destination)
            == OverwriteDecision::CopyFromStart,
        destination is Some && mode == OverwriteMode::Never ==> overwrite_decision(mode, source, destination)
            == OverwriteDecision::Skip,
        destination is Some && mode == OverwriteMode::Ask ==> overwrite_decision(mode, source, destination)
            == OverwriteDecision::Prompt,
        mode == OverwriteMode::IfNewer ==> match (destination, source.modified) {
            (Some(d), Some(s)) => match d.modified {
                Some(t) => overwrite_decision(mode, source, destination) == (if s > t {
                    OverwriteDecision::CopyFromStart
                } else {
                    OverwriteDecision::Skip
                }),
                None => true,
            },
            _ => true,
        },
        mode == OverwriteMode::Resume ==> match destination {
            Some(d) => (d.size < source.size ==> overwrite_decision(mode, source, destination)
                == OverwriteDecision::ResumeFrom(d.size)) && (d.size == source.size ==> overwrite_decision(
                mode,
                source,
                destination,
            ) == OverwriteDecision::Skip),
            None => true,
        },
{
}

/// Resuming never starts past the end of the source: the offset is the
/// destination's size and smaller than the source's.
pub proof fn lemma_resume_offset_in_source(
    mode: OverwriteMode,
    source: TransferFileMetadata,
    destination: Option<TransferFileMetadata>,
    offset: u64,
)
    requires
        overwrite_decision(mode, source, destination) == OverwriteDecision::ResumeFrom(offset),
    ensures
        mode == OverwriteMode::Resume,
        destination matches Some(d) && d.size == offset,
        offset < source.size,
{
}

/// Only `Ask` ever needs a prompt, and only when the destination exists.
pub proof fn lemma_prompt_only_when_asked(
    mode: OverwriteMode,
    source: TransferFileMetadata,
    destination: Option<TransferFileMetadata>,
)
    ensures
        overwrite_decision(mode, source, destination) == OverwriteDecision::Prompt <==> (mode
            == OverwriteMode::Ask && destination is Some),
{
}

/// Lifecycle state of a transfer job.
#[derive(Debug, PartialEq, Eq)]
pub enum TransferState {
    Queued,
    Running,
    Paused,
    Completed,
    Failed(String),
    Cancelled,
}

/// What a state says, a failure message taken as characters.
pub enum StateView {
    Queued,
    Running,
    Paused,
    Completed,
    Failed(Seq<char>),
    Cancelled,
}

impl View for TransferState {
    type V = StateView;

    open spec fn view(&self) -> StateView {
        match self {
            TransferState::Queued => StateView::Queued,
            TransferState::Running => StateView::Running,
            TransferState::Paused => StateView::Paused,
            TransferState::Completed => StateView::Completed,
            TransferState::Failed(m) => StateView::Failed(m@),
            TransferState::Cancelled => StateView::Cancelled,
        }
    }
}

impl Clone for TransferState {
    fn clone(&self) -> (r: Self)
        ensures
            r == *self,
    {
        match self {
            TransferState::Queued => TransferState::Queued,
            TransferState::Running => TransferState::Running,
            TransferState::Paused => TransferState::Paused,
            TransferState::Completed => TransferState::Completed,
            TransferState::Failed(m) => TransferState::Failed(m.clone()),
            TransferState::Cancelled => TransferState::Cancelled,
        }
    }
}

/// A job that has reached an end state and may be removed from the queue.
pub open spec fn is_finished(s: StateView) -> bool {
    s is Completed || s is Failed || s is Cancelled
}

/// A queued transfer job.
#[derive(Debug, PartialEq, Eq)]
pub struct TransferJob {
    pub id: TransferJobId,
    pub direction: TransferDirection,
    pub source: String,
    pub destination: String,
    pub options: TransferOptions,
    pub state: TransferState,
}

pub struct JobView {
    pub id: u64,
    pub direction: TransferDirection,
    pub source: Seq<char>,
    pub destination: Seq<char>,
    pub options: TransferOptions,
    pub state: StateView,
}

impl View for TransferJob {
    type V = JobView;

    open spec fn view(&self) -> JobView {
        JobView {
            id: self.id.value(),
            direction: self.direction,
            source: self.source@,
            destination: self.destination@,
            options: self.options,
            state: self.state@,
        }
    }
}

impl Clone for TransferJob {
    fn clone(&self) -> (r: Self)
        ensures
            r == *self,
    {
        TransferJob {
            id: self.id,
            direction: self.direction,
            source: self.source.clone(),
            destination: self.destination.clone(),
            options: self.options,
            state: self.state.clone(),
        }
    }
}

/// Progress event emitted by transfer executors.
#[derive(Debug, PartialEq, Eq)]
pub struct TransferProgress {
    pub job_id: TransferJobId,
    pub bytes_done: u64,
    pub bytes_total: Option<u64>,
    pub current_file: Option<String>,
}

/// The jobs of a queue, in order.
pub open spec fn jobs_view(jobs: Seq<TransferJob>) -> Seq<JobView> {
    jobs.map_values(|j: TransferJob| j@)
}

/// A queue state: ids strictly increase along the queue and all are below the
/// next id to hand out.
pub open spec fn queue_ok(jobs: Seq<JobView>, next_id: u64) -> bool {
    &&& forall|i: int, j: int| 0 <= i < j < jobs.len() ==> #[trigger] jobs[i].id < #[trigger] jobs[j].id
    &&& forall|i: int| 0 <= i < jobs.len() ==> #[trigger] jobs[i].id < next_id
}

/// The position of the job with id `id`; ids are distinct in a queue.
pub open spec fn holds_at(jobs: Seq<JobView>, id: u64, i: int) -> bool {
    0 <= i < jobs.len() && jobs[i].id == id
}

/// Position `i` holds the first queued job.
pub open spec fn first_queued_at(jobs: Seq<JobView>, i: int) -> bool {
    &&& 0 <= i < jobs.len()
    &&& jobs[i].state is Queued
    &&& forall|j: int| 0 <= j < i ==> !(#[trigger] jobs[j].state is Queued)
}

pub open spec fn has_queued(jobs: Seq<JobView>) -> bool {
    exists|i: int| 0 <= i < jobs.len() && #[trigger] jobs[i].state is Queued
}

/// `jobs` with the state of position `i` replaced.
pub open spec fn with_state(jobs: Seq<JobView>, i: int, s: StateView) -> Seq<JobView> {
    jobs.update(i, JobView { state: s, ..jobs[i] })
}

/// The jobs that are not finished, in their order.
pub open spec fn active_jobs(jobs: Seq<JobView>) -> Seq<JobView> {
    jobs.filter(|j: JobView| !is_finished(j.state))
}

/// Queue operation errors.
#[derive(Clone, Copy, Debug, PartialEq, Eq, Structural)]
pub enum TransferQueueError {
    UnknownJob(TransferJobId),
}

impl TransferQueueError {
    /// The error message, as the error's `Display` writes it.
    pub fn message(&self) -> (r: String)
        ensures
            match self {
                TransferQueueError::UnknownJob(id) => r@ == "unknown transfer job "@ + decimal(id.value() as nat),
            },
    {
        match self {
            TransferQueueError::UnknownJob(id) => {
                let mut r = String::from_str("unknown transfer job ");
                let n = decimal_string(id.as_u64());
                push_str(&mut r, n.as_str());
                r
            },
        }
    }
}

/// Deterministic FIFO queue of transfer jobs.
#[derive(Debug)]
pub struct TransferQueue {
    next_id: u64,
    jobs: Vec<TransferJob>,
}

impl TransferQueue {
    /// The jobs, in queue order.
    pub closed spec fn jobs_spec(&self) -> Seq<JobView> {
        jobs_view(self.jobs@)
    }

    /// The id the next enqueued job receives.
    pub closed spec fn next_id_spec(&self) -> u64 {
        self.next_id
    }

    pub open spec fn wf(&self) -> bool {
        queue_ok(self.jobs_spec(), self.next_id_spec())
    }

    pub fn new() -> (r: Self)
        ensures
            r.wf(),
            r.jobs_spec() == Seq::<JobView>::empty(),
            r.next_id_spec() == 1,
    {
        let r = TransferQueue { next_id: 1, jobs: Vec::new() };
        assert(r.jobs_spec() =~= Seq::<JobView>::empty());
        r
    }

    /// Appends a queued job and returns its id, the queue's next id.
    pub fn enqueue(
        &mut self,
        direction: TransferDirection,
        source: &str,
        destination: &str,
        options: TransferOptions,
    ) -> (id: TransferJobId)
        requires
            old(self).wf(),
            old(self).next_id_spec() < u64::MAX,
        ensures
            final(self).wf(),
            id.value() == old(self).next_id_spec(),
            final(self).next_id_spec() == old(self).next_id_spec() + 1,
            final(self).jobs_spec() == old(self).jobs_spec().push(
                JobView {
                    id: id.value(),
                    direction,
                    source: source@,
                    destination: destination@,
                    options,
                    state: StateView::Queued,
                },
            ),
    {
        let id = TransferJobId(self.next_id);
        self.next_id = self.next_id + 1;
        self.jobs.push(
            TransferJob {
                id,
                direction,
                source: source.to_owned(),
                destination: destination.to_owned(),
                options,
                state: TransferState::Queued,
            },
        );
        assert(self.jobs_spec() =~= old(self).jobs_spec().push(
            JobView {
                id: id.value(),
                direction,
                source: source@,
                destination: destination@,
                options,
                state: StateView::Queued,
            },
        ));
        id
    }

    pub fn len(&self) -> (r: usize)
        ensures
            r == self.jobs_spec().len(),
    {
        self.jobs.len()
    }

    pub fn is_empty(&self) -> (r: bool)
        ensures
            r == (self.jobs_spec().len() == 0),
    {
        self.jobs.len() == 0
    }

    fn position_of(&self, id: TransferJobId) -> (r: Option<usize>)
        requires
            self.wf(),
        ensures
            match r {
                Some(i) => holds_at(self.jobs_spec(), id.value(), i as int),
                None => forall|i: int| 0 <= i < self.jobs_spec().len() ==> #[trigger] self.jobs_spec()[i].id != id.value(),
            },
    {
        let mut i: usize = 0;
        while i < self.jobs.len()
            invariant
                i <= self.jobs.len(),
                forall|j: int| 0 <= j < i ==> #[trigger] self.jobs_spec()[j].id != id.value(),
            decreases self.jobs.len() - i,
        {
            assert(self.jobs_spec()[i as int] == self.jobs@[i as int]@);
            if self.jobs[i].id.0 == id.0 {
                return Some(i);
            }
            i = i + 1;
        }
        None
    }

    fn first_queued_position(&self) -> (r: Option<usize>)
        ensures
            match r {
                Some(i) => first_queued_at(self.jobs_spec(), i as int),
                None => !has_queued(self.jobs_spec()),
            },
    {
        let mut i: usize = 0;
        while i < self.jobs.len()
            invariant
                i <= self.jobs.len(),
                forall|j: int| 0 <= j < i ==> !(#[trigger] self.jobs_spec()[j].state is Queued),
            decreases self.jobs.len() - i,
        {
            assert(self.jobs_spec()[i as int] == self.jobs@[i as int]@);
            if matches!(self.jobs[i].state, TransferState::Queued) {
                return Some(i);
            }
            i = i + 1;
        }
        None
    }

    /// The job with id `id`, if the queue holds one.
    pub fn get(&self, id: TransferJobId) -> (r: Option<&TransferJob>)
        requires
            self.wf(),
        ensures
            match r {
                Some(job) => exists|i: int| holds_at(self.jobs_spec(), id.value(), i) && #[trigger] self.jobs_spec()[i] == job@,
                None => forall|i: int| 0 <= i < self.jobs_spec().len() ==> #[trigger] self.jobs_spec()[i].id != id.value(),
            },
    {
        match self.position_of(id) {
            Some(i) => {
                assert(self.jobs_spec()[i as int] == self.jobs@[i as int]@);
                Some(&self.jobs[i])
            },
            None => None,
        }
    }

    /// The first queued job, without changing it.
    pub fn next_queued(&self) -> (r: Option<&TransferJob>)
        ensures
            match r {
                Some(job) => exists|i: int| first_queued_at(self.jobs_spec(), i) && #[trigger] self.jobs_spec()[i] == job@,
                None => !has_queued(self.jobs_spec()),
            },
    {
        match self.first_queued_position() {
            Some(i) => {
                assert(self.jobs_spec()[i as int] == self.jobs@[i as int]@);
                Some(&self.jobs[i])
            },
            None => None,
        }
    }

    /// Marks the first queued job as running and returns its id.
    pub fn start_next(&mut self) -> (r: Option<TransferJobId>)
        requires
            old(self).wf(),
        ensures
            final(self).wf(),
            final(self).next_id_spec() == old(self).next_id_spec(),
            match r {
                Some(id) => exists|i: int| #![trigger old(self).jobs_spec()[i]]
                    first_queued_at(old(self).jobs_spec(), i)
                    && old(self).jobs_spec()[i].id == id.value()
                    && final(self).jobs_spec() == with_state(old(self).jobs_spec(), i, StateView::Running),
                None => !has_queued(old(self).jobs_spec()) && final(self).jobs_spec() == old(self).jobs_spec(),
            },
    {
        match self.first_queued_position() {
            Some(i) => {
                let ghost oj = self.jobs_spec();
                let id = self.jobs[i].id;
                let mut v: Vec<TransferJob> = Vec::new();
                std::mem::swap(&mut v, &mut self.jobs);
                let mut job = v.remove(i);
                job.state = TransferState::Running;
                v.insert(i, job);
                self.jobs = v;
                assert(self.jobs_spec() =~= with_state(oj, i as int, StateView::Running));
                assert(oj[i as int].id == id.value());
                Some(id)
            },
            None => None,
        }
    }

    /// Sets the state of the job with id `id`.
    pub fn set_state(&mut self, id: TransferJobId, state: TransferState) -> (r: Result<(), TransferQueueError>)
        requires
            old(self).wf(),
        ensures
            final(self).wf(),
            final(self).next_id_spec() == old(self).next_id_spec(),
            match r {
                Ok(()) => exists|i: int| #![trigger old(self).jobs_spec()[i]]
                    holds_at(old(self).jobs_spec(), id.value(), i)
                    && final(self).jobs_spec() == with_state(old(self).jobs_spec(), i, state@),
                Err(e) => e == TransferQueueError::UnknownJob(id)
                    && (forall|i: int| 0 <= i < old(self).jobs_spec().len() ==> #[trigger] old(self).jobs_spec()[i].id != id.value())
                    && final(self).jobs_spec() == old(self).jobs_spec(),
            },
    {
        match self.position_of(id) {
            Some(i) => {
                let ghost oj = self.jobs_spec();
                let ghost sv = state@;
                let mut v: Vec<TransferJob> = Vec::new();
                std::mem::swap(&mut v, &mut self.jobs);
                let mut job = v.remove(i);
                job.state = state;
                v.insert(i, job);
                self.jobs = v;
                assert(self.jobs_spec() =~= with_state(oj, i as int, sv));
                assert(oj[i as int].id == id.value());
                Ok(())
            },
            None => Err(TransferQueueError::UnknownJob(id)),
        }
    }

    /// Drops every finished job and returns how many were dropped.
    pub fn remove_finished(&mut self) -> (r: usize)
        requires
            old(self).wf(),
        ensures
            final(self).wf(),
            final(self).next_id_spec() == old(self).next_id_spec(),
            final(self).jobs_spec() == active_jobs(old(self).jobs_spec()),
            r == old(self).jobs_spec().len() - final(self).jobs_spec().len(),
            forall|k: int| 0 <= k < final(self).jobs_spec().len() ==> !(#[trigger] final(self).jobs_spec()[k].state is Completed
                || final(self).jobs_spec()[k].state is Failed || final(self).jobs_spec()[k].state is Cancelled),
            forall|k: int| 0 <= k < old(self).jobs_spec().len() && (#[trigger] old(self).jobs_spec()[k].state is Queued
                || old(self).jobs_spec()[k].state is Running || old(self).jobs_spec()[k].state is Paused)
                ==> final(self).jobs_spec().contains(old(self).jobs_spec()[k]),
    {
        proof {
            lemma_finished_states_removed(self.jobs_spec());
        }
        let ghost oj = self.jobs_spec();
        let original_len = self.jobs.len();
        let mut v: Vec<TransferJob> = Vec::new();
        std::mem::swap(&mut v, &mut self.jobs);
        let mut kept: Vec<TransferJob> = Vec::new();
        let mut i: usize = 0;
        assert(oj.take(0) =~= Seq::<JobView>::empty());
        while i < v.len()
            invariant
                i <= v.len(),
                oj == jobs_view(v@),
                jobs_view(kept@) == active_jobs(oj.take(i as int)),
                kept.len() <= i,
            decreases v.len() - i,
        {
            let finished = matches!(
                v[i].state,
                TransferState::Completed | TransferState::Failed(_) | TransferState::Cancelled
            );
            assert(oj.take(i + 1) =~= oj.take(i as int).push(oj[i as int]));
            assert(oj[i as int] == v@[i as int]@);
            proof {
                oj.take(i as int).lemma_filter_push(oj[i as int], |j: JobView| !is_finished(j.state));
            }
            if !finished {
                kept.push(v[i].clone());
                assert(jobs_view(kept@) =~= active_jobs(oj.take(i as int)).push(oj[i as int]));
            }
            i = i + 1;
        }
        assert(oj.take(v.len() as int) =~= oj);
        self.jobs = kept;
        proof {
            let act = active_jobs(oj);
            assert forall|a: int, b: int| 0 <= a < b < act.len() implies #[trigger] act[a].id < #[trigger] act[b].id by {
                lemma_filter_order(oj, |j: JobView| !is_finished(j.state), a, b);
            }
            assert forall|a: int| 0 <= a < act.len() implies #[trigger] act[a].id < self.next_id by {
                lemma_filter_member(oj, |j: JobView| !is_finished(j.state), a);
            }
        }
        original_len - self.jobs.len()
    }
}

/// An element of a filtered sequence comes from the sequence.
proof fn lemma_filter_member(s: Seq<JobView>, p: spec_fn(JobView) -> bool, a: int)
    requires
        0 <= a < s.filter(p).len(),
    ensures
        exists|k: int| 0 <= k < s.len() && s[k] == #[trigger] s.filter(p)[a],
    decreases s.len(),
{
    reveal(Seq::filter);
    if s.len() > 0 {
        let pre = s.drop_last();
        if p(s.last()) {
            if a < pre.filter(p).len() {
                lemma_filter_member(pre, p, a);
                let k = choose|k: int| 0 <= k < pre.len() && pre[k] == #[trigger] pre.filter(p)[a];
                assert(s[k] == s.filter(p)[a]);
            } else {
                assert(s.filter(p)[a] == s.last());
                assert(s[s.len() - 1] == s.filter(p)[a]);
            }
        } else {
            lemma_filter_member(pre, p, a);
            let k = choose|k: int| 0 <= k < pre.len() && pre[k] == #[trigger] pre.filter(p)[a];
            assert(s[k] == s.filter(p)[a]);
        }
    }
}

/// Filtering keeps the order of the elements it keeps.
proof fn lemma_filter_order(s: Seq<JobView>, p: spec_fn(JobView) -> bool, a: int, b: int)
    requires
        0 <= a < b < s.filter(p).len(),
    ensures
        exists|x: int, y: int| 0 <= x < y < s.len() && s[x] == #[trigger] s.filter(p)[a] && s[y] == #[trigger] s.filter(p)[b],
    decreases s.len(),
{
    reveal(Seq::filter);
    let pre = s.drop_last();
    if p(s.last()) && b == s.filter(p).len() - 1 {
        lemma_filter_member(pre, p, a);
        let x = choose|k: int| 0 <= k < pre.len() && pre[k] == #[trigger] pre.filter(p)[a];
        assert(s[x] == s.filter(p)[a]);
        assert(s[s.len() - 1] == s.filter(p)[b]);
    } else {
        lemma_filter_order(pre, p, a, b);
        let (x, y) = choose|x: int, y: int| 0 <= x < y < pre.len() && pre[x] == #[trigger] pre.filter(p)[a] && pre[y] == #[trigger] pre.filter(p)[b];
        assert(s[x] == s.filter(p)[a] && s[y] == s.filter(p)[b]);
    }
}

/// In a well-formed queue at most one job has a given id.
pub proof fn lemma_ids_unique(jobs: Seq<JobView>, next_id: u64, id: u64, i: int, k: int)
    requires
        queue_ok(jobs, next_id),
        holds_at(jobs, id, i),
        holds_at(jobs, id, k),
    ensures
        i == k,
{
    if i < k {
        assert(jobs[i].id < jobs[k].id);
    } else if k < i {
        assert(jobs[k].id < jobs[i].id);
    }
}

/// A newly enqueued job is the only one with its id, is queued, and keeps the
/// queue well formed.
pub proof fn lemma_enqueue_fresh(jobs: Seq<JobView>, next_id: u64, job: JobView)
    requires
        queue_ok(jobs, next_id),
        next_id < u64::MAX,
        job.id == next_id,
    ensures
        queue_ok(jobs.push(job), (next_id + 1) as u64),
        holds_at(jobs.push(job), next_id, jobs.len() as int),
        forall|k: int| holds_at(jobs.push(job), next_id, k) ==> k == jobs.len(),
{
    let q = jobs.push(job);
    assert forall|i: int, j: int| 0 <= i < j < q.len() implies #[trigger] q[i].id < #[trigger] q[j].id by {
        if j == jobs.len() {
            assert(q[i] == jobs[i]);
        } else {
            assert(q[i] == jobs[i] && q[j] == jobs[j]);
        }
    }
    assert forall|k: int| holds_at(q, next_id, k) implies k == jobs.len() by {
        if k < jobs.len() {
            assert(q[k] == jobs[k]);
        }
    }
}

/// After the state of a job is set, looking the job up by its id finds the
/// new state, and every other job is unchanged.
pub proof fn lemma_set_state_then_lookup(jobs: Seq<JobView>, next_id: u64, id: u64, i: int, s: StateView)
    requires
        queue_ok(jobs, next_id),
        holds_at(jobs, id, i),
    ensures
        queue_ok(with_state(jobs, i, s), next_id),
        forall|k: int| holds_at(with_state(jobs, i, s), id, k) ==> k == i && with_state(jobs, i, s)[k].state == s,
        forall|k: int| 0 <= k < jobs.len() && k != i ==> #[trigger] with_state(jobs, i, s)[k] == jobs[k],
{
    let q = with_state(jobs, i, s);
    assert forall|a: int, b: int| 0 <= a < b < q.len() implies #[trigger] q[a].id < #[trigger] q[b].id by {
        assert(q[a].id == jobs[a].id && q[b].id == jobs[b].id);
    }
    assert forall|a: int| 0 <= a < q.len() implies #[trigger] q[a].id < next_id by {
        assert(q[a].id == jobs[a].id);
    }
    assert forall|k: int| holds_at(q, id, k) implies k == i && q[k].state == s by {
        assert(q[k].id == jobs[k].id);
        lemma_ids_unique(jobs, next_id, id, i, k);
    }
}

/// Starting the next job runs the first queued one; jobs before it stay as
/// they were and none of them is queued.
pub proof fn lemma_start_next_runs_first_queued(jobs: Seq<JobView>, next_id: u64, i: int)
    requires
        queue_ok(jobs, next_id),
        first_queued_at(jobs, i),
    ensures
        with_state(jobs, i, StateView::Running)[i].state is Running,
        forall|k: int| 0 <= k < i ==> !(#[trigger] with_state(jobs, i, StateView::Running)[k].state is Queued),
        forall|k: int| i < k < jobs.len() ==> #[trigger] with_state(jobs, i, StateView::Running)[k] == jobs[k],
{
    let q = with_state(jobs, i, StateView::Running);
    assert forall|k: int| 0 <= k < i implies !(#[trigger] q[k].state is Queued) by {
        assert(q[k] == jobs[k]);
    }
}

/// Removing finished jobs drops every completed, failed and cancelled job
/// and keeps every queued, running and paused one.
pub proof fn lemma_finished_states_removed(jobs: Seq<JobView>)
    ensures
        forall|k: int| 0 <= k < active_jobs(jobs).len() ==> !(#[trigger] active_jobs(jobs)[k].state is Completed
            || active_jobs(jobs)[k].state is Failed || active_jobs(jobs)[k].state is Cancelled),
        forall|k: int| 0 <= k < jobs.len() && (#[trigger] jobs[k].state is Queued || jobs[k].state is Running
            || jobs[k].state is Paused) ==> active_jobs(jobs).contains(jobs[k]),
{
    broadcast use vstd::seq_lib::group_filter_ensures;

    assert forall|k: int| 0 <= k < jobs.len() && (#[trigger] jobs[k].state is Queued || jobs[k].state is Running
        || jobs[k].state is Paused) implies active_jobs(jobs).contains(jobs[k]) by {
        assert(!is_finished(jobs[k].state));
        assert(jobs.contains(jobs[k]));
    }
    assert forall|k: int| 0 <= k < active_jobs(jobs).len() implies !(#[trigger] active_jobs(jobs)[k].state is Completed
        || active_jobs(jobs)[k].state is Failed || active_jobs(jobs)[k].state is Cancelled) by {
        assert(!is_finished(active_jobs(jobs)[k].state));
    }
}

/// Removing finished jobs leaves no finished job and keeps every unfinished one.
pub proof fn lemma_remove_finished_keeps_active(jobs: Seq<JobView>)
    ensures
        forall|k: int| 0 <= k < active_jobs(jobs).len() ==> !is_finished(#[trigger] active_jobs(jobs)[k].state),
        forall|k: int| 0 <= k < jobs.len() && !is_finished(#[trigger] jobs[k].state) ==> active_jobs(jobs).contains(jobs[k]),
        active_jobs(jobs).len() <= jobs.len(),
{
    broadcast use vstd::seq_lib::group_filter_ensures;

    assert forall|k: int| 0 <= k < jobs.len() && !is_finished(#[trigger] jobs[k].state) implies active_jobs(jobs).contains(jobs[k]) by {
        assert(jobs.contains(jobs[k]));
    }
}

} // verus!
