//! The prover's jobs.
//!
//! Jobs are submitted, worked on one at a time in the order of their submission,
//! asked after, cancelled, and forgotten once their receipt is taken.
use vstd::prelude::*;

use crate::adapters::{fresh_uuid, is_uuid};
use crate::flow::{
    answer_view, refusal, refuse, ApiError, ApiErrorView, BAD_REQUEST, CONFLICT, INTERNAL,
    NOT_FOUND, UNAVAILABLE,
};
use crate::prover::progress::{ProgressSink, SegmentProgress, Snapshot};
use crate::text::{
    after_prefix, copy_bytes, copy_opt, list_view, opt_str_view, opt_view, strip_prefix, text_eq,
};

verus! {

/// The largest request body that is taken.
///
/// Requests grow with the batch, and a bound that is too low rejects a whole
/// commitment, so it is generous.
pub const MAX_BODY_BYTES: usize = 512 * 1024 * 1024;

/// The status for a request without the right credentials.
pub const UNAUTHORIZED: u16 = 401;

// ---------------------------------------------------------------------------
// Jobs
// ---------------------------------------------------------------------------

/// How far a job has come.
#[derive(Debug, Clone, Copy, PartialEq, Eq, Structural)]
pub enum JobStatus {
    Pending,
    Processing,
    Complete,
    Failed,
    Cancelled,
}

impl JobStatus {
    /// The name of a status.
    pub open spec fn name(self) -> Seq<char> {
        match self {
            JobStatus::Pending => "Pending"@,
            JobStatus::Processing => "Processing"@,
            JobStatus::Complete => "Complete"@,
            JobStatus::Failed => "Failed"@,
            JobStatus::Cancelled => "Cancelled"@,
        }
    }

    /// A job with this status will not change any more.
    pub open spec fn is_final(self) -> bool {
        self == JobStatus::Complete || self == JobStatus::Failed || self == JobStatus::Cancelled
    }

    /// The name of a status.
    pub fn text(self) -> (name: &'static str)
        ensures
            name@ == self.name(),
    {
        match self {
            JobStatus::Pending => "Pending",
            JobStatus::Processing => "Processing",
            JobStatus::Complete => "Complete",
            JobStatus::Failed => "Failed",
            JobStatus::Cancelled => "Cancelled",
        }
    }
}

/// What a job is to make.
#[derive(Debug, Clone, Copy, PartialEq, Eq, Structural)]
pub enum JobType {
    Step,
    Fold,
    Compress,
}

/// What a job works on, in encoded form.
pub enum JobRequest {
    Prove { is_fold: bool, encoded: Vec<u8> },
    Compress { encoded: Vec<u8> },
}

pub ghost enum JobRequestView {
    Prove { is_fold: bool, encoded: Seq<u8> },
    Compress { encoded: Seq<u8> },
}

impl View for JobRequest {
    type V = JobRequestView;

    open spec fn view(&self) -> JobRequestView {
        match self {
            JobRequest::Prove { is_fold, encoded } => JobRequestView::Prove {
                is_fold: *is_fold,
                encoded: encoded@,
            },
            JobRequest::Compress { encoded } => JobRequestView::Compress { encoded: encoded@ },
        }
    }
}

impl JobRequestView {
    /// What a job on this request is to make.
    pub open spec fn job_type(self) -> JobType {
        match self {
            JobRequestView::Prove { is_fold, .. } => if is_fold {
                JobType::Fold
            } else {
                JobType::Step
            },
            JobRequestView::Compress { .. } => JobType::Compress,
        }
    }
}

impl JobRequest {
    /// What a job on this request is to make.
    pub fn job_type(&self) -> (kind: JobType)
        ensures
            kind == self@.job_type(),
    {
        match self {
            JobRequest::Prove { is_fold, .. } => if *is_fold {
                JobType::Fold
            } else {
                JobType::Step
            },
            JobRequest::Compress { .. } => JobType::Compress,
        }
    }

    fn copy(&self) -> (copy: JobRequest)
        ensures
            copy@ == self@,
    {
        match self {
            JobRequest::Prove { is_fold, encoded } => JobRequest::Prove {
                is_fold: *is_fold,
                encoded: copy_bytes(encoded),
            },
            JobRequest::Compress { encoded } => JobRequest::Compress {
                encoded: copy_bytes(encoded),
            },
        }
    }
}

/// A job.
pub struct Job {
    pub id: String,
    pub job_type: JobType,
    pub status: JobStatus,
    pub request: JobRequest,
    pub receipt: Option<Vec<u8>>,
    pub error: Option<String>,
    /// The counters, from before proving starts.
    pub progress: Option<ProgressSink>,
    /// Whether the job is no longer wanted. One that waits never starts; one that
    /// runs cannot be interrupted, and what it makes is dropped.
    pub cancel_requested: bool,
}

pub ghost struct JobView {
    pub id: Seq<char>,
    pub job_type: JobType,
    pub status: JobStatus,
    pub request: JobRequestView,
    pub receipt: Option<Seq<u8>>,
    pub error: Option<Seq<char>>,
    pub progress: Option<ProgressSink>,
    pub cancel_requested: bool,
}

impl View for Job {
    type V = JobView;

    open spec fn view(&self) -> JobView {
        JobView {
            id: self.id@,
            job_type: self.job_type,
            status: self.status,
            request: self.request@,
            receipt: opt_view(self.receipt),
            error: opt_view(self.error),
            progress: self.progress,
            cancel_requested: self.cancel_requested,
        }
    }
}

impl JobView {
    /// A job that was just submitted.
    pub open spec fn fresh(id: Seq<char>, request: JobRequestView) -> JobView {
        JobView {
            id,
            job_type: request.job_type(),
            status: JobStatus::Pending,
            request,
            receipt: None,
            error: None,
            progress: None,
            cancel_requested: false,
        }
    }

    /// The job after a cancellation: one that waits is over, one that runs is
    /// marked, and one that is over stays as it is.
    pub open spec fn cancelled(self) -> JobView {
        match self.status {
            JobStatus::Pending => JobView {
                cancel_requested: true,
                status: JobStatus::Cancelled,
                ..self
            },
            JobStatus::Processing => JobView { cancel_requested: true, ..self },
            _ => self,
        }
    }

    /// The job after the worker came to it: it is started, unless it is no longer
    /// wanted.
    pub open spec fn taken_up(self) -> JobView {
        if self.cancel_requested {
            self
        } else {
            JobView { status: JobStatus::Processing, ..self }
        }
    }

    /// The job after its work ended at a given time: the clock is stopped, and
    /// what came of the work is kept unless it is no longer wanted.
    pub open spec fn ended(self, made: Result<Seq<u8>, Seq<char>>, now: u64) -> JobView {
        let stopped = JobView {
            progress: match self.progress {
                Some(sink) => Some(
                    ProgressSink { finished: Some(sink.elapsed_at(now)), ..sink },
                ),
                None => None,
            },
            ..self
        };
        if self.cancel_requested {
            JobView { status: JobStatus::Cancelled, ..stopped }
        } else {
            match made {
                Ok(receipt) => JobView {
                    status: JobStatus::Complete,
                    receipt: Some(receipt),
                    ..stopped
                },
                Err(e) => JobView { status: JobStatus::Failed, error: Some(e), ..stopped },
            }
        }
    }

    /// The job with its counters.
    pub open spec fn with_progress(self, sink: ProgressSink) -> JobView {
        JobView { progress: Some(sink), ..self }
    }
}

// ---------------------------------------------------------------------------
// The table of jobs
// ---------------------------------------------------------------------------

/// No two jobs of a list have the same identifier.
pub open spec fn distinct(jobs: Seq<JobView>) -> bool {
    forall|i: int, j: int|
        0 <= i < j < jobs.len() ==> (#[trigger] jobs[i]).id != (#[trigger] jobs[j]).id
}

/// A job of a list has a given identifier.
pub open spec fn listed(jobs: Seq<JobView>, id: Seq<char>) -> bool {
    exists|i: int| 0 <= i < jobs.len() && (#[trigger] jobs[i]).id == id
}

/// The jobs of a list by their identifiers.
pub open spec fn table(jobs: Seq<JobView>) -> Map<Seq<char>, JobView> {
    Map::new(
        |id: Seq<char>| listed(jobs, id),
        |id: Seq<char>|
            jobs[choose|i: int| 0 <= i < jobs.len() && (#[trigger] jobs[i]).id == id],
    )
}

proof fn lemma_table_index(jobs: Seq<JobView>, i: int)
    requires
        distinct(jobs),
        0 <= i < jobs.len(),
    ensures
        table(jobs).contains_key(jobs[i].id),
        table(jobs)[jobs[i].id] == jobs[i],
{
    let id = jobs[i].id;
    let k = choose|k: int| 0 <= k < jobs.len() && (#[trigger] jobs[k]).id == id;
    assert(0 <= k < jobs.len() && jobs[k].id == id);
    assert(k == i);
}

proof fn lemma_table_update(jobs: Seq<JobView>, i: int, job: JobView)
    requires
        distinct(jobs),
        0 <= i < jobs.len(),
        job.id == jobs[i].id,
    ensures
        distinct(jobs.update(i, job)),
        table(jobs.update(i, job)) == table(jobs).insert(job.id, job),
{
    let changed = jobs.update(i, job);
    assert(distinct(changed));
    assert forall|id: Seq<char>| listed(changed, id) == listed(jobs, id) by {
        if listed(jobs, id) {
            let k = choose|k: int| 0 <= k < jobs.len() && (#[trigger] jobs[k]).id == id;
            assert(changed[k].id == id);
        }
        if listed(changed, id) {
            let k = choose|k: int| 0 <= k < changed.len() && (#[trigger] changed[k]).id == id;
            assert(jobs[k].id == id);
        }
    }
    lemma_table_index(changed, i);
    assert forall|id: Seq<char>| listed(jobs, id) && id != job.id implies table(changed)[id]
        == table(jobs)[id] by {
        let k = choose|k: int| 0 <= k < jobs.len() && (#[trigger] jobs[k]).id == id;
        assert(changed[k] == jobs[k]);
        lemma_table_index(changed, k);
        lemma_table_index(jobs, k);
    }
    assert(listed(jobs, job.id)) by {
        assert(jobs[i].id == job.id);
    }
    assert(table(changed) =~= table(jobs).insert(job.id, job));
}

proof fn lemma_table_push(jobs: Seq<JobView>, job: JobView)
    requires
        distinct(jobs),
        !listed(jobs, job.id),
    ensures
        distinct(jobs.push(job)),
        table(jobs.push(job)) == table(jobs).insert(job.id, job),
{
    let grown = jobs.push(job);
    assert(distinct(grown)) by {
        assert forall|i: int, j: int| 0 <= i < j < grown.len() implies (#[trigger] grown[i]).id != (
        #[trigger] grown[j]).id by {
            if j == jobs.len() {
                assert(jobs[i].id != job.id);
            }
        }
    }
    assert forall|id: Seq<char>| listed(grown, id) == (listed(jobs, id) || id == job.id) by {
        if listed(jobs, id) {
            let k = choose|k: int| 0 <= k < jobs.len() && (#[trigger] jobs[k]).id == id;
            assert(grown[k].id == id);
        }
        if id == job.id {
            assert(grown[jobs.len() as int].id == id);
        }
        if listed(grown, id) && id != job.id {
            let k = choose|k: int| 0 <= k < grown.len() && (#[trigger] grown[k]).id == id;
            assert(jobs[k].id == id);
        }
    }
    lemma_table_index(grown, jobs.len() as int);
    assert forall|id: Seq<char>| listed(jobs, id) implies table(grown)[id] == table(jobs)[id] by {
        let k = choose|k: int| 0 <= k < jobs.len() && (#[trigger] jobs[k]).id == id;
        assert(grown[k] == jobs[k]);
        lemma_table_index(grown, k);
        lemma_table_index(jobs, k);
    }
    assert(table(grown) =~= table(jobs).insert(job.id, job));
}

proof fn lemma_table_remove(jobs: Seq<JobView>, i: int)
    requires
        distinct(jobs),
        0 <= i < jobs.len(),
    ensures
        distinct(jobs.remove(i)),
        table(jobs.remove(i)) == table(jobs).remove(jobs[i].id),
{
    let rest = jobs.remove(i);
    let gone = jobs[i].id;
    assert(distinct(rest)) by {
        assert forall|a: int, b: int| 0 <= a < b < rest.len() implies (#[trigger] rest[a]).id != (
        #[trigger] rest[b]).id by {
            let x = if a < i {
                a
            } else {
                a + 1
            };
            let y = if b < i {
                b
            } else {
                b + 1
            };
            assert(jobs[x].id != jobs[y].id);
        }
    }
    assert forall|id: Seq<char>| listed(rest, id) == (listed(jobs, id) && id != gone) by {
        if listed(rest, id) {
            let k = choose|k: int| 0 <= k < rest.len() && (#[trigger] rest[k]).id == id;
            let x = if k < i {
                k
            } else {
                k + 1
            };
            assert(jobs[x].id == id);
            if k < i {
                assert(jobs[x].id != jobs[i].id);
            } else {
                assert(jobs[i].id != jobs[x].id);
            }
        }
        if listed(jobs, id) && id != gone {
            let k = choose|k: int| 0 <= k < jobs.len() && (#[trigger] jobs[k]).id == id;
            assert(rest[if k < i { k } else { k - 1 }].id == id);
        }
    }
    assert forall|id: Seq<char>| listed(rest, id) implies table(rest)[id] == table(jobs)[id] by {
        let k = choose|k: int| 0 <= k < rest.len() && (#[trigger] rest[k]).id == id;
        let x = if k < i {
            k
        } else {
            k + 1
        };
        assert(jobs[x] == rest[k]);
        lemma_table_index(rest, k);
        lemma_table_index(jobs, x);
    }
    assert(table(rest) =~= table(jobs).remove(gone));
}

/// The server's jobs.
pub struct ServerState {
    jobs: Vec<Job>,
}

impl View for ServerState {
    type V = Map<Seq<char>, JobView>;

    closed spec fn view(&self) -> Map<Seq<char>, JobView> {
        table(list_view(self.jobs@))
    }
}

pub struct SubmitResponse {
    pub job_id: String,
    pub status: JobStatus,
}

pub struct JobStatusResponse {
    pub job_id: String,
    pub job_type: JobType,
    pub status: JobStatus,
    pub error: Option<String>,
    /// Absent until proving begins, and for jobs without segments.
    pub progress: Option<Snapshot>,
}

pub ghost struct JobStatusResponseView {
    pub job_id: Seq<char>,
    pub job_type: JobType,
    pub status: JobStatus,
    pub error: Option<Seq<char>>,
    pub progress: Option<Snapshot>,
}

impl View for JobStatusResponse {
    type V = JobStatusResponseView;

    open spec fn view(&self) -> JobStatusResponseView {
        JobStatusResponseView {
            job_id: self.job_id@,
            job_type: self.job_type,
            status: self.status,
            error: opt_view(self.error),
            progress: self.progress,
        }
    }
}

/// The body of a refusal.
pub struct ErrorResponse {
    pub error: String,
}

/// What is said of a cancellation.
pub struct CancelReply {
    pub cancelled: bool,
    pub was_running: bool,
    pub note: Option<String>,
}

pub ghost struct CancelReplyView {
    pub cancelled: bool,
    pub was_running: bool,
    pub note: Option<Seq<char>>,
}

impl View for CancelReply {
    type V = CancelReplyView;

    open spec fn view(&self) -> CancelReplyView {
        CancelReplyView {
            cancelled: self.cancelled,
            was_running: self.was_running,
            note: opt_view(self.note),
        }
    }
}

/// What is said of a job that is not there.
pub open spec fn no_such_job<T>() -> Result<T, ApiErrorView> {
    refusal(NOT_FOUND, "Job not found"@)
}

fn job_missing() -> (e: ApiError)
    ensures
        e@ == (ApiErrorView { status: NOT_FOUND, message: "Job not found"@ }),
{
    refuse(NOT_FOUND, "Job not found".to_owned())
}

/// The answer to a cancellation.
pub open spec fn cancel_answer(
    jobs: Map<Seq<char>, JobView>,
    id: Seq<char>,
) -> Result<CancelReplyView, ApiErrorView> {
    if !jobs.contains_key(id) {
        no_such_job()
    } else {
        match jobs[id].status {
            JobStatus::Pending => Ok(
                CancelReplyView { cancelled: true, was_running: false, note: None },
            ),
            JobStatus::Processing => Ok(
                CancelReplyView {
                    cancelled: true,
                    was_running: true,
                    note: Some("proof runs to completion; receipt discarded"@),
                },
            ),
            status => refusal(CONFLICT, "job already "@ + status.name()),
        }
    }
}

/// The jobs with a change to one of them, if it is there.
pub open spec fn changed(
    jobs: Map<Seq<char>, JobView>,
    id: Seq<char>,
    change: spec_fn(JobView) -> JobView,
) -> Map<Seq<char>, JobView> {
    if jobs.contains_key(id) {
        jobs.insert(id, change(jobs[id]))
    } else {
        jobs
    }
}

/// The answer to a query for a job.
pub open spec fn status_answer(
    jobs: Map<Seq<char>, JobView>,
    id: Seq<char>,
    now: u64,
) -> Result<JobStatusResponseView, ApiErrorView> {
    if !jobs.contains_key(id) {
        no_such_job()
    } else {
        let job = jobs[id];
        Ok(
            JobStatusResponseView {
                job_id: job.id,
                job_type: job.job_type,
                status: job.status,
                error: job.error,
                progress: match job.progress {
                    Some(sink) => Some(sink.snapshot_at(now)),
                    None => None,
                },
            },
        )
    }
}

/// The answer to a query for a receipt.
pub open spec fn receipt_answer(
    jobs: Map<Seq<char>, JobView>,
    id: Seq<char>,
) -> Result<Seq<u8>, ApiErrorView> {
    if !jobs.contains_key(id) {
        no_such_job()
    } else if jobs[id].status != JobStatus::Complete {
        refusal(BAD_REQUEST, "Job not complete (status: "@ + jobs[id].status.name() + ")"@)
    } else {
        match jobs[id].receipt {
            Some(receipt) => Ok(receipt),
            None => refusal(INTERNAL, "Receipt not available"@),
        }
    }
}

/// The jobs after a query for a receipt: a job that is complete is forgotten.
pub open spec fn after_receipt(jobs: Map<Seq<char>, JobView>, id: Seq<char>) -> Map<
    Seq<char>,
    JobView,
> {
    if jobs.contains_key(id) && jobs[id].status == JobStatus::Complete {
        jobs.remove(id)
    } else {
        jobs
    }
}

/// What there is to work on for a job: nothing where it is not there or no longer
/// wanted.
pub open spec fn work_of(jobs: Map<Seq<char>, JobView>, id: Seq<char>) -> Option<JobRequestView> {
    if jobs.contains_key(id) && !jobs[id].cancel_requested {
        Some(jobs[id].request)
    } else {
        None
    }
}

/// The change that a cancellation makes.
pub open spec fn cancelling() -> spec_fn(JobView) -> JobView {
    |job: JobView| job.cancelled()
}

/// The change that the worker's coming to a job makes.
pub open spec fn taking_up() -> spec_fn(JobView) -> JobView {
    |job: JobView| job.taken_up()
}

/// The change that the end of a job's work makes.
pub open spec fn ending(made: Result<Seq<u8>, Seq<char>>, now: u64) -> spec_fn(JobView) -> JobView {
    |job: JobView| job.ended(made, now)
}

/// The change that the beginning of proving makes.
pub open spec fn beginning(now: u64) -> spec_fn(JobView) -> JobView {
    |job: JobView|
        job.with_progress(
            ProgressSink {
                started: now,
                total_cycles: 0,
                segments: 0,
                segments_done: 0,
                proving_cycles_done: 0,
                first_segment_millis: 0,
                finished: None,
            },
        )
}

/// The change that the session's being ready makes.
pub open spec fn preparing(total_cycles: u64, segments: usize) -> spec_fn(JobView) -> JobView {
    |job: JobView|
        match job.progress {
            Some(sink) => job.with_progress(ProgressSink { total_cycles, segments, ..sink }),
            None => job,
        }
}

/// The change that a proven segment makes.
pub open spec fn advancing(po2: usize, now: u64) -> spec_fn(JobView) -> JobView {
    |job: JobView|
        match job.progress {
            Some(sink) => job.with_progress(sink.after_segment(po2, now)),
            None => job,
        }
}

impl ServerState {
    /// Each job is kept under its own identifier, and no two share one.
    pub closed spec fn wf(&self) -> bool {
        distinct(list_view(self.jobs@))
    }

    /// A server without jobs.
    pub fn new() -> (state: ServerState)
        ensures
            state.wf(),
            state@ == Map::<Seq<char>, JobView>::empty(),
    {
        let state = ServerState { jobs: Vec::new() };
        assert(list_view(state.jobs@) =~= Seq::empty());
        assert(state@ =~= Map::<Seq<char>, JobView>::empty());
        state
    }

    fn find(&self, id: &str) -> (at: Option<usize>)
        ensures
            at matches Some(i) ==> i < self.jobs@.len() && self.jobs@[i as int].id@ == id@,
            at is None ==> !listed(list_view(self.jobs@), id@),
    {
        let mut i: usize = 0;
        while i < self.jobs.len()
            invariant
                i <= self.jobs.len(),
                forall|j: int| 0 <= j < i ==> (#[trigger] self.jobs@[j]).id@ != id@,
            decreases self.jobs.len() - i,
        {
            if text_eq(self.jobs[i].id.as_str(), id) {
                return Some(i);
            }
            i = i + 1;
        }
        assert forall|j: int| 0 <= j < list_view(self.jobs@).len() implies (#[trigger] list_view(
            self.jobs@,
        )[j]).id != id@ by {
            assert(list_view(self.jobs@)[j] == self.jobs@[j]@);
            assert(self.jobs@[j].id@ != id@);
        }
        None
    }

    fn insert(&mut self, job: Job)
        requires
            old(self).wf(),
        ensures
            final(self).wf(),
            final(self)@ == old(self)@.insert(job@.id, job@),
    {
        let ghost before = list_view(self.jobs@);
        match self.find(job.id.as_str()) {
            Some(i) => {
                proof {
                    lemma_table_update(before, i as int, job@);
                    assert(list_view(self.jobs@.update(i as int, job)) =~= before.update(
                        i as int,
                        job@,
                    ));
                }
                self.jobs.set(i, job);
            },
            None => {
                proof {
                    lemma_table_push(before, job@);
                    assert(list_view(self.jobs@.push(job)) =~= before.push(job@));
                }
                self.jobs.push(job);
            },
        }
    }

    fn take(&mut self, i: usize) -> (job: Job)
        requires
            old(self).wf(),
            i < old(self).jobs@.len(),
        ensures
            final(self).wf(),
            job == old(self).jobs@[i as int],
            old(self)@.contains_key(job@.id),
            old(self)@[job@.id] == job@,
            final(self)@ == old(self)@.remove(job@.id),
    {
        let ghost before = list_view(self.jobs@);
        proof {
            lemma_table_remove(before, i as int);
            lemma_table_index(before, i as int);
            assert(before[i as int] == self.jobs@[i as int]@);
            assert(list_view(self.jobs@.remove(i as int)) =~= before.remove(i as int));
        }
        self.jobs.remove(i)
    }

    /// Submits a job under a given identifier.
    pub fn submit(&mut self, job_id: String, request: JobRequest) -> (response: SubmitResponse)
        requires
            old(self).wf(),
        ensures
            final(self).wf(),
            final(self)@ == old(self)@.insert(job_id@, JobView::fresh(job_id@, request@)),
            response.job_id@ == job_id@,
            response.status == JobStatus::Pending,
    {
        let job = Job {
            id: job_id.clone(),
            job_type: request.job_type(),
            status: JobStatus::Pending,
            request,
            receipt: None,
            error: None,
            progress: None,
            cancel_requested: false,
        };
        self.insert(job);
        SubmitResponse { job_id, status: JobStatus::Pending }
    }

    /// Submits a proof, given the encoded request and whether decoding it showed a
    /// fold or a step, or failed.
    ///
    /// The identifier of the job is drawn at random.
    pub fn submit_prove(&mut self, decoded: Result<bool, String>, encoded: Vec<u8>) -> (response: Result<
        SubmitResponse,
        ApiError,
    >)
        requires
            old(self).wf(),
        ensures
            final(self).wf(),
            match decoded {
                Err(e) => final(self)@ == old(self)@ && (response matches Err(r) && r@ == (
                ApiErrorView {
                    status: BAD_REQUEST,
                    message: "Invalid proving request: "@ + e@,
                })),
                Ok(is_fold) => response matches Ok(r) && is_uuid(r.job_id@) && r.status
                    == JobStatus::Pending && final(self)@ == old(self)@.insert(
                    r.job_id@,
                    JobView::fresh(
                        r.job_id@,
                        JobRequestView::Prove { is_fold, encoded: encoded@ },
                    ),
                ),
            },
    {
        match decoded {
            Err(e) => Err(
                refuse(BAD_REQUEST, "Invalid proving request: ".to_owned().concat(e.as_str())),
            ),
            Ok(is_fold) => Ok(self.submit(fresh_uuid(), JobRequest::Prove { is_fold, encoded })),
        }
    }

    /// Submits a compression, given the encoded input and whether decoding it
    /// failed.
    ///
    /// The identifier of the job is drawn at random.
    pub fn submit_compress(&mut self, decoded: Result<(), String>, encoded: Vec<u8>) -> (response: Result<
        SubmitResponse,
        ApiError,
    >)
        requires
            old(self).wf(),
        ensures
            final(self).wf(),
            match decoded {
                Err(e) => final(self)@ == old(self)@ && (response matches Err(r) && r@ == (
                ApiErrorView {
                    status: BAD_REQUEST,
                    message: "Invalid compress input: "@ + e@,
                })),
                Ok(_) => response matches Ok(r) && is_uuid(r.job_id@) && r.status
                    == JobStatus::Pending && final(self)@ == old(self)@.insert(
                    r.job_id@,
                    JobView::fresh(r.job_id@, JobRequestView::Compress { encoded: encoded@ }),
                ),
            },
    {
        match decoded {
            Err(e) => Err(
                refuse(BAD_REQUEST, "Invalid compress input: ".to_owned().concat(e.as_str())),
            ),
            Ok(_) => Ok(self.submit(fresh_uuid(), JobRequest::Compress { encoded })),
        }
    }

    /// Stops a job.
    ///
    /// One that waits is dropped before it starts. One that runs cannot be
    /// interrupted: it is marked, runs to its end, and what it makes is dropped.
    pub fn cancel_job(&mut self, job_id: &str) -> (reply: Result<CancelReply, ApiError>)
        requires
            old(self).wf(),
        ensures
            final(self).wf(),
            final(self)@ == changed(old(self)@, job_id@, cancelling()),
            answer_view(reply) == cancel_answer(old(self)@, job_id@),
    {
        let ghost before = self@;
        let i: usize = match self.find(job_id) {
            Some(i) => i,
            None => return Err(job_missing()),
        };
        let mut job = self.take(i);
        let reply = match job.status {
            JobStatus::Pending => {
                job.cancel_requested = true;
                job.status = JobStatus::Cancelled;
                Ok(CancelReply { cancelled: true, was_running: false, note: None })
            },
            JobStatus::Processing => {
                job.cancel_requested = true;
                Ok(
                    CancelReply {
                        cancelled: true,
                        was_running: true,
                        note: Some("proof runs to completion; receipt discarded".to_owned()),
                    },
                )
            },
            status => Err(refuse(CONFLICT, "job already ".to_owned().concat(status.text()))),
        };
        self.insert(job);
        assert(self@ =~= changed(before, job_id@, cancelling()));
        reply
    }

    /// How far a job has come, at a given time.
    pub fn get_job_status(&self, job_id: &str, now: u64) -> (answer: Result<
        JobStatusResponse,
        ApiError,
    >)
        requires
            self.wf(),
        ensures
            answer_view(answer) == status_answer(self@, job_id@, now),
    {
        match self.find(job_id) {
            None => Err(job_missing()),
            Some(i) => {
                let job = &self.jobs[i];
                proof {
                    assert(list_view(self.jobs@)[i as int] == job@);
                    lemma_table_index(list_view(self.jobs@), i as int);
                }
                let progress = match &job.progress {
                    Some(sink) => Some(sink.snapshot(now)),
                    None => None,
                };
                Ok(
                    JobStatusResponse {
                        job_id: job.id.clone(),
                        job_type: job.job_type,
                        status: job.status,
                        error: copy_opt(&job.error),
                        progress,
                    },
                )
            },
        }
    }

    /// The receipt of a job that is complete, which is forgotten with it, so that it
    /// is taken once only.
    pub fn get_job_receipt(&mut self, job_id: &str) -> (receipt: Result<Vec<u8>, ApiError>)
        requires
            old(self).wf(),
        ensures
            final(self).wf(),
            final(self)@ == after_receipt(old(self)@, job_id@),
            answer_view(receipt) == receipt_answer(old(self)@, job_id@),
    {
        let i: usize = match self.find(job_id) {
            Some(i) => i,
            None => return Err(job_missing()),
        };
        let status = self.jobs[i].status;
        proof {
            assert(list_view(self.jobs@)[i as int] == self.jobs@[i as int]@);
            lemma_table_index(list_view(self.jobs@), i as int);
        }
        if status != JobStatus::Complete {
            return Err(
                refuse(
                    BAD_REQUEST,
                    "Job not complete (status: ".to_owned().concat(status.text()).concat(")"),
                ),
            );
        }
        let job = self.take(i);
        match job.receipt {
            Some(receipt) => Ok(receipt),
            None => Err(refuse(INTERNAL, "Receipt not available".to_owned())),
        }
    }

    /// The worker comes to a job: what to work on, unless the job is not there or
    /// no longer wanted.
    pub fn take_up(&mut self, job_id: &str) -> (work: Option<JobRequest>)
        requires
            old(self).wf(),
        ensures
            final(self).wf(),
            final(self)@ == changed(old(self)@, job_id@, taking_up()),
            opt_view(work) == work_of(old(self)@, job_id@),
    {
        let ghost before = self@;
        let i: usize = match self.find(job_id) {
            Some(i) => i,
            None => return None,
        };
        let mut job = self.take(i);
        let mut work: Option<JobRequest> = None;
        if !job.cancel_requested {
            job.status = JobStatus::Processing;
            work = Some(job.request.copy());
        }
        self.insert(job);
        assert(self@ =~= changed(before, job_id@, taking_up()));
        work
    }

    /// Proving begins: the counters are attached before it, so that they can be read
    /// while it goes on.
    pub fn start_progress(&mut self, job_id: &str, now: u64)
        requires
            old(self).wf(),
        ensures
            final(self).wf(),
            final(self)@ == changed(old(self)@, job_id@, beginning(now)),
    {
        let ghost before = self@;
        match self.find(job_id) {
            Some(i) => {
                let mut job = self.take(i);
                job.progress = Some(ProgressSink::new(now));
                self.insert(job);
                assert(self@ =~= changed(before, job_id@, beginning(now)));
            },
            None => {},
        }
    }

    /// The worker comes to a job, at a given time: what to work on, if anything. For
    /// a proof the counters are attached.
    pub fn begin_work(&mut self, job_id: &str, now: u64) -> (work: Option<JobRequest>)
        requires
            old(self).wf(),
        ensures
            final(self).wf(),
            opt_view(work) == work_of(old(self)@, job_id@),
            final(self)@ == (if work_of(old(self)@, job_id@) matches Some(request)
                && request is Prove {
                changed(changed(old(self)@, job_id@, taking_up()), job_id@, beginning(now))
            } else {
                changed(old(self)@, job_id@, taking_up())
            }),
    {
        let work = self.take_up(job_id);
        match &work {
            Some(JobRequest::Prove { .. }) => {
                self.start_progress(job_id, now);
            },
            _ => {},
        }
        work
    }

    /// The session of a job is ready.
    pub fn session_ready(&mut self, job_id: &str, total_cycles: u64, segments: usize)
        requires
            old(self).wf(),
        ensures
            final(self).wf(),
            final(self)@ == changed(old(self)@, job_id@, preparing(total_cycles, segments)),
    {
        let ghost before = self@;
        match self.find(job_id) {
            Some(i) => {
                let mut job = self.take(i);
                match job.progress {
                    Some(sink) => {
                        let mut sink = sink;
                        sink.on_session_ready(total_cycles, segments);
                        job.progress = Some(sink);
                    },
                    None => {},
                }
                self.insert(job);
                assert(self@ =~= changed(before, job_id@, preparing(total_cycles, segments)));
            },
            None => {},
        }
    }

    /// A segment of `2^po2` cycles of a job was proven.
    pub fn segment_proven(&mut self, job_id: &str, po2: usize, now: u64)
        requires
            old(self).wf(),
            po2 < 64,
        ensures
            final(self).wf(),
            final(self)@ == changed(old(self)@, job_id@, advancing(po2, now)),
    {
        let ghost before = self@;
        match self.find(job_id) {
            Some(i) => {
                let mut job = self.take(i);
                match job.progress {
                    Some(sink) => {
                        let mut hook = SegmentProgress::new(sink);
                        hook.on_post_prove_segment(po2, now);
                        job.progress = Some(hook.sink);
                    },
                    None => {},
                }
                self.insert(job);
                assert(self@ =~= changed(before, job_id@, advancing(po2, now)));
            },
            None => {},
        }
    }

    /// The work on a job has ended, with a receipt or an error.
    pub fn record(&mut self, job_id: &str, made: Result<Vec<u8>, String>, now: u64)
        requires
            old(self).wf(),
        ensures
            final(self).wf(),
            final(self)@ == changed(
                old(self)@,
                job_id@,
                ending(crate::text::result_view(made), now),
            ),
    {
        let ghost before = self@;
        match self.find(job_id) {
            Some(i) => {
                let mut job = self.take(i);
                match job.progress {
                    Some(sink) => {
                        let mut sink = sink;
                        sink.finish(now);
                        job.progress = Some(sink);
                    },
                    None => {},
                }
                if job.cancel_requested {
                    job.status = JobStatus::Cancelled;
                } else {
                    match made {
                        Ok(receipt) => {
                            job.status = JobStatus::Complete;
                            job.receipt = Some(receipt);
                        },
                        Err(e) => {
                            job.status = JobStatus::Failed;
                            job.error = Some(e);
                        },
                    }
                }
                self.insert(job);
                assert(self@ =~= changed(
                    before,
                    job_id@,
                    ending(crate::text::result_view(made), now),
                ));
            },
            None => {},
        }
    }
}

// ---------------------------------------------------------------------------
// The life of a job
// ---------------------------------------------------------------------------

/// What holds of every job: it has a receipt if and only if it is complete, an
/// error if and only if it failed, and it is no longer wanted only if it runs or
/// was cancelled, and always if it was cancelled.
pub open spec fn sound_job(job: JobView) -> bool {
    &&& job.receipt is Some <==> job.status == JobStatus::Complete
    &&& job.error is Some <==> job.status == JobStatus::Failed
    &&& job.status == JobStatus::Cancelled ==> job.cancel_requested
    &&& job.cancel_requested ==> job.status == JobStatus::Processing || job.status
        == JobStatus::Cancelled
    &&& job.job_type == job.request.job_type()
}

/// A job is sound from its submission on, and stays so: when it is cancelled, when
/// the worker comes to it while it waits or is no longer wanted, and when its work
/// ends.
pub proof fn lemma_jobs_stay_sound(
    id: Seq<char>,
    request: JobRequestView,
    job: JobView,
    made: Result<Seq<u8>, Seq<char>>,
    now: u64,
)
    requires
        sound_job(job),
    ensures
        sound_job(JobView::fresh(id, request)),
        sound_job(job.cancelled()),
        job.status == JobStatus::Pending || job.cancel_requested ==> sound_job(job.taken_up()),
        job.status == JobStatus::Processing ==> sound_job(job.ended(made, now)),
{
}

/// Every job of a table is sound and kept under its own identifier.
pub open spec fn sound_jobs(jobs: Map<Seq<char>, JobView>) -> bool {
    forall|id: Seq<char>|
        #[trigger] jobs.contains_key(id) ==> jobs[id].id == id && sound_job(jobs[id])
}

/// A change that keeps one job sound keeps the table sound.
proof fn lemma_change_keeps_soundness(
    jobs: Map<Seq<char>, JobView>,
    id: Seq<char>,
    change: spec_fn(JobView) -> JobView,
)
    requires
        sound_jobs(jobs),
        jobs.contains_key(id) ==> change(jobs[id]).id == id && sound_job(change(jobs[id])),
    ensures
        sound_jobs(changed(jobs, id, change)),
{
}

/// The jobs of a server are sound from the start and stay so, whatever is asked of it:
/// with each submission, cancellation and receipt that is taken, with all progress,
/// when the worker comes to a job that waits or is no longer wanted, and when the work
/// on a job that runs ends.
pub proof fn lemma_table_stays_sound(
    jobs: Map<Seq<char>, JobView>,
    id: Seq<char>,
    request: JobRequestView,
    made: Result<Seq<u8>, Seq<char>>,
    cycles: u64,
    segments: usize,
    po2: usize,
    now: u64,
)
    requires
        sound_jobs(jobs),
    ensures
        sound_jobs(Map::<Seq<char>, JobView>::empty()),
        sound_jobs(jobs.insert(id, JobView::fresh(id, request))),
        sound_jobs(changed(jobs, id, cancelling())),
        sound_jobs(after_receipt(jobs, id)),
        sound_jobs(changed(jobs, id, beginning(now))),
        sound_jobs(changed(jobs, id, preparing(cycles, segments))),
        sound_jobs(changed(jobs, id, advancing(po2, now))),
        jobs.contains_key(id) && (jobs[id].status == JobStatus::Pending
            || jobs[id].cancel_requested) ==> sound_jobs(changed(jobs, id, taking_up())),
        jobs.contains_key(id) && jobs[id].status == JobStatus::Processing ==> sound_jobs(
            changed(jobs, id, ending(made, now)),
        ),
{
    lemma_change_keeps_soundness(jobs, id, cancelling());
    lemma_change_keeps_soundness(jobs, id, beginning(now));
    lemma_change_keeps_soundness(jobs, id, preparing(cycles, segments));
    lemma_change_keeps_soundness(jobs, id, advancing(po2, now));
    if jobs.contains_key(id) && (jobs[id].status == JobStatus::Pending
        || jobs[id].cancel_requested) {
        lemma_change_keeps_soundness(jobs, id, taking_up());
    }
    if jobs.contains_key(id) && jobs[id].status == JobStatus::Processing {
        lemma_change_keeps_soundness(jobs, id, ending(made, now));
    }
}

/// Of sound jobs, every complete one gives its receipt: a query for a receipt fails only
/// where there is no such job or it is not complete.
pub proof fn lemma_complete_jobs_give_receipts(jobs: Map<Seq<char>, JobView>, id: Seq<char>)
    requires
        sound_jobs(jobs),
    ensures
        receipt_answer(jobs, id) is Ok <==> jobs.contains_key(id) && jobs[id].status
            == JobStatus::Complete,
{
}

/// A job that is over cannot be cancelled: it stays as it is, and the request is a
/// conflict.
pub proof fn lemma_finished_jobs_cannot_be_cancelled(
    jobs: Map<Seq<char>, JobView>,
    id: Seq<char>,
)
    requires
        jobs.contains_key(id),
        jobs[id].status.is_final(),
    ensures
        changed(jobs, id, cancelling()) == jobs,
        cancel_answer(jobs, id) == refusal::<CancelReplyView>(
            CONFLICT,
            "job already "@ + jobs[id].status.name(),
        ),
{
    assert(changed(jobs, id, cancelling()) =~= jobs);
}

/// A job that was cancelled while it waited is never started.
pub proof fn lemma_cancelled_jobs_never_start(job: JobView)
    requires
        job.status == JobStatus::Pending,
    ensures
        job.cancelled().taken_up() == job.cancelled(),
        job.cancelled().status == JobStatus::Cancelled,
{
}

/// A job that was cancelled while it ran ends as cancelled, without receipt or
/// error, whatever its work came to.
pub proof fn lemma_cancelled_work_is_dropped(
    job: JobView,
    made: Result<Seq<u8>, Seq<char>>,
    now: u64,
)
    requires
        sound_job(job),
        job.status == JobStatus::Processing,
    ensures
        job.cancelled().ended(made, now).status == JobStatus::Cancelled,
        job.cancelled().ended(made, now).receipt is None,
        job.cancelled().ended(made, now).error is None,
{
}

/// A receipt is taken once: when it has been, the job is not there any more.
pub proof fn lemma_receipts_are_taken_once(jobs: Map<Seq<char>, JobView>, id: Seq<char>)
    requires
        receipt_answer(jobs, id) is Ok,
    ensures
        receipt_answer(after_receipt(jobs, id), id) == no_such_job::<Seq<u8>>(),
{
}

/// The receipt that is given out is the one that the work on the job made.
pub proof fn lemma_receipt_is_what_was_made(
    jobs: Map<Seq<char>, JobView>,
    id: Seq<char>,
    receipt: Seq<u8>,
    now: u64,
)
    requires
        jobs.contains_key(id),
        !jobs[id].cancel_requested,
    ensures
        receipt_answer(changed(jobs, id, ending(Ok(receipt), now)), id) == Ok::<
            Seq<u8>,
            ApiErrorView,
        >(receipt),
{
}

/// What happens to one job leaves the others alone.
pub proof fn lemma_jobs_do_not_affect_each_other(
    jobs: Map<Seq<char>, JobView>,
    id: Seq<char>,
    change: spec_fn(JobView) -> JobView,
    other: Seq<char>,
)
    requires
        id != other,
    ensures
        changed(jobs, id, change).contains_key(other) == jobs.contains_key(other),
        jobs.contains_key(other) ==> changed(jobs, id, change)[other] == jobs[other],
        after_receipt(jobs, id).contains_key(other) == jobs.contains_key(other),
        jobs.contains_key(other) ==> after_receipt(jobs, id)[other] == jobs[other],
{
}

// ---------------------------------------------------------------------------
// Other endpoints
// ---------------------------------------------------------------------------

/// The measured throughput of the machine, where it was measured.
pub fn get_calibration<C>(measured: Option<C>) -> (answer: Result<C, ApiError>)
    ensures
        measured matches Some(info) ==> answer == Ok::<C, ApiError>(info),
        measured is None ==> (answer matches Err(e) && e@ == (ApiErrorView {
            status: UNAVAILABLE,
            message: "calibration unavailable (skipped or failed)"@,
        })),
{
    match measured {
        Some(info) => Ok(info),
        None => Err(
            refuse(UNAVAILABLE, "calibration unavailable (skipped or failed)".to_owned()),
        ),
    }
}

/// What the server says of its health.
pub fn health() -> (text: &'static str)
    ensures
        text@ == "ok"@,
{
    "ok"
}

/// The answer to a query for an estimate, from what decoding the request gave.
pub fn submit_estimate<R>(decoded: Result<R, String>) -> (request: Result<R, ApiError>)
    ensures
        decoded matches Ok(r) ==> request == Ok::<R, ApiError>(r),
        decoded matches Err(e) ==> (request matches Err(r) && r@ == (ApiErrorView {
            status: BAD_REQUEST,
            message: "Invalid proving request: "@ + e@,
        })),
{
    match decoded {
        Ok(r) => Ok(r),
        Err(e) => Err(
            refuse(BAD_REQUEST, "Invalid proving request: ".to_owned().concat(e.as_str())),
        ),
    }
}

/// The answer to a query for an estimate, from what the task came to: an outer
/// error is that of the task, an inner one that of the estimate.
pub fn estimate_answer<E>(made: Result<Result<E, String>, String>) -> (answer: Result<E, ApiError>)
    ensures
        match made {
            Ok(Ok(estimate)) => answer == Ok::<E, ApiError>(estimate),
            Ok(Err(e)) => answer matches Err(r) && r@ == (ApiErrorView {
                status: INTERNAL,
                message: "Estimate failed: "@ + e@,
            }),
            Err(e) => answer matches Err(r) && r@ == (ApiErrorView {
                status: INTERNAL,
                message: "Task panicked: "@ + e@,
            }),
        },
{
    match made {
        Ok(Ok(estimate)) => Ok(estimate),
        Ok(Err(e)) => Err(refuse(INTERNAL, "Estimate failed: ".to_owned().concat(e.as_str()))),
        Err(e) => Err(refuse(INTERNAL, "Task panicked: ".to_owned().concat(e.as_str()))),
    }
}

/// The token that requests must present, from the environment: an empty one counts
/// as none.
pub fn required_token(value: Option<String>) -> (token: Option<String>)
    ensures
        opt_view(token) == (match opt_view(value) {
            Some(v) => if v.len() > 0 {
                Some(v)
            } else {
                None
            },
            None => None,
        }),
{
    match value {
        Some(v) => if v.as_str().is_empty() {
            None
        } else {
            Some(v)
        },
        None => None,
    }
}

/// A header that presents a token.
pub open spec fn presents(header: Option<Seq<char>>, token: Seq<char>) -> bool {
    header matches Some(h) && after_prefix(h, "Bearer "@) == Some(token)
}

/// Lets a request through if its header presents the expected token.
pub fn bearer_auth(expected: &str, header: Option<&str>) -> (pass: Result<(), ApiError>)
    ensures
        pass is Ok <==> presents(opt_str_view(header), expected@),
        pass matches Err(e) ==> e@ == (ApiErrorView {
            status: UNAUTHORIZED,
            message: "missing or bad bearer token"@,
        }),
{
    let presented = match header {
        Some(h) => strip_prefix(h, "Bearer "),
        None => None,
    };
    let ok = match presented {
        Some(token) => text_eq(token, expected),
        None => false,
    };
    if ok {
        Ok(())
    } else {
        Err(refuse(UNAUTHORIZED, "missing or bad bearer token".to_owned()))
    }
}

/// The header that presents a token passes where that token is expected, and no
/// other.
pub proof fn lemma_token_header_passes(token: Seq<char>, expected: Seq<char>)
    ensures
        presents(Some("Bearer "@ + token), expected) <==> token == expected,
{
    let h = "Bearer "@ + token;
    assert(h.take("Bearer "@.len() as int) =~= "Bearer "@);
    assert(h.skip("Bearer "@.len() as int) =~= token);
}

} // verus!
