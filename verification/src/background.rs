//! Background tasks.
//!
//! One loop fetches estimates for the proofs that are needed and follows the jobs
//! that users have started; another, where it is enabled, pulls, stages,
//! acknowledges and publishes.
use vstd::prelude::*;

use crate::adapters::status_display;
use crate::flow::{
    answers, get_call, get_from, job_key, job_key_text, join_url, post_call, post_to, success,
    url_under, Action, ActionView, Event, EventView, JobReport, JobReportView, Payload,
    PayloadView, ProvingRequest, ProvingRequestView, Setting, Step, StepView, NOT_FOUND,
};
use crate::routes::commits::{pipeline_next, DraftView, PipelineStageView, PUBLISH_BATCH_SIZE};
use crate::routes::proving::{
    cancel_next, poll_next, push_next, ApproachView, CancelStageView, PollStageView,
    PushStageView, Site, SiteView, Work, WorkView,
};
use crate::routes::registry::{
    sync_next, sync_once, sync_start, SyncOutcome, SyncStage, SyncStageView, SyncStep,
};
use crate::text::{
    contains, copy_opt, found, found_text, group_list_view, has_substring, list_view, opt_view,
    text_eq,
};

verus! {

broadcast use group_list_view;

/// Milliseconds between rounds of the proving loop when no work is found.
pub const POLL_INTERVAL: u64 = 10_000;

/// Milliseconds between rounds of the proving loop when a job may complete.
pub const JOB_POLL_INTERVAL: u64 = 5_000;

/// Milliseconds between rounds of the registry loop.
///
/// Polling this often is cheap: one query of the operator's own registry, and the
/// publishing after it ends at once where there is nothing to send.
pub const REGISTRY_POLL_INTERVAL: u64 = 2_000;

/// The least gap between two publishes, in milliseconds.
///
/// The relay takes 60 messages a minute from one address. With this gap at most 40
/// are sent, however many spaces there are.
pub const MESSAGE_SPACING: u64 = 1_500;

/// Milliseconds before the first round, while the server starts.
pub const STARTUP_DELAY: u64 = 2_000;

/// Seconds to wait for an estimate.
pub const ESTIMATE_TIMEOUT: u64 = 120;

// ---------------------------------------------------------------------------
// Following a job
// ---------------------------------------------------------------------------

/// What following a job came to.
pub enum Polled {
    /// The job is over: its receipt was saved, or it failed.
    Complete,
    /// The job is still under way.
    Unfinished,
    /// The attempt to follow the job failed.
    Failed(String),
}

pub ghost enum PolledView {
    Complete,
    Unfinished,
    Failed(Seq<char>),
}

impl View for Polled {
    type V = PolledView;

    open spec fn view(&self) -> PolledView {
        match self {
            Polled::Complete => PolledView::Complete,
            Polled::Unfinished => PolledView::Unfinished,
            Polled::Failed(e) => PolledView::Failed(e@),
        }
    }
}

/// How far the following of a job has come.
pub enum PollJobStage {
    /// The prover is being asked for the job.
    Ask(Work),
    /// A job that the prover does not know is being forgotten.
    Lost { status: String },
    /// What the prover says of the job is being read.
    Report(Work),
    /// The prover is being asked for the receipt.
    Fetch(Work),
    /// The receipt is being read.
    Receive(Work),
    /// The receipt is being saved.
    Save(Work),
    /// The job of a saved proof is being forgotten.
    Forget,
    /// The job of a failed proof is being forgotten.
    Abandon,
}

pub ghost enum PollJobStageView {
    Ask(WorkView),
    Lost { status: Seq<char> },
    Report(WorkView),
    Fetch(WorkView),
    Receive(WorkView),
    Save(WorkView),
    Forget,
    Abandon,
}

impl View for PollJobStage {
    type V = PollJobStageView;

    open spec fn view(&self) -> PollJobStageView {
        match self {
            PollJobStage::Ask(w) => PollJobStageView::Ask(w@),
            PollJobStage::Lost { status } => PollJobStageView::Lost { status: status@ },
            PollJobStage::Report(w) => PollJobStageView::Report(w@),
            PollJobStage::Fetch(w) => PollJobStageView::Fetch(w@),
            PollJobStage::Receive(w) => PollJobStageView::Receive(w@),
            PollJobStage::Save(w) => PollJobStageView::Save(w@),
            PollJobStage::Forget => PollJobStageView::Forget,
            PollJobStage::Abandon => PollJobStageView::Abandon,
        }
    }
}

pub type PollJobStep = StepView<PollJobStageView, PolledView>;

/// The end of an attempt that failed.
pub open spec fn poll_failed(message: Seq<char>) -> PollJobStep {
    StepView::Finish(Ok(PolledView::Failed(message)))
}

/// The first step of following a job.
pub open spec fn poll_job_start(work: WorkView) -> PollJobStep {
    StepView::Perform(
        PollJobStageView::Ask(work),
        ActionView::Send(get_from(work.url(), work.site.token, None)),
    )
}

/// Follows a job: asks the prover for it, and saves the receipt if it is complete.
pub fn poll_job(work: Work) -> (step: Step<PollJobStage, Polled>)
    ensures
        step@ == poll_job_start(work@),
{
    let url = work.url();
    let token = copy_opt(&work.site.token);
    Step::Perform(PollJobStage::Ask(work), Action::Send(get_call(url, token, None)))
}

/// What is done about a job that the prover reports on.
pub open spec fn job_reported(work: WorkView, report: JobReportView) -> PollJobStep {
    if report.status == "complete"@ {
        StepView::Perform(
            PollJobStageView::Fetch(work),
            ActionView::Send(get_from(work.url() + "/receipt"@, work.site.token, None)),
        )
    } else if report.status == "failed"@ {
        StepView::Perform(PollJobStageView::Abandon, ActionView::DeleteKey(work.key()))
    } else {
        StepView::Finish(Ok(PolledView::Unfinished))
    }
}

/// A complete job's receipt is fetched and saved before the job is forgotten. A
/// failed job is over too, and is forgotten without a receipt. One that the prover
/// does not know is forgotten as well, so that it can be pushed again.
pub open spec fn poll_job_next(stage: PollJobStageView, event: EventView) -> PollJobStep {
    match (stage, event) {
        (PollJobStageView::Ask(_), EventView::Sent(Err(e))) => poll_failed(e),
        (PollJobStageView::Ask(work), EventView::Sent(Ok(code))) => if success(code) {
            StepView::Perform(PollJobStageView::Report(work), ActionView::ReadReport)
        } else if code == NOT_FOUND {
            StepView::Perform(
                PollJobStageView::Lost { status: status_display(code) },
                ActionView::DeleteKey(work.key()),
            )
        } else {
            poll_failed("prover returned "@ + status_display(code))
        },
        (PollJobStageView::Lost { status }, EventView::Done(_)) => poll_failed(
            "prover returned "@ + status,
        ),
        (PollJobStageView::Report(_), EventView::Report(Err(e))) => poll_failed(e),
        (PollJobStageView::Report(work), EventView::Report(Ok(report))) => job_reported(
            work,
            report,
        ),
        (PollJobStageView::Fetch(_), EventView::Sent(Err(e))) => poll_failed(e),
        (PollJobStageView::Fetch(work), EventView::Sent(Ok(code))) => if success(code) {
            StepView::Perform(PollJobStageView::Receive(work), ActionView::ReadBytes)
        } else {
            poll_failed("receipt download failed: "@ + status_display(code))
        },
        (PollJobStageView::Receive(_), EventView::Bytes(Err(e))) => poll_failed(e),
        (PollJobStageView::Receive(work), EventView::Bytes(Ok(receipt))) => StepView::Perform(
            PollJobStageView::Save(work),
            ActionView::Fulfill {
                space: work.site.label,
                commitment_id: work.commitment_id,
                is_fold: work.is_fold,
                receipt,
            },
        ),
        (PollJobStageView::Save(_), EventView::Done(Err(e))) => poll_failed(e),
        (PollJobStageView::Save(work), EventView::Done(Ok(_))) => StepView::Perform(
            PollJobStageView::Forget,
            ActionView::DeleteKey(work.key()),
        ),
        (PollJobStageView::Forget, EventView::Done(_)) => StepView::Finish(
            Ok(PolledView::Complete),
        ),
        (PollJobStageView::Abandon, EventView::Done(_)) => StepView::Finish(
            Ok(PolledView::Complete),
        ),
        _ => StepView::Ignored(stage),
    }
}

fn failed_poll(message: String) -> (step: Step<PollJobStage, Polled>)
    ensures
        step@ == poll_failed(message@),
{
    Step::Finish(Ok(Polled::Failed(message)))
}

fn take_report(work: Work, report: JobReport) -> (step: Step<PollJobStage, Polled>)
    ensures
        step@ == job_reported(work@, report@),
{
    if text_eq(report.status.as_str(), "complete") {
        let url = work.url().concat("/receipt");
        let token = copy_opt(&work.site.token);
        Step::Perform(PollJobStage::Fetch(work), Action::Send(get_call(url, token, None)))
    } else if text_eq(report.status.as_str(), "failed") {
        let key = work.key();
        Step::Perform(PollJobStage::Abandon, Action::DeleteKey(key))
    } else {
        Step::Finish(Ok(Polled::Unfinished))
    }
}

impl PollJobStage {
    /// Takes in the reply to the last action.
    pub fn step(self, event: Event) -> (step: Step<PollJobStage, Polled>)
        ensures
            step@ == poll_job_next(self@, event@),
    {
        match (self, event) {
            (PollJobStage::Ask(_), Event::Sent(Err(e))) => failed_poll(e),
            (PollJobStage::Ask(work), Event::Sent(Ok(code))) => {
                if code.is_success() {
                    Step::Perform(PollJobStage::Report(work), Action::ReadReport)
                } else if code.as_u16() == NOT_FOUND {
                    let key = work.key();
                    Step::Perform(
                        PollJobStage::Lost { status: code.text() },
                        Action::DeleteKey(key),
                    )
                } else {
                    failed_poll("prover returned ".to_owned().concat(code.text().as_str()))
                }
            },
            (PollJobStage::Lost { status }, Event::Done(_)) => failed_poll(
                "prover returned ".to_owned().concat(status.as_str()),
            ),
            (PollJobStage::Report(_), Event::Report(Err(e))) => failed_poll(e),
            (PollJobStage::Report(work), Event::Report(Ok(report))) => take_report(work, report),
            (PollJobStage::Fetch(_), Event::Sent(Err(e))) => failed_poll(e),
            (PollJobStage::Fetch(work), Event::Sent(Ok(code))) => {
                if code.is_success() {
                    Step::Perform(PollJobStage::Receive(work), Action::ReadBytes)
                } else {
                    failed_poll("receipt download failed: ".to_owned().concat(code.text().as_str()))
                }
            },
            (PollJobStage::Receive(_), Event::Bytes(Err(e))) => failed_poll(e),
            (PollJobStage::Receive(work), Event::Bytes(Ok(receipt))) => {
                let action = Action::Fulfill {
                    space: work.site.label.clone(),
                    commitment_id: work.commitment_id,
                    is_fold: work.is_fold,
                    receipt,
                };
                Step::Perform(PollJobStage::Save(work), action)
            },
            (PollJobStage::Save(_), Event::Done(Err(e))) => failed_poll(e),
            (PollJobStage::Save(work), Event::Done(Ok(_))) => {
                let key = work.key();
                Step::Perform(PollJobStage::Forget, Action::DeleteKey(key))
            },
            (PollJobStage::Forget, Event::Done(_)) => Step::Finish(Ok(Polled::Complete)),
            (PollJobStage::Abandon, Event::Done(_)) => Step::Finish(Ok(Polled::Complete)),
            (stage, _) => Step::Ignored(stage),
        }
    }
}

/// A job is forgotten only when its receipt has been saved, or when the prover
/// says that it failed or that there is no such job.
pub proof fn lemma_loop_forgets_settled_jobs(
    stage: PollJobStageView,
    event: EventView,
    after: PollJobStageView,
    key: Seq<char>,
)
    requires
        poll_job_next(stage, event) == PollJobStep::Perform(after, ActionView::DeleteKey(key)),
    ensures
        match stage {
            PollJobStageView::Save(work) => key == work.key() && (event matches EventView::Done(
                Ok(_),
            )),
            PollJobStageView::Report(work) => key == work.key() && (event matches EventView::Report(
                Ok(report),
            ) && report.status == "failed"@),
            PollJobStageView::Ask(work) => key == work.key() && event == EventView::Sent(
                Ok(NOT_FOUND),
            ),
            _ => false,
        },
{
}

/// A job that the prover reports as failed is over: it is forgotten, no receipt of it is
/// fetched, and following it ends as complete, even if forgetting fails.
pub proof fn lemma_failed_job_is_over(
    work: WorkView,
    report: JobReportView,
    forgotten: Result<(), Seq<char>>,
)
    requires
        report.status == "failed"@,
    ensures
        poll_job_next(PollJobStageView::Report(work), EventView::Report(Ok(report)))
            == PollJobStep::Perform(
            PollJobStageView::Abandon,
            ActionView::DeleteKey(work.key()),
        ),
        poll_job_next(PollJobStageView::Abandon, EventView::Done(forgotten))
            == PollJobStep::Finish(Ok(PolledView::Complete)),
{
    reveal_strlit("failed");
    reveal_strlit("complete");
    assert("failed"@[0] != "complete"@[0]);
}

/// The receipt that is saved is the one that the prover sent, for the proof that
/// the job makes.
pub proof fn lemma_loop_saves_what_was_sent(
    stage: PollJobStageView,
    event: EventView,
    after: PollJobStageView,
    space: Seq<char>,
    commitment_id: i64,
    is_fold: bool,
    receipt: Seq<u8>,
)
    requires
        poll_job_next(stage, event) == PollJobStep::Perform(
            after,
            ActionView::Fulfill { space, commitment_id, is_fold, receipt },
        ),
    ensures
        event == EventView::Bytes(Ok(receipt)),
        stage matches PollJobStageView::Receive(work) && work.site.label == space
            && work.commitment_id == commitment_id && work.is_fold == is_fold,
{
}

// ---------------------------------------------------------------------------
// Fetching an estimate
// ---------------------------------------------------------------------------

/// What fetching an estimate came to.
pub enum Fetched {
    Stored,
    Failed(String),
}

pub ghost enum FetchedView {
    Stored,
    Failed(Seq<char>),
}

impl View for Fetched {
    type V = FetchedView;

    open spec fn view(&self) -> FetchedView {
        match self {
            Fetched::Stored => FetchedView::Stored,
            Fetched::Failed(e) => FetchedView::Failed(e@),
        }
    }
}

/// How far the fetching of an estimate has come.
pub enum FetchStage {
    /// The prover is being asked.
    Ask { space: String, commitment_id: i64 },
    /// The estimate is being read.
    Read { space: String, commitment_id: i64 },
    /// The estimate is being stored.
    Save,
}

pub ghost enum FetchStageView {
    Ask { space: Seq<char>, commitment_id: i64 },
    Read { space: Seq<char>, commitment_id: i64 },
    Save,
}

impl View for FetchStage {
    type V = FetchStageView;

    open spec fn view(&self) -> FetchStageView {
        match self {
            FetchStage::Ask { space, commitment_id } => FetchStageView::Ask {
                space: space@,
                commitment_id: *commitment_id,
            },
            FetchStage::Read { space, commitment_id } => FetchStageView::Read {
                space: space@,
                commitment_id: *commitment_id,
            },
            FetchStage::Save => FetchStageView::Save,
        }
    }
}

pub type FetchStep = StepView<FetchStageView, FetchedView>;

/// The end of an attempt that failed.
pub open spec fn fetch_failed(message: Seq<char>) -> FetchStep {
    StepView::Finish(Ok(FetchedView::Failed(message)))
}

/// The first step of fetching an estimate.
pub open spec fn fetch_start(site: SiteView, request: ProvingRequestView) -> FetchStep {
    match request.encoded {
        Err(e) => fetch_failed(e),
        Ok(bytes) => StepView::Perform(
            FetchStageView::Ask { space: site.label, commitment_id: request.commitment_id },
            ActionView::Send(
                post_to(
                    url_under(site.endpoint, "/estimate"@),
                    site.token,
                    PayloadView::Octets(bytes),
                    Some(ESTIMATE_TIMEOUT),
                ),
            ),
        ),
    }
}

/// Fetches an estimate for a proof and stores it on the commitment.
pub fn fetch_and_store_estimate(site: Site, request: ProvingRequest) -> (step: Step<
    FetchStage,
    Fetched,
>)
    ensures
        step@ == fetch_start(site@, request@),
{
    match request.encoded {
        Err(e) => Step::Finish(Ok(Fetched::Failed(e))),
        Ok(bytes) => {
            let call = post_call(
                join_url(site.endpoint.as_str(), "/estimate"),
                site.token,
                Payload::Octets(bytes),
                Some(ESTIMATE_TIMEOUT),
            );
            Step::Perform(
                FetchStage::Ask { space: site.label, commitment_id: request.commitment_id },
                Action::Send(call),
            )
        },
    }
}

/// The estimate is stored as the prover sent it.
pub open spec fn fetch_next(stage: FetchStageView, event: EventView) -> FetchStep {
    match (stage, event) {
        (FetchStageView::Ask { .. }, EventView::Sent(Err(e))) => fetch_failed(e),
        (FetchStageView::Ask { space, commitment_id }, EventView::Sent(Ok(code))) => if success(
            code,
        ) {
            StepView::Perform(FetchStageView::Read { space, commitment_id }, ActionView::ReadText)
        } else {
            fetch_failed("prover returned "@ + status_display(code))
        },
        (FetchStageView::Read { .. }, EventView::Text(Err(e))) => fetch_failed(e),
        (
            FetchStageView::Read { space, commitment_id },
            EventView::Text(Ok(estimate)),
        ) => StepView::Perform(
            FetchStageView::Save,
            ActionView::SaveEstimate { space, commitment_id, estimate },
        ),
        (FetchStageView::Save, EventView::Done(Err(e))) => fetch_failed(e),
        (FetchStageView::Save, EventView::Done(Ok(_))) => StepView::Finish(Ok(FetchedView::Stored)),
        _ => StepView::Ignored(stage),
    }
}

impl FetchStage {
    /// Takes in the reply to the last action.
    pub fn step(self, event: Event) -> (step: Step<FetchStage, Fetched>)
        ensures
            step@ == fetch_next(self@, event@),
    {
        match (self, event) {
            (FetchStage::Ask { .. }, Event::Sent(Err(e))) => Step::Finish(Ok(Fetched::Failed(e))),
            (FetchStage::Ask { space, commitment_id }, Event::Sent(Ok(code))) => {
                if code.is_success() {
                    Step::Perform(FetchStage::Read { space, commitment_id }, Action::ReadText)
                } else {
                    let message = "prover returned ".to_owned().concat(code.text().as_str());
                    Step::Finish(Ok(Fetched::Failed(message)))
                }
            },
            (FetchStage::Read { .. }, Event::Text(Err(e))) => Step::Finish(Ok(Fetched::Failed(e))),
            (FetchStage::Read { space, commitment_id }, Event::Text(Ok(estimate))) => {
                Step::Perform(
                    FetchStage::Save,
                    Action::SaveEstimate { space, commitment_id, estimate },
                )
            },
            (FetchStage::Save, Event::Done(Err(e))) => Step::Finish(Ok(Fetched::Failed(e))),
            (FetchStage::Save, Event::Done(Ok(_))) => Step::Finish(Ok(Fetched::Stored)),
            (stage, _) => Step::Ignored(stage),
        }
    }
}

// ---------------------------------------------------------------------------
// The proving loop
// ---------------------------------------------------------------------------

/// A round of the proving loop.
pub struct Round {
    pub endpoint: String,
    pub token: Option<String>,
    /// The spaces that are still to be visited.
    pub ahead: Vec<String>,
    /// Whether any space needed a proof.
    pub did_work: bool,
}

pub ghost struct RoundView {
    pub endpoint: Seq<char>,
    pub token: Option<Seq<char>>,
    pub ahead: Seq<Seq<char>>,
    pub did_work: bool,
}

impl View for Round {
    type V = RoundView;

    open spec fn view(&self) -> RoundView {
        RoundView {
            endpoint: self.endpoint@,
            token: opt_view(self.token),
            ahead: list_view(self.ahead@),
            did_work: self.did_work,
        }
    }
}

/// Where the proving loop stands.
pub enum ProvingStage {
    /// It sleeps.
    Asleep,
    /// The prover's endpoint is being read.
    Endpoint,
    /// The prover's token is being read.
    Token { endpoint: String },
    /// The spaces are being listed.
    Spaces { endpoint: String, token: Option<String> },
    /// A space's next request is being looked up.
    Request { round: Round, space: String },
    /// The job of a proof is being looked up.
    Lookup { round: Round, space: String, request: ProvingRequest },
    /// A job is being followed.
    Poll { round: Round, space: String, commitment_id: i64, job: PollJobStage },
    /// The estimate of a proof whose job is over is being dropped.
    Clear { round: Round },
    /// An estimate is being fetched.
    Fetch { round: Round, fetch: FetchStage },
}

pub ghost enum ProvingStageView {
    Asleep,
    Endpoint,
    Token { endpoint: Seq<char> },
    Spaces { endpoint: Seq<char>, token: Option<Seq<char>> },
    Request { round: RoundView, space: Seq<char> },
    Lookup { round: RoundView, space: Seq<char>, request: ProvingRequestView },
    Poll { round: RoundView, space: Seq<char>, commitment_id: i64, job: PollJobStageView },
    Clear { round: RoundView },
    Fetch { round: RoundView, fetch: FetchStageView },
}

impl View for ProvingStage {
    type V = ProvingStageView;

    open spec fn view(&self) -> ProvingStageView {
        match self {
            ProvingStage::Asleep => ProvingStageView::Asleep,
            ProvingStage::Endpoint => ProvingStageView::Endpoint,
            ProvingStage::Token { endpoint } => ProvingStageView::Token { endpoint: endpoint@ },
            ProvingStage::Spaces { endpoint, token } => ProvingStageView::Spaces {
                endpoint: endpoint@,
                token: opt_view(*token),
            },
            ProvingStage::Request { round, space } => ProvingStageView::Request {
                round: round@,
                space: space@,
            },
            ProvingStage::Lookup { round, space, request } => ProvingStageView::Lookup {
                round: round@,
                space: space@,
                request: request@,
            },
            ProvingStage::Poll { round, space, commitment_id, job } => ProvingStageView::Poll {
                round: round@,
                space: space@,
                commitment_id: *commitment_id,
                job: job@,
            },
            ProvingStage::Clear { round } => ProvingStageView::Clear { round: round@ },
            ProvingStage::Fetch { round, fetch } => ProvingStageView::Fetch {
                round: round@,
                fetch: fetch@,
            },
        }
    }
}

pub type ProvingStep = StepView<ProvingStageView, ()>;

/// The first step of the proving loop.
pub open spec fn proving_start() -> ProvingStep {
    StepView::Perform(ProvingStageView::Asleep, ActionView::Sleep(STARTUP_DELAY))
}

/// Visits the operated spaces, round after round: follows the job of each proof
/// that is needed, and fetches an estimate where there is no job.
pub fn proving_loop() -> (step: Step<ProvingStage, ()>)
    ensures
        step@ == proving_start(),
{
    Step::Perform(ProvingStage::Asleep, Action::Sleep(STARTUP_DELAY))
}

/// The next space is visited; after the last one the loop sleeps, and for less
/// long where there was work.
pub open spec fn visit_next(round: RoundView) -> ProvingStep {
    if round.ahead.len() == 0 {
        StepView::Perform(
            ProvingStageView::Asleep,
            ActionView::Sleep(
                if round.did_work {
                    JOB_POLL_INTERVAL
                } else {
                    POLL_INTERVAL
                },
            ),
        )
    } else {
        let space = round.ahead[0];
        StepView::Perform(
            ProvingStageView::Request {
                round: RoundView { ahead: round.ahead.skip(1), ..round },
                space,
            },
            ActionView::NextRequest(space),
        )
    }
}

/// A step of following a job, as a step of the loop: where the job is over, the
/// estimate that described its proof is dropped.
pub open spec fn poll_step(
    round: RoundView,
    space: Seq<char>,
    commitment_id: i64,
    step: PollJobStep,
) -> ProvingStep {
    match step {
        StepView::Perform(job, a) => StepView::Perform(
            ProvingStageView::Poll { round, space, commitment_id, job },
            a,
        ),
        StepView::Finish(Ok(PolledView::Complete)) => StepView::Perform(
            ProvingStageView::Clear { round },
            ActionView::ClearEstimate { space, commitment_id },
        ),
        StepView::Finish(_) => visit_next(round),
        StepView::Ignored(job) => StepView::Ignored(
            ProvingStageView::Poll { round, space, commitment_id, job },
        ),
    }
}

/// A step of fetching an estimate, as a step of the loop.
pub open spec fn fetch_step(round: RoundView, step: FetchStep) -> ProvingStep {
    match step {
        StepView::Perform(fetch, a) => StepView::Perform(
            ProvingStageView::Fetch { round, fetch },
            a,
        ),
        StepView::Finish(_) => visit_next(round),
        StepView::Ignored(fetch) => StepView::Ignored(ProvingStageView::Fetch { round, fetch }),
    }
}

/// The prover that a round works with, for a space.
pub open spec fn site_of(round: RoundView, space: Seq<char>) -> SiteView {
    SiteView { space, label: space, endpoint: round.endpoint, token: round.token }
}

/// Where the job of a proof is known, it is followed; else an estimate is fetched.
pub open spec fn looked_up(
    round: RoundView,
    space: Seq<char>,
    request: ProvingRequestView,
    job: Option<Seq<char>>,
) -> ProvingStep {
    match job {
        Some(job_id) => poll_step(
            round,
            space,
            request.commitment_id,
            poll_job_start(
                WorkView {
                    site: site_of(round, space),
                    commitment_id: request.commitment_id,
                    is_fold: request.is_fold,
                    job_id,
                },
            ),
        ),
        None => fetch_step(round, fetch_start(site_of(round, space), request)),
    }
}

/// Without a prover the loop sleeps; with one, each space is visited in turn, and
/// a failure in one does not keep it from the next.
pub open spec fn proving_next(stage: ProvingStageView, event: EventView) -> ProvingStep {
    match (stage, event) {
        (ProvingStageView::Asleep, EventView::Woke) => StepView::Perform(
            ProvingStageView::Endpoint,
            ActionView::ReadSetting(Setting::ProverEndpoint),
        ),
        (ProvingStageView::Endpoint, EventView::Value(value)) => match found(value) {
            Some(endpoint) => StepView::Perform(
                ProvingStageView::Token { endpoint },
                ActionView::ReadSetting(Setting::ProverAuthToken),
            ),
            None => StepView::Perform(ProvingStageView::Asleep, ActionView::Sleep(POLL_INTERVAL)),
        },
        (ProvingStageView::Token { endpoint }, EventView::Value(token)) => StepView::Perform(
            ProvingStageView::Spaces { endpoint, token: found(token) },
            ActionView::ListSpaces,
        ),
        (ProvingStageView::Spaces { endpoint, token }, EventView::Spaces(ahead)) => visit_next(
            RoundView { endpoint, token, ahead, did_work: false },
        ),
        (ProvingStageView::Request { round, space }, EventView::Request(found)) => match found {
            Ok(Some(request)) => StepView::Perform(
                ProvingStageView::Lookup {
                    round: RoundView { did_work: true, ..round },
                    space,
                    request,
                },
                ActionView::ReadKey(
                    job_key(space, request.commitment_id as int, request.is_fold),
                ),
            ),
            _ => visit_next(round),
        },
        (ProvingStageView::Lookup { round, space, request }, EventView::Value(job)) => looked_up(
            round,
            space,
            request,
            found(job),
        ),
        (ProvingStageView::Poll { round, space, commitment_id, job }, e) => poll_step(
            round,
            space,
            commitment_id,
            poll_job_next(job, e),
        ),
        (ProvingStageView::Clear { round }, EventView::Done(_)) => visit_next(round),
        (ProvingStageView::Fetch { round, fetch }, e) => fetch_step(round, fetch_next(fetch, e)),
        _ => StepView::Ignored(stage),
    }
}

impl Round {
    fn visit_next(self) -> (step: Step<ProvingStage, ()>)
        ensures
            step@ == visit_next(self@),
    {
        let mut round = self;
        if round.ahead.len() == 0 {
            let pause: u64 = if round.did_work {
                JOB_POLL_INTERVAL
            } else {
                POLL_INTERVAL
            };
            return Step::Perform(ProvingStage::Asleep, Action::Sleep(pause));
        }
        let space = round.ahead.remove(0);
        let wanted = space.clone();
        Step::Perform(ProvingStage::Request { round, space }, Action::NextRequest(wanted))
    }

    fn poll_step(self, space: String, commitment_id: i64, step: Step<PollJobStage, Polled>) -> (out:
        Step<ProvingStage, ()>)
        ensures
            out@ == poll_step(self@, space@, commitment_id, step@),
    {
        match step {
            Step::Perform(job, a) => Step::Perform(
                ProvingStage::Poll { round: self, space, commitment_id, job },
                a,
            ),
            Step::Finish(Ok(Polled::Complete)) => Step::Perform(
                ProvingStage::Clear { round: self },
                Action::ClearEstimate { space, commitment_id },
            ),
            Step::Finish(_) => self.visit_next(),
            Step::Ignored(job) => Step::Ignored(
                ProvingStage::Poll { round: self, space, commitment_id, job },
            ),
        }
    }

    fn fetch_step(self, step: Step<FetchStage, Fetched>) -> (out: Step<ProvingStage, ()>)
        ensures
            out@ == fetch_step(self@, step@),
    {
        match step {
            Step::Perform(fetch, a) => Step::Perform(ProvingStage::Fetch { round: self, fetch }, a),
            Step::Finish(_) => self.visit_next(),
            Step::Ignored(fetch) => Step::Ignored(ProvingStage::Fetch { round: self, fetch }),
        }
    }

    fn site_of(&self, space: &String) -> (site: Site)
        ensures
            site@ == site_of(self@, space@),
    {
        Site {
            space: space.clone(),
            label: space.clone(),
            endpoint: self.endpoint.clone(),
            token: copy_opt(&self.token),
        }
    }

    fn looked_up(self, space: String, request: ProvingRequest, job: Option<String>) -> (step: Step<
        ProvingStage,
        (),
    >)
        ensures
            step@ == looked_up(self@, space@, request@, opt_view(job)),
    {
        let site = self.site_of(&space);
        match job {
            Some(job_id) => {
                let commitment_id: i64 = request.commitment_id;
                let work = Work { site, commitment_id, is_fold: request.is_fold, job_id };
                self.poll_step(space, commitment_id, poll_job(work))
            },
            None => self.fetch_step(fetch_and_store_estimate(site, request)),
        }
    }
}

impl ProvingStage {
    /// Takes in the reply to the last action.
    pub fn step(self, event: Event) -> (step: Step<ProvingStage, ()>)
        ensures
            step@ == proving_next(self@, event@),
    {
        match (self, event) {
            (ProvingStage::Asleep, Event::Woke) => Step::Perform(
                ProvingStage::Endpoint,
                Action::ReadSetting(Setting::ProverEndpoint),
            ),
            (ProvingStage::Endpoint, Event::Value(value)) => match found_text(value) {
                Some(endpoint) => Step::Perform(
                    ProvingStage::Token { endpoint },
                    Action::ReadSetting(Setting::ProverAuthToken),
                ),
                None => Step::Perform(ProvingStage::Asleep, Action::Sleep(POLL_INTERVAL)),
            },
            (ProvingStage::Token { endpoint }, Event::Value(token)) => Step::Perform(
                ProvingStage::Spaces { endpoint, token: found_text(token) },
                Action::ListSpaces,
            ),
            (ProvingStage::Spaces { endpoint, token }, Event::Spaces(ahead)) => {
                Round { endpoint, token, ahead, did_work: false }.visit_next()
            },
            (ProvingStage::Request { round, space }, Event::Request(found)) => match found {
                Ok(Some(request)) => {
                    let key = job_key_text(space.as_str(), request.commitment_id, request.is_fold);
                    let round = Round { did_work: true, ..round };
                    Step::Perform(
                        ProvingStage::Lookup { round, space, request },
                        Action::ReadKey(key),
                    )
                },
                _ => round.visit_next(),
            },
            (ProvingStage::Lookup { round, space, request }, Event::Value(job)) => {
                round.looked_up(space, request, found_text(job))
            },
            (ProvingStage::Poll { round, space, commitment_id, job }, e) => round.poll_step(
                space,
                commitment_id,
                job.step(e),
            ),
            (ProvingStage::Clear { round }, Event::Done(_)) => round.visit_next(),
            (ProvingStage::Fetch { round, fetch }, e) => round.fetch_step(fetch.step(e)),
            (stage, _) => Step::Ignored(stage),
        }
    }
}

/// The proving loop takes the answer to each of its actions, and never ends.
pub proof fn lemma_proving_loop_goes_on(
    stage: ProvingStageView,
    event: EventView,
    after: ProvingStageView,
    action: ActionView,
    reply: EventView,
)
    requires
        proving_next(stage, event) == ProvingStep::Perform(after, action),
        answers(action, reply),
    ensures
        proving_next(after, reply) is Perform,
{
}

/// The proving loop starts no job: it remembers none, and all it posts is
/// queries for an estimate.
pub proof fn lemma_proving_loop_starts_no_job(
    stage: ProvingStageView,
    event: EventView,
    after: ProvingStageView,
    action: ActionView,
)
    requires
        proving_next(stage, event) == ProvingStep::Perform(after, action),
    ensures
        !(action is WriteKey),
        match (action, stage) {
            (ActionView::Send(call), ProvingStageView::Lookup { round, .. }) => call.post
                ==> call.url == url_under(round.endpoint, "/estimate"@),
            (ActionView::Send(call), _) => !call.post,
            _ => true,
        },
{
}

/// All agree on where the job of a proof is remembered: for a space that is named by
/// its label, pushing writes the key that polling, cancelling, the pipeline and this
/// loop read.
pub proof fn lemma_all_agree_on_the_key(
    site: SiteView,
    round: RoundView,
    draft: DraftView,
    idx: u64,
    request: ProvingRequestView,
)
    requires
        site.space == site.label,
        draft.space == site.space,
        draft.answer.status.commitment_idx == Some(idx),
        request.encoded is Ok,
    ensures
        ({
            let key = job_key(site.space, request.commitment_id as int, request.is_fold);
            let found = EventView::Request(Ok(Some(request)));
            &&& push_next(PushStageView::Approach(ApproachView::Request(site)), found) matches
                StepView::Perform(PushStageView::Submit { key: k }, _) && k == key
            &&& poll_next(PollStageView::Approach(ApproachView::Request(site)), found) matches
                StepView::Perform(_, a) && a == ActionView::ReadKey(key)
            &&& cancel_next(
                CancelStageView::Request { space: site.space, endpoint: site.endpoint },
                found,
            ) matches StepView::Perform(_, a) && a == ActionView::ReadKey(key)
            &&& pipeline_next(PipelineStageView::Request(draft), found) matches StepView::Perform(
                _,
                a,
            ) && a == ActionView::ReadKey(key)
            &&& proving_next(
                ProvingStageView::Request { round, space: site.label },
                found,
            ) matches StepView::Perform(_, a) && a == ActionView::ReadKey(key)
        }),
{
}

// ---------------------------------------------------------------------------
// The registry loop
// ---------------------------------------------------------------------------

/// Where the registry loop stands.
pub enum RegistryStage {
    /// It sleeps between rounds.
    Asleep,
    /// The switch is being read.
    Enabled,
    /// The registry's endpoint is being read.
    Endpoint { enabled: bool },
    /// The registry's token is being read.
    Token { endpoint: String },
    /// Handles are being pulled, staged and acknowledged.
    Cycle(SyncStage),
    /// The spaces are being listed.
    Spaces,
    /// A batch of a space's certificates is being published.
    Publish { ahead: Vec<String>, sent_any: bool },
    /// It sleeps between two publishes.
    Pause { ahead: Vec<String> },
}

pub ghost enum RegistryStageView {
    Asleep,
    Enabled,
    Endpoint { enabled: bool },
    Token { endpoint: Seq<char> },
    Cycle(SyncStageView),
    Spaces,
    Publish { ahead: Seq<Seq<char>>, sent_any: bool },
    Pause { ahead: Seq<Seq<char>> },
}

impl View for RegistryStage {
    type V = RegistryStageView;

    open spec fn view(&self) -> RegistryStageView {
        match self {
            RegistryStage::Asleep => RegistryStageView::Asleep,
            RegistryStage::Enabled => RegistryStageView::Enabled,
            RegistryStage::Endpoint { enabled } => RegistryStageView::Endpoint {
                enabled: *enabled,
            },
            RegistryStage::Token { endpoint } => RegistryStageView::Token { endpoint: endpoint@ },
            RegistryStage::Cycle(s) => RegistryStageView::Cycle(s@),
            RegistryStage::Spaces => RegistryStageView::Spaces,
            RegistryStage::Publish { ahead, sent_any } => RegistryStageView::Publish {
                ahead: list_view(ahead@),
                sent_any: *sent_any,
            },
            RegistryStage::Pause { ahead } => RegistryStageView::Pause { ahead: list_view(ahead@) },
        }
    }
}

pub type RegistryStep = StepView<RegistryStageView, ()>;

/// The first step of the registry loop.
pub open spec fn registry_start() -> RegistryStep {
    StepView::Perform(RegistryStageView::Asleep, ActionView::Sleep(STARTUP_DELAY))
}

/// Pulls, stages, acknowledges and publishes, round after round, as long as it is
/// enabled and an endpoint is configured.
pub fn registry_loop() -> (step: Step<RegistryStage, ()>)
    ensures
        step@ == registry_start(),
{
    Step::Perform(RegistryStage::Asleep, Action::Sleep(STARTUP_DELAY))
}

/// The end of a round.
pub open spec fn round_over() -> RegistryStep {
    StepView::Perform(RegistryStageView::Asleep, ActionView::Sleep(REGISTRY_POLL_INTERVAL))
}

/// One batch of the next space is published.
pub open spec fn publish_now(ahead: Seq<Seq<char>>, sent_any: bool) -> RegistryStep {
    if ahead.len() == 0 {
        round_over()
    } else {
        StepView::Perform(
            RegistryStageView::Publish { ahead: ahead.skip(1), sent_any },
            ActionView::Publish {
                space: ahead[0],
                limit: PUBLISH_BATCH_SIZE,
                handles: Seq::empty(),
                require_finalized: false,
            },
        )
    }
}

/// The next space is published, after a pause where something was sent before.
pub open spec fn publish_next(ahead: Seq<Seq<char>>, sent_any: bool) -> RegistryStep {
    if ahead.len() > 0 && sent_any {
        StepView::Perform(RegistryStageView::Pause { ahead }, ActionView::Sleep(MESSAGE_SPACING))
    } else {
        publish_now(ahead, sent_any)
    }
}

/// A step of a cycle, as a step of the loop: the spaces are published whatever the
/// cycle came to.
pub open spec fn cycle_step(step: SyncStep) -> RegistryStep {
    match step {
        StepView::Perform(s, a) => StepView::Perform(RegistryStageView::Cycle(s), a),
        StepView::Finish(_) => StepView::Perform(RegistryStageView::Spaces, ActionView::ListSpaces),
        StepView::Ignored(s) => StepView::Ignored(RegistryStageView::Cycle(s)),
    }
}

/// Whether a publish sent anything.
pub open spec fn sent(published: Result<(usize, usize), Seq<char>>) -> bool {
    published matches Ok(counts) && counts != (0usize, 0usize)
}

/// Each round reads the settings anew, so that they take effect without a
/// restart, and publishes one batch of each space.
pub open spec fn registry_next(stage: RegistryStageView, event: EventView) -> RegistryStep {
    match (stage, event) {
        (RegistryStageView::Asleep, EventView::Woke) => StepView::Perform(
            RegistryStageView::Enabled,
            ActionView::ReadAutoSync,
        ),
        (RegistryStageView::Enabled, EventView::Flag(flag)) => StepView::Perform(
            RegistryStageView::Endpoint { enabled: flag == Ok::<bool, Seq<char>>(true) },
            ActionView::ReadSetting(Setting::RegistryEndpoint),
        ),
        (RegistryStageView::Endpoint { enabled }, EventView::Value(value)) => match found(value) {
            Some(endpoint) => if enabled {
                StepView::Perform(
                    RegistryStageView::Token { endpoint },
                    ActionView::ReadSetting(Setting::RegistryAuthToken),
                )
            } else {
                round_over()
            },
            None => round_over(),
        },
        (RegistryStageView::Token { endpoint }, EventView::Value(token)) => cycle_step(
            sync_start(endpoint, found(token)),
        ),
        (RegistryStageView::Cycle(s), e) => cycle_step(sync_next(s, e)),
        (RegistryStageView::Spaces, EventView::Spaces(ahead)) => publish_next(ahead, false),
        (
            RegistryStageView::Publish { ahead, sent_any },
            EventView::Published(published),
        ) => publish_next(ahead, sent_any || sent(published)),
        (RegistryStageView::Pause { ahead }, EventView::Woke) => publish_now(ahead, true),
        _ => StepView::Ignored(stage),
    }
}

fn publish_batch(ahead: Vec<String>, sent_any: bool) -> (step: Step<RegistryStage, ()>)
    ensures
        step@ == publish_now(list_view(ahead@), sent_any),
{
    let mut ahead = ahead;
    if ahead.len() == 0 {
        return Step::Perform(RegistryStage::Asleep, Action::Sleep(REGISTRY_POLL_INTERVAL));
    }
    let space = ahead.remove(0);
    Step::Perform(
        RegistryStage::Publish { ahead, sent_any },
        Action::Publish {
            space,
            limit: PUBLISH_BATCH_SIZE,
            handles: Vec::new(),
            require_finalized: false,
        },
    )
}

fn publish_rest(ahead: Vec<String>, sent_any: bool) -> (step: Step<RegistryStage, ()>)
    ensures
        step@ == publish_next(list_view(ahead@), sent_any),
{
    if ahead.len() > 0 && sent_any {
        Step::Perform(RegistryStage::Pause { ahead }, Action::Sleep(MESSAGE_SPACING))
    } else {
        publish_batch(ahead, sent_any)
    }
}

fn as_loop(step: Step<SyncStage, SyncOutcome>) -> (out: Step<RegistryStage, ()>)
    ensures
        out@ == cycle_step(step@),
{
    match step {
        Step::Perform(s, a) => Step::Perform(RegistryStage::Cycle(s), a),
        Step::Finish(_) => Step::Perform(RegistryStage::Spaces, Action::ListSpaces),
        Step::Ignored(s) => Step::Ignored(RegistryStage::Cycle(s)),
    }
}

impl RegistryStage {
    /// Takes in the reply to the last action.
    pub fn step(self, event: Event) -> (step: Step<RegistryStage, ()>)
        ensures
            step@ == registry_next(self@, event@),
    {
        match (self, event) {
            (RegistryStage::Asleep, Event::Woke) => Step::Perform(
                RegistryStage::Enabled,
                Action::ReadAutoSync,
            ),
            (RegistryStage::Enabled, Event::Flag(flag)) => {
                let enabled = match flag {
                    Ok(on) => on,
                    Err(_) => false,
                };
                Step::Perform(
                    RegistryStage::Endpoint { enabled },
                    Action::ReadSetting(Setting::RegistryEndpoint),
                )
            },
            (RegistryStage::Endpoint { enabled }, Event::Value(value)) => {
                match found_text(value) {
                    Some(endpoint) => if enabled {
                        Step::Perform(
                            RegistryStage::Token { endpoint },
                            Action::ReadSetting(Setting::RegistryAuthToken),
                        )
                    } else {
                        Step::Perform(
                            RegistryStage::Asleep,
                            Action::Sleep(REGISTRY_POLL_INTERVAL),
                        )
                    },
                    None => Step::Perform(
                        RegistryStage::Asleep,
                        Action::Sleep(REGISTRY_POLL_INTERVAL),
                    ),
                }
            },
            (RegistryStage::Token { endpoint }, Event::Value(token)) => as_loop(
                sync_once(endpoint, found_text(token)),
            ),
            (RegistryStage::Cycle(s), e) => as_loop(s.step(e)),
            (RegistryStage::Spaces, Event::Spaces(ahead)) => publish_rest(ahead, false),
            (RegistryStage::Publish { ahead, sent_any }, Event::Published(published)) => {
                let sent_now = match published {
                    Ok((published, remaining)) => published != 0 || remaining != 0,
                    Err(_) => false,
                };
                publish_rest(ahead, sent_any || sent_now)
            },
            (RegistryStage::Pause { ahead }, Event::Woke) => publish_batch(ahead, true),
            (stage, _) => Step::Ignored(stage),
        }
    }
}

/// The registry loop takes the answer to each of its actions, and never ends.
pub proof fn lemma_registry_loop_goes_on(
    stage: RegistryStageView,
    event: EventView,
    after: RegistryStageView,
    action: ActionView,
    reply: EventView,
)
    requires
        registry_next(stage, event) == RegistryStep::Perform(after, action),
        answers(action, reply),
    ensures
        registry_next(after, reply) is Perform,
{
}

/// Between a publish that sent something and the next publish there is a pause of
/// at least the spacing: what follows it is a sleep, and only then a publish.
pub proof fn lemma_publishes_are_spaced(
    ahead: Seq<Seq<char>>,
    sent_any: bool,
    published: Result<(usize, usize), Seq<char>>,
)
    requires
        sent_any || sent(published),
    ensures
        registry_next(
            RegistryStageView::Publish { ahead, sent_any },
            EventView::Published(published),
        ) matches StepView::Perform(_, ActionView::Sleep(ms)) && ms >= MESSAGE_SPACING,
{
}

/// While it is disabled, or no endpoint is configured, the loop neither pulls nor
/// publishes: it goes back to sleep.
pub proof fn lemma_disabled_loop_sleeps(enabled: bool, value: Result<Option<Seq<char>>, Seq<char>>)
    requires
        !enabled || found(value) is None,
    ensures
        registry_next(RegistryStageView::Endpoint { enabled }, EventView::Value(value))
            == round_over(),
{
}

/// Whether a failure to publish is to be expected: a missing fabric is a state of
/// the configuration, and would otherwise be warned of in each round.
pub fn publish_failure_is_expected(message: &str) -> (expected: bool)
    ensures
        expected == has_substring(message@, "fabric"@),
{
    contains(message, "fabric")
}

} // verus!
