//! Commitment endpoints: committing, broadcasting, publishing and rolling back,
//! and how far all that has come.
use vstd::prelude::*;

use crate::adapters::{fee_fits, sat_per_kwu};
use crate::flow::{
    answer_view, answers, get_call, get_from, job_key, job_key_text, join_url,
    lemma_sound_run_finishes, performs, refuse, replies, run, sound, space_answer, space_of, stop,
    stop_with, url_under, Action, ActionView, ApiError, ApiErrorView, Event, EventView, Machine,
    PipelineStatus, PipelineStatusView, Setting, SpaceCommitResult, SpaceCommitResultView, Step,
    StepView, BAD_REQUEST, CONFLICT, INTERNAL, UNAVAILABLE,
};
use crate::text::{contains, found, found_text, has_substring, list_view, opt_view};

verus! {

/// How many certificates one batch holds at most.
///
/// A relay bounds a message by its bytes, and the operator sizes each batch by
/// what it measured of the last one. This only bounds the case where messages are
/// tiny, so it stays well above the size that the bytes allow.
pub const PUBLISH_BATCH_SIZE: usize = 1000;

// ---------------------------------------------------------------------------
// Fees
// ---------------------------------------------------------------------------

/// Recommended fee rates, in satoshis per virtual byte.
#[derive(Clone, Copy)]
pub struct RecommendedFees {
    pub fastest_fee: u64,
    pub half_hour_fee: u64,
    pub hour_fee: u64,
    pub economy_fee: u64,
    pub minimum_fee: u64,
}

/// The recommended fee rates, from what could be fetched.
pub fn get_fees(fetched: Option<RecommendedFees>) -> (fees: Result<RecommendedFees, ApiError>)
    ensures
        fetched matches Some(f) ==> fees == Ok::<RecommendedFees, ApiError>(f),
        fetched is None ==> (fees matches Err(e) && e@ == (ApiErrorView {
            status: UNAVAILABLE,
            message: "could not fetch fee rates from mempool.space"@,
        })),
{
    match fetched {
        Some(fees) => Ok(fees),
        None => Err(
            refuse(UNAVAILABLE, "could not fetch fee rates from mempool.space".to_owned()),
        ),
    }
}

// ---------------------------------------------------------------------------
// Committing locally
// ---------------------------------------------------------------------------

pub struct CommitBody {
    pub dry_run: bool,
}

/// How far a local commitment has come.
pub enum CommitStage {
    /// A dry run: what keeps it from being made is being asked for.
    Check { label: String },
    /// It is being made.
    Commit,
}

pub ghost enum CommitStageView {
    Check { label: Seq<char> },
    Commit,
}

impl View for CommitStage {
    type V = CommitStageView;

    open spec fn view(&self) -> CommitStageView {
        match self {
            CommitStage::Check { label } => CommitStageView::Check { label: label@ },
            CommitStage::Commit => CommitStageView::Commit,
        }
    }
}

pub type CommitStep = StepView<CommitStageView, SpaceCommitResultView>;

/// The first step of a local commitment.
pub open spec fn commit_start(space: Seq<char>, dry_run: bool) -> CommitStep {
    match space_answer(space) {
        Err(e) => StepView::Finish(Err(e)),
        Ok(label) => if dry_run {
            StepView::Perform(CommitStageView::Check { label }, ActionView::CanCommit(label))
        } else {
            StepView::Perform(CommitStageView::Commit, ActionView::CommitLocal(label))
        },
    }
}

/// Commits a space's staged handles locally, or finds out whether that can be
/// done.
pub fn commit_local(space: &str, body: &CommitBody) -> (step: Step<CommitStage, SpaceCommitResult>)
    ensures
        step@ == commit_start(space@, body.dry_run),
{
    match space_of(space) {
        Err(e) => Step::Finish(Err(e)),
        Ok(label) => {
            let wanted = label.clone();
            if body.dry_run {
                Step::Perform(CommitStage::Check { label }, Action::CanCommit(wanted))
            } else {
                Step::Perform(CommitStage::Commit, Action::CommitLocal(wanted))
            }
        },
    }
}

/// A dry run is refused with what keeps the commitment from being made, and is
/// else answered with an empty result.
pub open spec fn commit_next(stage: CommitStageView, event: EventView) -> CommitStep {
    match (stage, event) {
        (CommitStageView::Check { .. }, EventView::Value(Err(e))) => stop(INTERNAL, e),
        (CommitStageView::Check { .. }, EventView::Value(Ok(Some(reason)))) => stop(
            BAD_REQUEST,
            "cannot commit: "@ + reason,
        ),
        (CommitStageView::Check { label }, EventView::Value(Ok(None))) => StepView::Finish(
            Ok(
                SpaceCommitResultView {
                    space: label,
                    prev_root: None,
                    root: Seq::empty(),
                    handles_committed: 0,
                    is_initial: false,
                },
            ),
        ),
        (CommitStageView::Commit, EventView::Committed(Err(e))) => stop(INTERNAL, e),
        (CommitStageView::Commit, EventView::Committed(Ok(result))) => StepView::Finish(Ok(result)),
        _ => StepView::Ignored(stage),
    }
}

impl CommitStage {
    /// Takes in the reply to the last action.
    pub fn step(self, event: Event) -> (step: Step<CommitStage, SpaceCommitResult>)
        ensures
            step@ == commit_next(self@, event@),
    {
        match (self, event) {
            (CommitStage::Check { .. }, Event::Value(Err(e))) => stop_with(INTERNAL, e),
            (CommitStage::Check { .. }, Event::Value(Ok(Some(reason)))) => stop_with(
                BAD_REQUEST,
                "cannot commit: ".to_owned().concat(reason.as_str()),
            ),
            (CommitStage::Check { label }, Event::Value(Ok(None))) => Step::Finish(
                Ok(
                    SpaceCommitResult {
                        space: label,
                        prev_root: None,
                        root: String::new(),
                        handles_committed: 0,
                        is_initial: false,
                    },
                ),
            ),
            (CommitStage::Commit, Event::Committed(Err(e))) => stop_with(INTERNAL, e),
            (CommitStage::Commit, Event::Committed(Ok(result))) => Step::Finish(Ok(result)),
            (stage, _) => Step::Ignored(stage),
        }
    }
}

/// A dry run commits nothing: it asks whether it could, and ends.
pub proof fn lemma_dry_run_commits_nothing(
    space: Seq<char>,
    reply: spec_fn(nat, ActionView) -> EventView,
    left: nat,
    label: Seq<char>,
)
    requires
        replies(reply),
    ensures
        !performs(
            commit_machine(),
            commit_start(space, true),
            reply,
            0,
            left,
            ActionView::CommitLocal(label),
        ),
{
    reveal_with_fuel(performs, 3);
    if let StepView::Perform(stage, action) = commit_start(space, true) {
        let event = reply(0, action);
        assert(answers(action, event));
    }
}

/// The machine of a local commitment.
pub open spec fn commit_machine() -> Machine<CommitStageView, SpaceCommitResultView> {
    |stage: CommitStageView, event: EventView| commit_next(stage, event)
}

// ---------------------------------------------------------------------------
// Broadcasting
// ---------------------------------------------------------------------------

/// A commitment to broadcast.
pub struct Broadcast {
    pub space: String,
    /// The fee to pay, in satoshis per thousand weight units.
    pub fee_per_kwu: Option<u64>,
}

pub struct BroadcastResponse {
    pub txid: String,
}

/// What a request to broadcast asks for, given the fee in whole satoshis per
/// virtual byte.
pub fn broadcast(space: &str, fee_rate: Option<u64>) -> (asked: Result<Broadcast, ApiError>)
    requires
        fee_rate matches Some(rate) ==> fee_fits(rate),
    ensures
        match space_answer(space@) {
            Err(e) => asked matches Err(r) && r@ == e,
            Ok(label) => asked matches Ok(b) && b.space@ == label && b.fee_per_kwu == (
            match fee_rate {
                Some(rate) => Some((rate * 250) as u64),
                None => None,
            }),
        },
{
    match space_of(space) {
        Err(e) => Err(e),
        Ok(label) => {
            let fee_per_kwu = match fee_rate {
                Some(rate) => Some(sat_per_kwu(rate)),
                None => None,
            };
            Ok(Broadcast { space: label, fee_per_kwu })
        },
    }
}

/// The answer to a broadcast that the operator made or refused.
pub fn broadcast_answer(made: Result<String, String>) -> (answer: Result<BroadcastResponse, ApiError>)
    ensures
        made matches Err(e) ==> answer matches Err(r) && r@ == (ApiErrorView {
            status: INTERNAL,
            message: e@,
        }),
        made matches Ok(txid) ==> answer matches Ok(a) && a.txid@ == txid@,
{
    match made {
        Err(e) => Err(refuse(INTERNAL, e)),
        Ok(txid) => Ok(BroadcastResponse { txid }),
    }
}

// ---------------------------------------------------------------------------
// The on-chain status
// ---------------------------------------------------------------------------

/// The on-chain status of a commitment.
pub enum CommitStatus {
    Absent,
    Pending { txid: String },
    Confirmed { txid: String, block_height: u32, confirmations: u32 },
    Finalized { block_height: u32 },
}

pub struct CommitStatusResponse {
    pub status: String,
    pub txid: Option<String>,
    pub block_height: Option<u32>,
    pub confirmations: Option<u32>,
}

/// The space whose on-chain status is asked for.
pub fn get_commit_status(space: &str) -> (label: Result<String, ApiError>)
    ensures
        answer_view(label) == space_answer(space@),
{
    space_of(space)
}

/// The answer to a query for the on-chain status.
pub fn commit_status_answer(found: Result<CommitStatus, String>) -> (answer: Result<
    CommitStatusResponse,
    ApiError,
>)
    ensures
        match found {
            Err(e) => answer matches Err(r) && r@ == (ApiErrorView {
                status: INTERNAL,
                message: e@,
            }),
            Ok(CommitStatus::Absent) => answer matches Ok(a) && a.status@ == "none"@ && a.txid is None
                && a.block_height is None && a.confirmations is None,
            Ok(CommitStatus::Pending { txid }) => answer matches Ok(a) && a.status@ == "pending"@
                && a.txid == Some(txid) && a.block_height is None && a.confirmations is None,
            Ok(CommitStatus::Confirmed { txid, block_height, confirmations }) => answer matches Ok(a)
                && a.status@ == "confirmed"@ && a.txid == Some(txid) && a.block_height == Some(
                block_height,
            ) && a.confirmations == Some(confirmations),
            Ok(CommitStatus::Finalized { block_height }) => answer matches Ok(a) && a.status@
                == "finalized"@ && a.txid is None && a.block_height == Some(block_height)
                && a.confirmations is None,
        },
{
    match found {
        Err(e) => Err(refuse(INTERNAL, e)),
        Ok(CommitStatus::Absent) => Ok(
            CommitStatusResponse {
                status: "none".to_owned(),
                txid: None,
                block_height: None,
                confirmations: None,
            },
        ),
        Ok(CommitStatus::Pending { txid }) => Ok(
            CommitStatusResponse {
                status: "pending".to_owned(),
                txid: Some(txid),
                block_height: None,
                confirmations: None,
            },
        ),
        Ok(CommitStatus::Confirmed { txid, block_height, confirmations }) => Ok(
            CommitStatusResponse {
                status: "confirmed".to_owned(),
                txid: Some(txid),
                block_height: Some(block_height),
                confirmations: Some(confirmations),
            },
        ),
        Ok(CommitStatus::Finalized { block_height }) => Ok(
            CommitStatusResponse {
                status: "finalized".to_owned(),
                txid: None,
                block_height: Some(block_height),
                confirmations: None,
            },
        ),
    }
}

// ---------------------------------------------------------------------------
// Publishing
// ---------------------------------------------------------------------------

pub struct PublishBody {
    /// Publish these handles only; where there are none, all that are unpublished.
    pub handles: Vec<String>,
}

pub struct PublishResponse {
    pub handles_published: usize,
    pub remaining: usize,
}

impl View for PublishResponse {
    type V = (usize, usize);

    open spec fn view(&self) -> (usize, usize) {
        (self.handles_published, self.remaining)
    }
}

/// A publish that waits for the operator.
pub struct PublishStage {
    pub require_finalized: bool,
}

impl View for PublishStage {
    type V = bool;

    open spec fn view(&self) -> bool {
        self.require_finalized
    }
}

/// The first step of a publish.
pub open spec fn publish_start(
    space: Seq<char>,
    handles: Seq<Seq<char>>,
    require_finalized: bool,
) -> StepView<bool, (usize, usize)> {
    match space_answer(space) {
        Err(e) => StepView::Finish(Err(e)),
        Ok(label) => StepView::Perform(
            require_finalized,
            ActionView::Publish {
                space: label,
                limit: PUBLISH_BATCH_SIZE,
                handles,
                require_finalized,
            },
        ),
    }
}

/// Publishes a batch of a space's certificates.
pub fn publish_certs(space: &str, body: Option<PublishBody>, require_finalized: bool) -> (step: Step<
    PublishStage,
    PublishResponse,
>)
    ensures
        step@ == publish_start(
            space@,
            match body {
                Some(b) => list_view(b.handles@),
                None => Seq::empty(),
            },
            require_finalized,
        ),
{
    let handles = match body {
        Some(b) => b.handles,
        None => Vec::new(),
    };
    assert(body is None ==> list_view(handles@) =~= Seq::empty());
    match space_of(space) {
        Err(e) => Step::Finish(Err(e)),
        Ok(label) => Step::Perform(
            PublishStage { require_finalized },
            Action::Publish {
                space: label,
                limit: PUBLISH_BATCH_SIZE,
                handles,
                require_finalized,
            },
        ),
    }
}

/// A message that says that a commitment is not final yet.
pub open spec fn says_not_final(message: Seq<char>) -> bool {
    has_substring(message, "confirmations"@) || has_substring(message, "not broadcast"@)
        || has_substring(message, "not confirmed"@) || has_substring(message, "not committed"@)
        || has_substring(message, "RPC required"@)
}

fn is_not_final(message: &str) -> (yes: bool)
    ensures
        yes == says_not_final(message@),
{
    contains(message, "confirmations") || contains(message, "not broadcast") || contains(
        message,
        "not confirmed",
    ) || contains(message, "not committed") || contains(message, "RPC required")
}

/// Where only final commitments may be published, one that is not final yet is a
/// conflict; every other failure is the operator's.
pub open spec fn publish_next(require_finalized: bool, event: EventView) -> StepView<
    bool,
    (usize, usize),
> {
    match event {
        EventView::Published(Ok(counts)) => StepView::Finish(Ok(counts)),
        EventView::Published(Err(e)) => stop(
            if require_finalized && says_not_final(e) {
                CONFLICT
            } else {
                INTERNAL
            },
            e,
        ),
        _ => StepView::Ignored(require_finalized),
    }
}

impl PublishStage {
    /// Takes in the reply to the last action.
    pub fn step(self, event: Event) -> (step: Step<PublishStage, PublishResponse>)
        ensures
            step@ == publish_next(self@, event@),
    {
        match event {
            Event::Published(Ok((handles_published, remaining))) => Step::Finish(
                Ok(PublishResponse { handles_published, remaining }),
            ),
            Event::Published(Err(e)) => {
                let status: u16 = if self.require_finalized && is_not_final(e.as_str()) {
                    CONFLICT
                } else {
                    INTERNAL
                };
                stop_with(status, e)
            },
            _ => Step::Ignored(self),
        }
    }
}

// ---------------------------------------------------------------------------
// Rolling back
// ---------------------------------------------------------------------------

/// How far a rollback has come.
pub enum RollbackStage {
    /// The proof that is needed next is being looked up.
    Request { space: String, label: String },
    /// The commitment is being undone.
    Undo { space: String, unproved: Option<i64> },
    /// The job of the commitment's step is being forgotten.
    ForgetStep { space: String, commitment_id: i64 },
    /// The job of the commitment's fold is being forgotten.
    ForgetFold,
}

pub ghost enum RollbackStageView {
    Request { space: Seq<char>, label: Seq<char> },
    Undo { space: Seq<char>, unproved: Option<i64> },
    ForgetStep { space: Seq<char>, commitment_id: i64 },
    ForgetFold,
}

impl View for RollbackStage {
    type V = RollbackStageView;

    open spec fn view(&self) -> RollbackStageView {
        match self {
            RollbackStage::Request { space, label } => RollbackStageView::Request {
                space: space@,
                label: label@,
            },
            RollbackStage::Undo { space, unproved } => RollbackStageView::Undo {
                space: space@,
                unproved: *unproved,
            },
            RollbackStage::ForgetStep { space, commitment_id } => RollbackStageView::ForgetStep {
                space: space@,
                commitment_id: *commitment_id,
            },
            RollbackStage::ForgetFold => RollbackStageView::ForgetFold,
        }
    }
}

pub type RollbackStep = StepView<RollbackStageView, ()>;

/// The first step of a rollback.
pub open spec fn rollback_start(space: Seq<char>) -> RollbackStep {
    match space_answer(space) {
        Err(e) => StepView::Finish(Err(e)),
        Ok(label) => StepView::Perform(
            RollbackStageView::Request { space, label },
            ActionView::NextRequest(label),
        ),
    }
}

/// Undoes a space's last local commitment that was not broadcast.
pub fn rollback_local(space: &str) -> (step: Step<RollbackStage, ()>)
    ensures
        step@ == rollback_start(space@),
{
    match space_of(space) {
        Err(e) => Step::Finish(Err(e)),
        Ok(label) => {
            let wanted = label.clone();
            Step::Perform(
                RollbackStage::Request { space: space.to_owned(), label },
                Action::NextRequest(wanted),
            )
        },
    }
}

/// The proof that is needed next is looked up before the commitment is undone, so
/// that its jobs can be forgotten afterwards.
pub open spec fn rollback_next(stage: RollbackStageView, event: EventView) -> RollbackStep {
    match (stage, event) {
        (RollbackStageView::Request { space, label }, EventView::Request(request)) => StepView::Perform(
            RollbackStageView::Undo {
                space,
                unproved: match found(request) {
                    Some(r) => Some(r.commitment_id),
                    None => None,
                },
            },
            ActionView::Rollback(label),
        ),
        (RollbackStageView::Undo { .. }, EventView::Done(Err(e))) => stop(INTERNAL, e),
        (RollbackStageView::Undo { space, unproved }, EventView::Done(Ok(_))) => match unproved {
            Some(id) => StepView::Perform(
                RollbackStageView::ForgetStep { space, commitment_id: id },
                ActionView::DeleteKey(job_key(space, id as int, false)),
            ),
            None => StepView::Finish(Ok(())),
        },
        (
            RollbackStageView::ForgetStep { space, commitment_id },
            EventView::Done(_),
        ) => StepView::Perform(
            RollbackStageView::ForgetFold,
            ActionView::DeleteKey(job_key(space, commitment_id as int, true)),
        ),
        (RollbackStageView::ForgetFold, EventView::Done(_)) => StepView::Finish(Ok(())),
        _ => StepView::Ignored(stage),
    }
}

impl RollbackStage {
    /// Takes in the reply to the last action.
    pub fn step(self, event: Event) -> (step: Step<RollbackStage, ()>)
        ensures
            step@ == rollback_next(self@, event@),
    {
        match (self, event) {
            (RollbackStage::Request { space, label }, Event::Request(request)) => {
                let unproved = match request {
                    Ok(Some(r)) => Some(r.commitment_id),
                    _ => None,
                };
                Step::Perform(
                    RollbackStage::Undo { space, unproved },
                    Action::Rollback(label),
                )
            },
            (RollbackStage::Undo { .. }, Event::Done(Err(e))) => stop_with(INTERNAL, e),
            (RollbackStage::Undo { space, unproved }, Event::Done(Ok(_))) => {
                match unproved {
                    Some(id) => {
                        let key = job_key_text(space.as_str(), id, false);
                        Step::Perform(
                            RollbackStage::ForgetStep { space, commitment_id: id },
                            Action::DeleteKey(key),
                        )
                    },
                    None => Step::Finish(Ok(())),
                }
            },
            (RollbackStage::ForgetStep { space, commitment_id }, Event::Done(_)) => {
                let key = job_key_text(space.as_str(), commitment_id, true);
                Step::Perform(RollbackStage::ForgetFold, Action::DeleteKey(key))
            },
            (RollbackStage::ForgetFold, Event::Done(_)) => Step::Finish(Ok(())),
            (stage, _) => Step::Ignored(stage),
        }
    }
}

/// The machine of a rollback.
pub open spec fn rollback_machine() -> Machine<RollbackStageView, ()> {
    |stage: RollbackStageView, event: EventView| rollback_next(stage, event)
}

/// Once a commitment that a proof was needed for is undone, both of its jobs are
/// forgotten and the request succeeds, even if forgetting fails.
pub proof fn lemma_rollback_forgets_the_jobs(
    space: Seq<char>,
    id: i64,
    reply: spec_fn(nat, ActionView) -> EventView,
    done: nat,
)
    requires
        replies(reply),
    ensures
        ({
            let undone = rollback_next(
                RollbackStageView::Undo { space, unproved: Some(id) },
                EventView::Done(Ok(())),
            );
            &&& performs(
                rollback_machine(),
                undone,
                reply,
                done,
                2,
                ActionView::DeleteKey(job_key(space, id as int, false)),
            )
            &&& performs(
                rollback_machine(),
                undone,
                reply,
                done,
                2,
                ActionView::DeleteKey(job_key(space, id as int, true)),
            )
            &&& run(rollback_machine(), undone, reply, done, 2) == RollbackStep::Finish(Ok(()))
        }),
{
    reveal_with_fuel(run, 3);
    reveal_with_fuel(performs, 3);
    let first = ActionView::DeleteKey(job_key(space, id as int, false));
    let second = ActionView::DeleteKey(job_key(space, id as int, true));
    assert(answers(first, reply(done, first)));
    assert(answers(second, reply(done + 1, second)));
}

/// Nothing is forgotten unless the commitment was undone.
pub proof fn lemma_failed_rollback_forgets_nothing(
    space: Seq<char>,
    unproved: Option<i64>,
    reason: Seq<char>,
)
    ensures
        rollback_next(
            RollbackStageView::Undo { space, unproved },
            EventView::Done(Err(reason)),
        ) == stop::<RollbackStageView, ()>(INTERNAL, reason),
{
}

// ---------------------------------------------------------------------------
// Staged handles
// ---------------------------------------------------------------------------

pub struct ParkBody {
    pub handles: Vec<String>,
    pub parked: bool,
    /// All staged handles that match, rather than those that are named.
    pub search: Option<String>,
    pub filter: Option<String>,
}

pub struct ParkResponse {
    pub updated: usize,
}

impl View for ParkResponse {
    type V = usize;

    open spec fn view(&self) -> usize {
        self.updated
    }
}

/// A request to park or unpark handles that waits for the operator.
pub struct ParkStage;

impl View for ParkStage {
    type V = ();

    open spec fn view(&self) -> () {
        ()
    }
}

/// Parks or unparks staged handles of a space.
///
/// The operator gets the label of the space and all that the request says.
pub fn park_handles(space: &str, body: ParkBody) -> (step: Step<ParkStage, ParkResponse>)
    ensures
        step@ == (match space_answer(space@) {
            Err(e) => StepView::<(), usize>::Finish(Err(e)),
            Ok(label) => StepView::Perform(
                (),
                ActionView::Park {
                    space: label,
                    handles: list_view(body.handles@),
                    parked: body.parked,
                    search: opt_view(body.search),
                    filter: opt_view(body.filter),
                },
            ),
        }),
{
    match space_of(space) {
        Err(e) => Step::Finish(Err(e)),
        Ok(label) => Step::Perform(
            ParkStage,
            Action::Park {
                space: label,
                handles: body.handles,
                parked: body.parked,
                search: body.search,
                filter: body.filter,
            },
        ),
    }
}

/// The number of handles that the operator changed is the answer.
pub open spec fn count_next(event: EventView) -> StepView<(), usize> {
    match event {
        EventView::Counted(Ok(n)) => StepView::Finish(Ok(n)),
        EventView::Counted(Err(e)) => stop(INTERNAL, e),
        _ => StepView::Ignored(()),
    }
}

impl ParkStage {
    /// Takes in the reply to the last action.
    pub fn step(self, event: Event) -> (step: Step<ParkStage, ParkResponse>)
        ensures
            step@ == count_next(event@),
    {
        match event {
            Event::Counted(Ok(updated)) => Step::Finish(Ok(ParkResponse { updated })),
            Event::Counted(Err(e)) => stop_with(INTERNAL, e),
            _ => Step::Ignored(self),
        }
    }
}

pub struct RemoveBody {
    pub handles: Vec<String>,
    /// All staged handles that match, rather than those that are named.
    pub search: Option<String>,
    pub filter: Option<String>,
}

pub struct RemoveResponse {
    pub removed: usize,
}

impl View for RemoveResponse {
    type V = usize;

    open spec fn view(&self) -> usize {
        self.removed
    }
}

/// A request to remove handles that waits for the operator.
pub struct RemoveStage;

impl View for RemoveStage {
    type V = ();

    open spec fn view(&self) -> () {
        ()
    }
}

/// Removes staged handles of a space.
///
/// The operator gets the label of the space and all that the request says.
pub fn remove_handles(space: &str, body: RemoveBody) -> (step: Step<RemoveStage, RemoveResponse>)
    ensures
        step@ == (match space_answer(space@) {
            Err(e) => StepView::<(), usize>::Finish(Err(e)),
            Ok(label) => StepView::Perform(
                (),
                ActionView::Remove {
                    space: label,
                    handles: list_view(body.handles@),
                    search: opt_view(body.search),
                    filter: opt_view(body.filter),
                },
            ),
        }),
{
    match space_of(space) {
        Err(e) => Step::Finish(Err(e)),
        Ok(label) => Step::Perform(
            RemoveStage,
            Action::Remove {
                space: label,
                handles: body.handles,
                search: body.search,
                filter: body.filter,
            },
        ),
    }
}

impl RemoveStage {
    /// Takes in the reply to the last action.
    pub fn step(self, event: Event) -> (step: Step<RemoveStage, RemoveResponse>)
        ensures
            step@ == count_next(event@),
    {
        match event {
            Event::Counted(Ok(removed)) => Step::Finish(Ok(RemoveResponse { removed })),
            Event::Counted(Err(e)) => stop_with(INTERNAL, e),
            _ => Step::Ignored(self),
        }
    }
}

// ---------------------------------------------------------------------------
// The pipeline
// ---------------------------------------------------------------------------

/// How far a space's commitment has come, with what the interface needs to know
/// of the prover.
pub struct PipelineResponse {
    pub status: PipelineStatus,
    /// Whether a prover is configured.
    pub prover_configured: bool,
    /// Whether a job is in flight on the prover.
    pub proving_job_active: bool,
    /// Whether publishing is blocked until commitments are final.
    pub publish_require_finalized: bool,
    /// Whether publishing is allowed now.
    pub publish_allowed: bool,
    /// Why publishing is blocked.
    pub publish_blocked_reason: Option<String>,
    /// Which proof of the commitment is next, counted from one.
    pub proof_index: Option<usize>,
    /// How many proofs the commitment needs: the first one after genesis only a
    /// step, later ones a step and a fold.
    pub proof_total: Option<usize>,
    /// The job that is in flight.
    pub proving_job_id: Option<String>,
    /// How far the job has come, as a JSON text, where the prover says so.
    pub proving_progress: Option<String>,
}

pub ghost struct PipelineResponseView {
    pub status: PipelineStatusView,
    pub prover_configured: bool,
    pub proving_job_active: bool,
    pub publish_require_finalized: bool,
    pub publish_allowed: bool,
    pub publish_blocked_reason: Option<Seq<char>>,
    pub proof_index: Option<usize>,
    pub proof_total: Option<usize>,
    pub proving_job_id: Option<Seq<char>>,
    pub proving_progress: Option<Seq<char>>,
}

impl View for PipelineResponse {
    type V = PipelineResponseView;

    open spec fn view(&self) -> PipelineResponseView {
        PipelineResponseView {
            status: self.status@,
            prover_configured: self.prover_configured,
            proving_job_active: self.proving_job_active,
            publish_require_finalized: self.publish_require_finalized,
            publish_allowed: self.publish_allowed,
            publish_blocked_reason: opt_view(self.publish_blocked_reason),
            proof_index: self.proof_index,
            proof_total: self.proof_total,
            proving_job_id: opt_view(self.proving_job_id),
            proving_progress: opt_view(self.proving_progress),
        }
    }
}

/// Seconds to wait for a job's progress: a slow prover costs the progress, not
/// the whole answer.
pub const PROGRESS_TIMEOUT: u64 = 3;

/// An answer that is being put together.
pub struct Draft {
    pub space: String,
    pub label: String,
    pub answer: PipelineResponse,
}

pub ghost struct DraftView {
    pub space: Seq<char>,
    pub label: Seq<char>,
    pub answer: PipelineResponseView,
}

impl View for Draft {
    type V = DraftView;

    open spec fn view(&self) -> DraftView {
        DraftView { space: self.space@, label: self.label@, answer: self.answer@ }
    }
}

/// How far the putting together has come.
pub enum PipelineStage {
    /// The space is being loaded.
    Load { space: String, label: String, require_finalized: bool },
    /// The status is being looked up.
    Status { space: String, label: String, require_finalized: bool },
    /// Whether there is a prover is being read.
    Prover(Draft),
    /// The next proof is being looked up.
    Request(Draft),
    /// The job of the next proof is being looked up.
    Job(Draft),
    /// Whether publishing is allowed is being asked.
    Gate(Draft),
    /// The prover's endpoint is being read.
    Endpoint { draft: Draft, job_id: String },
    /// The prover's token is being read.
    Token { draft: Draft, job_id: String, endpoint: String },
    /// The prover is being asked for the job.
    Ask(Draft),
    /// The progress is being read.
    Progress(Draft),
}

pub ghost enum PipelineStageView {
    Load { space: Seq<char>, label: Seq<char>, require_finalized: bool },
    Status { space: Seq<char>, label: Seq<char>, require_finalized: bool },
    Prover(DraftView),
    Request(DraftView),
    Job(DraftView),
    Gate(DraftView),
    Endpoint { draft: DraftView, job_id: Seq<char> },
    Token { draft: DraftView, job_id: Seq<char>, endpoint: Seq<char> },
    Ask(DraftView),
    Progress(DraftView),
}

impl View for PipelineStage {
    type V = PipelineStageView;

    open spec fn view(&self) -> PipelineStageView {
        match self {
            PipelineStage::Load { space, label, require_finalized } => PipelineStageView::Load {
                space: space@,
                label: label@,
                require_finalized: *require_finalized,
            },
            PipelineStage::Status { space, label, require_finalized } => {
                PipelineStageView::Status {
                    space: space@,
                    label: label@,
                    require_finalized: *require_finalized,
                }
            },
            PipelineStage::Prover(d) => PipelineStageView::Prover(d@),
            PipelineStage::Request(d) => PipelineStageView::Request(d@),
            PipelineStage::Job(d) => PipelineStageView::Job(d@),
            PipelineStage::Gate(d) => PipelineStageView::Gate(d@),
            PipelineStage::Endpoint { draft, job_id } => PipelineStageView::Endpoint {
                draft: draft@,
                job_id: job_id@,
            },
            PipelineStage::Token { draft, job_id, endpoint } => PipelineStageView::Token {
                draft: draft@,
                job_id: job_id@,
                endpoint: endpoint@,
            },
            PipelineStage::Ask(d) => PipelineStageView::Ask(d@),
            PipelineStage::Progress(d) => PipelineStageView::Progress(d@),
        }
    }
}

pub type PipelineStep = StepView<PipelineStageView, PipelineResponseView>;

/// The first step of the answer.
pub open spec fn pipeline_start(space: Seq<char>, require_finalized: bool) -> PipelineStep {
    match space_answer(space) {
        Err(e) => StepView::Finish(Err(e)),
        Ok(label) => StepView::Perform(
            PipelineStageView::Load { space, label, require_finalized },
            ActionView::LoadSpace(label),
        ),
    }
}

/// How far a space's commitment has come.
pub fn get_pipeline_status(space: &str, require_finalized: bool) -> (step: Step<
    PipelineStage,
    PipelineResponse,
>)
    ensures
        step@ == pipeline_start(space@, require_finalized),
{
    match space_of(space) {
        Err(e) => Step::Finish(Err(e)),
        Ok(label) => {
            let wanted = label.clone();
            Step::Perform(
                PipelineStage::Load { space: space.to_owned(), label, require_finalized },
                Action::LoadSpace(wanted),
            )
        },
    }
}

/// The answer as far as the status alone gives it.
pub open spec fn first_draft(
    space: Seq<char>,
    label: Seq<char>,
    require_finalized: bool,
    status: PipelineStatusView,
) -> DraftView {
    DraftView {
        space,
        label,
        answer: PipelineResponseView {
            status,
            prover_configured: false,
            proving_job_active: false,
            publish_require_finalized: require_finalized,
            publish_allowed: true,
            publish_blocked_reason: None,
            proof_index: None,
            proof_total: None,
            proving_job_id: None,
            proving_progress: None,
        },
    }
}

/// With a job in flight, its progress is asked for.
pub open spec fn ask_progress(draft: DraftView) -> PipelineStep {
    match draft.answer.proving_job_id {
        Some(job_id) => StepView::Perform(
            PipelineStageView::Endpoint { draft, job_id },
            ActionView::ReadSetting(Setting::ProverEndpoint),
        ),
        None => StepView::Finish(Ok(draft.answer)),
    }
}

/// Where only final commitments may be published and something is unpublished, the
/// operator is asked whether it may be.
pub open spec fn ask_gate(draft: DraftView) -> PipelineStep {
    if !draft.answer.publish_require_finalized || draft.answer.status.unpublished == 0 {
        ask_progress(draft)
    } else {
        StepView::Perform(
            PipelineStageView::Gate(draft),
            ActionView::PublishGate {
                space: draft.label,
                require_finalized: true,
                limit: PUBLISH_BATCH_SIZE,
            },
        )
    }
}

/// The draft with what the prover is configured to be.
pub open spec fn with_prover(draft: DraftView, configured: bool) -> DraftView {
    DraftView {
        answer: PipelineResponseView { prover_configured: configured, ..draft.answer },
        ..draft
    }
}

/// The draft with the next proof of the commitment: the first commitment after
/// genesis needs one proof, later ones two, and a fold is the second.
pub open spec fn with_proof(draft: DraftView, idx: u64, is_fold: bool) -> DraftView {
    DraftView {
        answer: PipelineResponseView {
            proof_total: Some(
                if idx >= 2 {
                    2
                } else {
                    1
                },
            ),
            proof_index: Some(
                if is_fold {
                    2
                } else {
                    1
                },
            ),
            ..draft.answer
        },
        ..draft
    }
}

/// The draft with the job that is in flight, if any.
pub open spec fn with_job(draft: DraftView, job: Option<Seq<char>>) -> DraftView {
    DraftView {
        answer: PipelineResponseView {
            proving_job_active: job is Some,
            proving_job_id: job,
            ..draft.answer
        },
        ..draft
    }
}

/// The draft with what the operator says of publishing.
pub open spec fn with_gate(
    draft: DraftView,
    gate: Result<(bool, Option<Seq<char>>), Seq<char>>,
) -> DraftView {
    let (allowed, reason) = match gate {
        Ok((allowed, reason)) => (allowed, reason),
        Err(e) => (false, Some(e)),
    };
    DraftView {
        answer: PipelineResponseView {
            publish_allowed: allowed,
            publish_blocked_reason: reason,
            ..draft.answer
        },
        ..draft
    }
}

/// The space is loaded and its status looked up; then the prover, the next proof,
/// its job, whether to publish and the progress are asked for where they matter. A
/// failure of any of the latter costs its own field only.
pub open spec fn pipeline_next(stage: PipelineStageView, event: EventView) -> PipelineStep {
    match (stage, event) {
        (PipelineStageView::Load { .. }, EventView::Done(Err(e))) => stop(INTERNAL, e),
        (
            PipelineStageView::Load { space, label, require_finalized },
            EventView::Done(Ok(_)),
        ) => StepView::Perform(
            PipelineStageView::Status { space, label, require_finalized },
            ActionView::Pipeline(label),
        ),
        (PipelineStageView::Status { .. }, EventView::Pipeline(Err(e))) => stop(INTERNAL, e),
        (
            PipelineStageView::Status { space, label, require_finalized },
            EventView::Pipeline(Ok(status)),
        ) => StepView::Perform(
            PipelineStageView::Prover(first_draft(space, label, require_finalized, status)),
            ActionView::ReadSetting(Setting::ProverEndpoint),
        ),
        (PipelineStageView::Prover(draft), EventView::Value(value)) => {
            let draft = with_prover(draft, found(value) is Some);
            match draft.answer.status.commitment_idx {
                Some(_) => StepView::Perform(
                    PipelineStageView::Request(draft),
                    ActionView::NextRequest(draft.label),
                ),
                None => ask_gate(draft),
            }
        },
        (
            PipelineStageView::Request(draft),
            EventView::Request(request),
        ) => match (found(request), draft.answer.status.commitment_idx) {
            (Some(r), Some(idx)) => StepView::Perform(
                PipelineStageView::Job(with_proof(draft, idx, r.is_fold)),
                ActionView::ReadKey(job_key(draft.space, r.commitment_id as int, r.is_fold)),
            ),
            _ => ask_gate(draft),
        },
        (PipelineStageView::Job(draft), EventView::Value(value)) => ask_gate(
            with_job(draft, found(value)),
        ),
        (PipelineStageView::Gate(draft), EventView::Gate(gate)) => ask_progress(
            with_gate(draft, gate),
        ),
        (PipelineStageView::Endpoint { draft, job_id }, EventView::Value(value)) => match found(
            value,
        ) {
            Some(endpoint) => StepView::Perform(
                PipelineStageView::Token { draft, job_id, endpoint },
                ActionView::ReadSetting(Setting::ProverAuthToken),
            ),
            None => StepView::Finish(Ok(draft.answer)),
        },
        (
            PipelineStageView::Token { draft, job_id, endpoint },
            EventView::Value(token),
        ) => StepView::Perform(
            PipelineStageView::Ask(draft),
            ActionView::Send(
                get_from(
                    url_under(endpoint, "/jobs/"@) + job_id,
                    found(token),
                    Some(PROGRESS_TIMEOUT),
                ),
            ),
        ),
        (PipelineStageView::Ask(draft), EventView::Sent(Err(_))) => StepView::Finish(
            Ok(draft.answer),
        ),
        (PipelineStageView::Ask(draft), EventView::Sent(Ok(_))) => StepView::Perform(
            PipelineStageView::Progress(draft),
            ActionView::ReadProgress,
        ),
        (PipelineStageView::Progress(draft), EventView::Value(progress)) => StepView::Finish(
            Ok(PipelineResponseView { proving_progress: found(progress), ..draft.answer }),
        ),
        _ => StepView::Ignored(stage),
    }
}

impl Draft {
    fn ask_progress(self) -> (step: Step<PipelineStage, PipelineResponse>)
        ensures
            step@ == ask_progress(self@),
    {
        match &self.answer.proving_job_id {
            Some(id) => {
                let job_id = id.clone();
                Step::Perform(
                    PipelineStage::Endpoint { draft: self, job_id },
                    Action::ReadSetting(Setting::ProverEndpoint),
                )
            },
            None => Step::Finish(Ok(self.answer)),
        }
    }

    fn ask_gate(self) -> (step: Step<PipelineStage, PipelineResponse>)
        ensures
            step@ == ask_gate(self@),
    {
        if !self.answer.publish_require_finalized || self.answer.status.unpublished == 0 {
            return self.ask_progress();
        }
        let space = self.label.clone();
        Step::Perform(
            PipelineStage::Gate(self),
            Action::PublishGate { space, require_finalized: true, limit: PUBLISH_BATCH_SIZE },
        )
    }
}

impl PipelineStage {
    /// Takes in the reply to the last action.
    pub fn step(self, event: Event) -> (step: Step<PipelineStage, PipelineResponse>)
        ensures
            step@ == pipeline_next(self@, event@),
    {
        match (self, event) {
            (PipelineStage::Load { .. }, Event::Done(Err(e))) => stop_with(INTERNAL, e),
            (PipelineStage::Load { space, label, require_finalized }, Event::Done(Ok(_))) => {
                let wanted = label.clone();
                Step::Perform(
                    PipelineStage::Status { space, label, require_finalized },
                    Action::Pipeline(wanted),
                )
            },
            (PipelineStage::Status { .. }, Event::Pipeline(Err(e))) => stop_with(INTERNAL, e),
            (
                PipelineStage::Status { space, label, require_finalized },
                Event::Pipeline(Ok(status)),
            ) => {
                let answer = PipelineResponse {
                    status,
                    prover_configured: false,
                    proving_job_active: false,
                    publish_require_finalized: require_finalized,
                    publish_allowed: true,
                    publish_blocked_reason: None,
                    proof_index: None,
                    proof_total: None,
                    proving_job_id: None,
                    proving_progress: None,
                };
                Step::Perform(
                    PipelineStage::Prover(Draft { space, label, answer }),
                    Action::ReadSetting(Setting::ProverEndpoint),
                )
            },
            (PipelineStage::Prover(draft), Event::Value(value)) => {
                let mut draft = draft;
                draft.answer.prover_configured = found_text(value).is_some();
                if draft.answer.status.commitment_idx.is_some() {
                    let wanted = draft.label.clone();
                    Step::Perform(PipelineStage::Request(draft), Action::NextRequest(wanted))
                } else {
                    draft.ask_gate()
                }
            },
            (PipelineStage::Request(draft), Event::Request(request)) => {
                let mut draft = draft;
                match (request, draft.answer.status.commitment_idx) {
                    (Ok(Some(r)), Some(idx)) => {
                        draft.answer.proof_total = Some(
                            if idx >= 2 {
                                2
                            } else {
                                1
                            },
                        );
                        draft.answer.proof_index = Some(
                            if r.is_fold {
                                2
                            } else {
                                1
                            },
                        );
                        let key = job_key_text(draft.space.as_str(), r.commitment_id, r.is_fold);
                        Step::Perform(PipelineStage::Job(draft), Action::ReadKey(key))
                    },
                    _ => draft.ask_gate(),
                }
            },
            (PipelineStage::Job(draft), Event::Value(value)) => {
                let mut draft = draft;
                let job = found_text(value);
                draft.answer.proving_job_active = job.is_some();
                draft.answer.proving_job_id = job;
                draft.ask_gate()
            },
            (PipelineStage::Gate(draft), Event::Gate(gate)) => {
                let mut draft = draft;
                match gate {
                    Ok((allowed, reason)) => {
                        draft.answer.publish_allowed = allowed;
                        draft.answer.publish_blocked_reason = reason;
                    },
                    Err(e) => {
                        draft.answer.publish_allowed = false;
                        draft.answer.publish_blocked_reason = Some(e);
                    },
                }
                draft.ask_progress()
            },
            (PipelineStage::Endpoint { draft, job_id }, Event::Value(value)) => {
                match found_text(value) {
                    Some(endpoint) => Step::Perform(
                        PipelineStage::Token { draft, job_id, endpoint },
                        Action::ReadSetting(Setting::ProverAuthToken),
                    ),
                    None => Step::Finish(Ok(draft.answer)),
                }
            },
            (PipelineStage::Token { draft, job_id, endpoint }, Event::Value(token)) => {
                let url = join_url(endpoint.as_str(), "/jobs/").concat(job_id.as_str());
                let call = get_call(url, found_text(token), Some(PROGRESS_TIMEOUT));
                Step::Perform(PipelineStage::Ask(draft), Action::Send(call))
            },
            (PipelineStage::Ask(draft), Event::Sent(Err(_))) => Step::Finish(Ok(draft.answer)),
            (PipelineStage::Ask(draft), Event::Sent(Ok(_))) => Step::Perform(
                PipelineStage::Progress(draft),
                Action::ReadProgress,
            ),
            (PipelineStage::Progress(draft), Event::Value(progress)) => {
                let mut answer = draft.answer;
                answer.proving_progress = found_text(progress);
                Step::Finish(Ok(answer))
            },
            (stage, _) => Step::Ignored(stage),
        }
    }
}

/// How many actions the answer may still take after the one it waits for.
pub open spec fn pipeline_rank(stage: PipelineStageView) -> nat {
    match stage {
        PipelineStageView::Load { .. } => 9,
        PipelineStageView::Status { .. } => 8,
        PipelineStageView::Prover(_) => 7,
        PipelineStageView::Request(_) => 6,
        PipelineStageView::Job(_) => 5,
        PipelineStageView::Gate(_) => 4,
        PipelineStageView::Endpoint { .. } => 3,
        PipelineStageView::Token { .. } => 2,
        PipelineStageView::Ask(_) => 1,
        PipelineStageView::Progress(_) => 0,
    }
}

/// The machine of the answer.
pub open spec fn pipeline_machine() -> Machine<PipelineStageView, PipelineResponseView> {
    |stage: PipelineStageView, event: EventView| pipeline_next(stage, event)
}

/// A query for the pipeline whose actions are answered is answered within ten
/// actions.
pub proof fn lemma_pipeline_is_answered(
    space: Seq<char>,
    require_finalized: bool,
    reply: spec_fn(nat, ActionView) -> EventView,
)
    requires
        replies(reply),
    ensures
        run(pipeline_machine(), pipeline_start(space, require_finalized), reply, 0, 10) is Finish,
{
    let rank = |stage: PipelineStageView| pipeline_rank(stage);
    let inside = |stage: PipelineStageView| true;
    assert(sound(pipeline_machine(), rank, inside));
    lemma_sound_run_finishes(
        pipeline_machine(),
        rank,
        inside,
        pipeline_start(space, require_finalized),
        reply,
        0,
        10,
    );
}

/// Once the status is known, nothing that the store, the operator or the prover
/// replies makes the query fail.
pub proof fn lemma_pipeline_survives_failures(stage: PipelineStageView, event: EventView)
    requires
        !(stage is Load),
        !(stage is Status),
    ensures
        pipeline_next(stage, event) matches StepView::Finish(r) ==> r is Ok,
{
}

/// The answer that a stage has put together so far.
pub open spec fn drafted(stage: PipelineStageView) -> Option<PipelineResponseView> {
    match stage {
        PipelineStageView::Load { .. } => None,
        PipelineStageView::Status { .. } => None,
        PipelineStageView::Prover(d) => Some(d.answer),
        PipelineStageView::Request(d) => Some(d.answer),
        PipelineStageView::Job(d) => Some(d.answer),
        PipelineStageView::Gate(d) => Some(d.answer),
        PipelineStageView::Endpoint { draft, .. } => Some(draft.answer),
        PipelineStageView::Token { draft, .. } => Some(draft.answer),
        PipelineStageView::Ask(d) => Some(d.answer),
        PipelineStageView::Progress(d) => Some(d.answer),
    }
}

/// What holds of every answer: a job is in flight if and only if its identifier
/// is given; progress is given of a job in flight only; and publishing is allowed
/// unless only final commitments may be published and something is unpublished.
pub open spec fn consistent(a: PipelineResponseView) -> bool {
    &&& a.proving_job_active <==> a.proving_job_id is Some
    &&& a.proving_progress is Some ==> a.proving_job_active
    &&& !a.publish_require_finalized || a.status.unpublished == 0 ==> a.publish_allowed
        && a.publish_blocked_reason is None
    &&& a.proof_index is Some <==> a.proof_total is Some
    &&& a.proof_total is Some ==> a.status.commitment_idx is Some
}

/// The answer of a stage is consistent and has no progress yet, and the stages
/// that concern a job have one.
pub open spec fn consistent_stage(stage: PipelineStageView) -> bool {
    &&& drafted(stage) matches Some(a) ==> consistent(a) && a.proving_progress is None
    &&& stage matches PipelineStageView::Gate(d) ==> d.answer.publish_require_finalized
        && d.answer.status.unpublished != 0
    &&& (stage is Endpoint || stage is Token || stage is Ask || stage is Progress)
        ==> drafted(stage)->Some_0.proving_job_active
}

/// Every step keeps the answer consistent, so that the one that is given in the
/// end is.
pub proof fn lemma_pipeline_answers_are_consistent(stage: PipelineStageView, event: EventView)
    requires
        consistent_stage(stage),
    ensures
        match pipeline_next(stage, event) {
            StepView::Perform(after, _) => consistent_stage(after),
            StepView::Finish(Ok(answer)) => consistent(answer),
            _ => true,
        },
{
}

} // verus!
