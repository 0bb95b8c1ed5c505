//! The vocabulary of a request that needs outside help.
//!
//! A handler that reads the store, asks the operator or calls another server is
//! a function from the stage it has reached and an [`Event`] to a [`Step`]: the
//! next [`Action`] to perform, or the answer. Whoever drives it performs the
//! action and hands the reply back as the next event.
use vstd::prelude::*;

use crate::adapters::{is_status, parse_label, space_label, label_error, status_display, status_text};
use crate::text::{
    has_prefix, i64_text, lemma_decimal_digits, lemma_signed_decimal_injective, list_view,
    listing_view, lookup_view, opt_view, result_view, signed_decimal, trim_end_matches, trimmed_end,
};

verus! {

// ---------------------------------------------------------------------------
// Failures
// ---------------------------------------------------------------------------

/// The request was malformed, or the service is not configured for it.
pub const BAD_REQUEST: u16 = 400;

/// Nothing was found under the given name.
pub const NOT_FOUND: u16 = 404;

/// The request does not fit the current state.
pub const CONFLICT: u16 = 409;

/// The service itself failed.
pub const INTERNAL: u16 = 500;

/// Another server failed or could not be reached.
pub const BAD_GATEWAY: u16 = 502;

/// Something that the request depends on is not available.
pub const UNAVAILABLE: u16 = 503;

/// A refused request: an HTTP status and a message.
pub struct ApiError {
    pub status: u16,
    pub message: String,
}

/// A refused request, as a character sequence.
pub ghost struct ApiErrorView {
    pub status: u16,
    pub message: Seq<char>,
}

impl View for ApiError {
    type V = ApiErrorView;

    open spec fn view(&self) -> ApiErrorView {
        ApiErrorView { status: self.status, message: self.message@ }
    }
}

/// The outcome of a handler.
pub open spec fn answer_view<T: View>(r: Result<T, ApiError>) -> Result<T::V, ApiErrorView> {
    match r {
        Ok(v) => Ok(v@),
        Err(e) => Err(e@),
    }
}

/// A refusal with the given status and message.
pub open spec fn refusal<T>(status: u16, message: Seq<char>) -> Result<T, ApiErrorView> {
    Err(ApiErrorView { status, message })
}

/// A refusal with the given status and message.
pub fn refuse(status: u16, message: String) -> (e: ApiError)
    ensures
        e@ == (ApiErrorView { status, message: message@ }),
{
    ApiError { status, message }
}

/// The canonical label of the space that a path names, or the refusal of a path
/// that names none.
pub open spec fn space_answer(space: Seq<char>) -> Result<Seq<char>, ApiErrorView> {
    match space_label(space) {
        Some(label) => Ok(label),
        None => refusal(BAD_REQUEST, "invalid space: "@ + label_error()),
    }
}

/// The label that was parsed, or the refusal of what could not be.
pub fn label_answer(parsed: Result<String, String>) -> (label: Result<String, ApiError>)
    ensures
        answer_view(label) == (match result_view(parsed) {
            Ok(l) => Ok(l),
            Err(e) => refusal(BAD_REQUEST, "invalid space: "@ + e),
        }),
{
    match parsed {
        Ok(label) => Ok(label),
        Err(e) => Err(refuse(BAD_REQUEST, "invalid space: ".to_owned().concat(e.as_str()))),
    }
}

/// The canonical label of the space that a path names.
///
/// It is the name itself, but for one that puts an at-sign before the number of a
/// numeric space, and it is its own canonical label.
pub fn space_of(space: &str) -> (label: Result<String, ApiError>)
    ensures
        answer_view(label) == space_answer(space@),
        label matches Ok(l) ==> space_answer(l@) == Ok::<Seq<char>, ApiErrorView>(l@) && (
        !has_prefix(space@, seq!['@', '#']) ==> l@ == space@),
{
    label_answer(parse_label(space))
}

// ---------------------------------------------------------------------------
// Response statuses
// ---------------------------------------------------------------------------

/// The codes of a successful response.
pub open spec fn success(code: u16) -> bool {
    200 <= code <= 299
}

/// The status of a response: a three-digit code.
#[derive(Clone, Copy)]
pub struct StatusCode {
    code: u16,
}

impl View for StatusCode {
    type V = u16;

    closed spec fn view(&self) -> u16 {
        self.code
    }
}

impl StatusCode {
    #[verifier::type_invariant]
    spec fn three_digits(self) -> bool {
        is_status(self.code)
    }

    /// The status with a given code, where there is one.
    pub fn from_u16(code: u16) -> (status: Option<StatusCode>)
        ensures
            status is Some <==> is_status(code),
            status matches Some(s) ==> s@ == code,
    {
        if 100 <= code && code <= 999 {
            Some(StatusCode { code })
        } else {
            None
        }
    }

    /// The code.
    pub fn as_u16(self) -> (code: u16)
        ensures
            code == self@,
            is_status(code),
    {
        proof {
            use_type_invariant(&self);
        }
        self.code
    }

    /// Whether the response succeeded.
    pub fn is_success(self) -> (yes: bool)
        ensures
            yes == success(self@),
    {
        200 <= self.code && self.code <= 299
    }

    /// The code and its usual reason.
    pub fn text(self) -> (text: String)
        ensures
            text@ == status_display(self@),
    {
        proof {
            use_type_invariant(&self);
        }
        status_text(self.code)
    }
}

// ---------------------------------------------------------------------------
// Outside values
// ---------------------------------------------------------------------------

/// An endpoint or token in the configuration store.
#[derive(Debug, Clone, Copy, PartialEq, Eq, Structural)]
pub enum Setting {
    ProverEndpoint,
    ProverAuthToken,
    RegistryEndpoint,
    RegistryAuthToken,
}

/// The next proof that a space needs.
pub struct ProvingRequest {
    /// The commitment that the proof is for.
    pub commitment_id: i64,
    /// Whether the proof folds earlier ones in, or proves a single step.
    pub is_fold: bool,
    /// The request in the form that the prover reads, or why it has none.
    pub encoded: Result<Vec<u8>, String>,
}

pub ghost struct ProvingRequestView {
    pub commitment_id: i64,
    pub is_fold: bool,
    pub encoded: Result<Seq<u8>, Seq<char>>,
}

impl View for ProvingRequest {
    type V = ProvingRequestView;

    open spec fn view(&self) -> ProvingRequestView {
        ProvingRequestView {
            commitment_id: self.commitment_id,
            is_fold: self.is_fold,
            encoded: result_view(self.encoded),
        }
    }
}

/// What a prover says of a job.
pub struct JobReport {
    pub status: String,
    pub error: Option<String>,
}

pub ghost struct JobReportView {
    pub status: Seq<char>,
    pub error: Option<Seq<char>>,
}

impl View for JobReport {
    type V = JobReportView;

    open spec fn view(&self) -> JobReportView {
        JobReportView { status: self.status@, error: opt_view(self.error) }
    }
}

/// The reply to a JSON-RPC call.
pub struct RpcBody {
    /// All of it, as a JSON text.
    pub json: String,
    /// Its field `error`, as a JSON text, where it has one.
    pub error: Option<String>,
}

pub ghost struct RpcBodyView {
    pub json: Seq<char>,
    pub error: Option<Seq<char>>,
}

impl View for RpcBody {
    type V = RpcBodyView;

    open spec fn view(&self) -> RpcBodyView {
        RpcBodyView { json: self.json@, error: opt_view(self.error) }
    }
}

/// A handle that waits in the registry.
pub struct PendingHandle {
    pub handle: String,
    pub script_pubkey: String,
}

pub ghost struct PendingHandleView {
    pub handle: Seq<char>,
    pub script_pubkey: Seq<char>,
}

impl View for PendingHandle {
    type V = PendingHandleView;

    open spec fn view(&self) -> PendingHandleView {
        PendingHandleView { handle: self.handle@, script_pubkey: self.script_pubkey@ }
    }
}

/// One handle's fate, reported to the registry on ack.
///
/// Every outcome is terminal: the handle is settled and will not be offered
/// again. Anything retryable is left out of the report and stays pending.
pub struct AckEntry {
    pub handle: String,
    pub outcome: String,
}

pub ghost struct AckEntryView {
    pub handle: Seq<char>,
    pub outcome: Seq<char>,
}

impl View for AckEntry {
    type V = AckEntryView;

    open spec fn view(&self) -> AckEntryView {
        AckEntryView { handle: self.handle@, outcome: self.outcome@ }
    }
}

impl AckEntry {
    /// The fate `outcome` of `handle`.
    pub fn new(handle: &str, outcome: &str) -> (entry: Self)
        ensures
            entry@ == (AckEntryView { handle: handle@, outcome: outcome@ }),
    {
        AckEntry { handle: handle.to_owned(), outcome: outcome.to_owned() }
    }
}

/// A handle to stage: its canonical name and the script that shall own it.
pub struct HandleRequest {
    pub handle: String,
    pub script_pubkey: String,
}

pub ghost struct HandleRequestView {
    pub handle: Seq<char>,
    pub script_pubkey: Seq<char>,
}

impl View for HandleRequest {
    type V = HandleRequestView;

    open spec fn view(&self) -> HandleRequestView {
        HandleRequestView { handle: self.handle@, script_pubkey: self.script_pubkey@ }
    }
}

/// A handle that was not staged, for a reason that settles it.
pub struct SkippedHandle {
    /// Its canonical name.
    pub handle: String,
    /// The outcome that the reason stands for.
    pub outcome: String,
}

pub ghost struct SkippedHandleView {
    pub handle: Seq<char>,
    pub outcome: Seq<char>,
}

impl View for SkippedHandle {
    type V = SkippedHandleView;

    open spec fn view(&self) -> SkippedHandleView {
        SkippedHandleView { handle: self.handle@, outcome: self.outcome@ }
    }
}

/// What the operator did with the handles of one space that it was asked to
/// stage.
pub struct SpaceStaging {
    /// The canonical names that were staged.
    pub added: Vec<String>,
    pub skipped: Vec<SkippedHandle>,
}

pub ghost struct SpaceStagingView {
    pub added: Seq<Seq<char>>,
    pub skipped: Seq<SkippedHandleView>,
}

impl View for SpaceStaging {
    type V = SpaceStagingView;

    open spec fn view(&self) -> SpaceStagingView {
        SpaceStagingView { added: list_view(self.added@), skipped: list_view(self.skipped@) }
    }
}

/// What the operator did with the handles that it was asked to stage.
pub struct StagedBatch {
    pub total_added: usize,
    pub by_space: Vec<SpaceStaging>,
}

pub ghost struct StagedBatchView {
    pub total_added: usize,
    pub by_space: Seq<SpaceStagingView>,
}

impl View for StagedBatch {
    type V = StagedBatchView;

    open spec fn view(&self) -> StagedBatchView {
        StagedBatchView { total_added: self.total_added, by_space: list_view(self.by_space@) }
    }
}

/// What a local commitment came to.
pub struct SpaceCommitResult {
    pub space: String,
    pub prev_root: Option<String>,
    pub root: String,
    pub handles_committed: usize,
    pub is_initial: bool,
}

pub ghost struct SpaceCommitResultView {
    pub space: Seq<char>,
    pub prev_root: Option<Seq<char>>,
    pub root: Seq<char>,
    pub handles_committed: usize,
    pub is_initial: bool,
}

impl View for SpaceCommitResult {
    type V = SpaceCommitResultView;

    open spec fn view(&self) -> SpaceCommitResultView {
        SpaceCommitResultView {
            space: self.space@,
            prev_root: opt_view(self.prev_root),
            root: self.root@,
            handles_committed: self.handles_committed,
            is_initial: self.is_initial,
        }
    }
}

/// How far a space's commitment has come.
pub struct PipelineStatus {
    /// The position of the commitment that is under way.
    pub commitment_idx: Option<u64>,
    /// How many handles are not published yet.
    pub unpublished: u64,
    /// All fields, as a JSON text.
    pub fields: String,
}

pub ghost struct PipelineStatusView {
    pub commitment_idx: Option<u64>,
    pub unpublished: u64,
    pub fields: Seq<char>,
}

impl View for PipelineStatus {
    type V = PipelineStatusView;

    open spec fn view(&self) -> PipelineStatusView {
        PipelineStatusView {
            commitment_idx: self.commitment_idx,
            unpublished: self.unpublished,
            fields: self.fields@,
        }
    }
}

// ---------------------------------------------------------------------------
// Calls to other servers
// ---------------------------------------------------------------------------

/// What a call carries.
pub enum Payload {
    /// No body.
    Empty,
    /// `application/octet-stream`.
    Octets(Vec<u8>),
    /// A query parameter `space`, and no body.
    Space(String),
    /// The fates of handles, as JSON.
    Acks(Vec<AckEntry>),
    /// A commitment root and the handles in it, as JSON.
    Committed { root: String, handles: Vec<String> },
    /// A JSON-RPC call, its parameters as a JSON text, and the `Authorization`
    /// header to send with it.
    Rpc { method: String, params: String, authorization: Option<String> },
}

pub ghost enum PayloadView {
    Empty,
    Octets(Seq<u8>),
    Space(Seq<char>),
    Acks(Seq<AckEntryView>),
    Committed { root: Seq<char>, handles: Seq<Seq<char>> },
    Rpc { method: Seq<char>, params: Seq<char>, authorization: Option<Seq<char>> },
}

impl View for Payload {
    type V = PayloadView;

    open spec fn view(&self) -> PayloadView {
        match self {
            Payload::Empty => PayloadView::Empty,
            Payload::Octets(b) => PayloadView::Octets(b@),
            Payload::Space(s) => PayloadView::Space(s@),
            Payload::Acks(a) => PayloadView::Acks(list_view(a@)),
            Payload::Committed { root, handles } => PayloadView::Committed {
                root: root@,
                handles: list_view(handles@),
            },
            Payload::Rpc { method, params, authorization } => PayloadView::Rpc {
                method: method@,
                params: params@,
                authorization: opt_view(*authorization),
            },
        }
    }
}

/// A call to another server.
pub struct HttpCall {
    /// `POST` rather than `GET`.
    pub post: bool,
    pub url: String,
    /// The bearer token to present.
    pub token: Option<String>,
    pub payload: Payload,
    /// Seconds to wait for the response, where the call is limited.
    pub timeout: Option<u64>,
}

pub ghost struct HttpCallView {
    pub post: bool,
    pub url: Seq<char>,
    pub token: Option<Seq<char>>,
    pub payload: PayloadView,
    pub timeout: Option<u64>,
}

impl View for HttpCall {
    type V = HttpCallView;

    open spec fn view(&self) -> HttpCallView {
        HttpCallView {
            post: self.post,
            url: self.url@,
            token: opt_view(self.token),
            payload: self.payload@,
            timeout: self.timeout,
        }
    }
}

/// An unlimited or limited `GET`.
pub open spec fn get_from(
    url: Seq<char>,
    token: Option<Seq<char>>,
    timeout: Option<u64>,
) -> HttpCallView {
    HttpCallView { post: false, url, token, payload: PayloadView::Empty, timeout }
}

/// An unlimited or limited `GET`.
pub fn get_call(url: String, token: Option<String>, timeout: Option<u64>) -> (call: HttpCall)
    ensures
        call@ == get_from(url@, opt_view(token), timeout),
{
    HttpCall { post: false, url, token, payload: Payload::Empty, timeout }
}

/// A `POST` with a payload.
pub open spec fn post_to(
    url: Seq<char>,
    token: Option<Seq<char>>,
    payload: PayloadView,
    timeout: Option<u64>,
) -> HttpCallView {
    HttpCallView { post: true, url, token, payload, timeout }
}

/// A `POST` with a payload.
pub fn post_call(url: String, token: Option<String>, payload: Payload, timeout: Option<u64>) -> (call:
    HttpCall)
    ensures
        call@ == post_to(url@, opt_view(token), payload@, timeout),
{
    HttpCall { post: true, url, token, payload, timeout }
}

/// A path below an endpoint, whose trailing slashes do not count.
pub open spec fn url_under(endpoint: Seq<char>, path: Seq<char>) -> Seq<char> {
    trimmed_end(endpoint, '/') + path
}

/// A path below an endpoint, whose trailing slashes do not count.
pub fn join_url(endpoint: &str, path: &str) -> (url: String)
    ensures
        url@ == url_under(endpoint@, path@),
{
    trim_end_matches(endpoint, '/').to_owned().concat(path)
}

// ---------------------------------------------------------------------------
// Actions and events
// ---------------------------------------------------------------------------

/// Something to be done outside, before the handler can go on.
pub enum Action {
    /// Read an endpoint or token.
    ReadSetting(Setting),
    /// Store an endpoint or token.
    WriteSetting(Setting, String),
    /// Remove an endpoint or token.
    ClearSetting(Setting),
    /// Read whether the registry is synchronised in the background.
    ReadAutoSync,
    /// Store whether the registry is synchronised in the background.
    WriteAutoSync(bool),
    /// Read the entry under a key.
    ReadKey(String),
    /// Store an entry under a key.
    WriteKey(String, String),
    /// Remove the entry under a key.
    DeleteKey(String),
    /// Ask the operator for the next proof that a space needs.
    NextRequest(String),
    /// Hand a receipt to the operator.
    Fulfill { space: String, commitment_id: i64, is_fold: bool, receipt: Vec<u8> },
    /// Drop the stored estimate of a commitment.
    ClearEstimate { space: String, commitment_id: i64 },
    /// Store an estimate on a commitment.
    SaveEstimate { space: String, commitment_id: i64, estimate: String },
    /// Undo the last local commitment that was not broadcast.
    Rollback(String),
    /// List the spaces that are being operated.
    ListSpaces,
    /// List the spaces that the wallet may operate.
    ListDelegated,
    /// Stage handles.
    Stage(Vec<HandleRequest>),
    /// List the names of the handles under a commitment root.
    ListCommitted { space: String, root: String },
    /// Ask whether the next batch of a space may be published.
    PublishGate { space: String, require_finalized: bool, limit: usize },
    /// Load a space, or create it.
    LoadSpace(String),
    /// Ask how far a space's commitment has come.
    Pipeline(String),
    /// Ask for what keeps the staged handles of a space from being committed.
    CanCommit(String),
    /// Commit the staged handles of a space locally.
    CommitLocal(String),
    /// Park or unpark staged handles of a space: those that are named, or those that
    /// match.
    Park {
        space: String,
        handles: Vec<String>,
        parked: bool,
        search: Option<String>,
        filter: Option<String>,
    },
    /// Remove staged handles of a space: those that are named, or those that match.
    Remove {
        space: String,
        handles: Vec<String>,
        search: Option<String>,
        filter: Option<String>,
    },
    /// Publish up to `limit` certificates of a space: of the named handles, or of
    /// any where none are named.
    Publish { space: String, limit: usize, handles: Vec<String>, require_finalized: bool },
    /// Set up a client whose calls are limited to some seconds.
    Connect(u64),
    /// Call another server.
    Send(HttpCall),
    /// Read the body of the last response as text.
    ReadText,
    /// Read the body of the last response as bytes.
    ReadBytes,
    /// Read the body of the last response as what a prover says of a job.
    ReadReport,
    /// Read the body of the last response as the identifier of a new job.
    ReadJobId,
    /// Read the body of the last response as a JSON text.
    ReadJson,
    /// Read the progress, as JSON, out of what a prover says of a job.
    ReadProgress,
    /// Read the body of the last response as the reply to a JSON-RPC call.
    ReadRpc,
    /// Read a file as text.
    ReadFile(String),
    /// Read the body of the last response as the handles that wait.
    ReadPending,
    /// Wait for some milliseconds.
    Sleep(u64),
}

pub ghost enum ActionView {
    ReadSetting(Setting),
    WriteSetting(Setting, Seq<char>),
    ClearSetting(Setting),
    ReadAutoSync,
    WriteAutoSync(bool),
    ReadKey(Seq<char>),
    WriteKey(Seq<char>, Seq<char>),
    DeleteKey(Seq<char>),
    NextRequest(Seq<char>),
    Fulfill { space: Seq<char>, commitment_id: i64, is_fold: bool, receipt: Seq<u8> },
    ClearEstimate { space: Seq<char>, commitment_id: i64 },
    SaveEstimate { space: Seq<char>, commitment_id: i64, estimate: Seq<char> },
    Rollback(Seq<char>),
    ListSpaces,
    ListDelegated,
    Stage(Seq<HandleRequestView>),
    ListCommitted { space: Seq<char>, root: Seq<char> },
    PublishGate { space: Seq<char>, require_finalized: bool, limit: usize },
    LoadSpace(Seq<char>),
    Pipeline(Seq<char>),
    CanCommit(Seq<char>),
    CommitLocal(Seq<char>),
    Park {
        space: Seq<char>,
        handles: Seq<Seq<char>>,
        parked: bool,
        search: Option<Seq<char>>,
        filter: Option<Seq<char>>,
    },
    Remove {
        space: Seq<char>,
        handles: Seq<Seq<char>>,
        search: Option<Seq<char>>,
        filter: Option<Seq<char>>,
    },
    Publish {
        space: Seq<char>,
        limit: usize,
        handles: Seq<Seq<char>>,
        require_finalized: bool,
    },
    Connect(u64),
    Send(HttpCallView),
    ReadText,
    ReadBytes,
    ReadReport,
    ReadJobId,
    ReadJson,
    ReadProgress,
    ReadRpc,
    ReadFile(Seq<char>),
    ReadPending,
    Sleep(u64),
}

impl View for Action {
    type V = ActionView;

    open spec fn view(&self) -> ActionView {
        match self {
            Action::ReadSetting(s) => ActionView::ReadSetting(*s),
            Action::WriteSetting(s, v) => ActionView::WriteSetting(*s, v@),
            Action::ClearSetting(s) => ActionView::ClearSetting(*s),
            Action::ReadAutoSync => ActionView::ReadAutoSync,
            Action::WriteAutoSync(on) => ActionView::WriteAutoSync(*on),
            Action::ReadKey(k) => ActionView::ReadKey(k@),
            Action::WriteKey(k, v) => ActionView::WriteKey(k@, v@),
            Action::DeleteKey(k) => ActionView::DeleteKey(k@),
            Action::NextRequest(s) => ActionView::NextRequest(s@),
            Action::Fulfill { space, commitment_id, is_fold, receipt } => ActionView::Fulfill {
                space: space@,
                commitment_id: *commitment_id,
                is_fold: *is_fold,
                receipt: receipt@,
            },
            Action::ClearEstimate { space, commitment_id } => ActionView::ClearEstimate {
                space: space@,
                commitment_id: *commitment_id,
            },
            Action::SaveEstimate { space, commitment_id, estimate } => ActionView::SaveEstimate {
                space: space@,
                commitment_id: *commitment_id,
                estimate: estimate@,
            },
            Action::Rollback(s) => ActionView::Rollback(s@),
            Action::ListSpaces => ActionView::ListSpaces,
            Action::ListDelegated => ActionView::ListDelegated,
            Action::Stage(r) => ActionView::Stage(list_view(r@)),
            Action::ListCommitted { space, root } => ActionView::ListCommitted {
                space: space@,
                root: root@,
            },
            Action::PublishGate { space, require_finalized, limit } => ActionView::PublishGate {
                space: space@,
                require_finalized: *require_finalized,
                limit: *limit,
            },
            Action::LoadSpace(s) => ActionView::LoadSpace(s@),
            Action::Pipeline(s) => ActionView::Pipeline(s@),
            Action::CanCommit(s) => ActionView::CanCommit(s@),
            Action::CommitLocal(s) => ActionView::CommitLocal(s@),
            Action::Park { space, handles, parked, search, filter } => ActionView::Park {
                space: space@,
                handles: list_view(handles@),
                parked: *parked,
                search: opt_view(*search),
                filter: opt_view(*filter),
            },
            Action::Remove { space, handles, search, filter } => ActionView::Remove {
                space: space@,
                handles: list_view(handles@),
                search: opt_view(*search),
                filter: opt_view(*filter),
            },
            Action::Publish { space, limit, handles, require_finalized } => ActionView::Publish {
                space: space@,
                limit: *limit,
                handles: list_view(handles@),
                require_finalized: *require_finalized,
            },
            Action::Connect(seconds) => ActionView::Connect(*seconds),
            Action::Send(c) => ActionView::Send(c@),
            Action::ReadText => ActionView::ReadText,
            Action::ReadBytes => ActionView::ReadBytes,
            Action::ReadReport => ActionView::ReadReport,
            Action::ReadJobId => ActionView::ReadJobId,
            Action::ReadJson => ActionView::ReadJson,
            Action::ReadProgress => ActionView::ReadProgress,
            Action::ReadRpc => ActionView::ReadRpc,
            Action::ReadFile(path) => ActionView::ReadFile(path@),
            Action::ReadPending => ActionView::ReadPending,
            Action::Sleep(ms) => ActionView::Sleep(*ms),
        }
    }
}

/// The reply to an action.
pub enum Event {
    /// A value of the store, if it holds one.
    Value(Result<Option<String>, String>),
    /// A switch of the store.
    Flag(Result<bool, String>),
    /// The action was performed, or failed.
    Done(Result<(), String>),
    /// The next proof that a space needs, if any.
    Request(Result<Option<ProvingRequest>, String>),
    /// The spaces that are being operated.
    Spaces(Vec<String>),
    /// A list of names.
    Names(Result<Vec<String>, String>),
    /// What became of the handles to stage.
    Staged(Result<StagedBatch, String>),
    /// How far a space's commitment has come.
    Pipeline(Result<PipelineStatus, String>),
    /// What was committed.
    Committed(Result<SpaceCommitResult, String>),
    /// How many handles were changed.
    Counted(Result<usize, String>),
    /// Whether publishing is allowed, and why not.
    Gate(Result<(bool, Option<String>), String>),
    /// How many certificates were published, and how many remain.
    Published(Result<(usize, usize), String>),
    /// The status of a response, or why there is none.
    Sent(Result<StatusCode, String>),
    /// A body as text.
    Text(Result<String, String>),
    /// A body as bytes.
    Bytes(Result<Vec<u8>, String>),
    /// A body as what a prover says of a job.
    Report(Result<JobReport, String>),
    /// A body as the reply to a JSON-RPC call.
    Rpc(Result<RpcBody, String>),
    /// A body as the handles that wait.
    Pending(Result<Vec<PendingHandle>, String>),
    /// The time is up.
    Woke,
}

pub ghost enum EventView {
    Value(Result<Option<Seq<char>>, Seq<char>>),
    Flag(Result<bool, Seq<char>>),
    Done(Result<(), Seq<char>>),
    Request(Result<Option<ProvingRequestView>, Seq<char>>),
    Spaces(Seq<Seq<char>>),
    Names(Result<Seq<Seq<char>>, Seq<char>>),
    Staged(Result<StagedBatchView, Seq<char>>),
    Pipeline(Result<PipelineStatusView, Seq<char>>),
    Committed(Result<SpaceCommitResultView, Seq<char>>),
    Counted(Result<usize, Seq<char>>),
    Gate(Result<(bool, Option<Seq<char>>), Seq<char>>),
    Published(Result<(usize, usize), Seq<char>>),
    Sent(Result<u16, Seq<char>>),
    Text(Result<Seq<char>, Seq<char>>),
    Bytes(Result<Seq<u8>, Seq<char>>),
    Report(Result<JobReportView, Seq<char>>),
    Rpc(Result<RpcBodyView, Seq<char>>),
    Pending(Result<Seq<PendingHandleView>, Seq<char>>),
    Woke,
}

impl View for Event {
    type V = EventView;

    open spec fn view(&self) -> EventView {
        match self {
            Event::Value(r) => EventView::Value(lookup_view(*r)),
            Event::Flag(r) => EventView::Flag(result_view(*r)),
            Event::Done(r) => EventView::Done(result_view(*r)),
            Event::Request(r) => EventView::Request(lookup_view(*r)),
            Event::Spaces(names) => EventView::Spaces(list_view(names@)),
            Event::Names(r) => EventView::Names(listing_view(*r)),
            Event::Staged(r) => EventView::Staged(result_view(*r)),
            Event::Pipeline(r) => EventView::Pipeline(result_view(*r)),
            Event::Committed(r) => EventView::Committed(result_view(*r)),
            Event::Counted(r) => EventView::Counted(result_view(*r)),
            Event::Gate(r) => EventView::Gate(
                match *r {
                    Ok((allowed, reason)) => Ok((allowed, opt_view(reason))),
                    Err(e) => Err(e@),
                },
            ),
            Event::Published(r) => EventView::Published(
                match *r {
                    Ok(counts) => Ok(counts),
                    Err(e) => Err(e@),
                },
            ),
            Event::Sent(r) => EventView::Sent(result_view(*r)),
            Event::Text(r) => EventView::Text(result_view(*r)),
            Event::Bytes(r) => EventView::Bytes(result_view(*r)),
            Event::Report(r) => EventView::Report(result_view(*r)),
            Event::Rpc(r) => EventView::Rpc(result_view(*r)),
            Event::Pending(r) => EventView::Pending(listing_view(*r)),
            Event::Woke => EventView::Woke,
        }
    }
}

/// An event is a reply of the kind that an action calls for.
pub open spec fn answers(action: ActionView, event: EventView) -> bool {
    match action {
        ActionView::ReadSetting(_) => event is Value,
        ActionView::WriteSetting(_, _) => event is Done,
        ActionView::ClearSetting(_) => event is Done,
        ActionView::ReadAutoSync => event is Flag,
        ActionView::WriteAutoSync(_) => event is Done,
        ActionView::ReadKey(_) => event is Value,
        ActionView::WriteKey(_, _) => event is Done,
        ActionView::DeleteKey(_) => event is Done,
        ActionView::NextRequest(_) => event is Request,
        ActionView::Fulfill { .. } => event is Done,
        ActionView::ClearEstimate { .. } => event is Done,
        ActionView::SaveEstimate { .. } => event is Done,
        ActionView::Rollback(_) => event is Done,
        ActionView::ListSpaces => event is Spaces,
        ActionView::ListDelegated => event is Names,
        ActionView::Stage(_) => event is Staged,
        ActionView::ListCommitted { .. } => event is Names,
        ActionView::PublishGate { .. } => event is Gate,
        ActionView::LoadSpace(_) => event is Done,
        ActionView::Pipeline(_) => event is Pipeline,
        ActionView::CanCommit(_) => event is Value,
        ActionView::CommitLocal(_) => event is Committed,
        ActionView::Park { .. } => event is Counted,
        ActionView::Remove { .. } => event is Counted,
        ActionView::Publish { .. } => event is Published,
        ActionView::Connect(_) => event is Done,
        ActionView::Send(_) => event is Sent,
        ActionView::ReadText => event is Text,
        ActionView::ReadBytes => event is Bytes,
        ActionView::ReadReport => event is Report,
        ActionView::ReadJobId => event is Text,
        ActionView::ReadJson => event is Text,
        ActionView::ReadProgress => event is Value,
        ActionView::ReadRpc => event is Rpc,
        ActionView::ReadFile(_) => event is Text,
        ActionView::ReadPending => event is Pending,
        ActionView::Sleep(_) => event is Woke,
    }
}

/// Where a handler stands after an event.
pub enum Step<S, T> {
    /// It has reached a stage, and waits for an action.
    Perform(S, Action),
    /// It is done.
    Finish(Result<T, ApiError>),
    /// The event was no reply to the action that the stage waits for.
    Ignored(S),
}

pub ghost enum StepView<S, T> {
    Perform(S, ActionView),
    Finish(Result<T, ApiErrorView>),
    Ignored(S),
}

impl<S: View, T: View> View for Step<S, T> {
    type V = StepView<S::V, T::V>;

    open spec fn view(&self) -> StepView<S::V, T::V> {
        match self {
            Step::Perform(s, a) => StepView::Perform(s@, a@),
            Step::Finish(r) => StepView::Finish(answer_view(*r)),
            Step::Ignored(s) => StepView::Ignored(s@),
        }
    }
}

/// A handler that refuses the request.
pub open spec fn stop<S, T>(status: u16, message: Seq<char>) -> StepView<S, T> {
    StepView::Finish(refusal(status, message))
}

/// A handler that refuses the request.
pub fn stop_with<S: View, T: View>(status: u16, message: String) -> (step: Step<S, T>)
    ensures
        step@ == stop::<S::V, T::V>(status, message@),
{
    Step::Finish(Err(refuse(status, message)))
}

/// The machine that goes from a stage and an event to a step.
pub type Machine<S, T> = spec_fn(S, EventView) -> StepView<S, T>;

/// Where a handler ends up when each action is performed and answered, the
/// replies depending on how many actions came before, and at most `left` actions
/// are performed.
pub open spec fn run<S, T>(
    next: Machine<S, T>,
    step: StepView<S, T>,
    reply: spec_fn(nat, ActionView) -> EventView,
    done: nat,
    left: nat,
) -> StepView<S, T>
    decreases left,
{
    match step {
        StepView::Perform(stage, action) => if left == 0 {
            step
        } else {
            run(next, next(stage, reply(done, action)), reply, done + 1, (left - 1) as nat)
        },
        _ => step,
    }
}

/// Whether such a run performs a given action.
pub open spec fn performs<S, T>(
    next: Machine<S, T>,
    step: StepView<S, T>,
    reply: spec_fn(nat, ActionView) -> EventView,
    done: nat,
    left: nat,
    wanted: ActionView,
) -> bool
    decreases left,
{
    match step {
        StepView::Perform(stage, action) => left > 0 && (action == wanted || performs(
            next,
            next(stage, reply(done, action)),
            reply,
            done + 1,
            (left - 1) as nat,
            wanted,
        )),
        _ => false,
    }
}

/// Every action is answered by an event of the kind that it calls for.
pub open spec fn replies(reply: spec_fn(nat, ActionView) -> EventView) -> bool {
    forall|n: nat, a: ActionView| answers(a, #[trigger] reply(n, a))
}

/// A step waits for an action whose answer its stage takes, and the stage is one
/// of those in question, with fewer than `bound` actions ahead of it.
pub open spec fn sound_step<S, T>(
    next: Machine<S, T>,
    rank: spec_fn(S) -> nat,
    inside: spec_fn(S) -> bool,
    step: StepView<S, T>,
    bound: nat,
) -> bool {
    match step {
        StepView::Perform(stage, action) => inside(stage) && rank(stage) < bound && forall|
            event: EventView,
        |
            answers(action, event) ==> !(#[trigger] next(stage, event) is Ignored),
        StepView::Finish(_) => true,
        StepView::Ignored(_) => false,
    }
}

/// Each step of a machine, from the stages in question, brings it closer to its
/// end and waits for an action whose answer it takes.
pub open spec fn sound<S, T>(
    next: Machine<S, T>,
    rank: spec_fn(S) -> nat,
    inside: spec_fn(S) -> bool,
) -> bool {
    forall|stage: S, event: EventView|
        inside(stage) && !(#[trigger] next(stage, event) is Ignored) ==> sound_step(
            next,
            rank,
            inside,
            next(stage, event),
            rank(stage),
        )
}

/// A sound machine that is given an answer to each action finishes, and never
/// takes more than `left` actions.
pub proof fn lemma_sound_run_finishes<S, T>(
    next: Machine<S, T>,
    rank: spec_fn(S) -> nat,
    inside: spec_fn(S) -> bool,
    step: StepView<S, T>,
    reply: spec_fn(nat, ActionView) -> EventView,
    done: nat,
    left: nat,
)
    requires
        sound(next, rank, inside),
        sound_step(next, rank, inside, step, left),
        replies(reply),
    ensures
        run(next, step, reply, done, left) is Finish,
    decreases left,
{
    if let StepView::Perform(stage, action) = step {
        let event = reply(done, action);
        assert(answers(action, event));
        assert(!(next(stage, event) is Ignored));
        assert(sound_step(next, rank, inside, next(stage, event), rank(stage)));
        lemma_sound_run_finishes(
            next,
            rank,
            inside,
            next(stage, event),
            reply,
            done + 1,
            (left - 1) as nat,
        );
    }
}

// ---------------------------------------------------------------------------
// Proving jobs
// ---------------------------------------------------------------------------

/// The name of the kind of a proof.
pub open spec fn proof_kind(is_fold: bool) -> Seq<char> {
    if is_fold {
        "fold"@
    } else {
        "step"@
    }
}

/// The name of the kind of a proof.
pub fn kind_text(is_fold: bool) -> (kind: &'static str)
    ensures
        kind@ == proof_kind(is_fold),
{
    if is_fold {
        "fold"
    } else {
        "step"
    }
}

/// The key under which the job of a proof is remembered.
pub open spec fn job_key(space: Seq<char>, commitment_id: int, is_fold: bool) -> Seq<char> {
    "job:"@ + space + ":"@ + signed_decimal(commitment_id) + ":"@ + proof_kind(is_fold)
}

/// The key under which the job of a proof is remembered.
pub fn job_key_text(space: &str, commitment_id: i64, is_fold: bool) -> (key: String)
    ensures
        key@ == job_key(space@, commitment_id as int, is_fold),
{
    "job:".to_owned().concat(space).concat(":").concat(i64_text(commitment_id).as_str()).concat(
        ":",
    ).concat(kind_text(is_fold))
}

/// The characters of a number hold no colon.
proof fn lemma_number_has_no_colon(n: int)
    ensures
        forall|i: int| 0 <= i < signed_decimal(n).len() ==> signed_decimal(n)[i] != ':',
{
    if n < 0 {
        lemma_decimal_digits((-n) as nat);
        reveal_strlit("-");
    } else {
        lemma_decimal_digits(n as nat);
    }
}

/// What stands before the last colon, and what stands after it, are unique.
proof fn lemma_last_colon(a: Seq<char>, n: Seq<char>, b: Seq<char>, m: Seq<char>)
    requires
        a + seq![':'] + n == b + seq![':'] + m,
        forall|i: int| 0 <= i < n.len() ==> n[i] != ':',
        forall|i: int| 0 <= i < m.len() ==> m[i] != ':',
    ensures
        a == b,
        n == m,
{
    let x = a + seq![':'] + n;
    let y = b + seq![':'] + m;
    assert(x.len() == a.len() + 1 + n.len());
    assert(y.len() == b.len() + 1 + m.len());
    if n.len() < m.len() {
        assert(x[a.len() as int] == ':');
        assert(y[a.len() as int] == m[a.len() - b.len() - 1]);
    }
    if m.len() < n.len() {
        assert(y[b.len() as int] == ':');
        assert(x[b.len() as int] == n[b.len() - a.len() - 1]);
    }
    assert(a =~= x.take(a.len() as int));
    assert(b =~= y.take(b.len() as int));
    assert(n =~= x.skip(a.len() as int + 1));
    assert(m =~= y.skip(b.len() as int + 1));
}

/// Two proofs share a key only if they are of the same kind, for the same
/// commitment of the same space.
pub proof fn lemma_job_keys_are_distinct(
    space: Seq<char>,
    commitment_id: int,
    is_fold: bool,
    other_space: Seq<char>,
    other_id: int,
    other_fold: bool,
)
    requires
        job_key(space, commitment_id, is_fold) == job_key(other_space, other_id, other_fold),
    ensures
        space == other_space,
        commitment_id == other_id,
        is_fold == other_fold,
{
    reveal_strlit("job:");
    reveal_strlit(":");
    reveal_strlit("step");
    reveal_strlit("fold");
    assert(":"@ =~= seq![':']);
    let x = job_key(space, commitment_id, is_fold);
    let y = job_key(other_space, other_id, other_fold);
    let head = "job:"@ + space + ":"@ + signed_decimal(commitment_id);
    let other_head = "job:"@ + other_space + ":"@ + signed_decimal(other_id);
    assert(x.last() == proof_kind(is_fold).last());
    assert(y.last() == proof_kind(other_fold).last());
    assert(is_fold == other_fold);
    assert(head =~= x.take(x.len() - 5));
    assert(other_head =~= y.take(y.len() - 5));
    lemma_number_has_no_colon(commitment_id);
    lemma_number_has_no_colon(other_id);
    lemma_last_colon(
        "job:"@ + space,
        signed_decimal(commitment_id),
        "job:"@ + other_space,
        signed_decimal(other_id),
    );
    lemma_signed_decimal_injective(commitment_id, other_id);
    assert(space =~= ("job:"@ + space).skip(4));
    assert(other_space =~= ("job:"@ + other_space).skip(4));
}

} // verus!
