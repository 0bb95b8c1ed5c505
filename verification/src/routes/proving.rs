//! Proving endpoints.
//!
//! The operator names the next proof that a space needs; an outside prover makes
//! it. These handlers hand the work out, follow the job and take the receipt in.
use vstd::prelude::*;

use crate::adapters::{
    base64_bytes, base64_decode, base64_encode, base64_fits, base64_text, is_json, json_valid,
    status_display,
};
use crate::flow::{
    answer_view, answers, get_call, get_from, job_key, job_key_text, join_url,
    lemma_sound_run_finishes, performs, post_call, post_to, refusal, refuse, replies, run, sound, space_answer, space_of,
    stop, stop_with, success, url_under, Action, ActionView, ApiError, ApiErrorView, Event,
    EventView, HttpCallView, JobReport, JobReportView, Machine, Payload, PayloadView,
    ProvingRequest, ProvingRequestView, Setting, Step, StepView, BAD_GATEWAY, BAD_REQUEST,
    INTERNAL, NOT_FOUND,
};
use crate::text::{
    copy_opt, decimal, found, found_text, opt_view, result_view, text_eq, u64_text,
};

verus! {

// ---------------------------------------------------------------------------
// The next request
// ---------------------------------------------------------------------------

/// What a failure of the operator is answered with.
pub open spec fn internal<T>(message: Seq<char>) -> Result<T, ApiErrorView> {
    refusal(INTERNAL, message)
}

/// The space whose next proving request is asked for.
pub fn get_next(space: &str) -> (label: Result<String, ApiError>)
    ensures
        answer_view(label) == space_answer(space@),
{
    space_of(space)
}

/// The answer to a query for the next request: the encoded request, which may be
/// the encoding of none.
pub open spec fn next_answer(
    found: Result<Result<Seq<u8>, Seq<char>>, Seq<char>>,
) -> Result<Seq<u8>, ApiErrorView> {
    match found {
        Err(e) => internal(e),
        Ok(Err(e)) => internal("serialize error: "@ + e),
        Ok(Ok(bytes)) => Ok(bytes),
    }
}

/// The answer to a query for the next request, from what the operator found and
/// what encoding it gave.
pub fn get_next_answer(found: Result<Result<Vec<u8>, String>, String>) -> (bytes: Result<
    Vec<u8>,
    ApiError,
>)
    ensures
        answer_view(bytes) == next_answer(
            match found {
                Ok(r) => Ok(result_view(r)),
                Err(e) => Err(e@),
            },
        ),
{
    match found {
        Err(e) => Err(refuse(INTERNAL, e)),
        Ok(Err(e)) => Err(refuse(INTERNAL, "serialize error: ".to_owned().concat(e.as_str()))),
        Ok(Ok(bytes)) => Ok(bytes),
    }
}

// ---------------------------------------------------------------------------
// Receipts that are handed in
// ---------------------------------------------------------------------------

/// Marks the receipt of a step.
pub const REQUEST_TYPE_STEP: u8 = 0;

/// Marks the receipt of a fold.
pub const REQUEST_TYPE_FOLD: u8 = 1;

/// A receipt and the proof that it is for.
pub struct Fulfillment {
    pub space: String,
    pub commitment_id: i64,
    pub is_fold: bool,
    pub receipt: Vec<u8>,
}

pub ghost struct FulfillmentView {
    pub space: Seq<char>,
    pub commitment_id: int,
    pub is_fold: bool,
    pub receipt: Seq<u8>,
}

impl View for Fulfillment {
    type V = FulfillmentView;

    open spec fn view(&self) -> FulfillmentView {
        FulfillmentView {
            space: self.space@,
            commitment_id: self.commitment_id as int,
            is_fold: self.is_fold,
            receipt: self.receipt@,
        }
    }
}

pub struct FulfillResponse {
    pub success: bool,
    pub message: Option<String>,
}

/// The number that eight bytes stand for, lowest byte first.
pub open spec fn le_unsigned(b: Seq<u8>) -> int {
    b[0] + 0x100 * b[1] + 0x1_0000 * b[2] + 0x100_0000 * b[3] + 0x1_0000_0000 * b[4]
        + 0x100_0000_0000 * b[5] + 0x1_0000_0000_0000 * b[6] + 0x100_0000_0000_0000 * b[7]
}

/// The number that eight bytes stand for in two's complement, lowest byte first.
pub open spec fn le_signed(b: Seq<u8>) -> int {
    if le_unsigned(b) < 0x8000_0000_0000_0000 {
        le_unsigned(b)
    } else {
        le_unsigned(b) - 0x1_0000_0000_0000_0000
    }
}

/// The number in the first eight bytes.
fn read_i64(b: &[u8]) -> (n: i64)
    requires
        b@.len() >= 8,
    ensures
        n == le_signed(b@),
{
    let low: u64 = b[0] as u64 + 0x100 * (b[1] as u64) + 0x1_0000 * (b[2] as u64) + 0x100_0000 * (
    b[3] as u64);
    let high: u64 = b[4] as u64 + 0x100 * (b[5] as u64) + 0x1_0000 * (b[6] as u64) + 0x100_0000 * (
    b[7] as u64);
    let n: u64 = low + 0x1_0000_0000 * high;
    assert(n == le_unsigned(b@));
    if n < 0x8000_0000_0000_0000 {
        n as i64
    } else {
        -1 - ((u64::MAX - n) as i64)
    }
}

/// What a payload says: a commitment, a kind and a receipt.
///
/// Eight bytes hold the commitment, lowest byte first, one byte the kind, and the
/// rest, which may not be empty, the receipt.
pub open spec fn fulfillment(label: Seq<char>, body: Seq<u8>) -> Result<
    FulfillmentView,
    ApiErrorView,
> {
    if body.len() < 9 {
        refusal(
            BAD_REQUEST,
            "payload too short: need commitment_id (8) + type (1) + receipt"@,
        )
    } else if body.len() == 9 {
        refusal(BAD_REQUEST, "empty receipt"@)
    } else if body[8] != REQUEST_TYPE_STEP && body[8] != REQUEST_TYPE_FOLD {
        refusal(BAD_REQUEST, "invalid request_type: "@ + decimal(body[8] as nat))
    } else {
        Ok(
            FulfillmentView {
                space: label,
                commitment_id: le_signed(body),
                is_fold: body[8] == REQUEST_TYPE_FOLD,
                receipt: body.skip(9),
            },
        )
    }
}

/// Reads a receipt that was handed in for the space with a given label.
pub fn read_fulfillment(label: String, body: &[u8]) -> (handed: Result<Fulfillment, ApiError>)
    ensures
        answer_view(handed) == fulfillment(label@, body@),
{
    let len: usize = body.len();
    if len < 9 {
        return Err(
            refuse(
                BAD_REQUEST,
                "payload too short: need commitment_id (8) + type (1) + receipt".to_owned(),
            ),
        );
    }
    let commitment_id: i64 = read_i64(body);
    let kind: u8 = body[8];
    if len == 9 {
        return Err(refuse(BAD_REQUEST, "empty receipt".to_owned()));
    }
    if kind != REQUEST_TYPE_STEP && kind != REQUEST_TYPE_FOLD {
        return Err(
            refuse(
                BAD_REQUEST,
                "invalid request_type: ".to_owned().concat(u64_text(kind as u64).as_str()),
            ),
        );
    }
    let mut receipt: Vec<u8> = Vec::new();
    let mut i: usize = 9;
    while i < len
        invariant
            len == body@.len(),
            9 <= i <= len,
            receipt@ == body@.subrange(9, i as int),
        decreases len - i,
    {
        receipt.push(body[i]);
        i = i + 1;
        assert(receipt@ =~= body@.subrange(9, i as int));
    }
    assert(receipt@ =~= body@.skip(9));
    Ok(Fulfillment { space: label, commitment_id, is_fold: kind == REQUEST_TYPE_FOLD, receipt })
}

/// Reads a receipt that was handed in for a space.
pub fn fulfill(space: &str, body: &[u8]) -> (handed: Result<Fulfillment, ApiError>)
    ensures
        answer_view(handed) == (match space_answer(space@) {
            Ok(label) => fulfillment(label, body@),
            Err(e) => Err(e),
        }),
{
    match space_of(space) {
        Ok(label) => read_fulfillment(label, body),
        Err(e) => Err(e),
    }
}

/// The answer to a receipt that the operator took or refused.
pub fn fulfill_answer(taken: Result<(), String>) -> (answer: Result<FulfillResponse, ApiError>)
    ensures
        taken matches Err(e) ==> answer matches Err(r) && r@ == (ApiErrorView {
            status: INTERNAL,
            message: e@,
        }),
        taken is Ok ==> answer == Ok::<FulfillResponse, ApiError>(
            FulfillResponse { success: true, message: None },
        ),
{
    match taken {
        Err(e) => Err(refuse(INTERNAL, e)),
        Ok(_) => Ok(FulfillResponse { success: true, message: None }),
    }
}

// ---------------------------------------------------------------------------
// Compression
// ---------------------------------------------------------------------------

/// A receipt that can be compressed, and the commitment that it proves.
pub struct CompressInput<C> {
    pub receipt: Vec<u8>,
    pub commitment: C,
}

pub struct CompressInputResponse<C> {
    pub input: Option<CompressInputJson<C>>,
}

pub struct CompressInputJson<C> {
    /// Base64-encoded receipt.
    pub receipt: String,
    pub commitment: C,
}

/// The space whose input for compression is asked for.
pub fn get_compress_input(space: &str) -> (label: Result<String, ApiError>)
    ensures
        answer_view(label) == space_answer(space@),
{
    space_of(space)
}

/// The answer to a query for the input for compression.
pub fn compress_input_answer<C>(found: Result<Option<CompressInput<C>>, String>) -> (answer: Result<
    CompressInputResponse<C>,
    ApiError,
>)
    requires
        found matches Ok(Some(input)) ==> base64_fits(input.receipt@.len()),
    ensures
        found matches Err(e) ==> answer matches Err(r) && r@ == (ApiErrorView {
            status: INTERNAL,
            message: e@,
        }),
        found matches Ok(None) ==> answer matches Ok(a) && a.input is None,
        found matches Ok(Some(input)) ==> answer matches Ok(a) && a.input matches Some(json)
            && json.receipt@ == base64_text(input.receipt@) && json.commitment == input.commitment,
{
    match found {
        Err(e) => Err(refuse(INTERNAL, e)),
        Ok(None) => Ok(CompressInputResponse { input: None }),
        Ok(Some(input)) => {
            let receipt = base64_encode(input.receipt.as_slice());
            Ok(
                CompressInputResponse {
                    input: Some(CompressInputJson { receipt, commitment: input.commitment }),
                },
            )
        },
    }
}

pub struct SaveSnarkBody {
    /// Base64-encoded SNARK receipt.
    pub receipt: String,
}

pub struct SaveSnarkResponse {
    pub success: bool,
}

/// The compressed receipt that was decoded, or the refusal of what could not be.
pub fn read_snark(decoded: Result<Vec<u8>, String>) -> (receipt: Result<Vec<u8>, ApiError>)
    ensures
        answer_view(receipt) == (match result_view(decoded) {
            Ok(bytes) => Ok(bytes),
            Err(e) => refusal(BAD_REQUEST, "invalid base64: "@ + e),
        }),
{
    match decoded {
        Err(e) => Err(refuse(BAD_REQUEST, "invalid base64: ".to_owned().concat(e.as_str()))),
        Ok(bytes) => Ok(bytes),
    }
}

/// The space that a compressed receipt is for, and the receipt.
pub fn save_snark(space: &str, body: &SaveSnarkBody) -> (handed: Result<(String, Vec<u8>), ApiError>)
    ensures
        match (space_answer(space@), base64_bytes(body.receipt@)) {
            (Err(e), _) => handed matches Err(r) && r@ == e,
            (Ok(_), Err(e)) => handed matches Err(r) && r@ == (ApiErrorView {
                status: BAD_REQUEST,
                message: "invalid base64: "@ + e,
            }),
            (Ok(label), Ok(bytes)) => handed matches Ok((l, b)) && l@ == label && b@ == bytes,
        },
{
    let label = match space_of(space) {
        Ok(label) => label,
        Err(e) => return Err(e),
    };
    match read_snark(base64_decode(body.receipt.as_str())) {
        Err(e) => Err(e),
        Ok(bytes) => Ok((label, bytes)),
    }
}

/// The answer to a compressed receipt that the operator took or refused.
pub fn save_snark_answer(saved: Result<(), String>) -> (answer: Result<SaveSnarkResponse, ApiError>)
    ensures
        saved matches Err(e) ==> answer matches Err(r) && r@ == (ApiErrorView {
            status: INTERNAL,
            message: e@,
        }),
        saved is Ok ==> answer == Ok::<SaveSnarkResponse, ApiError>(
            SaveSnarkResponse { success: true },
        ),
{
    match saved {
        Err(e) => Err(refuse(INTERNAL, e)),
        Ok(_) => Ok(SaveSnarkResponse { success: true }),
    }
}

// ---------------------------------------------------------------------------
// Finding the prover and the work
// ---------------------------------------------------------------------------

/// A space, as it was named and by its label, and the prover that works for it.
pub struct Site {
    pub space: String,
    pub label: String,
    pub endpoint: String,
    pub token: Option<String>,
}

pub ghost struct SiteView {
    pub space: Seq<char>,
    pub label: Seq<char>,
    pub endpoint: Seq<char>,
    pub token: Option<Seq<char>>,
}

impl View for Site {
    type V = SiteView;

    open spec fn view(&self) -> SiteView {
        SiteView {
            space: self.space@,
            label: self.label@,
            endpoint: self.endpoint@,
            token: opt_view(self.token),
        }
    }
}

/// The way to a space's next proving request.
pub enum Approach {
    /// The prover's endpoint is being read.
    Endpoint { space: String, label: String },
    /// The prover's token is being read.
    Token { space: String, label: String, endpoint: String },
    /// The next request is being looked up.
    Request(Site),
}

pub ghost enum ApproachView {
    Endpoint { space: Seq<char>, label: Seq<char> },
    Token { space: Seq<char>, label: Seq<char>, endpoint: Seq<char> },
    Request(SiteView),
}

impl View for Approach {
    type V = ApproachView;

    open spec fn view(&self) -> ApproachView {
        match self {
            Approach::Endpoint { space, label } => ApproachView::Endpoint {
                space: space@,
                label: label@,
            },
            Approach::Token { space, label, endpoint } => ApproachView::Token {
                space: space@,
                label: label@,
                endpoint: endpoint@,
            },
            Approach::Request(site) => ApproachView::Request(site@),
        }
    }
}

/// Where an approach leads.
pub enum Approached {
    /// It goes on.
    Perform(Approach, Action),
    /// The prover and the next request are known.
    Ready(Site, ProvingRequest),
    /// Nothing needs to be proved.
    Idle,
    /// No prover is configured.
    Unconfigured,
    /// The store or the operator failed.
    Failed(String),
    /// The event was no reply to the action.
    Ignored(Approach),
}

pub ghost enum ApproachedView {
    Perform(ApproachView, ActionView),
    Ready(SiteView, ProvingRequestView),
    Idle,
    Unconfigured,
    Failed(Seq<char>),
    Ignored(ApproachView),
}

impl View for Approached {
    type V = ApproachedView;

    open spec fn view(&self) -> ApproachedView {
        match self {
            Approached::Perform(s, a) => ApproachedView::Perform(s@, a@),
            Approached::Ready(site, r) => ApproachedView::Ready(site@, r@),
            Approached::Idle => ApproachedView::Idle,
            Approached::Unconfigured => ApproachedView::Unconfigured,
            Approached::Failed(e) => ApproachedView::Failed(e@),
            Approached::Ignored(s) => ApproachedView::Ignored(s@),
        }
    }
}

/// The endpoint is read, then the token, of which a failure to read it counts as
/// there being none, then the next request.
pub open spec fn approach_next(stage: ApproachView, event: EventView) -> ApproachedView {
    match (stage, event) {
        (
            ApproachView::Endpoint { space, label },
            EventView::Value(Ok(Some(endpoint))),
        ) => ApproachedView::Perform(
            ApproachView::Token { space, label, endpoint },
            ActionView::ReadSetting(Setting::ProverAuthToken),
        ),
        (ApproachView::Endpoint { .. }, EventView::Value(Ok(None))) => ApproachedView::Unconfigured,
        (ApproachView::Endpoint { .. }, EventView::Value(Err(e))) => ApproachedView::Failed(e),
        (
            ApproachView::Token { space, label, endpoint },
            EventView::Value(token),
        ) => ApproachedView::Perform(
            ApproachView::Request(SiteView { space, label, endpoint, token: found(token) }),
            ActionView::NextRequest(label),
        ),
        (
            ApproachView::Request(site),
            EventView::Request(Ok(Some(request))),
        ) => ApproachedView::Ready(site, request),
        (ApproachView::Request(_), EventView::Request(Ok(None))) => ApproachedView::Idle,
        (ApproachView::Request(_), EventView::Request(Err(e))) => ApproachedView::Failed(e),
        _ => ApproachedView::Ignored(stage),
    }
}

/// How many actions an approach may still take.
pub open spec fn approach_rank(stage: ApproachView) -> nat {
    match stage {
        ApproachView::Endpoint { .. } => 2,
        ApproachView::Token { .. } => 1,
        ApproachView::Request(_) => 0,
    }
}

impl Approach {
    /// Takes in the reply to the last action.
    pub fn step(self, event: Event) -> (res: Approached)
        ensures
            res@ == approach_next(self@, event@),
    {
        match (self, event) {
            (Approach::Endpoint { space, label }, Event::Value(Ok(Some(endpoint)))) => {
                Approached::Perform(
                    Approach::Token { space, label, endpoint },
                    Action::ReadSetting(Setting::ProverAuthToken),
                )
            },
            (Approach::Endpoint { .. }, Event::Value(Ok(None))) => Approached::Unconfigured,
            (Approach::Endpoint { .. }, Event::Value(Err(e))) => Approached::Failed(e),
            (Approach::Token { space, label, endpoint }, Event::Value(token)) => {
                let wanted = label.clone();
                Approached::Perform(
                    Approach::Request(Site { space, label, endpoint, token: found_text(token) }),
                    Action::NextRequest(wanted),
                )
            },
            (Approach::Request(site), Event::Request(Ok(Some(request)))) => {
                Approached::Ready(site, request)
            },
            (Approach::Request(_), Event::Request(Ok(None))) => Approached::Idle,
            (Approach::Request(_), Event::Request(Err(e))) => Approached::Failed(e),
            (stage, _) => Approached::Ignored(stage),
        }
    }
}

/// What is said where no prover is configured.
pub open spec fn unconfigured() -> Seq<char> {
    "prover_endpoint not configured"@
}

// ---------------------------------------------------------------------------
// Push
// ---------------------------------------------------------------------------

pub struct PushResponse {
    pub success: bool,
    pub job_id: Option<String>,
    pub message: Option<String>,
}

pub ghost struct PushResponseView {
    pub success: bool,
    pub job_id: Option<Seq<char>>,
    pub message: Option<Seq<char>>,
}

impl View for PushResponse {
    type V = PushResponseView;

    open spec fn view(&self) -> PushResponseView {
        PushResponseView {
            success: self.success,
            job_id: opt_view(self.job_id),
            message: opt_view(self.message),
        }
    }
}

/// How far a push has come.
pub enum PushStage {
    /// The work is being looked up.
    Approach(Approach),
    /// The request is on its way; its job will be remembered under `key`.
    Submit { key: String },
    /// The prover refused with a status; its reasons are being read.
    Refused { status: String },
    /// The prover accepted; the job's identifier is being read.
    Accepted { key: String },
    /// The job is being remembered.
    Store { job_id: String },
}

pub ghost enum PushStageView {
    Approach(ApproachView),
    Submit { key: Seq<char> },
    Refused { status: Seq<char> },
    Accepted { key: Seq<char> },
    Store { job_id: Seq<char> },
}

impl View for PushStage {
    type V = PushStageView;

    open spec fn view(&self) -> PushStageView {
        match self {
            PushStage::Approach(s) => PushStageView::Approach(s@),
            PushStage::Submit { key } => PushStageView::Submit { key: key@ },
            PushStage::Refused { status } => PushStageView::Refused { status: status@ },
            PushStage::Accepted { key } => PushStageView::Accepted { key: key@ },
            PushStage::Store { job_id } => PushStageView::Store { job_id: job_id@ },
        }
    }
}

pub type PushStep = StepView<PushStageView, PushResponseView>;

/// The first step of a push.
pub open spec fn push_start(space: Seq<char>) -> PushStep {
    match space_answer(space) {
        Ok(label) => StepView::Perform(
            PushStageView::Approach(ApproachView::Endpoint { space, label }),
            ActionView::ReadSetting(Setting::ProverEndpoint),
        ),
        Err(e) => StepView::Finish(Err(e)),
    }
}

/// Pushes a space's next proving request to the configured prover.
///
/// Answers with a job's identifier; polling tells how the job fares.
pub fn push_to_prover(space: &str) -> (step: Step<PushStage, PushResponse>)
    ensures
        step@ == push_start(space@),
{
    match space_of(space) {
        Ok(label) => Step::Perform(
            PushStage::Approach(Approach::Endpoint { space: space.to_owned(), label }),
            Action::ReadSetting(Setting::ProverEndpoint),
        ),
        Err(e) => Step::Finish(Err(e)),
    }
}

/// What a refusal of the prover is answered with.
pub open spec fn prover_refusal(status: Seq<char>, body: Result<Seq<char>, Seq<char>>) -> Seq<char> {
    "prover returned "@ + status + ": "@ + text_or_empty(body)
}

/// The text that was read, or none.
pub open spec fn text_or_empty(body: Result<Seq<char>, Seq<char>>) -> Seq<char> {
    match body {
        Ok(b) => b,
        Err(_) => Seq::empty(),
    }
}

/// The text that was read, or none.
pub fn or_empty(body: Result<String, String>) -> (text: String)
    ensures
        text@ == text_or_empty(result_view(body)),
{
    match body {
        Ok(b) => b,
        Err(_) => String::new(),
    }
}

fn prover_refused(status: &str, body: Result<String, String>) -> (message: String)
    ensures
        message@ == prover_refusal(status@, result_view(body)),
{
    "prover returned ".to_owned().concat(status).concat(": ").concat(or_empty(body).as_str())
}

/// The request goes to `/prove` below the endpoint, and the job that the prover
/// names is remembered under the proof's key.
pub open spec fn push_next(stage: PushStageView, event: EventView) -> PushStep {
    match (stage, event) {
        (PushStageView::Approach(s), e) => match approach_next(s, e) {
            ApproachedView::Perform(s, a) => StepView::Perform(PushStageView::Approach(s), a),
            ApproachedView::Ready(site, request) => match request.encoded {
                Ok(bytes) => StepView::Perform(
                    PushStageView::Submit {
                        key: job_key(site.space, request.commitment_id as int, request.is_fold),
                    },
                    ActionView::Send(
                        post_to(
                            url_under(site.endpoint, "/prove"@),
                            site.token,
                            PayloadView::Octets(bytes),
                            None,
                        ),
                    ),
                ),
                Err(e) => stop(INTERNAL, "serialize error: "@ + e),
            },
            ApproachedView::Idle => StepView::Finish(
                Ok(
                    PushResponseView {
                        success: false,
                        job_id: None,
                        message: Some("no pending proving request"@),
                    },
                ),
            ),
            ApproachedView::Unconfigured => stop(
                BAD_REQUEST,
                "prover_endpoint not configured. Set it via POST /config"@,
            ),
            ApproachedView::Failed(e) => stop(INTERNAL, e),
            ApproachedView::Ignored(s) => StepView::Ignored(PushStageView::Approach(s)),
        },
        (PushStageView::Submit { key }, EventView::Sent(Err(e))) => stop(
            BAD_GATEWAY,
            "prover request failed: "@ + e,
        ),
        (PushStageView::Submit { key }, EventView::Sent(Ok(code))) => if success(code) {
            StepView::Perform(PushStageView::Accepted { key }, ActionView::ReadJobId)
        } else {
            StepView::Perform(
                PushStageView::Refused { status: status_display(code) },
                ActionView::ReadText,
            )
        },
        (PushStageView::Refused { status }, EventView::Text(body)) => stop(
            BAD_GATEWAY,
            prover_refusal(status, body),
        ),
        (PushStageView::Accepted { key }, EventView::Text(Err(e))) => stop(
            BAD_GATEWAY,
            "invalid prover response: "@ + e,
        ),
        (PushStageView::Accepted { key }, EventView::Text(Ok(job_id))) => StepView::Perform(
            PushStageView::Store { job_id },
            ActionView::WriteKey(key, job_id),
        ),
        (PushStageView::Store { job_id }, EventView::Done(Err(e))) => stop(INTERNAL, e),
        (PushStageView::Store { job_id }, EventView::Done(Ok(_))) => StepView::Finish(
            Ok(
                PushResponseView {
                    success: true,
                    job_id: Some(job_id),
                    message: Some("proving request submitted to prover"@),
                },
            ),
        ),
        _ => StepView::Ignored(stage),
    }
}

impl PushStage {
    /// Takes in the reply to the last action.
    pub fn step(self, event: Event) -> (step: Step<PushStage, PushResponse>)
        ensures
            step@ == push_next(self@, event@),
    {
        match (self, event) {
            (PushStage::Approach(s), e) => match s.step(e) {
                Approached::Perform(s, a) => Step::Perform(PushStage::Approach(s), a),
                Approached::Ready(site, request) => match request.encoded {
                    Ok(bytes) => {
                        let key = job_key_text(
                            site.space.as_str(),
                            request.commitment_id,
                            request.is_fold,
                        );
                        let url = join_url(site.endpoint.as_str(), "/prove");
                        Step::Perform(
                            PushStage::Submit { key },
                            Action::Send(post_call(url, site.token, Payload::Octets(bytes), None)),
                        )
                    },
                    Err(e) => stop_with(
                        INTERNAL,
                        "serialize error: ".to_owned().concat(e.as_str()),
                    ),
                },
                Approached::Idle => Step::Finish(
                    Ok(
                        PushResponse {
                            success: false,
                            job_id: None,
                            message: Some("no pending proving request".to_owned()),
                        },
                    ),
                ),
                Approached::Unconfigured => stop_with(
                    BAD_REQUEST,
                    "prover_endpoint not configured. Set it via POST /config".to_owned(),
                ),
                Approached::Failed(e) => stop_with(INTERNAL, e),
                Approached::Ignored(s) => Step::Ignored(PushStage::Approach(s)),
            },
            (PushStage::Submit { .. }, Event::Sent(Err(e))) => stop_with(
                BAD_GATEWAY,
                "prover request failed: ".to_owned().concat(e.as_str()),
            ),
            (PushStage::Submit { key }, Event::Sent(Ok(code))) => {
                if code.is_success() {
                    Step::Perform(PushStage::Accepted { key }, Action::ReadJobId)
                } else {
                    Step::Perform(PushStage::Refused { status: code.text() }, Action::ReadText)
                }
            },
            (PushStage::Refused { status }, Event::Text(body)) => stop_with(
                BAD_GATEWAY,
                prover_refused(status.as_str(), body),
            ),
            (PushStage::Accepted { .. }, Event::Text(Err(e))) => stop_with(
                BAD_GATEWAY,
                "invalid prover response: ".to_owned().concat(e.as_str()),
            ),
            (PushStage::Accepted { key }, Event::Text(Ok(job_id))) => {
                let value = job_id.clone();
                Step::Perform(PushStage::Store { job_id }, Action::WriteKey(key, value))
            },
            (PushStage::Store { .. }, Event::Done(Err(e))) => stop_with(INTERNAL, e),
            (PushStage::Store { job_id }, Event::Done(Ok(_))) => Step::Finish(
                Ok(
                    PushResponse {
                        success: true,
                        job_id: Some(job_id),
                        message: Some("proving request submitted to prover".to_owned()),
                    },
                ),
            ),
            (stage, _) => Step::Ignored(stage),
        }
    }
}

/// How many actions a push may still take after the one it waits for.
pub open spec fn push_rank(stage: PushStageView) -> nat {
    match stage {
        PushStageView::Approach(s) => 3 + approach_rank(s),
        PushStageView::Submit { .. } => 2,
        PushStageView::Accepted { .. } => 1,
        PushStageView::Refused { .. } => 0,
        PushStageView::Store { .. } => 0,
    }
}

/// The machine of a push.
pub open spec fn push_machine() -> Machine<PushStageView, PushResponseView> {
    |stage: PushStageView, event: EventView| push_next(stage, event)
}

/// A push whose actions are answered comes to an answer of its own within six
/// actions.
pub proof fn lemma_push_is_answered(
    space: Seq<char>,
    reply: spec_fn(nat, ActionView) -> EventView,
)
    requires
        replies(reply),
    ensures
        run(push_machine(), push_start(space), reply, 0, 6) is Finish,
{
    let rank = |stage: PushStageView| push_rank(stage);
    let inside = |stage: PushStageView| true;
    assert(sound(push_machine(), rank, inside));
    lemma_sound_run_finishes(
        push_machine(),
        rank,
        inside,
        push_start(space),
        reply,
        0,
        6,
    );
}

// ---------------------------------------------------------------------------
// Poll
// ---------------------------------------------------------------------------

pub struct PollResponse {
    pub success: bool,
    pub status: Option<String>,
    pub complete: bool,
    pub message: Option<String>,
}

pub ghost struct PollResponseView {
    pub success: bool,
    pub status: Option<Seq<char>>,
    pub complete: bool,
    pub message: Option<Seq<char>>,
}

impl View for PollResponse {
    type V = PollResponseView;

    open spec fn view(&self) -> PollResponseView {
        PollResponseView {
            success: self.success,
            status: opt_view(self.status),
            complete: self.complete,
            message: opt_view(self.message),
        }
    }
}

/// A proof that is needed, and the job that makes it.
pub struct Work {
    pub site: Site,
    pub commitment_id: i64,
    pub is_fold: bool,
    pub job_id: String,
}

pub ghost struct WorkView {
    pub site: SiteView,
    pub commitment_id: i64,
    pub is_fold: bool,
    pub job_id: Seq<char>,
}

impl View for Work {
    type V = WorkView;

    open spec fn view(&self) -> WorkView {
        WorkView {
            site: self.site@,
            commitment_id: self.commitment_id,
            is_fold: self.is_fold,
            job_id: self.job_id@,
        }
    }
}

impl WorkView {
    /// The key under which the job is remembered.
    pub open spec fn key(self) -> Seq<char> {
        job_key(self.site.space, self.commitment_id as int, self.is_fold)
    }

    /// Where the prover tells of the job.
    pub open spec fn url(self) -> Seq<char> {
        url_under(self.site.endpoint, "/jobs/"@) + self.job_id
    }
}

impl Work {
    /// The key under which the job is remembered.
    pub fn key(&self) -> (key: String)
        ensures
            key@ == self@.key(),
    {
        job_key_text(self.site.space.as_str(), self.commitment_id, self.is_fold)
    }

    /// Where the prover tells of the job.
    pub fn url(&self) -> (url: String)
        ensures
            url@ == self@.url(),
    {
        join_url(self.site.endpoint.as_str(), "/jobs/").concat(self.job_id.as_str())
    }
}

/// How far a poll has come.
pub enum PollStage {
    /// The work is being looked up.
    Approach(Approach),
    /// The job of the proof is being looked up.
    Lookup { site: Site, commitment_id: i64, is_fold: bool },
    /// The prover is being asked for the job.
    Ask(Work),
    /// The prover refused with a status; its reasons are being read.
    Refused { status: String },
    /// What the prover says of the job is being read.
    Report(Work),
    /// The prover is being asked for the receipt.
    Fetch(Work),
    /// The receipt is being read.
    Receive(Work),
    /// The receipt is being saved.
    Save(Work),
    /// The job of a saved proof is being forgotten.
    Forget { label: String, commitment_id: i64 },
    /// The estimate of a saved proof is being dropped.
    Clear,
    /// The job of a failed proof is being forgotten.
    Abandon { error: Option<String> },
}

pub ghost enum PollStageView {
    Approach(ApproachView),
    Lookup { site: SiteView, commitment_id: i64, is_fold: bool },
    Ask(WorkView),
    Refused { status: Seq<char> },
    Report(WorkView),
    Fetch(WorkView),
    Receive(WorkView),
    Save(WorkView),
    Forget { label: Seq<char>, commitment_id: i64 },
    Clear,
    Abandon { error: Option<Seq<char>> },
}

impl View for PollStage {
    type V = PollStageView;

    open spec fn view(&self) -> PollStageView {
        match self {
            PollStage::Approach(s) => PollStageView::Approach(s@),
            PollStage::Lookup { site, commitment_id, is_fold } => PollStageView::Lookup {
                site: site@,
                commitment_id: *commitment_id,
                is_fold: *is_fold,
            },
            PollStage::Ask(w) => PollStageView::Ask(w@),
            PollStage::Refused { status } => PollStageView::Refused { status: status@ },
            PollStage::Report(w) => PollStageView::Report(w@),
            PollStage::Fetch(w) => PollStageView::Fetch(w@),
            PollStage::Receive(w) => PollStageView::Receive(w@),
            PollStage::Save(w) => PollStageView::Save(w@),
            PollStage::Forget { label, commitment_id } => PollStageView::Forget {
                label: label@,
                commitment_id: *commitment_id,
            },
            PollStage::Clear => PollStageView::Clear,
            PollStage::Abandon { error } => PollStageView::Abandon { error: opt_view(*error) },
        }
    }
}

pub type PollStep = StepView<PollStageView, PollResponseView>;

/// The first step of a poll.
pub open spec fn poll_start(space: Seq<char>) -> PollStep {
    match space_answer(space) {
        Ok(label) => StepView::Perform(
            PollStageView::Approach(ApproachView::Endpoint { space, label }),
            ActionView::ReadSetting(Setting::ProverEndpoint),
        ),
        Err(e) => StepView::Finish(Err(e)),
    }
}

/// Asks the prover how a space's job fares, and saves the receipt of one that is
/// complete.
pub fn poll_prover(space: &str) -> (step: Step<PollStage, PollResponse>)
    ensures
        step@ == poll_start(space@),
{
    match space_of(space) {
        Ok(label) => Step::Perform(
            PollStage::Approach(Approach::Endpoint { space: space.to_owned(), label }),
            Action::ReadSetting(Setting::ProverEndpoint),
        ),
        Err(e) => Step::Finish(Err(e)),
    }
}

/// What is done about a job that the prover reports on: the receipt of a complete
/// one is fetched, a failed one is forgotten, and any other status is passed on.
pub open spec fn poll_reported(work: WorkView, report: JobReportView) -> PollStep {
    if report.status == "complete"@ {
        StepView::Perform(
            PollStageView::Fetch(work),
            ActionView::Send(get_from(work.url() + "/receipt"@, work.site.token, None)),
        )
    } else if report.status == "failed"@ {
        StepView::Perform(
            PollStageView::Abandon { error: report.error },
            ActionView::DeleteKey(work.key()),
        )
    } else {
        StepView::Finish(
            Ok(
                PollResponseView {
                    success: true,
                    status: Some(report.status),
                    complete: false,
                    message: None,
                },
            ),
        )
    }
}

/// The job of the next proof is looked up and asked after. Its receipt is saved
/// before the job and the estimate are forgotten; a failure to forget is passed
/// over.
pub open spec fn poll_next(stage: PollStageView, event: EventView) -> PollStep {
    match (stage, event) {
        (PollStageView::Approach(s), e) => match approach_next(s, e) {
            ApproachedView::Perform(s, a) => StepView::Perform(PollStageView::Approach(s), a),
            ApproachedView::Ready(site, request) => StepView::Perform(
                PollStageView::Lookup {
                    site,
                    commitment_id: request.commitment_id,
                    is_fold: request.is_fold,
                },
                ActionView::ReadKey(
                    job_key(site.space, request.commitment_id as int, request.is_fold),
                ),
            ),
            ApproachedView::Idle => StepView::Finish(
                Ok(
                    PollResponseView {
                        success: true,
                        status: None,
                        complete: true,
                        message: Some("no pending proving request"@),
                    },
                ),
            ),
            ApproachedView::Unconfigured => stop(BAD_REQUEST, unconfigured()),
            ApproachedView::Failed(e) => stop(INTERNAL, e),
            ApproachedView::Ignored(s) => StepView::Ignored(PollStageView::Approach(s)),
        },
        (PollStageView::Lookup { .. }, EventView::Value(Err(e))) => stop(INTERNAL, e),
        (PollStageView::Lookup { .. }, EventView::Value(Ok(None))) => stop(
            BAD_REQUEST,
            "no job found - use /proving/push first"@,
        ),
        (
            PollStageView::Lookup { site, commitment_id, is_fold },
            EventView::Value(Ok(Some(job_id))),
        ) => {
            let work = WorkView { site, commitment_id, is_fold, job_id };
            StepView::Perform(
                PollStageView::Ask(work),
                ActionView::Send(get_from(work.url(), site.token, None)),
            )
        },
        (PollStageView::Ask(_), EventView::Sent(Err(e))) => stop(
            BAD_GATEWAY,
            "prover request failed: "@ + e,
        ),
        (PollStageView::Ask(work), EventView::Sent(Ok(code))) => if success(code) {
            StepView::Perform(PollStageView::Report(work), ActionView::ReadReport)
        } else {
            StepView::Perform(
                PollStageView::Refused { status: status_display(code) },
                ActionView::ReadText,
            )
        },
        (PollStageView::Refused { status }, EventView::Text(body)) => stop(
            BAD_GATEWAY,
            prover_refusal(status, body),
        ),
        (PollStageView::Report(_), EventView::Report(Err(e))) => stop(
            BAD_GATEWAY,
            "invalid prover response: "@ + e,
        ),
        (PollStageView::Report(work), EventView::Report(Ok(report))) => poll_reported(work, report),
        (PollStageView::Fetch(_), EventView::Sent(Err(e))) => stop(
            BAD_GATEWAY,
            "receipt download failed: "@ + e,
        ),
        (PollStageView::Fetch(work), EventView::Sent(Ok(code))) => if success(code) {
            StepView::Perform(PollStageView::Receive(work), ActionView::ReadBytes)
        } else {
            stop(BAD_GATEWAY, "receipt download failed: "@ + status_display(code))
        },
        (PollStageView::Receive(_), EventView::Bytes(Err(e))) => stop(
            BAD_GATEWAY,
            "receipt read failed: "@ + e,
        ),
        (PollStageView::Receive(work), EventView::Bytes(Ok(receipt))) => StepView::Perform(
            PollStageView::Save(work),
            ActionView::Fulfill {
                space: work.site.label,
                commitment_id: work.commitment_id,
                is_fold: work.is_fold,
                receipt,
            },
        ),
        (PollStageView::Save(_), EventView::Done(Err(e))) => stop(INTERNAL, e),
        (PollStageView::Save(work), EventView::Done(Ok(_))) => StepView::Perform(
            PollStageView::Forget { label: work.site.label, commitment_id: work.commitment_id },
            ActionView::DeleteKey(work.key()),
        ),
        (PollStageView::Forget { label, commitment_id }, EventView::Done(_)) => StepView::Perform(
            PollStageView::Clear,
            ActionView::ClearEstimate { space: label, commitment_id },
        ),
        (PollStageView::Clear, EventView::Done(_)) => StepView::Finish(
            Ok(
                PollResponseView {
                    success: true,
                    status: Some("complete"@),
                    complete: true,
                    message: Some("proof complete and saved"@),
                },
            ),
        ),
        (PollStageView::Abandon { error }, EventView::Done(_)) => StepView::Finish(
            Ok(
                PollResponseView {
                    success: false,
                    status: Some("failed"@),
                    complete: true,
                    message: error,
                },
            ),
        ),
        _ => StepView::Ignored(stage),
    }
}

impl Work {
    fn reported(self, report: JobReport) -> (step: Step<PollStage, PollResponse>)
        ensures
            step@ == poll_reported(self@, report@),
    {
        if text_eq(report.status.as_str(), "complete") {
            let url = self.url().concat("/receipt");
            let token = copy_opt(&self.site.token);
            Step::Perform(PollStage::Fetch(self), Action::Send(get_call(url, token, None)))
        } else if text_eq(report.status.as_str(), "failed") {
            let key = self.key();
            Step::Perform(PollStage::Abandon { error: report.error }, Action::DeleteKey(key))
        } else {
            Step::Finish(
                Ok(
                    PollResponse {
                        success: true,
                        status: Some(report.status),
                        complete: false,
                        message: None,
                    },
                ),
            )
        }
    }
}

impl PollStage {
    /// Takes in the reply to the last action.
    pub fn step(self, event: Event) -> (step: Step<PollStage, PollResponse>)
        ensures
            step@ == poll_next(self@, event@),
    {
        match (self, event) {
            (PollStage::Approach(s), e) => match s.step(e) {
                Approached::Perform(s, a) => Step::Perform(PollStage::Approach(s), a),
                Approached::Ready(site, request) => {
                    let key = job_key_text(
                        site.space.as_str(),
                        request.commitment_id,
                        request.is_fold,
                    );
                    Step::Perform(
                        PollStage::Lookup {
                            site,
                            commitment_id: request.commitment_id,
                            is_fold: request.is_fold,
                        },
                        Action::ReadKey(key),
                    )
                },
                Approached::Idle => Step::Finish(
                    Ok(
                        PollResponse {
                            success: true,
                            status: None,
                            complete: true,
                            message: Some("no pending proving request".to_owned()),
                        },
                    ),
                ),
                Approached::Unconfigured => stop_with(
                    BAD_REQUEST,
                    "prover_endpoint not configured".to_owned(),
                ),
                Approached::Failed(e) => stop_with(INTERNAL, e),
                Approached::Ignored(s) => Step::Ignored(PollStage::Approach(s)),
            },
            (PollStage::Lookup { .. }, Event::Value(Err(e))) => stop_with(INTERNAL, e),
            (PollStage::Lookup { .. }, Event::Value(Ok(None))) => stop_with(
                BAD_REQUEST,
                "no job found - use /proving/push first".to_owned(),
            ),
            (
                PollStage::Lookup { site, commitment_id, is_fold },
                Event::Value(Ok(Some(job_id))),
            ) => {
                let work = Work { site, commitment_id, is_fold, job_id };
                let url = work.url();
                let token = copy_opt(&work.site.token);
                Step::Perform(PollStage::Ask(work), Action::Send(get_call(url, token, None)))
            },
            (PollStage::Ask(_), Event::Sent(Err(e))) => stop_with(
                BAD_GATEWAY,
                "prover request failed: ".to_owned().concat(e.as_str()),
            ),
            (PollStage::Ask(work), Event::Sent(Ok(code))) => {
                if code.is_success() {
                    Step::Perform(PollStage::Report(work), Action::ReadReport)
                } else {
                    Step::Perform(PollStage::Refused { status: code.text() }, Action::ReadText)
                }
            },
            (PollStage::Refused { status }, Event::Text(body)) => stop_with(
                BAD_GATEWAY,
                prover_refused(status.as_str(), body),
            ),
            (PollStage::Report(_), Event::Report(Err(e))) => stop_with(
                BAD_GATEWAY,
                "invalid prover response: ".to_owned().concat(e.as_str()),
            ),
            (PollStage::Report(work), Event::Report(Ok(report))) => work.reported(report),
            (PollStage::Fetch(_), Event::Sent(Err(e))) => stop_with(
                BAD_GATEWAY,
                "receipt download failed: ".to_owned().concat(e.as_str()),
            ),
            (PollStage::Fetch(work), Event::Sent(Ok(code))) => {
                if code.is_success() {
                    Step::Perform(PollStage::Receive(work), Action::ReadBytes)
                } else {
                    stop_with(
                        BAD_GATEWAY,
                        "receipt download failed: ".to_owned().concat(code.text().as_str()),
                    )
                }
            },
            (PollStage::Receive(_), Event::Bytes(Err(e))) => stop_with(
                BAD_GATEWAY,
                "receipt read failed: ".to_owned().concat(e.as_str()),
            ),
            (PollStage::Receive(work), Event::Bytes(Ok(receipt))) => {
                let action = Action::Fulfill {
                    space: work.site.label.clone(),
                    commitment_id: work.commitment_id,
                    is_fold: work.is_fold,
                    receipt,
                };
                Step::Perform(PollStage::Save(work), action)
            },
            (PollStage::Save(_), Event::Done(Err(e))) => stop_with(INTERNAL, e),
            (PollStage::Save(work), Event::Done(Ok(_))) => {
                let key = work.key();
                Step::Perform(
                    PollStage::Forget {
                        label: work.site.label,
                        commitment_id: work.commitment_id,
                    },
                    Action::DeleteKey(key),
                )
            },
            (PollStage::Forget { label, commitment_id }, Event::Done(_)) => Step::Perform(
                PollStage::Clear,
                Action::ClearEstimate { space: label, commitment_id },
            ),
            (PollStage::Clear, Event::Done(_)) => Step::Finish(
                Ok(
                    PollResponse {
                        success: true,
                        status: Some("complete".to_owned()),
                        complete: true,
                        message: Some("proof complete and saved".to_owned()),
                    },
                ),
            ),
            (PollStage::Abandon { error }, Event::Done(_)) => Step::Finish(
                Ok(
                    PollResponse {
                        success: false,
                        status: Some("failed".to_owned()),
                        complete: true,
                        message: error,
                    },
                ),
            ),
            (stage, _) => Step::Ignored(stage),
        }
    }
}

/// How many actions a poll may still take after the one it waits for.
pub open spec fn poll_rank(stage: PollStageView) -> nat {
    match stage {
        PollStageView::Approach(s) => 8 + approach_rank(s),
        PollStageView::Lookup { .. } => 7,
        PollStageView::Ask(_) => 6,
        PollStageView::Refused { .. } => 0,
        PollStageView::Report(_) => 5,
        PollStageView::Fetch(_) => 4,
        PollStageView::Receive(_) => 3,
        PollStageView::Save(_) => 2,
        PollStageView::Forget { .. } => 1,
        PollStageView::Clear => 0,
        PollStageView::Abandon { .. } => 0,
    }
}

/// The machine of a poll.
pub open spec fn poll_machine() -> Machine<PollStageView, PollResponseView> {
    |stage: PollStageView, event: EventView| poll_next(stage, event)
}

/// A poll whose actions are answered comes to an answer of its own within eleven
/// actions.
pub proof fn lemma_poll_is_answered(
    space: Seq<char>,
    reply: spec_fn(nat, ActionView) -> EventView,
)
    requires
        replies(reply),
    ensures
        run(poll_machine(), poll_start(space), reply, 0, 11) is Finish,
{
    let rank = |stage: PollStageView| poll_rank(stage);
    let inside = |stage: PollStageView| true;
    assert(sound(poll_machine(), rank, inside));
    lemma_sound_run_finishes(
        poll_machine(),
        rank,
        inside,
        poll_start(space),
        reply,
        0,
        11,
    );
}

/// A poll forgets a job only when the receipt of it has been saved, or when the
/// prover says that it failed.
pub proof fn lemma_poll_forgets_settled_jobs(
    stage: PollStageView,
    event: EventView,
    after: PollStageView,
    key: Seq<char>,
)
    requires
        poll_next(stage, event) == PollStep::Perform(after, ActionView::DeleteKey(key)),
    ensures
        match stage {
            PollStageView::Save(work) => key == work.key() && (event matches EventView::Done(
                Ok(_),
            )),
            PollStageView::Report(work) => key == work.key() && (event matches EventView::Report(
                Ok(report),
            ) && report.status == "failed"@),
            _ => false,
        },
{
}

/// The receipt that a poll saves is the one that the prover sent, for the proof
/// that the job makes.
pub proof fn lemma_poll_saves_what_was_sent(
    stage: PollStageView,
    event: EventView,
    after: PollStageView,
    space: Seq<char>,
    commitment_id: i64,
    is_fold: bool,
    receipt: Seq<u8>,
)
    requires
        poll_next(stage, event) == PollStep::Perform(
            after,
            ActionView::Fulfill { space, commitment_id, is_fold, receipt },
        ),
    ensures
        event == EventView::Bytes(Ok(receipt)),
        stage matches PollStageView::Receive(work) && work.site.label == space
            && work.commitment_id == commitment_id && work.is_fold == is_fold,
{
}

/// A poll that reports a proof as complete has handed the operator the bytes that the
/// prover sent as the receipt, for the very proof that was looked up and under the label of
/// the space; the operator took them; and the job and the estimate of that proof were
/// forgotten after that.
pub proof fn lemma_poll_complete_means_saved(
    space: Seq<char>,
    reply: spec_fn(nat, ActionView) -> EventView,
    answer: PollResponseView,
)
    requires
        replies(reply),
        run(poll_machine(), poll_start(space), reply, 0, 11) == PollStep::Finish(Ok(answer)),
        answer.success,
        answer.complete,
        answer.status is Some,
    ensures
        ({
            let label = space_answer(space)->Ok_0;
            let request = reply(2, ActionView::NextRequest(label))->Request_0->Ok_0->Some_0;
            let receipt = reply(7, ActionView::ReadBytes)->Bytes_0->Ok_0;
            let saving = ActionView::Fulfill {
                space: label,
                commitment_id: request.commitment_id,
                is_fold: request.is_fold,
                receipt,
            };
            let forgetting = ActionView::DeleteKey(
                job_key(space, request.commitment_id as int, request.is_fold),
            );
            let clearing = ActionView::ClearEstimate {
                space: label,
                commitment_id: request.commitment_id,
            };
            &&& space_answer(space) is Ok
            &&& reply(2, ActionView::NextRequest(label)) == EventView::Request(Ok(Some(request)))
            &&& reply(7, ActionView::ReadBytes) == EventView::Bytes(Ok(receipt))
            &&& performs(poll_machine(), poll_start(space), reply, 0, 11, saving)
            &&& reply(8, saving) matches EventView::Done(Ok(_))
            &&& performs(poll_machine(), poll_start(space), reply, 0, 11, forgetting)
            &&& performs(poll_machine(), poll_start(space), reply, 0, 11, clearing)
            &&& answer == (PollResponseView {
                success: true,
                status: Some("complete"@),
                complete: true,
                message: Some("proof complete and saved"@),
            })
        }),
{
    let m = poll_machine();
    let end = PollStep::Finish(Ok(answer));
    let label = space_answer(space)->Ok_0;
    let s0 = poll_start(space);
    assert(s0 is Perform);
    let a0 = s0->Perform_1;
    let s1 = poll_next(s0->Perform_0, reply(0, a0));
    assert(answers(a0, reply(0, a0)));
    assert(run(m, s1, reply, 1, 10) == end);
    assert(s1 is Perform && s1->Perform_0 is Approach);
    let a1 = s1->Perform_1;
    let s2 = poll_next(s1->Perform_0, reply(1, a1));
    assert(answers(a1, reply(1, a1)));
    assert(run(m, s2, reply, 2, 9) == end);
    assert(s2 is Perform && s2->Perform_0 is Approach);
    let a2 = s2->Perform_1;
    let s3 = poll_next(s2->Perform_0, reply(2, a2));
    assert(answers(a2, reply(2, a2)));
    assert(run(m, s3, reply, 3, 8) == end);
    assert(s3 is Perform && s3->Perform_0 is Lookup);
    let a3 = s3->Perform_1;
    let s4 = poll_next(s3->Perform_0, reply(3, a3));
    assert(answers(a3, reply(3, a3)));
    assert(run(m, s4, reply, 4, 7) == end);
    assert(s4 is Perform && s4->Perform_0 is Ask);
    let a4 = s4->Perform_1;
    let s5 = poll_next(s4->Perform_0, reply(4, a4));
    assert(answers(a4, reply(4, a4)));
    assert(run(m, s5, reply, 5, 6) == end);
    if s5 is Perform && s5->Perform_0 is Refused {
        let last = poll_next(s5->Perform_0, reply(5, s5->Perform_1));
        assert(answers(s5->Perform_1, reply(5, s5->Perform_1)));
        assert(run(m, last, reply, 6, 5) == end);
        assert(last is Finish);
    }
    assert(s5 is Perform && s5->Perform_0 is Report);
    let a5 = s5->Perform_1;
    let s6 = poll_next(s5->Perform_0, reply(5, a5));
    assert(answers(a5, reply(5, a5)));
    assert(run(m, s6, reply, 6, 5) == end);
    if s6 is Perform && s6->Perform_0 is Abandon {
        let last = poll_next(s6->Perform_0, reply(6, s6->Perform_1));
        assert(answers(s6->Perform_1, reply(6, s6->Perform_1)));
        assert(run(m, last, reply, 7, 4) == end);
        assert(last is Finish);
    }
    assert(s6 is Perform && s6->Perform_0 is Fetch);
    let a6 = s6->Perform_1;
    let s7 = poll_next(s6->Perform_0, reply(6, a6));
    assert(answers(a6, reply(6, a6)));
    assert(run(m, s7, reply, 7, 4) == end);
    assert(s7 is Perform && s7->Perform_0 is Receive);
    let a7 = s7->Perform_1;
    let s8 = poll_next(s7->Perform_0, reply(7, a7));
    assert(answers(a7, reply(7, a7)));
    assert(run(m, s8, reply, 8, 3) == end);
    assert(s8 is Perform && s8->Perform_0 is Save);
    let a8 = s8->Perform_1;
    let s9 = poll_next(s8->Perform_0, reply(8, a8));
    assert(answers(a8, reply(8, a8)));
    assert(run(m, s9, reply, 9, 2) == end);
    assert(s9 is Perform && s9->Perform_0 is Forget);
    let a9 = s9->Perform_1;
    let s10 = poll_next(s9->Perform_0, reply(9, a9));
    assert(answers(a9, reply(9, a9)));
    assert(run(m, s10, reply, 10, 1) == end);
    assert(s10 is Perform && s10->Perform_0 is Clear);
    let a10 = s10->Perform_1;
    let s11 = poll_next(s10->Perform_0, reply(10, a10));
    assert(answers(a10, reply(10, a10)));
    assert(run(m, s11, reply, 11, 0) == end);
    assert(performs(m, s8, reply, 8, 3, a8));
    assert(performs(m, s9, reply, 9, 2, a9));
    assert(performs(m, s10, reply, 10, 1, a10));
    assert(performs(m, s9, reply, 9, 2, a10));
    assert(performs(m, s8, reply, 8, 3, a9) && performs(m, s8, reply, 8, 3, a10));
    let wanted = seq![a8, a9, a10];
    lemma_early_steps(
        seq![s0, s1, s2, s3, s4, s5, s6, s7, s8],
        reply,
        wanted,
    );
    assert(wanted[0] == a8 && wanted[1] == a9 && wanted[2] == a10);
}

/// What a poll performs after some steps, it performs as a whole.
proof fn lemma_early_steps(
    steps: Seq<PollStep>,
    reply: spec_fn(nat, ActionView) -> EventView,
    wanted: Seq<ActionView>,
)
    requires
        1 <= steps.len() <= 11,
        forall|k: int|
            0 <= k < steps.len() - 1 ==> #[trigger] steps[k] is Perform && steps[k + 1]
                == poll_next(
                steps[k]->Perform_0,
                reply(k as nat, steps[k]->Perform_1),
            ),
        forall|w: int|
            0 <= w < wanted.len() ==> performs(
                poll_machine(),
                steps.last(),
                reply,
                (steps.len() - 1) as nat,
                (12 - steps.len()) as nat,
                #[trigger] wanted[w],
            ),
    ensures
        forall|w: int|
            0 <= w < wanted.len() ==> performs(
                poll_machine(),
                steps[0],
                reply,
                0,
                11,
                #[trigger] wanted[w],
            ),
    decreases steps.len(),
{
    if steps.len() > 1 {
        let less = steps.drop_last();
        let k = less.len() - 1;
        assert(steps[k] is Perform);
        assert(less.last() == steps[k]);
        assert(steps.last() == steps[k + 1]);
        assert forall|w: int| 0 <= w < wanted.len() implies performs(
            poll_machine(),
            less.last(),
            reply,
            (less.len() - 1) as nat,
            (12 - less.len()) as nat,
            #[trigger] wanted[w],
        ) by {
            assert(performs(
                poll_machine(),
                steps.last(),
                reply,
                (steps.len() - 1) as nat,
                (12 - steps.len()) as nat,
                wanted[w],
            ));
        }
        lemma_early_steps(less, reply, wanted);
    }
}

// ---------------------------------------------------------------------------
// Cancel
// ---------------------------------------------------------------------------

/// What the prover said of a cancellation.
pub enum ProverSaid {
    /// It agreed, with a JSON text.
    Agreed(String),
    /// It answered with another status and a body.
    Refused { status: u16, body: String },
    /// It could not be reached.
    Unreachable(String),
}

pub ghost enum ProverSaidView {
    Agreed(Seq<char>),
    Refused { status: u16, body: Seq<char> },
    Unreachable(Seq<char>),
}

impl View for ProverSaid {
    type V = ProverSaidView;

    open spec fn view(&self) -> ProverSaidView {
        match self {
            ProverSaid::Agreed(json) => ProverSaidView::Agreed(json@),
            ProverSaid::Refused { status, body } => ProverSaidView::Refused {
                status: *status,
                body: body@,
            },
            ProverSaid::Unreachable(e) => ProverSaidView::Unreachable(e@),
        }
    }
}

pub struct CancelResponse {
    pub success: bool,
    pub job_id: String,
    pub prover: ProverSaid,
}

pub ghost struct CancelResponseView {
    pub success: bool,
    pub job_id: Seq<char>,
    pub prover: ProverSaidView,
}

impl View for CancelResponse {
    type V = CancelResponseView;

    open spec fn view(&self) -> CancelResponseView {
        CancelResponseView {
            success: self.success,
            job_id: self.job_id@,
            prover: self.prover@,
        }
    }
}

/// Seconds to wait for the prover's word on a cancellation.
pub const CANCEL_TIMEOUT: u64 = 10;

/// How far a cancellation has come.
pub enum CancelStage {
    /// The prover's endpoint is being read.
    Endpoint { space: String, label: String },
    /// The next request is being looked up.
    Request { space: String, endpoint: String },
    /// The job of the proof is being looked up.
    Lookup { endpoint: String, key: String },
    /// The prover's token is being read.
    Token { endpoint: String, key: String, job_id: String },
    /// The prover is being told.
    Tell { key: String, job_id: String },
    /// The prover's words are being read.
    Listen { key: String, job_id: String, status: u16 },
    /// The job is being forgotten.
    Forget { job_id: String, prover: ProverSaid },
}

pub ghost enum CancelStageView {
    Endpoint { space: Seq<char>, label: Seq<char> },
    Request { space: Seq<char>, endpoint: Seq<char> },
    Lookup { endpoint: Seq<char>, key: Seq<char> },
    Token { endpoint: Seq<char>, key: Seq<char>, job_id: Seq<char> },
    Tell { key: Seq<char>, job_id: Seq<char> },
    Listen { key: Seq<char>, job_id: Seq<char>, status: u16 },
    Forget { job_id: Seq<char>, prover: ProverSaidView },
}

impl View for CancelStage {
    type V = CancelStageView;

    open spec fn view(&self) -> CancelStageView {
        match self {
            CancelStage::Endpoint { space, label } => CancelStageView::Endpoint {
                space: space@,
                label: label@,
            },
            CancelStage::Request { space, endpoint } => CancelStageView::Request {
                space: space@,
                endpoint: endpoint@,
            },
            CancelStage::Lookup { endpoint, key } => CancelStageView::Lookup {
                endpoint: endpoint@,
                key: key@,
            },
            CancelStage::Token { endpoint, key, job_id } => CancelStageView::Token {
                endpoint: endpoint@,
                key: key@,
                job_id: job_id@,
            },
            CancelStage::Tell { key, job_id } => CancelStageView::Tell {
                key: key@,
                job_id: job_id@,
            },
            CancelStage::Listen { key, job_id, status } => CancelStageView::Listen {
                key: key@,
                job_id: job_id@,
                status: *status,
            },
            CancelStage::Forget { job_id, prover } => CancelStageView::Forget {
                job_id: job_id@,
                prover: prover@,
            },
        }
    }
}

pub type CancelStep = StepView<CancelStageView, CancelResponseView>;

/// The first step of a cancellation.
pub open spec fn cancel_start(space: Seq<char>) -> CancelStep {
    match space_answer(space) {
        Ok(label) => StepView::Perform(
            CancelStageView::Endpoint { space, label },
            ActionView::ReadSetting(Setting::ProverEndpoint),
        ),
        Err(e) => StepView::Finish(Err(e)),
    }
}

/// Stops a space's job that is in flight.
///
/// The job is forgotten whatever the prover says, so that nothing waits for one
/// that was given up.
pub fn cancel_proving(space: &str) -> (step: Step<CancelStage, CancelResponse>)
    ensures
        step@ == cancel_start(space@),
{
    match space_of(space) {
        Ok(label) => Step::Perform(
            CancelStage::Endpoint { space: space.to_owned(), label },
            Action::ReadSetting(Setting::ProverEndpoint),
        ),
        Err(e) => Step::Finish(Err(e)),
    }
}

/// What to make of the prover's words, given whether they are JSON: those of a
/// success are passed on as far as they are.
pub open spec fn heard_as(status: u16, body: Seq<char>, json: bool) -> ProverSaidView {
    if success(status) {
        ProverSaidView::Agreed(
            if json {
                body
            } else {
                "{}"@
            },
        )
    } else {
        ProverSaidView::Refused { status, body }
    }
}

/// What to make of the prover's words.
pub open spec fn heard(status: u16, body: Seq<char>) -> ProverSaidView {
    heard_as(status, body, json_valid(body))
}

/// What to make of the prover's words, given whether they are JSON.
pub fn hear_as(status: u16, body: String, json: bool) -> (said: ProverSaid)
    ensures
        said@ == heard_as(status, body@, json),
{
    if 200 <= status && status <= 299 {
        if json {
            ProverSaid::Agreed(body)
        } else {
            ProverSaid::Agreed("{}".to_owned())
        }
    } else {
        ProverSaid::Refused { status, body }
    }
}

/// What to make of the prover's words.
pub fn hear(status: u16, body: String) -> (said: ProverSaid)
    ensures
        said@ == heard(status, body@),
{
    let json = is_json(body.as_str());
    hear_as(status, body, json)
}

/// The job of the next proof is looked up, the prover is told, and the job is
/// forgotten.
pub open spec fn cancel_next(stage: CancelStageView, event: EventView) -> CancelStep {
    match (stage, event) {
        (CancelStageView::Endpoint { .. }, EventView::Value(Err(e))) => stop(INTERNAL, e),
        (CancelStageView::Endpoint { .. }, EventView::Value(Ok(None))) => stop(
            BAD_REQUEST,
            unconfigured(),
        ),
        (
            CancelStageView::Endpoint { space, label },
            EventView::Value(Ok(Some(endpoint))),
        ) => StepView::Perform(
            CancelStageView::Request { space, endpoint },
            ActionView::NextRequest(label),
        ),
        (CancelStageView::Request { .. }, EventView::Request(Err(e))) => stop(INTERNAL, e),
        (CancelStageView::Request { .. }, EventView::Request(Ok(None))) => stop(
            BAD_REQUEST,
            "no proving request in flight"@,
        ),
        (
            CancelStageView::Request { space, endpoint },
            EventView::Request(Ok(Some(request))),
        ) => {
            let key = job_key(space, request.commitment_id as int, request.is_fold);
            StepView::Perform(CancelStageView::Lookup { endpoint, key }, ActionView::ReadKey(key))
        },
        (CancelStageView::Lookup { .. }, EventView::Value(Err(e))) => stop(INTERNAL, e),
        (CancelStageView::Lookup { .. }, EventView::Value(Ok(None))) => stop(
            BAD_REQUEST,
            "no job in flight for this commitment"@,
        ),
        (
            CancelStageView::Lookup { endpoint, key },
            EventView::Value(Ok(Some(job_id))),
        ) => StepView::Perform(
            CancelStageView::Token { endpoint, key, job_id },
            ActionView::ReadSetting(Setting::ProverAuthToken),
        ),
        (
            CancelStageView::Token { endpoint, key, job_id },
            EventView::Value(token),
        ) => StepView::Perform(
            CancelStageView::Tell { key, job_id },
            ActionView::Send(
                post_to(
                    url_under(endpoint, "/jobs/"@) + job_id + "/cancel"@,
                    found(token),
                    PayloadView::Empty,
                    Some(CANCEL_TIMEOUT),
                ),
            ),
        ),
        (CancelStageView::Tell { key, job_id }, EventView::Sent(Err(e))) => StepView::Perform(
            CancelStageView::Forget { job_id, prover: ProverSaidView::Unreachable(e) },
            ActionView::DeleteKey(key),
        ),
        (CancelStageView::Tell { key, job_id }, EventView::Sent(Ok(status))) => StepView::Perform(
            CancelStageView::Listen { key, job_id, status },
            ActionView::ReadText,
        ),
        (
            CancelStageView::Listen { key, job_id, status },
            EventView::Text(body),
        ) => StepView::Perform(
            CancelStageView::Forget { job_id, prover: heard(status, text_or_empty(body)) },
            ActionView::DeleteKey(key),
        ),
        (CancelStageView::Forget { job_id, prover }, EventView::Done(_)) => StepView::Finish(
            Ok(CancelResponseView { success: true, job_id, prover }),
        ),
        _ => StepView::Ignored(stage),
    }
}

impl CancelStage {
    /// Takes in the reply to the last action.
    pub fn step(self, event: Event) -> (step: Step<CancelStage, CancelResponse>)
        ensures
            step@ == cancel_next(self@, event@),
    {
        match (self, event) {
            (CancelStage::Endpoint { .. }, Event::Value(Err(e))) => stop_with(INTERNAL, e),
            (CancelStage::Endpoint { .. }, Event::Value(Ok(None))) => stop_with(
                BAD_REQUEST,
                "prover_endpoint not configured".to_owned(),
            ),
            (CancelStage::Endpoint { space, label }, Event::Value(Ok(Some(endpoint)))) => {
                Step::Perform(CancelStage::Request { space, endpoint }, Action::NextRequest(label))
            },
            (CancelStage::Request { .. }, Event::Request(Err(e))) => stop_with(INTERNAL, e),
            (CancelStage::Request { .. }, Event::Request(Ok(None))) => stop_with(
                BAD_REQUEST,
                "no proving request in flight".to_owned(),
            ),
            (CancelStage::Request { space, endpoint }, Event::Request(Ok(Some(request)))) => {
                let key = job_key_text(space.as_str(), request.commitment_id, request.is_fold);
                let wanted = key.clone();
                Step::Perform(CancelStage::Lookup { endpoint, key }, Action::ReadKey(wanted))
            },
            (CancelStage::Lookup { .. }, Event::Value(Err(e))) => stop_with(INTERNAL, e),
            (CancelStage::Lookup { .. }, Event::Value(Ok(None))) => stop_with(
                BAD_REQUEST,
                "no job in flight for this commitment".to_owned(),
            ),
            (CancelStage::Lookup { endpoint, key }, Event::Value(Ok(Some(job_id)))) => {
                Step::Perform(
                    CancelStage::Token { endpoint, key, job_id },
                    Action::ReadSetting(Setting::ProverAuthToken),
                )
            },
            (CancelStage::Token { endpoint, key, job_id }, Event::Value(token)) => {
                let url = join_url(endpoint.as_str(), "/jobs/").concat(job_id.as_str()).concat(
                    "/cancel",
                );
                let call = post_call(url, found_text(token), Payload::Empty, Some(CANCEL_TIMEOUT));
                Step::Perform(CancelStage::Tell { key, job_id }, Action::Send(call))
            },
            (CancelStage::Tell { key, job_id }, Event::Sent(Err(e))) => Step::Perform(
                CancelStage::Forget { job_id, prover: ProverSaid::Unreachable(e) },
                Action::DeleteKey(key),
            ),
            (CancelStage::Tell { key, job_id }, Event::Sent(Ok(code))) => Step::Perform(
                CancelStage::Listen { key, job_id, status: code.as_u16() },
                Action::ReadText,
            ),
            (CancelStage::Listen { key, job_id, status }, Event::Text(body)) => Step::Perform(
                CancelStage::Forget { job_id, prover: hear(status, or_empty(body)) },
                Action::DeleteKey(key),
            ),
            (CancelStage::Forget { job_id, prover }, Event::Done(_)) => Step::Finish(
                Ok(CancelResponse { success: true, job_id, prover }),
            ),
            (stage, _) => Step::Ignored(stage),
        }
    }
}

/// How many actions a cancellation may still take after the one it waits for.
pub open spec fn cancel_rank(stage: CancelStageView) -> nat {
    match stage {
        CancelStageView::Endpoint { .. } => 6,
        CancelStageView::Request { .. } => 5,
        CancelStageView::Lookup { .. } => 4,
        CancelStageView::Token { .. } => 3,
        CancelStageView::Tell { .. } => 2,
        CancelStageView::Listen { .. } => 1,
        CancelStageView::Forget { .. } => 0,
    }
}

/// The machine of a cancellation.
pub open spec fn cancel_machine() -> Machine<CancelStageView, CancelResponseView> {
    |stage: CancelStageView, event: EventView| cancel_next(stage, event)
}

/// A cancellation whose actions are answered comes to an answer of its own within
/// seven actions.
pub proof fn lemma_cancel_is_answered(
    space: Seq<char>,
    reply: spec_fn(nat, ActionView) -> EventView,
)
    requires
        replies(reply),
    ensures
        run(cancel_machine(), cancel_start(space), reply, 0, 7) is Finish,
{
    let rank = |stage: CancelStageView| cancel_rank(stage);
    let inside = |stage: CancelStageView| true;
    assert(sound(cancel_machine(), rank, inside));
    lemma_sound_run_finishes(
        cancel_machine(),
        rank,
        inside,
        cancel_start(space),
        reply,
        0,
        7,
    );
}

/// Once the prover is being told, the job is forgotten and the request succeeds,
/// whatever the prover says and even if it cannot be reached.
pub proof fn lemma_cancel_forgets_the_job(
    key: Seq<char>,
    job_id: Seq<char>,
    call: HttpCallView,
    reply: spec_fn(nat, ActionView) -> EventView,
    done: nat,
)
    requires
        replies(reply),
    ensures
        ({
            let told = CancelStep::Perform(
                CancelStageView::Tell { key, job_id },
                ActionView::Send(call),
            );
            &&& performs(cancel_machine(), told, reply, done, 3, ActionView::DeleteKey(key))
            &&& run(cancel_machine(), told, reply, done, 3) matches StepView::Finish(Ok(answer))
                && answer.success && answer.job_id == job_id
        }),
{
    reveal_with_fuel(run, 4);
    reveal_with_fuel(performs, 4);
    let told = CancelStageView::Tell { key, job_id };
    let sent = reply(done, ActionView::Send(call));
    assert(sent is Sent);
    let first = cancel_next(told, sent);
    if let StepView::Perform(CancelStageView::Listen { .. }, action) = first {
        let said = reply(done + 1, action);
        assert(said is Text);
        let second = cancel_next(first->Perform_0, said);
        let last = reply(done + 2, second->Perform_1);
        assert(last is Done);
    } else {
        let last = reply(done + 1, first->Perform_1);
        assert(last is Done);
    }
}

// ---------------------------------------------------------------------------
// Estimate
// ---------------------------------------------------------------------------

/// How far a query for an estimate has come.
pub enum EstimateStage {
    /// The work is being looked up.
    Approach(Approach),
    /// The prover is being asked.
    Ask,
    /// The prover refused with a status; its reasons are being read.
    Refused { status: String },
    /// The estimate is being read.
    Read,
}

pub ghost enum EstimateStageView {
    Approach(ApproachView),
    Ask,
    Refused { status: Seq<char> },
    Read,
}

impl View for EstimateStage {
    type V = EstimateStageView;

    open spec fn view(&self) -> EstimateStageView {
        match self {
            EstimateStage::Approach(s) => EstimateStageView::Approach(s@),
            EstimateStage::Ask => EstimateStageView::Ask,
            EstimateStage::Refused { status } => EstimateStageView::Refused { status: status@ },
            EstimateStage::Read => EstimateStageView::Read,
        }
    }
}

pub type EstimateStep = StepView<EstimateStageView, Seq<char>>;

/// The first step of a query for an estimate.
pub open spec fn estimate_start(space: Seq<char>) -> EstimateStep {
    match space_answer(space) {
        Ok(label) => StepView::Perform(
            EstimateStageView::Approach(ApproachView::Endpoint { space, label }),
            ActionView::ReadSetting(Setting::ProverEndpoint),
        ),
        Err(e) => StepView::Finish(Err(e)),
    }
}

/// Asks the prover how long a space's next proof will take, and passes its JSON
/// on as it stands.
pub fn get_estimate(space: &str) -> (step: Step<EstimateStage, String>)
    ensures
        step@ == estimate_start(space@),
{
    match space_of(space) {
        Ok(label) => Step::Perform(
            EstimateStage::Approach(Approach::Endpoint { space: space.to_owned(), label }),
            Action::ReadSetting(Setting::ProverEndpoint),
        ),
        Err(e) => Step::Finish(Err(e)),
    }
}

/// The request goes to `/estimate` below the endpoint.
pub open spec fn estimate_next(stage: EstimateStageView, event: EventView) -> EstimateStep {
    match (stage, event) {
        (EstimateStageView::Approach(s), e) => match approach_next(s, e) {
            ApproachedView::Perform(s, a) => StepView::Perform(EstimateStageView::Approach(s), a),
            ApproachedView::Ready(site, request) => match request.encoded {
                Ok(bytes) => StepView::Perform(
                    EstimateStageView::Ask,
                    ActionView::Send(
                        post_to(
                            url_under(site.endpoint, "/estimate"@),
                            site.token,
                            PayloadView::Octets(bytes),
                            None,
                        ),
                    ),
                ),
                Err(e) => stop(INTERNAL, "serialize: "@ + e),
            },
            ApproachedView::Idle => stop(NOT_FOUND, "no pending proving request"@),
            ApproachedView::Unconfigured => stop(BAD_REQUEST, unconfigured()),
            ApproachedView::Failed(e) => stop(INTERNAL, e),
            ApproachedView::Ignored(s) => StepView::Ignored(EstimateStageView::Approach(s)),
        },
        (EstimateStageView::Ask, EventView::Sent(Err(e))) => stop(
            BAD_GATEWAY,
            "prover request failed: "@ + e,
        ),
        (EstimateStageView::Ask, EventView::Sent(Ok(code))) => if success(code) {
            StepView::Perform(EstimateStageView::Read, ActionView::ReadJson)
        } else {
            StepView::Perform(
                EstimateStageView::Refused { status: status_display(code) },
                ActionView::ReadText,
            )
        },
        (EstimateStageView::Refused { status }, EventView::Text(body)) => stop(
            BAD_GATEWAY,
            prover_refusal(status, body),
        ),
        (EstimateStageView::Read, EventView::Text(Err(e))) => stop(
            BAD_GATEWAY,
            "invalid prover response: "@ + e,
        ),
        (EstimateStageView::Read, EventView::Text(Ok(json))) => StepView::Finish(Ok(json)),
        _ => StepView::Ignored(stage),
    }
}

impl EstimateStage {
    /// Takes in the reply to the last action.
    pub fn step(self, event: Event) -> (step: Step<EstimateStage, String>)
        ensures
            step@ == estimate_next(self@, event@),
    {
        match (self, event) {
            (EstimateStage::Approach(s), e) => match s.step(e) {
                Approached::Perform(s, a) => Step::Perform(EstimateStage::Approach(s), a),
                Approached::Ready(site, request) => match request.encoded {
                    Ok(bytes) => {
                        let url = join_url(site.endpoint.as_str(), "/estimate");
                        Step::Perform(
                            EstimateStage::Ask,
                            Action::Send(post_call(url, site.token, Payload::Octets(bytes), None)),
                        )
                    },
                    Err(e) => stop_with(INTERNAL, "serialize: ".to_owned().concat(e.as_str())),
                },
                Approached::Idle => stop_with(NOT_FOUND, "no pending proving request".to_owned()),
                Approached::Unconfigured => stop_with(
                    BAD_REQUEST,
                    "prover_endpoint not configured".to_owned(),
                ),
                Approached::Failed(e) => stop_with(INTERNAL, e),
                Approached::Ignored(s) => Step::Ignored(EstimateStage::Approach(s)),
            },
            (EstimateStage::Ask, Event::Sent(Err(e))) => stop_with(
                BAD_GATEWAY,
                "prover request failed: ".to_owned().concat(e.as_str()),
            ),
            (EstimateStage::Ask, Event::Sent(Ok(code))) => {
                if code.is_success() {
                    Step::Perform(EstimateStage::Read, Action::ReadJson)
                } else {
                    Step::Perform(EstimateStage::Refused { status: code.text() }, Action::ReadText)
                }
            },
            (EstimateStage::Refused { status }, Event::Text(body)) => stop_with(
                BAD_GATEWAY,
                prover_refused(status.as_str(), body),
            ),
            (EstimateStage::Read, Event::Text(Err(e))) => stop_with(
                BAD_GATEWAY,
                "invalid prover response: ".to_owned().concat(e.as_str()),
            ),
            (EstimateStage::Read, Event::Text(Ok(json))) => Step::Finish(Ok(json)),
            (stage, _) => Step::Ignored(stage),
        }
    }
}

/// How many actions a query for an estimate may still take after the one it
/// waits for.
pub open spec fn estimate_rank(stage: EstimateStageView) -> nat {
    match stage {
        EstimateStageView::Approach(s) => 2 + approach_rank(s),
        EstimateStageView::Ask => 1,
        EstimateStageView::Refused { .. } => 0,
        EstimateStageView::Read => 0,
    }
}

/// The machine of a query for an estimate.
pub open spec fn estimate_machine() -> Machine<EstimateStageView, Seq<char>> {
    |stage: EstimateStageView, event: EventView| estimate_next(stage, event)
}

/// A query for an estimate whose actions are answered comes to an answer of its
/// own within five actions.
pub proof fn lemma_estimate_is_answered(
    space: Seq<char>,
    reply: spec_fn(nat, ActionView) -> EventView,
)
    requires
        replies(reply),
    ensures
        run(estimate_machine(), estimate_start(space), reply, 0, 5) is Finish,
{
    let rank = |stage: EstimateStageView| estimate_rank(stage);
    let inside = |stage: EstimateStageView| true;
    assert(sound(estimate_machine(), rank, inside));
    lemma_sound_run_finishes(
        estimate_machine(),
        rank,
        inside,
        estimate_start(space),
        reply,
        0,
        5,
    );
}

} // verus!
