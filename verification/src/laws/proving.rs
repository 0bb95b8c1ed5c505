//! Having proofs made by the configured prover.
use vstd::prelude::*;

use crate::adapters::{json_valid, space_label, status_display};
use crate::flow::{
    ActionView, EventView, HttpCallView, JobReportView, PayloadView, ProvingRequestView, Setting,
};
use crate::laws::history::{
    below, job_url, key_of_proof, known, plain_get, post_bytes, refused, text_of,
};
use crate::routes::proving::{
    cancel_machine, cancel_start, estimate_machine, estimate_start, fulfillment, next_answer,
    poll_machine, poll_start, push_machine, push_start, CancelResponseView, CancelStep,
    EstimateStep, FulfillmentView, PollResponseView, PollStep, ProverSaidView, PushResponseView,
    PushStep,
};
use crate::text::decimal;

verus! {

// ---------------------------------------------------------------------------
// Looking the work up
// ---------------------------------------------------------------------------

/// A path that names no space is refused before anything is asked.
pub proof fn lemma_unknown_spaces_are_refused(space: Seq<char>)
    requires
        space_label(space) is None,
    ensures
        push_start(space).ends(
            refused(400, "invalid space: "@ + "Name Error: Malformed name"@),
        ),
        poll_start(space).ends(
            refused(400, "invalid space: "@ + "Name Error: Malformed name"@),
        ),
        cancel_start(space).ends(
            refused(400, "invalid space: "@ + "Name Error: Malformed name"@),
        ),
        estimate_start(space).ends(
            refused(400, "invalid space: "@ + "Name Error: Malformed name"@),
        ),
{
}

/// A push after the endpoint and the token were read.
pub open spec fn push_prepared(
    space: Seq<char>,
    endpoint: Seq<char>,
    token: Result<Option<Seq<char>>, Seq<char>>,
) -> PushStep {
    push_start(space).on(push_machine(), EventView::Value(Ok(Some(endpoint)))).on(
        push_machine(),
        EventView::Value(token),
    )
}

/// A poll after the endpoint and the token were read.
pub open spec fn poll_prepared(
    space: Seq<char>,
    endpoint: Seq<char>,
    token: Result<Option<Seq<char>>, Seq<char>>,
) -> PollStep {
    poll_start(space).on(poll_machine(), EventView::Value(Ok(Some(endpoint)))).on(
        poll_machine(),
        EventView::Value(token),
    )
}

/// A query for an estimate after the endpoint and the token were read.
pub open spec fn estimate_prepared(
    space: Seq<char>,
    endpoint: Seq<char>,
    token: Result<Option<Seq<char>>, Seq<char>>,
) -> EstimateStep {
    estimate_start(space).on(estimate_machine(), EventView::Value(Ok(Some(endpoint)))).on(
        estimate_machine(),
        EventView::Value(token),
    )
}

/// A push reads the endpoint and the token, then asks for the next request of the space
/// by its label. Without an endpoint, and where nothing can be looked up, it says so; where
/// nothing needs to be proved, it succeeds in nothing.
pub proof fn lemma_push_looks_the_work_up(
    space: Seq<char>,
    label: Seq<char>,
    endpoint: Seq<char>,
    token: Result<Option<Seq<char>>, Seq<char>>,
    e: Seq<char>,
)
    requires
        space_label(space) == Some(label),
    ensures
        push_start(space).asks(ActionView::ReadSetting(Setting::ProverEndpoint)),
        push_start(space).on(push_machine(), EventView::Value(Ok(Some(endpoint)))).asks(
            ActionView::ReadSetting(Setting::ProverAuthToken),
        ),
        push_start(space).on(push_machine(), EventView::Value(Ok(None))).ends(
            refused(400, "prover_endpoint not configured. Set it via POST /config"@),
        ),
        push_start(space).on(push_machine(), EventView::Value(Err(e))).ends(refused(500, e)),
        push_prepared(space, endpoint, token).asks(ActionView::NextRequest(label)),
        push_prepared(space, endpoint, token).on(push_machine(), EventView::Request(Err(e))).ends(
            refused(500, e),
        ),
        push_prepared(space, endpoint, token).on(
            push_machine(),
            EventView::Request(Ok(None)),
        ).ends(
            Ok(
                PushResponseView {
                    success: false,
                    job_id: None,
                    message: Some("no pending proving request"@),
                },
            ),
        ),
{
}

/// A poll reads the endpoint and the token, then asks for the next request of the space
/// by its label. Where nothing needs to be proved, it is complete.
pub proof fn lemma_poll_looks_the_work_up(
    space: Seq<char>,
    label: Seq<char>,
    endpoint: Seq<char>,
    token: Result<Option<Seq<char>>, Seq<char>>,
    request: ProvingRequestView,
    e: Seq<char>,
)
    requires
        space_label(space) == Some(label),
    ensures
        poll_start(space).asks(ActionView::ReadSetting(Setting::ProverEndpoint)),
        poll_start(space).on(poll_machine(), EventView::Value(Ok(Some(endpoint)))).asks(
            ActionView::ReadSetting(Setting::ProverAuthToken),
        ),
        poll_start(space).on(poll_machine(), EventView::Value(Ok(None))).ends(
            refused(400, "prover_endpoint not configured"@),
        ),
        poll_start(space).on(poll_machine(), EventView::Value(Err(e))).ends(refused(500, e)),
        poll_prepared(space, endpoint, token).asks(ActionView::NextRequest(label)),
        poll_prepared(space, endpoint, token).on(poll_machine(), EventView::Request(Err(e))).ends(
            refused(500, e),
        ),
        poll_prepared(space, endpoint, token).on(
            poll_machine(),
            EventView::Request(Ok(None)),
        ).ends(
            Ok(
                PollResponseView {
                    success: true,
                    status: None,
                    complete: true,
                    message: Some("no pending proving request"@),
                },
            ),
        ),
        ({
            let found = poll_prepared(space, endpoint, token).on(
                poll_machine(),
                EventView::Request(Ok(Some(request))),
            );
            &&& found.asks(
                ActionView::ReadKey(key_of_proof(space, request.commitment_id, request.is_fold)),
            )
            &&& found.on(poll_machine(), EventView::Value(Err(e))).ends(refused(500, e))
            &&& found.on(poll_machine(), EventView::Value(Ok(None))).ends(
                refused(400, "no job found - use /proving/push first"@),
            )
        }),
{
}

/// A query for an estimate reads the endpoint and the token, then asks for the next request
/// of the space by its label. Where nothing needs to be proved, there is none.
pub proof fn lemma_estimate_looks_the_work_up(
    space: Seq<char>,
    label: Seq<char>,
    endpoint: Seq<char>,
    token: Result<Option<Seq<char>>, Seq<char>>,
    e: Seq<char>,
)
    requires
        space_label(space) == Some(label),
    ensures
        estimate_start(space).asks(ActionView::ReadSetting(Setting::ProverEndpoint)),
        estimate_start(space).on(estimate_machine(), EventView::Value(Ok(Some(endpoint)))).asks(
            ActionView::ReadSetting(Setting::ProverAuthToken),
        ),
        estimate_start(space).on(estimate_machine(), EventView::Value(Ok(None))).ends(
            refused(400, "prover_endpoint not configured"@),
        ),
        estimate_start(space).on(estimate_machine(), EventView::Value(Err(e))).ends(
            refused(500, e),
        ),
        estimate_prepared(space, endpoint, token).asks(ActionView::NextRequest(label)),
        estimate_prepared(space, endpoint, token).on(
            estimate_machine(),
            EventView::Request(Err(e)),
        ).ends(refused(500, e)),
        estimate_prepared(space, endpoint, token).on(
            estimate_machine(),
            EventView::Request(Ok(None)),
        ).ends(refused(404, "no pending proving request"@)),
{
}

// ---------------------------------------------------------------------------
// Push
// ---------------------------------------------------------------------------

/// The call of a push: the encoded request goes to `/prove` below the endpoint, and presents
/// the token that the store gave, and none only where it holds none or could not be read.
pub proof fn lemma_push_sends_the_request(
    space: Seq<char>,
    label: Seq<char>,
    endpoint: Seq<char>,
    token: Result<Option<Seq<char>>, Seq<char>>,
    request: ProvingRequestView,
)
    requires
        space_label(space) == Some(label),
    ensures
        ({
            let found = push_prepared(space, endpoint, token).on(
                push_machine(),
                EventView::Request(Ok(Some(request))),
            );
            match request.encoded {
                Ok(bytes) => found.asks(
                    post_bytes(below(endpoint, "/prove"@), known(token), bytes, None),
                ),
                Err(e) => found.ends(refused(500, "serialize error: "@ + e)),
            }
        }),
{
}

/// What a push makes of the prover's answer: where it took the request, the job that it names
/// is remembered under the key of the proof, and is the answer; else the refusal tells the
/// status and the words.
pub proof fn lemma_push_remembers_the_job(
    space: Seq<char>,
    label: Seq<char>,
    endpoint: Seq<char>,
    token: Result<Option<Seq<char>>, Seq<char>>,
    request: ProvingRequestView,
    code: u16,
    read: Result<Seq<char>, Seq<char>>,
    stored: Result<(), Seq<char>>,
    e: Seq<char>,
)
    requires
        space_label(space) == Some(label),
        request.encoded is Ok,
    ensures
        ({
            let m = push_machine();
            let sent = push_prepared(space, endpoint, token).on(
                m,
                EventView::Request(Ok(Some(request))),
            );
            let answered = sent.on(m, EventView::Sent(Ok(code)));
            &&& sent.on(m, EventView::Sent(Err(e))).ends(
                refused(502, "prover request failed: "@ + e),
            )
            &&& !(200 <= code <= 299) ==> answered.asks(ActionView::ReadText) && answered.on(
                m,
                EventView::Text(read),
            ).ends(
                refused(
                    502,
                    "prover returned "@ + status_display(code) + ": "@ + text_of(read),
                ),
            )
            &&& 200 <= code <= 299 ==> answered.asks(ActionView::ReadJobId) && match read {
                Err(why) => answered.on(m, EventView::Text(read)).ends(
                    refused(502, "invalid prover response: "@ + why),
                ),
                Ok(job_id) => {
                    let named = answered.on(m, EventView::Text(read));
                    &&& named.asks(
                        ActionView::WriteKey(
                            key_of_proof(space, request.commitment_id, request.is_fold),
                            job_id,
                        ),
                    )
                    &&& match stored {
                        Err(why) => named.on(m, EventView::Done(stored)).ends(refused(500, why)),
                        Ok(_) => named.on(m, EventView::Done(stored)).ends(
                            Ok(
                                PushResponseView {
                                    success: true,
                                    job_id: Some(job_id),
                                    message: Some("proving request submitted to prover"@),
                                },
                            ),
                        ),
                    }
                },
            }
        }),
{
}

// ---------------------------------------------------------------------------
// Poll
// ---------------------------------------------------------------------------

/// A poll whose job was found.
pub open spec fn poll_with_job(
    space: Seq<char>,
    endpoint: Seq<char>,
    token: Result<Option<Seq<char>>, Seq<char>>,
    request: ProvingRequestView,
    job_id: Seq<char>,
) -> PollStep {
    poll_prepared(space, endpoint, token).on(
        poll_machine(),
        EventView::Request(Ok(Some(request))),
    ).on(poll_machine(), EventView::Value(Ok(Some(job_id))))
}

/// A poll asks the prover for the job, with the stored token, and reads what it says.
pub proof fn lemma_poll_asks_for_the_job(
    space: Seq<char>,
    label: Seq<char>,
    endpoint: Seq<char>,
    token: Result<Option<Seq<char>>, Seq<char>>,
    request: ProvingRequestView,
    job_id: Seq<char>,
    code: u16,
    read: Result<Seq<char>, Seq<char>>,
    e: Seq<char>,
)
    requires
        space_label(space) == Some(label),
    ensures
        ({
            let m = poll_machine();
            let asked = poll_with_job(space, endpoint, token, request, job_id);
            let answered = asked.on(m, EventView::Sent(Ok(code)));
            &&& asked.asks(plain_get(job_url(endpoint, job_id), known(token), None))
            &&& asked.on(m, EventView::Sent(Err(e))).ends(
                refused(502, "prover request failed: "@ + e),
            )
            &&& !(200 <= code <= 299) ==> answered.asks(ActionView::ReadText) && answered.on(
                m,
                EventView::Text(read),
            ).ends(
                refused(
                    502,
                    "prover returned "@ + status_display(code) + ": "@ + text_of(read),
                ),
            )
            &&& 200 <= code <= 299 ==> answered.asks(ActionView::ReadReport) && answered.on(
                m,
                EventView::Report(Err(e)),
            ).ends(refused(502, "invalid prover response: "@ + e))
        }),
{
}

/// A poll that heard from the prover.
pub open spec fn poll_reported_on(
    space: Seq<char>,
    endpoint: Seq<char>,
    token: Result<Option<Seq<char>>, Seq<char>>,
    request: ProvingRequestView,
    job_id: Seq<char>,
    code: u16,
    report: JobReportView,
) -> PollStep {
    poll_with_job(space, endpoint, token, request, job_id).on(
        poll_machine(),
        EventView::Sent(Ok(code)),
    ).on(poll_machine(), EventView::Report(Ok(report)))
}

/// A job that failed is forgotten and its error passed on; one that is neither complete nor
/// failed is left alone and its status passed on.
pub proof fn lemma_poll_passes_on_what_the_prover_says(
    space: Seq<char>,
    label: Seq<char>,
    endpoint: Seq<char>,
    token: Result<Option<Seq<char>>, Seq<char>>,
    request: ProvingRequestView,
    job_id: Seq<char>,
    code: u16,
    report: JobReportView,
    forgotten: Result<(), Seq<char>>,
)
    requires
        space_label(space) == Some(label),
        200 <= code <= 299,
        report.status != "complete"@,
    ensures
        ({
            let m = poll_machine();
            let heard = poll_reported_on(space, endpoint, token, request, job_id, code, report);
            if report.status == "failed"@ {
                &&& heard.asks(
                    ActionView::DeleteKey(
                        key_of_proof(space, request.commitment_id, request.is_fold),
                    ),
                )
                &&& heard.on(m, EventView::Done(forgotten)).ends(
                    Ok(
                        PollResponseView {
                            success: false,
                            status: Some("failed"@),
                            complete: true,
                            message: report.error,
                        },
                    ),
                )
            } else {
                heard.ends(
                    Ok(
                        PollResponseView {
                            success: true,
                            status: Some(report.status),
                            complete: false,
                            message: None,
                        },
                    ),
                )
            }
        }),
{
}

/// The receipt of a complete job is fetched from the job's receipt resource, with the stored
/// token; the bytes that come back are handed to the operator for the very proof; and only
/// then are the job and the estimate forgotten.
pub proof fn lemma_poll_collects_the_receipt(
    space: Seq<char>,
    label: Seq<char>,
    endpoint: Seq<char>,
    token: Result<Option<Seq<char>>, Seq<char>>,
    request: ProvingRequestView,
    job_id: Seq<char>,
    code: u16,
    report: JobReportView,
    receipt_code: u16,
    receipt: Seq<u8>,
    forgotten: Result<(), Seq<char>>,
    cleared: Result<(), Seq<char>>,
    e: Seq<char>,
)
    requires
        space_label(space) == Some(label),
        200 <= code <= 299,
        report.status == "complete"@,
    ensures
        ({
            let m = poll_machine();
            let heard = poll_reported_on(space, endpoint, token, request, job_id, code, report);
            let answered = heard.on(m, EventView::Sent(Ok(receipt_code)));
            let received = answered.on(m, EventView::Bytes(Ok(receipt)));
            let saved = received.on(m, EventView::Done(Ok(())));
            &&& heard.asks(
                plain_get(job_url(endpoint, job_id) + "/receipt"@, known(token), None),
            )
            &&& heard.on(m, EventView::Sent(Err(e))).ends(
                refused(502, "receipt download failed: "@ + e),
            )
            &&& !(200 <= receipt_code <= 299) ==> answered.ends(
                refused(502, "receipt download failed: "@ + status_display(receipt_code)),
            )
            &&& 200 <= receipt_code <= 299 ==> {
                &&& answered.asks(ActionView::ReadBytes)
                &&& answered.on(m, EventView::Bytes(Err(e))).ends(
                    refused(502, "receipt read failed: "@ + e),
                )
                &&& received.asks(
                    ActionView::Fulfill {
                        space: label,
                        commitment_id: request.commitment_id,
                        is_fold: request.is_fold,
                        receipt,
                    },
                )
                &&& received.on(m, EventView::Done(Err(e))).ends(refused(500, e))
                &&& saved.asks(
                    ActionView::DeleteKey(
                        key_of_proof(space, request.commitment_id, request.is_fold),
                    ),
                )
                &&& saved.on(m, EventView::Done(forgotten)).asks(
                    ActionView::ClearEstimate {
                        space: label,
                        commitment_id: request.commitment_id,
                    },
                )
                &&& saved.on(m, EventView::Done(forgotten)).on(m, EventView::Done(cleared)).ends(
                    Ok(
                        PollResponseView {
                            success: true,
                            status: Some("complete"@),
                            complete: true,
                            message: Some("proof complete and saved"@),
                        },
                    ),
                )
            }
        }),
{
}

// ---------------------------------------------------------------------------
// Cancel
// ---------------------------------------------------------------------------

/// A cancellation that found the request.
pub open spec fn cancel_found(
    space: Seq<char>,
    endpoint: Seq<char>,
    request: ProvingRequestView,
) -> CancelStep {
    cancel_start(space).on(cancel_machine(), EventView::Value(Ok(Some(endpoint)))).on(
        cancel_machine(),
        EventView::Request(Ok(Some(request))),
    )
}

/// A cancellation looks up the endpoint, the next request of the space and the job of that
/// proof, and is refused where one of them is missing.
pub proof fn lemma_cancel_looks_the_job_up(
    space: Seq<char>,
    label: Seq<char>,
    endpoint: Seq<char>,
    request: ProvingRequestView,
    job_id: Seq<char>,
    e: Seq<char>,
)
    requires
        space_label(space) == Some(label),
    ensures
        ({
            let m = cancel_machine();
            let start = cancel_start(space);
            let placed = start.on(m, EventView::Value(Ok(Some(endpoint))));
            let found = cancel_found(space, endpoint, request);
            &&& start.asks(ActionView::ReadSetting(Setting::ProverEndpoint))
            &&& start.on(m, EventView::Value(Err(e))).ends(refused(500, e))
            &&& start.on(m, EventView::Value(Ok(None))).ends(
                refused(400, "prover_endpoint not configured"@),
            )
            &&& placed.asks(ActionView::NextRequest(label))
            &&& placed.on(m, EventView::Request(Err(e))).ends(refused(500, e))
            &&& placed.on(m, EventView::Request(Ok(None))).ends(
                refused(400, "no proving request in flight"@),
            )
            &&& found.asks(
                ActionView::ReadKey(key_of_proof(space, request.commitment_id, request.is_fold)),
            )
            &&& found.on(m, EventView::Value(Err(e))).ends(refused(500, e))
            &&& found.on(m, EventView::Value(Ok(None))).ends(
                refused(400, "no job in flight for this commitment"@),
            )
            &&& found.on(m, EventView::Value(Ok(Some(job_id)))).asks(
                ActionView::ReadSetting(Setting::ProverAuthToken),
            )
        }),
{
}

/// The prover is told with the stored token and waited for ten seconds; whatever it says, the
/// job is forgotten under the key of the proof, and the answer names the job and passes the
/// prover's words on: those of a success as they are if they are JSON and as an empty object
/// if not, those of a refusal with their status, or why it could not be reached.
pub proof fn lemma_cancel_tells_the_prover(
    space: Seq<char>,
    label: Seq<char>,
    endpoint: Seq<char>,
    token: Result<Option<Seq<char>>, Seq<char>>,
    request: ProvingRequestView,
    job_id: Seq<char>,
    code: u16,
    read: Result<Seq<char>, Seq<char>>,
    forgotten: Result<(), Seq<char>>,
    e: Seq<char>,
)
    requires
        space_label(space) == Some(label),
    ensures
        ({
            let m = cancel_machine();
            let told = cancel_found(space, endpoint, request).on(
                m,
                EventView::Value(Ok(Some(job_id))),
            ).on(m, EventView::Value(token));
            let unreachable = told.on(m, EventView::Sent(Err(e)));
            let answered = told.on(m, EventView::Sent(Ok(code)));
            let heard = answered.on(m, EventView::Text(read));
            let body = text_of(read);
            let forget = ActionView::DeleteKey(
                key_of_proof(space, request.commitment_id, request.is_fold),
            );
            &&& told.asks(
                ActionView::Send(
                    HttpCallView {
                        post: true,
                        url: job_url(endpoint, job_id) + "/cancel"@,
                        token: known(token),
                        payload: PayloadView::Empty,
                        timeout: Some(10),
                    },
                ),
            )
            &&& unreachable.asks(forget)
            &&& unreachable.on(m, EventView::Done(forgotten)).ends(
                Ok(
                    CancelResponseView {
                        success: true,
                        job_id,
                        prover: ProverSaidView::Unreachable(e),
                    },
                ),
            )
            &&& answered.asks(ActionView::ReadText)
            &&& heard.asks(forget)
            &&& heard.on(m, EventView::Done(forgotten)).ends(
                Ok(
                    CancelResponseView {
                        success: true,
                        job_id,
                        prover: if !(200 <= code <= 299) {
                            ProverSaidView::Refused { status: code, body }
                        } else if json_valid(body) {
                            ProverSaidView::Agreed(body)
                        } else {
                            ProverSaidView::Agreed("{}"@)
                        },
                    },
                ),
            )
        }),
{
}

// ---------------------------------------------------------------------------
// Estimate
// ---------------------------------------------------------------------------

/// The encoded request goes to `/estimate` below the endpoint with the stored token, and the
/// JSON that comes back is the answer as it stands.
pub proof fn lemma_estimate_is_passed_on(
    space: Seq<char>,
    label: Seq<char>,
    endpoint: Seq<char>,
    token: Result<Option<Seq<char>>, Seq<char>>,
    request: ProvingRequestView,
    code: u16,
    read: Result<Seq<char>, Seq<char>>,
    e: Seq<char>,
)
    requires
        space_label(space) == Some(label),
    ensures
        ({
            let m = estimate_machine();
            let found = estimate_prepared(space, endpoint, token).on(
                m,
                EventView::Request(Ok(Some(request))),
            );
            let answered = found.on(m, EventView::Sent(Ok(code)));
            match request.encoded {
                Err(why) => found.ends(refused(500, "serialize: "@ + why)),
                Ok(bytes) => {
                    &&& found.asks(
                        post_bytes(below(endpoint, "/estimate"@), known(token), bytes, None),
                    )
                    &&& found.on(m, EventView::Sent(Err(e))).ends(
                        refused(502, "prover request failed: "@ + e),
                    )
                    &&& 200 <= code <= 299 ==> answered.asks(ActionView::ReadJson) && match read {
                        Ok(json) => answered.on(m, EventView::Text(read)).ends(Ok(json)),
                        Err(why) => answered.on(m, EventView::Text(read)).ends(
                            refused(502, "invalid prover response: "@ + why),
                        ),
                    }
                    &&& !(200 <= code <= 299) ==> answered.asks(ActionView::ReadText)
                        && answered.on(m, EventView::Text(read)).ends(
                        refused(
                            502,
                            "prover returned "@ + status_display(code) + ": "@ + text_of(read),
                        ),
                    )
                },
            }
        }),
{
}

// ---------------------------------------------------------------------------
// Receipts that are handed in
// ---------------------------------------------------------------------------

/// The eight bytes of a number, lowest first.
pub open spec fn le_bytes(n: i64) -> Seq<u8> {
    let u: int = if n < 0 {
        n + 0x1_0000_0000_0000_0000
    } else {
        n as int
    };
    seq![
        (u % 0x100) as u8,
        (u / 0x100 % 0x100) as u8,
        (u / 0x1_0000 % 0x100) as u8,
        (u / 0x100_0000 % 0x100) as u8,
        (u / 0x1_0000_0000 % 0x100) as u8,
        (u / 0x100_0000_0000 % 0x100) as u8,
        (u / 0x1_0000_0000_0000 % 0x100) as u8,
        (u / 0x100_0000_0000_0000 % 0x100) as u8,
    ]
}

/// A payload made of a commitment, a kind and a receipt that is not empty reads as just
/// these; another kind, an empty receipt and a payload that is too short are refused.
pub proof fn lemma_payloads_read_back(
    label: Seq<char>,
    commitment_id: i64,
    kind: u8,
    receipt: Seq<u8>,
    short: Seq<u8>,
)
    requires
        short.len() < 9,
    ensures
        ({
            let read = fulfillment(label, le_bytes(commitment_id) + seq![kind] + receipt);
            if receipt.len() == 0 {
                read == refused::<FulfillmentView>(400, "empty receipt"@)
            } else if kind == 0 || kind == 1 {
                read == Ok::<FulfillmentView, crate::flow::ApiErrorView>(
                    FulfillmentView {
                        space: label,
                        commitment_id: commitment_id as int,
                        is_fold: kind == 1,
                        receipt,
                    },
                )
            } else {
                read == refused::<FulfillmentView>(
                    400,
                    "invalid request_type: "@ + decimal(kind as nat),
                )
            }
        }),
        fulfillment(label, short) == refused::<FulfillmentView>(
            400,
            "payload too short: need commitment_id (8) + type (1) + receipt"@,
        ),
{
    let body = le_bytes(commitment_id) + seq![kind] + receipt;
    let u: int = if commitment_id < 0 {
        commitment_id + 0x1_0000_0000_0000_0000
    } else {
        commitment_id as int
    };
    assert(body[8] == kind);
    assert(body.skip(9) =~= receipt);
    assert(forall|i: int| 0 <= i < 8 ==> #[trigger] body[i] == le_bytes(commitment_id)[i]);
    assert(crate::routes::proving::le_unsigned(body) == u) by {
        let d1 = u / 0x100;
        let d2 = d1 / 0x100;
        let d3 = d2 / 0x100;
        let d4 = d3 / 0x100;
        let d5 = d4 / 0x100;
        let d6 = d5 / 0x100;
        let d7 = d6 / 0x100;
        assert(d2 == u / 0x1_0000);
        assert(d3 == u / 0x100_0000);
        assert(d4 == u / 0x1_0000_0000);
        assert(d5 == u / 0x100_0000_0000);
        assert(d6 == u / 0x1_0000_0000_0000);
        assert(d7 == u / 0x100_0000_0000_0000);
        assert(0 <= d7 < 0x100);
        assert(body[0] == u % 0x100);
        assert(body[1] == d1 % 0x100);
        assert(body[2] == d2 % 0x100);
        assert(body[3] == d3 % 0x100);
        assert(body[4] == d4 % 0x100);
        assert(body[5] == d5 % 0x100);
        assert(body[6] == d6 % 0x100);
        assert(body[7] == d7 % 0x100);
    }
}

/// The encoding of the next request is given out as it is, and a failure says which part
/// failed.
pub proof fn lemma_next_request_is_given_out(bytes: Seq<u8>, e: Seq<char>)
    ensures
        next_answer(Ok(Ok(bytes))) == Ok::<Seq<u8>, crate::flow::ApiErrorView>(bytes),
        next_answer(Ok(Err(e))) == refused::<Seq<u8>>(500, "serialize error: "@ + e),
        next_answer(Err(e)) == refused::<Seq<u8>>(500, e),
{
}

} // verus!
