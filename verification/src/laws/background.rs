//! The loops that run beside the HTTP interface.
use vstd::prelude::*;

use crate::adapters::status_display;
use crate::background::{
    fetch_next, fetch_start, poll_job_next, poll_job_start, proving_next, proving_start,
    registry_next, registry_start, FetchStageView, FetchStep, FetchedView, PollJobStageView,
    PollJobStep, PolledView, ProvingStageView, ProvingStep, RegistryStageView, RegistryStep,
    RoundView,
};
use crate::flow::{
    ActionView, EventView, JobReportView, Machine, ProvingRequestView, Setting, StepView,
};
use crate::laws::history::{below, job_url, key_of_proof, known, plain_get, post_bytes};
use crate::routes::proving::{SiteView, WorkView};
use crate::routes::registry::{sync_next, SyncStageView};

verus! {

/// The machine of following a job.
pub open spec fn poll_job_machine() -> Machine<PollJobStageView, PolledView> {
    |stage: PollJobStageView, event: EventView| poll_job_next(stage, event)
}

/// The machine of fetching an estimate.
pub open spec fn fetch_machine() -> Machine<FetchStageView, FetchedView> {
    |stage: FetchStageView, event: EventView| fetch_next(stage, event)
}

/// The machine of the proving loop.
pub open spec fn proving_machine() -> Machine<ProvingStageView, ()> {
    |stage: ProvingStageView, event: EventView| proving_next(stage, event)
}

/// The machine of the registry loop.
pub open spec fn registry_machine() -> Machine<RegistryStageView, ()> {
    |stage: RegistryStageView, event: EventView| registry_next(stage, event)
}

// ---------------------------------------------------------------------------
// Following a job
// ---------------------------------------------------------------------------

/// The job is asked for with the site's token; one that the prover does not know is forgotten,
/// and any other refusal or failure keeps it.
pub proof fn lemma_following_asks_for_the_job(
    work: WorkView,
    code: u16,
    forgotten: Result<(), Seq<char>>,
    e: Seq<char>,
)
    ensures
        ({
            let m = poll_job_machine();
            let asked = poll_job_start(work);
            let answered = asked.on(m, EventView::Sent(Ok(code)));
            &&& asked.asks(
                plain_get(job_url(work.site.endpoint, work.job_id), work.site.token, None),
            )
            &&& asked.on(m, EventView::Sent(Err(e))).ends(Ok(PolledView::Failed(e)))
            &&& code == 404 ==> {
                &&& answered.asks(
                    ActionView::DeleteKey(
                        key_of_proof(work.site.space, work.commitment_id, work.is_fold),
                    ),
                )
                &&& answered.on(m, EventView::Done(forgotten)).ends(
                    Ok(PolledView::Failed("prover returned "@ + status_display(code))),
                )
            }
            &&& code != 404 && !(200 <= code <= 299) ==> answered.ends(
                Ok(PolledView::Failed("prover returned "@ + status_display(code))),
            )
            &&& 200 <= code <= 299 ==> answered.asks(ActionView::ReadReport) && answered.on(
                m,
                EventView::Report(Err(e)),
            ).ends(Ok(PolledView::Failed(e)))
        }),
{
}

/// What the prover reports: the receipt of a complete job is fetched from the job's receipt
/// resource with the site's token, the bytes that come back are handed to the operator for
/// the very proof, and only then is the job forgotten; a failed job is forgotten; any other
/// is left alone.
pub proof fn lemma_following_collects_the_receipt(
    work: WorkView,
    code: u16,
    report: JobReportView,
    receipt_code: u16,
    receipt: Seq<u8>,
    forgotten: Result<(), Seq<char>>,
    e: Seq<char>,
)
    requires
        200 <= code <= 299,
    ensures
        ({
            let m = poll_job_machine();
            let heard = poll_job_start(work).on(m, EventView::Sent(Ok(code))).on(
                m,
                EventView::Report(Ok(report)),
            );
            let answered = heard.on(m, EventView::Sent(Ok(receipt_code)));
            let received = answered.on(m, EventView::Bytes(Ok(receipt)));
            let saved = received.on(m, EventView::Done(Ok(())));
            let forget = ActionView::DeleteKey(
                key_of_proof(work.site.space, work.commitment_id, work.is_fold),
            );
            if report.status == "complete"@ {
                &&& heard.asks(
                    plain_get(
                        job_url(work.site.endpoint, work.job_id) + "/receipt"@,
                        work.site.token,
                        None,
                    ),
                )
                &&& heard.on(m, EventView::Sent(Err(e))).ends(Ok(PolledView::Failed(e)))
                &&& !(200 <= receipt_code <= 299) ==> answered.ends(
                    Ok(
                        PolledView::Failed(
                            "receipt download failed: "@ + status_display(receipt_code),
                        ),
                    ),
                )
                &&& 200 <= receipt_code <= 299 ==> {
                    &&& answered.asks(ActionView::ReadBytes)
                    &&& answered.on(m, EventView::Bytes(Err(e))).ends(Ok(PolledView::Failed(e)))
                    &&& received.asks(
                        ActionView::Fulfill {
                            space: work.site.label,
                            commitment_id: work.commitment_id,
                            is_fold: work.is_fold,
                            receipt,
                        },
                    )
                    &&& received.on(m, EventView::Done(Err(e))).ends(Ok(PolledView::Failed(e)))
                    &&& saved.asks(forget)
                    &&& saved.on(m, EventView::Done(forgotten)).ends(Ok(PolledView::Complete))
                }
            } else if report.status == "failed"@ {
                heard.asks(forget) && heard.on(m, EventView::Done(forgotten)).ends(
                    Ok(PolledView::Complete),
                )
            } else {
                heard.ends(Ok(PolledView::Unfinished))
            }
        }),
{
}

/// The encoded request goes to `/estimate` below the endpoint with the site's token, for at
/// most two minutes, and what comes back is stored on the commitment as it stands.
pub proof fn lemma_estimates_are_stored(
    site: SiteView,
    request: ProvingRequestView,
    code: u16,
    estimate: Seq<char>,
    e: Seq<char>,
)
    ensures
        ({
            let m = fetch_machine();
            let asked = fetch_start(site, request);
            let answered = asked.on(m, EventView::Sent(Ok(code)));
            let read = answered.on(m, EventView::Text(Ok(estimate)));
            match request.encoded {
                Err(why) => asked.ends(Ok(FetchedView::Failed(why))),
                Ok(bytes) => {
                    &&& asked.asks(
                        post_bytes(
                            below(site.endpoint, "/estimate"@),
                            site.token,
                            bytes,
                            Some(120),
                        ),
                    )
                    &&& asked.on(m, EventView::Sent(Err(e))).ends(Ok(FetchedView::Failed(e)))
                    &&& !(200 <= code <= 299) ==> answered.ends(
                        Ok(FetchedView::Failed("prover returned "@ + status_display(code))),
                    )
                    &&& 200 <= code <= 299 ==> {
                        &&& answered.asks(ActionView::ReadText)
                        &&& answered.on(m, EventView::Text(Err(e))).ends(
                            Ok(FetchedView::Failed(e)),
                        )
                        &&& read.asks(
                            ActionView::SaveEstimate {
                                space: site.label,
                                commitment_id: request.commitment_id,
                                estimate,
                            },
                        )
                        &&& read.on(m, EventView::Done(Err(e))).ends(Ok(FetchedView::Failed(e)))
                        &&& read.on(m, EventView::Done(Ok(()))).ends(Ok(FetchedView::Stored))
                    }
                },
            }
        }),
{
}

// ---------------------------------------------------------------------------
// The proving loop
// ---------------------------------------------------------------------------

/// The loop goes on with the next space of a round or, after the last, sleeps for five
/// seconds where any space needed a proof and for ten where none did.
pub open spec fn goes_on(
    step: ProvingStep,
    endpoint: Seq<char>,
    token: Option<Seq<char>>,
    ahead: Seq<Seq<char>>,
    did_work: bool,
) -> bool {
    if ahead.len() == 0 {
        step == ProvingStep::Perform(
            ProvingStageView::Asleep,
            ActionView::Sleep(
                if did_work {
                    5000
                } else {
                    10000
                },
            ),
        )
    } else {
        step == ProvingStep::Perform(
            ProvingStageView::Request {
                round: RoundView { endpoint, token, ahead: ahead.skip(1), did_work },
                space: ahead[0],
            },
            ActionView::NextRequest(ahead[0]),
        )
    }
}

/// After a pause, a round reads the endpoint and the token and visits the operated spaces
/// from the first on; without an endpoint the loop sleeps for ten seconds.
pub proof fn lemma_rounds_begin(
    endpoint: Seq<char>,
    token: Result<Option<Seq<char>>, Seq<char>>,
    spaces: Seq<Seq<char>>,
    missing: Result<Option<Seq<char>>, Seq<char>>,
)
    requires
        known(missing) is None,
    ensures
        ({
            let m = proving_machine();
            let start = proving_start();
            let awake = start.on(m, EventView::Woke);
            let placed = awake.on(m, EventView::Value(Ok(Some(endpoint))));
            let ready = placed.on(m, EventView::Value(token));
            &&& start.asks(ActionView::Sleep(2000))
            &&& start == ProvingStep::Perform(ProvingStageView::Asleep, ActionView::Sleep(2000))
            &&& awake.asks(ActionView::ReadSetting(Setting::ProverEndpoint))
            &&& awake.on(m, EventView::Value(missing)) == ProvingStep::Perform(
                ProvingStageView::Asleep,
                ActionView::Sleep(10000),
            )
            &&& placed.asks(ActionView::ReadSetting(Setting::ProverAuthToken))
            &&& ready.asks(ActionView::ListSpaces)
            &&& goes_on(
                ready.on(m, EventView::Spaces(spaces)),
                endpoint,
                known(token),
                spaces,
                false,
            )
        }),
{
}

/// A space that needs no proof, or cannot be asked, is passed over. For one that needs a proof
/// its job is looked up; where there is one it is followed, and else an estimate is fetched,
/// in either case for that very proof and with the prover of the round.
pub proof fn lemma_spaces_are_visited(
    round: RoundView,
    space: Seq<char>,
    request: ProvingRequestView,
    job: Result<Option<Seq<char>>, Seq<char>>,
    e: Seq<char>,
)
    ensures
        ({
            let m = proving_machine();
            let visit = ProvingStageView::Request { round, space };
            let needed = proving_next(visit, EventView::Request(Ok(Some(request))));
            let looked_up = needed.on(m, EventView::Value(job));
            let working = RoundView { did_work: true, ..round };
            let site = SiteView { space, label: space, endpoint: round.endpoint, token: round.token };
            &&& goes_on(
                proving_next(visit, EventView::Request(Ok(None))),
                round.endpoint,
                round.token,
                round.ahead,
                round.did_work,
            )
            &&& goes_on(
                proving_next(visit, EventView::Request(Err(e))),
                round.endpoint,
                round.token,
                round.ahead,
                round.did_work,
            )
            &&& needed.asks(
                ActionView::ReadKey(key_of_proof(space, request.commitment_id, request.is_fold)),
            )
            &&& match known(job) {
                Some(job_id) => {
                    let followed = poll_job_start(
                        WorkView {
                            site,
                            commitment_id: request.commitment_id,
                            is_fold: request.is_fold,
                            job_id,
                        },
                    );
                    followed matches StepView::Perform(stage, action) && looked_up
                        == ProvingStep::Perform(
                        ProvingStageView::Poll {
                            round: working,
                            space,
                            commitment_id: request.commitment_id,
                            job: stage,
                        },
                        action,
                    )
                },
                None => match fetch_start(site, request) {
                    StepView::Perform(stage, action) => looked_up == ProvingStep::Perform(
                        ProvingStageView::Fetch { round: working, fetch: stage },
                        action,
                    ),
                    _ => goes_on(looked_up, round.endpoint, round.token, round.ahead, true),
                },
            }
        }),
{
}

/// Following a job and fetching an estimate go on within the loop as they do by themselves.
/// When a job is over, the estimate of its proof is dropped; and whatever a visit came to, the
/// loop goes on with the next space.
pub proof fn lemma_visits_end(
    round: RoundView,
    space: Seq<char>,
    commitment_id: i64,
    job: PollJobStageView,
    fetch: FetchStageView,
    event: EventView,
    cleared: Result<(), Seq<char>>,
)
    ensures
        ({
            let m = proving_machine();
            let step = proving_next(
                ProvingStageView::Poll { round, space, commitment_id, job },
                event,
            );
            match poll_job_next(job, event) {
                StepView::Perform(after, action) => step == ProvingStep::Perform(
                    ProvingStageView::Poll { round, space, commitment_id, job: after },
                    action,
                ),
                StepView::Finish(Ok(PolledView::Complete)) => {
                    &&& step.asks(ActionView::ClearEstimate { space, commitment_id })
                    &&& goes_on(
                        step.on(m, EventView::Done(cleared)),
                        round.endpoint,
                        round.token,
                        round.ahead,
                        round.did_work,
                    )
                },
                StepView::Finish(_) => goes_on(
                    step,
                    round.endpoint,
                    round.token,
                    round.ahead,
                    round.did_work,
                ),
                StepView::Ignored(_) => step is Ignored,
            }
        }),
        ({
            let step = proving_next(ProvingStageView::Fetch { round, fetch }, event);
            match fetch_next(fetch, event) {
                StepView::Perform(after, action) => step == ProvingStep::Perform(
                    ProvingStageView::Fetch { round, fetch: after },
                    action,
                ),
                StepView::Finish(_) => goes_on(
                    step,
                    round.endpoint,
                    round.token,
                    round.ahead,
                    round.did_work,
                ),
                StepView::Ignored(_) => step is Ignored,
            }
        }),
{
}

// ---------------------------------------------------------------------------
// The registry loop
// ---------------------------------------------------------------------------

/// The end of a round: two seconds of sleep.
pub open spec fn rests(step: RegistryStep) -> bool {
    step == RegistryStep::Perform(RegistryStageView::Asleep, ActionView::Sleep(2000))
}

/// One batch of up to a thousand unpublished handles of the first space ahead is published, and
/// the others are still ahead.
pub open spec fn publishes(step: RegistryStep, ahead: Seq<Seq<char>>, sent_any: bool) -> bool {
    ahead.len() > 0 && step == RegistryStep::Perform(
        RegistryStageView::Publish { ahead: ahead.skip(1), sent_any },
        ActionView::Publish {
            space: ahead[0],
            limit: 1000,
            handles: Seq::empty(),
            require_finalized: false,
        },
    )
}

/// Each round reads the switch, the endpoint and the token anew. Only where the switch is on
/// and there is an endpoint is a cycle made, with that endpoint and token; else the round is
/// over.
pub proof fn lemma_registry_rounds_begin(
    flag: Result<bool, Seq<char>>,
    value: Result<Option<Seq<char>>, Seq<char>>,
    token: Result<Option<Seq<char>>, Seq<char>>,
)
    ensures
        ({
            let m = registry_machine();
            let start = registry_start();
            let awake = start.on(m, EventView::Woke);
            let read = awake.on(m, EventView::Flag(flag)).on(m, EventView::Value(value));
            &&& rests(start)
            &&& awake.asks(ActionView::ReadAutoSync)
            &&& awake.on(m, EventView::Flag(flag)).asks(
                ActionView::ReadSetting(Setting::RegistryEndpoint),
            )
            &&& (flag matches Ok(true)) && known(value) is Some ==> {
                &&& read.asks(ActionView::ReadSetting(Setting::RegistryAuthToken))
                &&& read.on(m, EventView::Value(token)) == RegistryStep::Perform(
                    RegistryStageView::Cycle(
                        SyncStageView::Open {
                            endpoint: known(value)->Some_0,
                            token: known(token),
                        },
                    ),
                    ActionView::Connect(10),
                )
            }
            &&& !(flag matches Ok(true)) || known(value) is None ==> rests(read)
        }),
{
}

/// A cycle goes on within the loop as it does by itself; whatever it came to, the operated
/// spaces are listed after it, and published from the first on.
pub proof fn lemma_rounds_publish_after_the_cycle(
    stage: SyncStageView,
    event: EventView,
    spaces: Seq<Seq<char>>,
)
    ensures
        ({
            let m = registry_machine();
            let step = registry_next(RegistryStageView::Cycle(stage), event);
            match sync_next(stage, event) {
                StepView::Perform(after, action) => step == RegistryStep::Perform(
                    RegistryStageView::Cycle(after),
                    action,
                ),
                StepView::Finish(_) => {
                    let listed = step.on(m, EventView::Spaces(spaces));
                    &&& step.asks(ActionView::ListSpaces)
                    &&& spaces.len() == 0 ==> rests(listed)
                    &&& spaces.len() > 0 ==> publishes(listed, spaces, false)
                },
                StepView::Ignored(_) => step is Ignored,
            }
        }),
{
}

/// After a space is published, or could not be, the next one is, until there is none. Once
/// anything was sent in a round, a second and a half pass before each further publish.
pub proof fn lemma_every_space_is_published(
    ahead: Seq<Seq<char>>,
    sent_any: bool,
    published: Result<(usize, usize), Seq<char>>,
)
    ensures
        ({
            let m = registry_machine();
            let step = registry_next(
                RegistryStageView::Publish { ahead, sent_any },
                EventView::Published(published),
            );
            let sent = sent_any || (published matches Ok((count, remaining)) && (count != 0
                || remaining != 0));
            if ahead.len() == 0 {
                rests(step)
            } else if sent {
                &&& step.asks(ActionView::Sleep(1500))
                &&& publishes(step.on(m, EventView::Woke), ahead, true)
            } else {
                publishes(step, ahead, false)
            }
        }),
{
}

} // verus!
