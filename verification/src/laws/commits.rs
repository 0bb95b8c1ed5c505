//! Committing, publishing and rolling back, and how far that has come.
use vstd::prelude::*;

use crate::adapters::space_label;
use crate::flow::{
    answers, replies, run, ActionView, EventView, PipelineStatusView, ProvingRequestView, Setting,
    SpaceCommitResultView, StepView,
};
use crate::laws::history::{job_url, key_of_proof, known, plain_get, refused};
use crate::routes::commits::{
    commit_machine, commit_start, count_next, pipeline_machine, pipeline_next, pipeline_start,
    publish_next, publish_start, rollback_machine, rollback_start, DraftView,
    PipelineResponseView, PipelineStageView, PipelineStep,
};
use crate::text::has_substring;

verus! {

/// A path that names no space is refused before anything is asked.
pub proof fn lemma_unknown_spaces_are_refused(
    space: Seq<char>,
    dry_run: bool,
    handles: Seq<Seq<char>>,
    require_finalized: bool,
)
    requires
        space_label(space) is None,
    ensures
        commit_start(space, dry_run).ends(
            refused(400, "invalid space: "@ + "Name Error: Malformed name"@),
        ),
        publish_start(space, handles, require_finalized).ends(
            refused(400, "invalid space: "@ + "Name Error: Malformed name"@),
        ),
        rollback_start(space).ends(
            refused(400, "invalid space: "@ + "Name Error: Malformed name"@),
        ),
        pipeline_start(space, require_finalized).ends(
            refused(400, "invalid space: "@ + "Name Error: Malformed name"@),
        ),
{
}

// ---------------------------------------------------------------------------
// Committing
// ---------------------------------------------------------------------------

/// A commit has the operator commit the space, and gives what the operator made; a dry run only
/// asks what keeps it from being made, and refuses with that or gives an empty result.
pub proof fn lemma_commits_are_made(
    space: Seq<char>,
    label: Seq<char>,
    made: SpaceCommitResultView,
    reason: Seq<char>,
    e: Seq<char>,
)
    requires
        space_label(space) == Some(label),
    ensures
        ({
            let m = commit_machine();
            let full = commit_start(space, false);
            let dry = commit_start(space, true);
            &&& full.asks(ActionView::CommitLocal(label))
            &&& full.on(m, EventView::Committed(Ok(made))).ends(Ok(made))
            &&& full.on(m, EventView::Committed(Err(e))).ends(refused(500, e))
            &&& dry.asks(ActionView::CanCommit(label))
            &&& dry.on(m, EventView::Value(Ok(Some(reason)))).ends(
                refused(400, "cannot commit: "@ + reason),
            )
            &&& dry.on(m, EventView::Value(Err(e))).ends(refused(500, e))
            &&& dry.on(m, EventView::Value(Ok(None))).ends(
                Ok(
                    SpaceCommitResultView {
                        space: label,
                        prev_root: None,
                        root: Seq::empty(),
                        handles_committed: 0,
                        is_initial: false,
                    },
                ),
            )
        }),
{
}

// ---------------------------------------------------------------------------
// Publishing
// ---------------------------------------------------------------------------

/// The operator is asked to publish, of the space, exactly the handles that are named, in order,
/// at most a thousand at once, and under the restriction that is in force. Its counts are the
/// answer.
pub proof fn lemma_the_named_handles_are_published(
    space: Seq<char>,
    label: Seq<char>,
    handles: Seq<Seq<char>>,
    require_finalized: bool,
    counts: (usize, usize),
)
    requires
        space_label(space) == Some(label),
    ensures
        publish_start(space, handles, require_finalized).asks(
            ActionView::Publish { space: label, limit: 1000, handles, require_finalized },
        ),
        publish_start(space, handles, require_finalized) == StepView::<bool, (usize, usize)>::Perform(
            require_finalized,
            ActionView::Publish { space: label, limit: 1000, handles, require_finalized },
        ),
        publish_next(require_finalized, EventView::Published(Ok(counts))).ends(Ok(counts)),
{
}

/// A failure to publish is a conflict if and only if final commitments are required and the
/// message says that one is not final yet; it keeps its message.
pub proof fn lemma_unfinished_commitments_conflict(require_finalized: bool, e: Seq<char>)
    ensures
        ({
            let not_final = has_substring(e, "confirmations"@) || has_substring(e, "not broadcast"@)
                || has_substring(e, "not confirmed"@) || has_substring(e, "not committed"@)
                || has_substring(e, "RPC required"@);
            publish_next(require_finalized, EventView::Published(Err(e))).ends(
                refused(
                    if require_finalized && not_final {
                        409
                    } else {
                        500
                    },
                    e,
                ),
            )
        }),
{
}

/// How many handles were parked or removed is the answer, and a failure is the operator's.
pub proof fn lemma_changed_handles_are_counted(n: usize, e: Seq<char>)
    ensures
        count_next(EventView::Counted(Ok(n))).ends(Ok(n)),
        count_next(EventView::Counted(Err(e))).ends(refused(500, e)),
{
}

// ---------------------------------------------------------------------------
// Rolling back
// ---------------------------------------------------------------------------

/// A rollback looks up the proof that is needed, undoes the space's last commitment, and, where
/// that succeeded and a proof was needed, forgets the job of the commitment's step and the one of
/// its fold.
pub proof fn lemma_rollbacks_undo_and_forget(
    space: Seq<char>,
    label: Seq<char>,
    request: Result<Option<ProvingRequestView>, Seq<char>>,
    first: Result<(), Seq<char>>,
    second: Result<(), Seq<char>>,
    e: Seq<char>,
)
    requires
        space_label(space) == Some(label),
    ensures
        ({
            let m = rollback_machine();
            let start = rollback_start(space);
            let found = start.on(m, EventView::Request(request));
            let undone = found.on(m, EventView::Done(Ok(())));
            &&& start.asks(ActionView::NextRequest(label))
            &&& found.asks(ActionView::Rollback(label))
            &&& found.on(m, EventView::Done(Err(e))).ends(refused(500, e))
            &&& match known(request) {
                None => undone.ends(Ok(())),
                Some(r) => {
                    &&& undone.asks(
                        ActionView::DeleteKey(key_of_proof(space, r.commitment_id, false)),
                    )
                    &&& undone.on(m, EventView::Done(first)).asks(
                        ActionView::DeleteKey(key_of_proof(space, r.commitment_id, true)),
                    )
                    &&& undone.on(m, EventView::Done(first)).on(m, EventView::Done(second)).ends(
                        Ok(()),
                    )
                },
            }
        }),
{
}

// ---------------------------------------------------------------------------
// The pipeline
// ---------------------------------------------------------------------------

/// With a job in flight the prover is asked for its progress; else the answer is given.
pub open spec fn tracks(step: PipelineStep, draft: DraftView) -> bool {
    match draft.answer.proving_job_id {
        Some(job_id) => step == PipelineStep::Perform(
            PipelineStageView::Endpoint { draft, job_id },
            ActionView::ReadSetting(Setting::ProverEndpoint),
        ),
        None => step.ends(Ok(draft.answer)),
    }
}

/// Where only final commitments may be published and something is unpublished, the operator is
/// asked whether the next batch of up to a thousand may be; else it may.
pub open spec fn gates(step: PipelineStep, draft: DraftView) -> bool {
    if draft.answer.publish_require_finalized && draft.answer.status.unpublished > 0 {
        step == PipelineStep::Perform(
            PipelineStageView::Gate(draft),
            ActionView::PublishGate { space: draft.label, require_finalized: true, limit: 1000 },
        )
    } else {
        tracks(step, draft)
    }
}

/// The space is loaded and its status looked up; a failure of either is the answer. The answer
/// then holds that status and the restriction in force, and publishing is allowed unless
/// something says otherwise.
pub proof fn lemma_pipelines_begin(
    space: Seq<char>,
    label: Seq<char>,
    require_finalized: bool,
    status: PipelineStatusView,
    prover: Result<Option<Seq<char>>, Seq<char>>,
    e: Seq<char>,
)
    requires
        space_label(space) == Some(label),
    ensures
        ({
            let m = pipeline_machine();
            let start = pipeline_start(space, require_finalized);
            let loaded = start.on(m, EventView::Done(Ok(())));
            let looked_up = loaded.on(m, EventView::Pipeline(Ok(status)));
            let draft = DraftView {
                space,
                label,
                answer: PipelineResponseView {
                    status,
                    prover_configured: known(prover) is Some,
                    proving_job_active: false,
                    publish_require_finalized: require_finalized,
                    publish_allowed: true,
                    publish_blocked_reason: None,
                    proof_index: None,
                    proof_total: None,
                    proving_job_id: None,
                    proving_progress: None,
                },
            };
            let known_prover = looked_up.on(m, EventView::Value(prover));
            &&& start.asks(ActionView::LoadSpace(label))
            &&& start.on(m, EventView::Done(Err(e))).ends(refused(500, e))
            &&& loaded.asks(ActionView::Pipeline(label))
            &&& loaded.on(m, EventView::Pipeline(Err(e))).ends(refused(500, e))
            &&& looked_up.asks(ActionView::ReadSetting(Setting::ProverEndpoint))
            &&& status.commitment_idx is Some ==> known_prover == PipelineStep::Perform(
                PipelineStageView::Request(draft),
                ActionView::NextRequest(label),
            )
            &&& status.commitment_idx is None ==> gates(known_prover, draft)
        }),
{
}

/// Where a proof of the commitment is needed, the answer tells that it is the first or, for a
/// fold, the second, and that there are two from the second commitment after genesis on and else
/// one; and whether, and under which identifier, a job is in flight for it. Where none is
/// needed, or that cannot be found out, the answer tells nothing of it.
pub proof fn lemma_pipelines_tell_the_next_proof(
    draft: DraftView,
    idx: u64,
    request: ProvingRequestView,
    job: Result<Option<Seq<char>>, Seq<char>>,
    e: Seq<char>,
)
    requires
        draft.answer.status.commitment_idx == Some(idx),
    ensures
        ({
            let m = pipeline_machine();
            let found = pipeline_next(
                PipelineStageView::Request(draft),
                EventView::Request(Ok(Some(request))),
            );
            let total: usize = if idx >= 2 {
                2
            } else {
                1
            };
            let index: usize = if request.is_fold {
                2
            } else {
                1
            };
            &&& gates(
                pipeline_next(PipelineStageView::Request(draft), EventView::Request(Ok(None))),
                draft,
            )
            &&& gates(
                pipeline_next(PipelineStageView::Request(draft), EventView::Request(Err(e))),
                draft,
            )
            &&& found.asks(
                ActionView::ReadKey(
                    key_of_proof(draft.space, request.commitment_id, request.is_fold),
                ),
            )
            &&& gates(
                found.on(m, EventView::Value(job)),
                DraftView {
                    answer: PipelineResponseView {
                        proof_index: Some(index),
                        proof_total: Some(total),
                        proving_job_active: known(job) is Some,
                        proving_job_id: known(job),
                        ..draft.answer
                    },
                    ..draft
                },
            )
        }),
{
}

/// Where the operator is asked whether to publish, publishing is allowed in the answer exactly
/// where it says so, with the reason that it gives; a failure to ask blocks it, with the error.
pub proof fn lemma_pipelines_tell_what_the_gate_says(
    draft: DraftView,
    gate: Result<(bool, Option<Seq<char>>), Seq<char>>,
)
    ensures
        tracks(
            pipeline_next(PipelineStageView::Gate(draft), EventView::Gate(gate)),
            DraftView {
                answer: PipelineResponseView {
                    publish_allowed: gate matches Ok((true, _)),
                    publish_blocked_reason: match gate {
                        Ok((_, reason)) => reason,
                        Err(e) => Some(e),
                    },
                    ..draft.answer
                },
                ..draft
            },
        ),
{
}

/// The progress of a job in flight is asked of the prover, at the job's resource and with the
/// stored token, for at most three seconds. What is read is the progress; whatever fails, the
/// rest of the answer is given without it.
pub proof fn lemma_pipelines_tell_the_progress(
    draft: DraftView,
    job_id: Seq<char>,
    endpoint: Seq<char>,
    missing: Result<Option<Seq<char>>, Seq<char>>,
    token: Result<Option<Seq<char>>, Seq<char>>,
    code: u16,
    progress: Result<Option<Seq<char>>, Seq<char>>,
    e: Seq<char>,
)
    requires
        known(missing) is None,
    ensures
        ({
            let m = pipeline_machine();
            let in_flight = PipelineStageView::Endpoint { draft, job_id };
            let placed = pipeline_next(in_flight, EventView::Value(Ok(Some(endpoint))));
            let asked = placed.on(m, EventView::Value(token));
            let answered = asked.on(m, EventView::Sent(Ok(code)));
            &&& pipeline_next(in_flight, EventView::Value(missing)).ends(Ok(draft.answer))
            &&& placed.asks(ActionView::ReadSetting(Setting::ProverAuthToken))
            &&& asked.asks(plain_get(job_url(endpoint, job_id), known(token), Some(3)))
            &&& asked.on(m, EventView::Sent(Err(e))).ends(Ok(draft.answer))
            &&& answered.asks(ActionView::ReadProgress)
            &&& answered.on(m, EventView::Value(progress)).ends(
                Ok(PipelineResponseView { proving_progress: known(progress), ..draft.answer }),
            )
        }),
{
}

/// Whatever comes after the operator was asked, the answer that is given in the end says of
/// publishing what the operator said.
pub proof fn lemma_the_gate_decides_the_answer(
    draft: DraftView,
    asked: ActionView,
    reply: spec_fn(nat, ActionView) -> EventView,
    done: nat,
)
    requires
        replies(reply),
        asked is PublishGate,
    ensures
        ({
            let gate = reply(done, asked)->Gate_0;
            run(
                pipeline_machine(),
                PipelineStep::Perform(PipelineStageView::Gate(draft), asked),
                reply,
                done,
                5,
            ) matches StepView::Finish(Ok(answer)) && {
                &&& answer.publish_allowed == (gate matches Ok((true, _)))
                &&& answer.publish_blocked_reason == (match gate {
                    Ok((_, reason)) => reason,
                    Err(e) => Some(e),
                })
            }
        }),
{
    reveal_with_fuel(run, 6);
    let m = pipeline_machine();
    let s0 = PipelineStep::Perform(PipelineStageView::Gate(draft), asked);
    assert(answers(asked, reply(done, asked)));
    let s1 = s0.on(m, reply(done, asked));
    if s1 is Perform {
        let a1 = s1->Perform_1;
        assert(answers(a1, reply(done + 1, a1)));
        let s2 = s1.on(m, reply(done + 1, a1));
        if s2 is Perform {
            let a2 = s2->Perform_1;
            assert(answers(a2, reply(done + 2, a2)));
            let s3 = s2.on(m, reply(done + 2, a2));
            if s3 is Perform {
                let a3 = s3->Perform_1;
                assert(answers(a3, reply(done + 3, a3)));
                let s4 = s3.on(m, reply(done + 3, a3));
                if s4 is Perform {
                    let a4 = s4->Perform_1;
                    assert(answers(a4, reply(done + 4, a4)));
                }
            }
        }
    }
}

} // verus!
