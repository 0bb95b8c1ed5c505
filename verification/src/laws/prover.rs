//! The prover's jobs, their progress, and who may use it.
use vstd::prelude::*;

use crate::flow::ApiErrorView;
use crate::laws::history::refused;
use crate::prover::progress::{
    projected, segment_cycles, ProgressSink, Projection, Snapshot,
};
use crate::prover::server::{
    advancing, after_receipt, beginning, cancel_answer, cancelling, changed, ending, preparing,
    presents, receipt_answer, status_answer, taking_up, work_of, CancelReplyView,
    JobRequestView, JobStatus, JobStatusResponseView, JobType, JobView,
};

verus! {

/// A job that was submitted waits, with nothing made, nothing counted and nobody having cancelled
/// it; it is a fold, a step or a compression as its request is.
pub proof fn lemma_submitted_jobs_wait(id: Seq<char>, is_fold: bool, encoded: Seq<u8>)
    ensures
        JobView::fresh(id, JobRequestView::Prove { is_fold, encoded }) == (JobView {
            id,
            job_type: if is_fold {
                JobType::Fold
            } else {
                JobType::Step
            },
            status: JobStatus::Pending,
            request: JobRequestView::Prove { is_fold, encoded },
            receipt: None,
            error: None,
            progress: None,
            cancel_requested: false,
        }),
        JobView::fresh(id, JobRequestView::Compress { encoded }) == (JobView {
            id,
            job_type: JobType::Compress,
            status: JobStatus::Pending,
            request: JobRequestView::Compress { encoded },
            receipt: None,
            error: None,
            progress: None,
            cancel_requested: false,
        }),
{
}

/// The worker gets what a wanted job works on, and the job is then under way; for a job that is no
/// longer wanted, or not there, it gets nothing and nothing changes.
pub proof fn lemma_workers_get_wanted_jobs(jobs: Map<Seq<char>, JobView>, id: Seq<char>)
    ensures
        ({
            let after = changed(jobs, id, taking_up());
            if jobs.contains_key(id) && !jobs[id].cancel_requested {
                &&& work_of(jobs, id) == Some(jobs[id].request)
                &&& after == jobs.insert(
                    id,
                    JobView { status: JobStatus::Processing, ..jobs[id] },
                )
            } else {
                work_of(jobs, id) is None && after == jobs
            }
        }),
{
    if jobs.contains_key(id) && jobs[id].cancel_requested {
        assert(changed(jobs, id, taking_up()) =~= jobs);
    }
}

/// When the work on a wanted job ends, the job is complete with the receipt, or failed with the
/// error; a job that is no longer wanted is cancelled and keeps neither. Either way the clock stops
/// at that time, and all else stays.
pub proof fn lemma_work_ends(
    jobs: Map<Seq<char>, JobView>,
    id: Seq<char>,
    receipt: Seq<u8>,
    e: Seq<char>,
    now: u64,
)
    requires
        jobs.contains_key(id),
    ensures
        ({
            let job = jobs[id];
            let made = changed(jobs, id, ending(Ok(receipt), now));
            let failed = changed(jobs, id, ending(Err(e), now));
            let stopped = JobView {
                progress: match job.progress {
                    None => None,
                    Some(sink) => Some(
                        ProgressSink { finished: Some(sink.elapsed_at(now)), ..sink },
                    ),
                },
                ..job
            };
            if job.cancel_requested {
                &&& made == jobs.insert(id, JobView { status: JobStatus::Cancelled, ..stopped })
                &&& failed == jobs.insert(id, JobView { status: JobStatus::Cancelled, ..stopped })
            } else {
                &&& made == jobs.insert(
                    id,
                    JobView { status: JobStatus::Complete, receipt: Some(receipt), ..stopped },
                )
                &&& failed == jobs.insert(
                    id,
                    JobView { status: JobStatus::Failed, error: Some(e), ..stopped },
                )
            }
        }),
        forall|other: Seq<char>|
            !jobs.contains_key(other) ==> #[trigger] changed(jobs, other, ending(Ok(receipt), now))
                == jobs,
{
}

/// A cancellation of a job that waits ends it, one of a job that runs marks it, and both are told
/// apart in the reply; of a job that is over it is a conflict that names the status, and changes
/// nothing; of a job that is not there it finds nothing.
pub proof fn lemma_cancellations(jobs: Map<Seq<char>, JobView>, id: Seq<char>)
    ensures
        ({
            let after = changed(jobs, id, cancelling());
            let said = cancel_answer(jobs, id);
            if !jobs.contains_key(id) {
                said == refused::<CancelReplyView>(404, "Job not found"@) && after == jobs
            } else {
                match jobs[id].status {
                    JobStatus::Pending => {
                        &&& said == Ok::<CancelReplyView, ApiErrorView>(
                            CancelReplyView { cancelled: true, was_running: false, note: None },
                        )
                        &&& after == jobs.insert(
                            id,
                            JobView {
                                status: JobStatus::Cancelled,
                                cancel_requested: true,
                                ..jobs[id]
                            },
                        )
                    },
                    JobStatus::Processing => {
                        &&& said == Ok::<CancelReplyView, ApiErrorView>(
                            CancelReplyView {
                                cancelled: true,
                                was_running: true,
                                note: Some("proof runs to completion; receipt discarded"@),
                            },
                        )
                        &&& after == jobs.insert(
                            id,
                            JobView { cancel_requested: true, ..jobs[id] },
                        )
                    },
                    JobStatus::Complete => said == refused::<CancelReplyView>(
                        409,
                        "job already "@ + "Complete"@,
                    ) && after == jobs,
                    JobStatus::Failed => said == refused::<CancelReplyView>(
                        409,
                        "job already "@ + "Failed"@,
                    ) && after == jobs,
                    JobStatus::Cancelled => said == refused::<CancelReplyView>(
                        409,
                        "job already "@ + "Cancelled"@,
                    ) && after == jobs,
                }
            }
        }),
{
    if jobs.contains_key(id) {
        let job = jobs[id];
        if job.status == JobStatus::Complete || job.status == JobStatus::Failed || job.status
            == JobStatus::Cancelled {
            assert(changed(jobs, id, cancelling()) =~= jobs);
        }
    }
}

/// The receipt of a complete job is given out and the job forgotten with it; a job that is not
/// complete is refused with its status and stays; one that is not there is not found.
pub proof fn lemma_receipts(jobs: Map<Seq<char>, JobView>, id: Seq<char>)
    ensures
        ({
            let given = receipt_answer(jobs, id);
            let after = after_receipt(jobs, id);
            let name = match jobs[id].status {
                JobStatus::Pending => "Pending"@,
                JobStatus::Processing => "Processing"@,
                JobStatus::Failed => "Failed"@,
                JobStatus::Cancelled => "Cancelled"@,
                JobStatus::Complete => "Complete"@,
            };
            if !jobs.contains_key(id) {
                given == refused::<Seq<u8>>(404, "Job not found"@) && after == jobs
            } else if jobs[id].status == JobStatus::Complete {
                &&& after == jobs.remove(id)
                &&& given == match jobs[id].receipt {
                    Some(receipt) => Ok::<Seq<u8>, ApiErrorView>(receipt),
                    None => refused(500, "Receipt not available"@),
                }
            } else {
                given == refused::<Seq<u8>>(
                    400,
                    "Job not complete (status: "@ + name + ")"@,
                ) && after == jobs
            }
        }),
{
}

/// A query for a job tells its identifier, its kind, its status, its error, and its progress at that
/// time where it has any.
pub proof fn lemma_jobs_are_told_of(jobs: Map<Seq<char>, JobView>, id: Seq<char>, now: u64)
    ensures
        if jobs.contains_key(id) {
            status_answer(jobs, id, now) == Ok::<JobStatusResponseView, ApiErrorView>(
                JobStatusResponseView {
                    job_id: jobs[id].id,
                    job_type: jobs[id].job_type,
                    status: jobs[id].status,
                    error: jobs[id].error,
                    progress: match jobs[id].progress {
                        Some(sink) => Some(sink.snapshot_at(now)),
                        None => None,
                    },
                },
            )
        } else {
            status_answer(jobs, id, now) == refused::<JobStatusResponseView>(
                404,
                "Job not found"@,
            )
        },
{
}

/// Progress changes the counters of the job alone: they start at nothing when proving begins, take
/// what the session says, and count each segment; a job without counters has none to change.
pub proof fn lemma_progress_is_counted(
    jobs: Map<Seq<char>, JobView>,
    id: Seq<char>,
    cycles: u64,
    segments: usize,
    po2: usize,
    now: u64,
)
    requires
        jobs.contains_key(id),
    ensures
        changed(jobs, id, beginning(now)) == jobs.insert(
            id,
            JobView {
                progress: Some(
                    ProgressSink {
                        started: now,
                        total_cycles: 0,
                        segments: 0,
                        segments_done: 0,
                        proving_cycles_done: 0,
                        first_segment_millis: 0,
                        finished: None,
                    },
                ),
                ..jobs[id]
            },
        ),
        jobs[id].progress matches Some(sink) ==> changed(jobs, id, preparing(cycles, segments))
            == jobs.insert(
            id,
            JobView {
                progress: Some(ProgressSink { total_cycles: cycles, segments, ..sink }),
                ..jobs[id]
            },
        ) && changed(jobs, id, advancing(po2, now)) == jobs.insert(
            id,
            JobView { progress: Some(sink.after_segment(po2, now)), ..jobs[id] },
        ),
        jobs[id].progress is None ==> changed(jobs, id, preparing(cycles, segments)) == jobs
            && changed(jobs, id, advancing(po2, now)) == jobs,
{
    if jobs[id].progress is None {
        assert(changed(jobs, id, preparing(cycles, segments)) =~= jobs);
        assert(changed(jobs, id, advancing(po2, now)) =~= jobs);
    }
}

/// A segment adds one to the count and its padded cycles, two to the power, to the cycles, as long
/// as these fit; the time of the first one is kept in whole milliseconds; all else stays.
pub proof fn lemma_a_segment_is_counted(sink: ProgressSink, po2: usize, now: u64)
    requires
        sink.segments_done < usize::MAX,
        sink.proving_cycles_done + segment_cycles(po2 as nat) <= u64::MAX,
    ensures
        sink.after_segment(po2, now) == (ProgressSink {
            segments_done: (sink.segments_done + 1) as usize,
            proving_cycles_done: (sink.proving_cycles_done + segment_cycles(po2 as nat)) as u64,
            first_segment_millis: if sink.segments_done == 0 {
                (sink.elapsed_at(now) / 1_000_000) as u64
            } else {
                sink.first_segment_millis
            },
            ..sink
        }),
        segment_cycles(0) == 1,
        segment_cycles((po2 + 1) as nat) == 2 * segment_cycles(po2 as nat),
{
}

/// The time that a job has taken is that since its start until now or, once it is over, until its
/// end; a clock that is behind the start shows none.
pub proof fn lemma_time_taken(sink: ProgressSink, now: u64)
    ensures
        sink.finished is None && now >= sink.started ==> sink.elapsed_at(now) == now - sink.started,
        sink.finished is None && now < sink.started ==> sink.elapsed_at(now) == 0,
        sink.finished matches Some(taken) ==> sink.elapsed_at(now) == taken,
{
}

/// A snapshot shows the counters as they are, the time taken, the time of the first segment where
/// it is a millisecond or more, and how to project the total: from the mean of all after the first
/// segment, and from that of the later ones, beside the first, after more.
pub proof fn lemma_snapshots_show_the_counters(sink: ProgressSink, now: u64)
    ensures
        sink.snapshot_at(now) == (Snapshot {
            total_cycles: sink.total_cycles,
            proving_cycles_done: sink.proving_cycles_done,
            segments: sink.segments,
            segments_done: sink.segments_done,
            elapsed_nanos: sink.elapsed_at(now),
            projection: if sink.segments == 0 || sink.segments_done == 0 {
                None
            } else if sink.segments_done == 1 {
                Some(Projection { base_millis: 0, over: 1, segments: sink.segments })
            } else {
                Some(
                    Projection {
                        base_millis: sink.first_segment_millis,
                        over: (sink.segments_done - 1) as usize,
                        segments: (sink.segments - 1) as usize,
                    },
                )
            },
            first_segment_millis: if sink.first_segment_millis == 0 {
                None
            } else {
                Some(sink.first_segment_millis)
            },
        }),
{
}

/// A header that does not present a token does not pass, whatever is expected.
pub proof fn lemma_other_headers_do_not_pass(header: Seq<char>, expected: Seq<char>)
    requires
        !(exists|token: Seq<char>| header == #[trigger] ("Bearer "@ + token)),
    ensures
        !presents(Some(header), expected),
        !presents(None, expected),
{
    if presents(Some(header), expected) {
        assert(header =~= "Bearer "@ + expected);
    }
}

} // verus!
