use subs::prover::progress::{project, ProgressSink, Projection, SegmentProgress};
use subs::prover::server::{
    estimate_answer, get_calibration, health, submit_estimate, JobRequest, JobStatus, JobType,
    ServerState, MAX_BODY_BYTES,
};

fn prove(is_fold: bool) -> JobRequest {
    JobRequest::Prove { is_fold, encoded: vec![1, 2] }
}

fn status(state: &ServerState, id: &str) -> JobStatus {
    match state.get_job_status(id, 0) {
        Ok(s) => s.status,
        Err(e) => panic!("{}", e.message),
    }
}

fn with_job() -> ServerState {
    let mut state = ServerState::new();
    let response = state.submit("j".to_string(), prove(true));
    assert_eq!(response.job_id, "j");
    assert!(response.status == JobStatus::Pending);
    state
}

#[test]
fn a_job_runs_and_its_receipt_is_taken_once() {
    let mut state = with_job();
    assert!(state.get_job_status("j", 0).ok().unwrap().job_type == JobType::Fold);
    let early = state.get_job_receipt("j").err().unwrap();
    assert_eq!((early.status, early.message.as_str()), (400, "Job not complete (status: Pending)"));
    let work = state.begin_work("j", 1_000);
    assert!(matches!(work, Some(JobRequest::Prove { is_fold: true, ref encoded }) if encoded == &vec![1, 2]));
    assert!(status(&state, "j") == JobStatus::Processing);
    state.session_ready("j", 500, 2);
    state.segment_proven("j", 20, 3_001_000);
    let seen = state.get_job_status("j", 5_001_000).ok().unwrap().progress.unwrap();
    assert_eq!((seen.segments, seen.segments_done, seen.total_cycles), (2, 1, 500));
    assert_eq!(seen.proving_cycles_done, 1 << 20);
    assert_eq!(seen.elapsed_nanos, 5_000_000);
    assert_eq!(seen.first_segment_millis, Some(3));
    state.record("j", Ok(vec![7]), 9_001_000);
    assert!(status(&state, "j") == JobStatus::Complete);
    let seen = state.get_job_status("j", u64::MAX).ok().unwrap().progress.unwrap();
    assert_eq!(seen.elapsed_nanos, 9_000_000);
    assert_eq!(state.get_job_receipt("j").ok().unwrap(), vec![7]);
    let gone = state.get_job_receipt("j").err().unwrap();
    assert_eq!((gone.status, gone.message.as_str()), (404, "Job not found"));
    assert_eq!(state.get_job_status("j", 0).err().unwrap().status, 404);
}

#[test]
fn a_failed_job_tells_why() {
    let mut state = with_job();
    state.take_up("j");
    state.record("j", Err("oom".to_string()), 0);
    let seen = state.get_job_status("j", 0).ok().unwrap();
    assert!(seen.status == JobStatus::Failed);
    assert_eq!(seen.error.as_deref(), Some("oom"));
    assert_eq!(seen.job_id, "j");
    let conflict = state.cancel_job("j").err().unwrap();
    assert_eq!((conflict.status, conflict.message.as_str()), (409, "job already Failed"));
}

#[test]
fn a_job_cancelled_while_waiting_never_starts() {
    let mut state = with_job();
    let reply = state.cancel_job("j").ok().unwrap();
    assert!(reply.cancelled && !reply.was_running && reply.note.is_none());
    assert!(status(&state, "j") == JobStatus::Cancelled);
    assert!(state.begin_work("j", 0).is_none());
    assert!(status(&state, "j") == JobStatus::Cancelled);
    assert_eq!(state.cancel_job("j").err().unwrap().message, "job already Cancelled");
}

#[test]
fn a_job_cancelled_while_running_is_dropped() {
    for made in [Ok(vec![1]), Err("oom".to_string())] {
        let mut state = with_job();
        state.begin_work("j", 0);
        let reply = state.cancel_job("j").ok().unwrap();
        assert!(reply.was_running);
        assert_eq!(reply.note.as_deref(), Some("proof runs to completion; receipt discarded"));
        assert!(status(&state, "j") == JobStatus::Processing);
        state.record("j", made, 5);
        let seen = state.get_job_status("j", 9).ok().unwrap();
        assert!(seen.status == JobStatus::Cancelled && seen.error.is_none());
        assert_eq!(state.get_job_receipt("j").err().unwrap().message, "Job not complete (status: Cancelled)");
    }
}

#[test]
fn jobs_do_not_affect_each_other() {
    let mut state = with_job();
    state.submit("k".to_string(), JobRequest::Compress { encoded: vec![] });
    state.cancel_job("j").ok().unwrap();
    assert!(status(&state, "k") == JobStatus::Pending);
    assert!(matches!(state.begin_work("k", 0), Some(JobRequest::Compress { .. })));
    assert!(state.get_job_status("k", 0).ok().unwrap().progress.is_none());
    assert_eq!(state.cancel_job("nobody").err().unwrap().status, 404);
    assert!(state.begin_work("nobody", 0).is_none());
    state.record("nobody", Ok(vec![]), 0);
}

#[test]
fn submissions_get_identifiers_of_their_own() {
    let mut state = ServerState::new();
    let a = state.submit_prove(Ok(false), vec![1]).ok().unwrap();
    let b = state.submit_compress(Ok(()), vec![2]).ok().unwrap();
    assert_ne!(a.job_id, b.job_id);
    assert_eq!(a.job_id.len(), 36);
    assert!(state.get_job_status(&a.job_id, 0).ok().unwrap().job_type == JobType::Step);
    assert!(state.get_job_status(&b.job_id, 0).ok().unwrap().job_type == JobType::Compress);
    let bad = state.submit_prove(Err("eof".to_string()), vec![]).err().unwrap();
    assert_eq!((bad.status, bad.message.as_str()), (400, "Invalid proving request: eof"));
    let bad = state.submit_compress(Err("eof".to_string()), vec![]).err().unwrap();
    assert_eq!(bad.message, "Invalid compress input: eof");
}

#[test]
fn counters() {
    let mut sink = ProgressSink::new(100);
    assert!(sink.snapshot(100).projection.is_none());
    sink.on_session_ready(10, 5);
    sink.on_segment_proven(20, 2_000_100);
    sink.on_segment_proven(18, 5_000_100);
    let s = sink.snapshot(6_000_100);
    assert_eq!(s.proving_cycles_done, (1 << 20) + (1 << 18));
    assert_eq!((s.segments, s.segments_done, s.elapsed_nanos), (5, 2, 6_000_000));
    assert_eq!(s.first_segment_millis, Some(2));
    assert!(s.projection == Some(Projection { base_millis: 2, over: 1, segments: 4 }));
    assert_eq!(sink.snapshot(0).elapsed_nanos, 0);
    sink.finish(7_000_100);
    assert_eq!(sink.snapshot(u64::MAX).elapsed_nanos, 7_000_000);
    let mut hook = SegmentProgress::new(ProgressSink::new(0));
    hook.on_post_prove_segment(63, 999_999);
    assert_eq!(hook.sink.proving_cycles_done, 1 << 63);
    assert_eq!(hook.sink.snapshot(0).first_segment_millis, None);
}

#[test]
fn projections() {
    assert!(project(0, 5, 9).is_none());
    assert!(project(3, 0, 9).is_none());
    assert!(project(1, 5, 9) == Some(Projection { base_millis: 0, over: 1, segments: 5 }));
    assert!(project(3, 5, 9) == Some(Projection { base_millis: 9, over: 2, segments: 4 }));
}

#[test]
fn other_answers_of_the_prover() {
    assert_eq!(health(), "ok");
    assert_eq!(MAX_BODY_BYTES, 536_870_912);
    assert_eq!(get_calibration(Some(3)).ok(), Some(3));
    let refused = get_calibration::<u8>(None).err().unwrap();
    assert_eq!((refused.status, refused.message.as_str()), (503, "calibration unavailable (skipped or failed)"));
    assert_eq!(submit_estimate(Ok(4)).ok(), Some(4));
    assert_eq!(submit_estimate::<u8>(Err("x".to_string())).err().unwrap().message, "Invalid proving request: x");
    assert_eq!(estimate_answer(Ok(Ok(1))).ok(), Some(1));
    assert_eq!(estimate_answer::<u8>(Ok(Err("a".to_string()))).err().unwrap().message, "Estimate failed: a");
    assert_eq!(estimate_answer::<u8>(Err("b".to_string())).err().unwrap().message, "Task panicked: b");
}
