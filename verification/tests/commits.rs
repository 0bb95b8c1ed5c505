use subs::flow::{Action, Event, PipelineStatus, ProvingRequest, SpaceCommitResult, StatusCode, Step};
use subs::routes::commits::{
    broadcast, broadcast_answer, commit_local, commit_status_answer, get_commit_status, get_fees,
    get_pipeline_status, park_handles, publish_certs, remove_handles, rollback_local, CommitBody,
    CommitStatus, ParkBody, ParkStage, PipelineResponse, PipelineStage, PublishBody,
    RecommendedFees, RemoveBody, RemoveStage,
};

fn perform<S, T>(step: Step<S, T>) -> (S, Action) {
    match step {
        Step::Perform(stage, action) => (stage, action),
        Step::Finish(_) => panic!("finished early"),
        Step::Ignored(_) => panic!("ignored the event"),
    }
}

fn finish<S, T>(step: Step<S, T>) -> Result<T, (u16, String)> {
    match step {
        Step::Finish(Ok(answer)) => Ok(answer),
        Step::Finish(Err(e)) => Err((e.status, e.message)),
        Step::Perform(_, _) => panic!("still going"),
        Step::Ignored(_) => panic!("ignored the event"),
    }
}

fn value(text: &str) -> Event {
    Event::Value(Ok(Some(text.to_string())))
}

fn needed(id: i64, is_fold: bool) -> Event {
    Event::Request(Ok(Some(ProvingRequest { commitment_id: id, is_fold, encoded: Ok(vec![]) })))
}

#[test]
fn fees_or_unavailable() {
    let fees = RecommendedFees {
        fastest_fee: 5,
        half_hour_fee: 4,
        hour_fee: 3,
        economy_fee: 2,
        minimum_fee: 1,
    };
    assert_eq!(get_fees(Some(fees)).ok().unwrap().hour_fee, 3);
    let refused = get_fees(None).err().unwrap();
    assert_eq!(refused.status, 503);
    assert_eq!(refused.message, "could not fetch fee rates from mempool.space");
}

#[test]
fn a_dry_run_commits_nothing() {
    let (s, a) = perform(commit_local("@example", &CommitBody { dry_run: true }));
    assert!(matches!(a, Action::CanCommit(ref l) if l == "@example"));
    let result = finish(s.step(Event::Value(Ok(None)))).unwrap();
    assert_eq!(result.space, "@example");
    assert_eq!(result.root, "");
    assert_eq!(result.handles_committed, 0);
    assert!(result.prev_root.is_none() && !result.is_initial);
    let (s, _) = perform(commit_local("@example", &CommitBody { dry_run: true }));
    assert_eq!(
        finish(s.step(value("unproven"))).err(),
        Some((400, "cannot commit: unproven".to_string()))
    );
}

#[test]
fn a_commit_gives_what_the_operator_made() {
    let (s, a) = perform(commit_local("@example", &CommitBody { dry_run: false }));
    assert!(matches!(a, Action::CommitLocal(ref l) if l == "@example"));
    let made = SpaceCommitResult {
        space: "@example".to_string(),
        prev_root: None,
        root: "aa".to_string(),
        handles_committed: 2,
        is_initial: true,
    };
    let result = finish(s.step(Event::Committed(Ok(made)))).unwrap();
    assert_eq!(result.root, "aa");
    assert_eq!(finish(commit_local("x y", &CommitBody { dry_run: false })).err().unwrap().0, 400);
}

#[test]
fn broadcast_converts_the_fee() {
    let asked = broadcast("@example", Some(4)).ok().unwrap();
    assert_eq!(asked.space, "@example");
    assert_eq!(asked.fee_per_kwu, Some(1000));
    assert_eq!(broadcast("@example", None).ok().unwrap().fee_per_kwu, None);
    assert_eq!(broadcast_answer(Ok("ff".to_string())).ok().unwrap().txid, "ff");
    assert_eq!(broadcast_answer(Err("x".to_string())).err().unwrap().status, 500);
}

#[test]
fn commit_status_is_spelled_out() {
    assert_eq!(get_commit_status("@example").ok().unwrap(), "@example");
    let none = commit_status_answer(Ok(CommitStatus::Absent)).ok().unwrap();
    assert_eq!(none.status, "none");
    let pending = commit_status_answer(Ok(CommitStatus::Pending { txid: "t".to_string() })).ok().unwrap();
    assert_eq!((pending.status.as_str(), pending.txid.as_deref()), ("pending", Some("t")));
    let status = CommitStatus::Confirmed { txid: "t".to_string(), block_height: 9, confirmations: 3 };
    let confirmed = commit_status_answer(Ok(status)).ok().unwrap();
    assert_eq!(confirmed.status, "confirmed");
    assert_eq!((confirmed.block_height, confirmed.confirmations), (Some(9), Some(3)));
    let done = commit_status_answer(Ok(CommitStatus::Finalized { block_height: 7 })).ok().unwrap();
    assert_eq!(done.status, "finalized");
    assert_eq!((done.block_height, done.confirmations, done.txid), (Some(7), None, None));
    assert_eq!(commit_status_answer(Err("x".to_string())).err().unwrap().status, 500);
}

#[test]
fn publishing_asks_for_a_batch() {
    let body = PublishBody { handles: vec!["a@example".to_string()] };
    let (s, a) = perform(publish_certs("@example", Some(body), true));
    match a {
        Action::Publish { space, limit, handles, require_finalized } => {
            assert_eq!((space.as_str(), limit, require_finalized), ("@example", 1000, true));
            assert_eq!(handles, vec!["a@example".to_string()]);
        }
        _ => panic!("expected a publish"),
    }
    let answer = finish(s.step(Event::Published(Ok((3, 4))))).unwrap();
    assert_eq!((answer.handles_published, answer.remaining), (3, 4));
}

#[test]
fn an_unfinished_commitment_is_a_conflict_where_that_matters() {
    let fail = |strict: bool, message: &str| {
        let (s, _) = perform(publish_certs("@example", None, strict));
        finish(s.step(Event::Published(Err(message.to_string())))).err().unwrap().0
    };
    for message in [
        "needs 150 confirmations",
        "commitment not broadcast",
        "tx not confirmed",
        "handle not committed",
        "RPC required for this",
    ] {
        assert_eq!(fail(true, message), 409);
        assert_eq!(fail(false, message), 500);
    }
    assert_eq!(fail(true, "relay said no"), 500);
}

#[test]
fn rollback_forgets_both_jobs() {
    let (s, a) = perform(rollback_local("@example"));
    assert!(matches!(a, Action::NextRequest(_)));
    let (s, a) = perform(s.step(needed(6, true)));
    assert!(matches!(a, Action::Rollback(ref l) if l == "@example"));
    let (s, a) = perform(s.step(Event::Done(Ok(()))));
    assert!(matches!(a, Action::DeleteKey(ref k) if k == "job:@example:6:step"));
    let (s, a) = perform(s.step(Event::Done(Err("x".to_string()))));
    assert!(matches!(a, Action::DeleteKey(ref k) if k == "job:@example:6:fold"));
    assert!(finish(s.step(Event::Done(Ok(())))).is_ok());
}

#[test]
fn a_failed_rollback_forgets_nothing() {
    let (s, _) = perform(rollback_local("@example"));
    let (s, _) = perform(s.step(needed(6, true)));
    assert_eq!(
        finish(s.step(Event::Done(Err("broadcast".to_string())))).err(),
        Some((500, "broadcast".to_string()))
    );
    let (s, _) = perform(rollback_local("@example"));
    let (s, _) = perform(s.step(Event::Request(Err("db".to_string()))));
    assert!(finish(s.step(Event::Done(Ok(())))).is_ok());
}

#[test]
fn handles_are_parked_as_asked() {
    let body = ParkBody {
        handles: vec!["alice".to_string()],
        parked: true,
        search: Some("al".to_string()),
        filter: None,
    };
    let (s, a) = perform(park_handles("@example", body));
    match a {
        Action::Park { space, handles, parked, search, filter } => {
            assert_eq!((space.as_str(), parked), ("@example", true));
            assert_eq!(handles, vec!["alice".to_string()]);
            assert_eq!((search.as_deref(), filter), (Some("al"), None));
        }
        _ => panic!("expected handles to be parked"),
    }
    assert_eq!(finish(s.step(Event::Counted(Ok(3)))).unwrap().updated, 3);
    assert_eq!(
        finish(ParkStage.step(Event::Counted(Err("x".to_string())))).err(),
        Some((500, "x".to_string()))
    );
    let body = ParkBody { handles: vec![], parked: false, search: None, filter: None };
    assert_eq!(finish(park_handles("x y", body)).err().unwrap().0, 400);
}

#[test]
fn handles_are_removed_as_asked() {
    let body = RemoveBody {
        handles: vec!["bob".to_string()],
        search: None,
        filter: Some("staged".to_string()),
    };
    let (s, a) = perform(remove_handles("@example", body));
    match a {
        Action::Remove { space, handles, search, filter } => {
            assert_eq!(space, "@example");
            assert_eq!(handles, vec!["bob".to_string()]);
            assert_eq!((search, filter.as_deref()), (None, Some("staged")));
        }
        _ => panic!("expected handles to be removed"),
    }
    assert_eq!(finish(s.step(Event::Counted(Ok(2)))).unwrap().removed, 2);
    assert_eq!(
        finish(RemoveStage.step(Event::Counted(Err("x".to_string())))).err(),
        Some((500, "x".to_string()))
    );
}

fn status(idx: Option<u64>, unpublished: u64) -> Event {
    Event::Pipeline(Ok(PipelineStatus { commitment_idx: idx, unpublished, fields: "{}".to_string() }))
}

fn pipeline(strict: bool, idx: Option<u64>, unpublished: u64) -> Step<PipelineStage, PipelineResponse> {
    let (s, a) = perform(get_pipeline_status("@example", strict));
    assert!(matches!(a, Action::LoadSpace(_)));
    let (s, a) = perform(s.step(Event::Done(Ok(()))));
    assert!(matches!(a, Action::Pipeline(_)));
    let (s, _) = perform(s.step(status(idx, unpublished)));
    s.step(value("http://p"))
}

#[test]
fn pipeline_without_a_commitment() {
    let answer = finish(pipeline(false, None, 5)).unwrap();
    assert!(answer.prover_configured && answer.publish_allowed && !answer.proving_job_active);
    assert_eq!((answer.proof_index, answer.proof_total), (None, None));
    assert_eq!(answer.status.unpublished, 5);
}

#[test]
fn pipeline_with_a_job_and_a_gate() {
    let (s, a) = perform(pipeline(true, Some(2), 1));
    assert!(matches!(a, Action::NextRequest(_)));
    let (s, a) = perform(s.step(needed(9, true)));
    assert!(matches!(a, Action::ReadKey(ref k) if k == "job:@example:9:fold"));
    let (s, a) = perform(s.step(value("job")));
    assert!(matches!(a, Action::PublishGate { require_finalized: true, limit: 1000, .. }));
    let (s, _) = perform(s.step(Event::Gate(Ok((false, Some("wait".to_string()))))));
    let (s, _) = perform(s.step(value("http://p/")));
    let (s, a) = perform(s.step(Event::Value(Ok(None))));
    assert!(matches!(a, Action::Send(ref c) if c.url == "http://p/jobs/job" && c.timeout == Some(3)));
    let (s, a) = perform(s.step(Event::Sent(Ok(StatusCode::from_u16(200).unwrap()))));
    assert!(matches!(a, Action::ReadProgress));
    let answer = finish(s.step(value("{\"segments\":4}"))).unwrap();
    assert!(answer.proving_job_active && !answer.publish_allowed);
    assert_eq!(answer.proving_job_id.as_deref(), Some("job"));
    assert_eq!(answer.proving_progress.as_deref(), Some("{\"segments\":4}"));
    assert_eq!(answer.publish_blocked_reason.as_deref(), Some("wait"));
    assert_eq!((answer.proof_index, answer.proof_total), (Some(2), Some(2)));
}

#[test]
fn pipeline_survives_failures() {
    let (s, _) = perform(pipeline(true, Some(1), 1));
    let (s, _) = perform(s.step(needed(9, false)));
    let (s, _) = perform(s.step(value("job")));
    let (s, _) = perform(s.step(Event::Gate(Err("rpc".to_string()))));
    let (s, _) = perform(s.step(value("http://p")));
    let (s, _) = perform(s.step(Event::Value(Err("db".to_string()))));
    let answer = finish(s.step(Event::Sent(Err("down".to_string())))).unwrap();
    assert_eq!((answer.proof_index, answer.proof_total), (Some(1), Some(1)));
    assert_eq!(answer.publish_blocked_reason.as_deref(), Some("rpc"));
    assert!(!answer.publish_allowed && answer.proving_progress.is_none());
    let (s, _) = perform(get_pipeline_status("@example", false));
    assert_eq!(finish(s.step(Event::Done(Err("x".to_string())))).err(), Some((500, "x".to_string())));
}
