use subs::background::{
    fetch_and_store_estimate, poll_job, proving_loop, publish_failure_is_expected, registry_loop,
    Fetched, Polled, ProvingStage, RegistryStage,
};
use subs::flow::{Action, Event, JobReport, ProvingRequest, Setting, StatusCode, Step};
use subs::routes::commits::PUBLISH_BATCH_SIZE;
use subs::routes::proving::{Site, Work};

fn perform<S, T>(step: Step<S, T>) -> (S, Action) {
    match step {
        Step::Perform(stage, action) => (stage, action),
        Step::Finish(_) => panic!("finished early"),
        Step::Ignored(_) => panic!("ignored the event"),
    }
}

fn finish<S, T>(step: Step<S, T>) -> T {
    match step {
        Step::Finish(Ok(answer)) => answer,
        _ => panic!("not finished"),
    }
}

fn code(n: u16) -> Event {
    Event::Sent(Ok(StatusCode::from_u16(n).unwrap()))
}

fn site() -> Site {
    Site {
        space: "@example".to_string(),
        label: "@example".to_string(),
        endpoint: "http://p/".to_string(),
        token: None,
    }
}

fn work() -> Work {
    Work { site: site(), commitment_id: 3, is_fold: false, job_id: "j".to_string() }
}

fn value(text: &str) -> Event {
    Event::Value(Ok(Some(text.to_string())))
}

fn needed(id: i64) -> Event {
    Event::Request(Ok(Some(ProvingRequest { commitment_id: id, is_fold: false, encoded: Ok(vec![1]) })))
}

#[test]
fn a_job_that_the_prover_lost_is_forgotten() {
    let (s, _) = perform(poll_job(work()));
    let (s, a) = perform(s.step(code(404)));
    assert!(matches!(a, Action::DeleteKey(ref k) if k == "job:@example:3:step"));
    assert!(
        matches!(finish(s.step(Event::Done(Ok(())))), Polled::Failed(ref e) if e == "prover returned 404 Not Found")
    );
}

#[test]
fn other_failures_keep_the_job() {
    let (s, _) = perform(poll_job(work()));
    assert!(
        matches!(finish(s.step(code(502))), Polled::Failed(ref e) if e == "prover returned 502 Bad Gateway")
    );
    let (s, _) = perform(poll_job(work()));
    assert!(matches!(finish(s.step(Event::Sent(Err("down".to_string())))), Polled::Failed(ref e) if e == "down"));
}

#[test]
fn a_failed_job_is_forgotten() {
    let (s, _) = perform(poll_job(work()));
    let (s, _) = perform(s.step(code(200)));
    let report = JobReport { status: "failed".to_string(), error: None };
    let (s, a) = perform(s.step(Event::Report(Ok(report))));
    assert!(matches!(a, Action::DeleteKey(_)));
    assert!(matches!(finish(s.step(Event::Done(Ok(())))), Polled::Complete));
}

#[test]
fn an_unfinished_job_is_left_alone() {
    let (s, _) = perform(poll_job(work()));
    let (s, _) = perform(s.step(code(200)));
    let report = JobReport { status: "pending".to_string(), error: None };
    assert!(matches!(finish(s.step(Event::Report(Ok(report)))), Polled::Unfinished));
}

#[test]
fn estimates_are_stored_as_they_come() {
    let request = ProvingRequest { commitment_id: 8, is_fold: true, encoded: Ok(vec![5]) };
    let (s, a) = perform(fetch_and_store_estimate(site(), request));
    assert!(
        matches!(a, Action::Send(ref c) if c.post && c.url == "http://p/estimate" && c.timeout == Some(120))
    );
    let (s, _) = perform(s.step(code(200)));
    let (s, a) = perform(s.step(Event::Text(Ok("{}".to_string()))));
    assert!(matches!(a, Action::SaveEstimate { ref estimate, commitment_id: 8, .. } if estimate == "{}"));
    assert!(matches!(finish(s.step(Event::Done(Ok(())))), Fetched::Stored));

    let broken = ProvingRequest { commitment_id: 8, is_fold: true, encoded: Err("io".to_string()) };
    assert!(matches!(finish(fetch_and_store_estimate(site(), broken)), Fetched::Failed(ref e) if e == "io"));
}

fn round(spaces: &[&str]) -> Step<ProvingStage, ()> {
    let (s, a) = perform(proving_loop());
    assert!(matches!(a, Action::Sleep(2_000)));
    let (s, a) = perform(s.step(Event::Woke));
    assert!(matches!(a, Action::ReadSetting(Setting::ProverEndpoint)));
    let (s, _) = perform(s.step(value("http://p")));
    let (s, a) = perform(s.step(Event::Value(Ok(None))));
    assert!(matches!(a, Action::ListSpaces));
    s.step(Event::Spaces(spaces.iter().map(|s| s.to_string()).collect()))
}

#[test]
fn the_proving_loop_sleeps_without_a_prover() {
    let (s, _) = perform(proving_loop());
    let (s, _) = perform(s.step(Event::Woke));
    let (_, a) = perform(s.step(Event::Value(Ok(None))));
    assert!(matches!(a, Action::Sleep(10_000)));
    let (_, a) = perform(round(&[]));
    assert!(matches!(a, Action::Sleep(10_000)));
}

#[test]
fn the_proving_loop_visits_every_space() {
    let (s, a) = perform(round(&["@a", "@b"]));
    assert!(matches!(a, Action::NextRequest(ref l) if l == "@a"));
    let (s, a) = perform(s.step(Event::Request(Err("db".to_string()))));
    assert!(matches!(a, Action::NextRequest(ref l) if l == "@b"));
    let (s, a) = perform(s.step(needed(5)));
    assert!(matches!(a, Action::ReadKey(ref k) if k == "job:@b:5:step"));
    let (s, a) = perform(s.step(Event::Value(Err("db".to_string()))));
    assert!(matches!(a, Action::Send(ref c) if c.url == "http://p/estimate"));
    let (_, a) = perform(s.step(Event::Sent(Err("down".to_string()))));
    assert!(matches!(a, Action::Sleep(5_000)));
}

#[test]
fn the_proving_loop_collects_finished_jobs() {
    let (s, _) = perform(round(&["@a"]));
    let (s, _) = perform(s.step(needed(5)));
    let (s, a) = perform(s.step(value("job")));
    assert!(matches!(a, Action::Send(ref c) if c.url == "http://p/jobs/job"));
    let (s, _) = perform(s.step(code(200)));
    let report = JobReport { status: "complete".to_string(), error: None };
    let (s, _) = perform(s.step(Event::Report(Ok(report))));
    let (s, _) = perform(s.step(code(200)));
    let (s, a) = perform(s.step(Event::Bytes(Ok(vec![4]))));
    assert!(matches!(a, Action::Fulfill { commitment_id: 5, is_fold: false, .. }));
    let (s, _) = perform(s.step(Event::Done(Ok(()))));
    let (s, a) = perform(s.step(Event::Done(Ok(()))));
    assert!(matches!(a, Action::ClearEstimate { commitment_id: 5, .. }));
    let (_, a) = perform(s.step(Event::Done(Err("db".to_string()))));
    assert!(matches!(a, Action::Sleep(5_000)));
}

#[test]
fn the_proving_loop_drops_the_estimate_of_a_failed_job() {
    let (s, _) = perform(round(&["@a"]));
    let (s, _) = perform(s.step(needed(5)));
    let (s, _) = perform(s.step(value("job")));
    let (s, _) = perform(s.step(code(200)));
    let report = JobReport { status: "failed".to_string(), error: Some("oom".to_string()) };
    let (s, a) = perform(s.step(Event::Report(Ok(report))));
    assert!(matches!(a, Action::DeleteKey(ref k) if k == "job:@a:5:step"));
    let (s, a) = perform(s.step(Event::Done(Ok(()))));
    assert!(matches!(a, Action::ClearEstimate { commitment_id: 5, .. }));
    let (_, a) = perform(s.step(Event::Done(Ok(()))));
    assert!(matches!(a, Action::Sleep(5_000)));
}

fn until_publishing(spaces: &[&str]) -> Step<RegistryStage, ()> {
    let (s, a) = perform(registry_loop());
    assert!(matches!(a, Action::Sleep(2_000)));
    let (s, a) = perform(s.step(Event::Woke));
    assert!(matches!(a, Action::ReadAutoSync));
    let (s, _) = perform(s.step(Event::Flag(Ok(true))));
    let (s, _) = perform(s.step(value("http://r")));
    let (s, a) = perform(s.step(Event::Value(Ok(None))));
    assert!(matches!(a, Action::Connect(10)));
    let (s, a) = perform(s.step(Event::Done(Err("tls".to_string()))));
    assert!(matches!(a, Action::ListSpaces));
    s.step(Event::Spaces(spaces.iter().map(|s| s.to_string()).collect()))
}

#[test]
fn publishes_are_spaced() {
    let (s, a) = perform(until_publishing(&["@a", "@b", "@c"]));
    match a {
        Action::Publish { space, limit, handles, require_finalized } => {
            assert_eq!(space, "@a");
            assert_eq!(limit, PUBLISH_BATCH_SIZE);
            assert_eq!(limit, 1000);
            assert!(handles.is_empty());
            assert!(!require_finalized);
        }
        _ => panic!("expected a publish"),
    }
    let (s, a) = perform(s.step(Event::Published(Ok((0, 0)))));
    assert!(matches!(a, Action::Publish { ref space, .. } if space == "@b"));
    let (s, a) = perform(s.step(Event::Published(Ok((2, 0)))));
    assert!(matches!(a, Action::Sleep(1_500)));
    let (s, a) = perform(s.step(Event::Woke));
    assert!(matches!(a, Action::Publish { ref space, .. } if space == "@c"));
    let (_, a) = perform(s.step(Event::Published(Err("no fabric".to_string()))));
    assert!(matches!(a, Action::Sleep(2_000)));
}

#[test]
fn a_disabled_registry_loop_sleeps() {
    let (s, _) = perform(registry_loop());
    let (s, _) = perform(s.step(Event::Woke));
    let (s, _) = perform(s.step(Event::Flag(Err("db".to_string()))));
    let (_, a) = perform(s.step(value("http://r")));
    assert!(matches!(a, Action::Sleep(2_000)));
    let (s, _) = perform(registry_loop());
    let (s, _) = perform(s.step(Event::Woke));
    let (s, _) = perform(s.step(Event::Flag(Ok(true))));
    let (_, a) = perform(s.step(Event::Value(Ok(None))));
    assert!(matches!(a, Action::Sleep(2_000)));
}

#[test]
fn a_missing_fabric_is_expected() {
    assert!(publish_failure_is_expected("no fabric configured"));
    assert!(!publish_failure_is_expected("relay said no"));
}
