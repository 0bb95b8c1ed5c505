use subs::flow::{
    job_key_text, Action, Event, JobReport, Payload, ProvingRequest, Setting, StatusCode, Step,
};
use subs::routes::proving::{
    cancel_proving, compress_input_answer, fulfill, fulfill_answer, get_compress_input,
    get_estimate, get_next, get_next_answer, hear_as, poll_prover, push_to_prover,
    read_fulfillment, save_snark, save_snark_answer, CompressInput, PollStage, ProverSaid,
    PushStage, SaveSnarkBody,
};

fn perform<S, T>(step: Step<S, T>) -> (S, Action) {
    match step {
        Step::Perform(stage, action) => (stage, action),
        Step::Finish(Ok(_)) => panic!("finished early"),
        Step::Finish(Err(e)) => panic!("refused: {}", e.message),
        Step::Ignored(_) => panic!("ignored the event"),
    }
}

fn finish<S, T>(step: Step<S, T>) -> Result<T, (u16, String)> {
    match step {
        Step::Finish(Ok(answer)) => Ok(answer),
        Step::Finish(Err(e)) => Err((e.status, e.message)),
        Step::Perform(_, _) => panic!("still going"),
        Step::Ignored(_) => panic!("ignored the event"),
    }
}

fn code(n: u16) -> Event {
    Event::Sent(Ok(StatusCode::from_u16(n).unwrap()))
}

fn value(text: &str) -> Event {
    Event::Value(Ok(Some(text.to_string())))
}

fn request(id: i64, is_fold: bool) -> Event {
    Event::Request(Ok(Some(ProvingRequest { commitment_id: id, is_fold, encoded: Ok(vec![1, 2, 3]) })))
}

fn poll_until_report(report: JobReport) -> Step<PollStage, subs::routes::proving::PollResponse> {
    let (s, a) = perform(poll_prover("@example"));
    assert!(matches!(a, Action::ReadSetting(Setting::ProverEndpoint)));
    let (s, a) = perform(s.step(value("http://prover/")));
    assert!(matches!(a, Action::ReadSetting(Setting::ProverAuthToken)));
    let (s, a) = perform(s.step(value("secret")));
    assert!(matches!(a, Action::NextRequest(ref l) if l == "@example"));
    let (s, a) = perform(s.step(request(7, true)));
    assert!(matches!(a, Action::ReadKey(ref k) if k == "job:@example:7:fold"));
    let (s, a) = perform(s.step(value("job-1")));
    match a {
        Action::Send(call) => {
            assert!(!call.post);
            assert_eq!(call.url, "http://prover/jobs/job-1");
            assert_eq!(call.token, Some("secret".to_string()));
            assert!(matches!(call.payload, Payload::Empty));
            assert_eq!(call.timeout, None);
        }
        _ => panic!("expected a call"),
    }
    let (s, a) = perform(s.step(code(200)));
    assert!(matches!(a, Action::ReadReport));
    s.step(Event::Report(Ok(report)))
}

#[test]
fn poll_collects_a_complete_proof() {
    let step = poll_until_report(JobReport { status: "complete".to_string(), error: None });
    let (s, a) = perform(step);
    assert!(matches!(a, Action::Send(ref c) if c.url == "http://prover/jobs/job-1/receipt"));
    let (s, a) = perform(s.step(code(200)));
    assert!(matches!(a, Action::ReadBytes));
    let (s, a) = perform(s.step(Event::Bytes(Ok(vec![9, 8]))));
    match a {
        Action::Fulfill { space, commitment_id, is_fold, receipt } => {
            assert_eq!(space, "@example");
            assert_eq!(commitment_id, 7);
            assert!(is_fold);
            assert_eq!(receipt, vec![9, 8]);
        }
        _ => panic!("expected the receipt to be saved"),
    }
    let (s, a) = perform(s.step(Event::Done(Ok(()))));
    assert!(matches!(a, Action::DeleteKey(ref k) if k == "job:@example:7:fold"));
    let (s, a) = perform(s.step(Event::Done(Err("locked".to_string()))));
    assert!(matches!(a, Action::ClearEstimate { ref space, commitment_id: 7 } if space == "@example"));
    let answer = finish(s.step(Event::Done(Ok(())))).unwrap();
    assert!(answer.success);
    assert!(answer.complete);
    assert_eq!(answer.status.as_deref(), Some("complete"));
    assert_eq!(answer.message.as_deref(), Some("proof complete and saved"));
}

#[test]
fn poll_keeps_the_job_when_saving_fails() {
    let step = poll_until_report(JobReport { status: "complete".to_string(), error: None });
    let (s, _) = perform(step);
    let (s, _) = perform(s.step(code(200)));
    let (s, _) = perform(s.step(Event::Bytes(Ok(vec![1]))));
    let refused = finish(s.step(Event::Done(Err("bad receipt".to_string()))));
    assert_eq!(refused.err(), Some((500, "bad receipt".to_string())));
}

#[test]
fn poll_forgets_a_failed_job() {
    let step = poll_until_report(JobReport {
        status: "failed".to_string(),
        error: Some("out of memory".to_string()),
    });
    let (s, a) = perform(step);
    assert!(matches!(a, Action::DeleteKey(ref k) if k == "job:@example:7:fold"));
    let answer = finish(s.step(Event::Done(Ok(())))).unwrap();
    assert!(!answer.success);
    assert!(answer.complete);
    assert_eq!(answer.status.as_deref(), Some("failed"));
    assert_eq!(answer.message.as_deref(), Some("out of memory"));
}

#[test]
fn poll_passes_other_statuses_on() {
    let step = poll_until_report(JobReport { status: "processing".to_string(), error: None });
    let answer = finish(step).unwrap();
    assert!(answer.success);
    assert!(!answer.complete);
    assert_eq!(answer.status.as_deref(), Some("processing"));
    assert_eq!(answer.message, None);
}

#[test]
fn poll_refusals() {
    assert_eq!(
        finish(poll_prover("example")).err(),
        Some((400, "invalid space: Name Error: Malformed name".to_string()))
    );
    let start = || perform(poll_prover("@example")).0;
    assert_eq!(
        finish(start().step(Event::Value(Ok(None)))).err(),
        Some((400, "prover_endpoint not configured".to_string()))
    );
    assert_eq!(
        finish(start().step(Event::Value(Err("disk".to_string())))).err(),
        Some((500, "disk".to_string()))
    );
    let at_request = || {
        let (s, _) = perform(start().step(value("http://p")));
        perform(s.step(Event::Value(Err("no token".to_string())))).0
    };
    let idle = finish(at_request().step(Event::Request(Ok(None)))).unwrap();
    assert!(idle.success && idle.complete && idle.status.is_none());
    assert_eq!(idle.message.as_deref(), Some("no pending proving request"));
    assert_eq!(
        finish(at_request().step(Event::Request(Err("db".to_string())))).err(),
        Some((500, "db".to_string()))
    );
    let (lookup, _) = perform(at_request().step(request(1, false)));
    assert_eq!(
        finish(lookup.step(Event::Value(Ok(None)))).err(),
        Some((400, "no job found - use /proving/push first".to_string()))
    );
    let ask = || {
        let (s, _) = perform(at_request().step(request(1, false)));
        let (s, a) = perform(s.step(value("j")));
        assert!(matches!(a, Action::Send(ref c) if c.token.is_none()));
        s
    };
    assert_eq!(
        finish(ask().step(Event::Sent(Err("refused".to_string())))).err(),
        Some((502, "prover request failed: refused".to_string()))
    );
    let (s, a) = perform(ask().step(code(404)));
    assert!(matches!(a, Action::ReadText));
    assert_eq!(
        finish(s.step(Event::Text(Ok("gone".to_string())))).err(),
        Some((502, "prover returned 404 Not Found: gone".to_string()))
    );
    let (s, _) = perform(ask().step(code(500)));
    assert_eq!(
        finish(s.step(Event::Text(Err("cut off".to_string())))).err(),
        Some((502, "prover returned 500 Internal Server Error: ".to_string()))
    );
    let (s, _) = perform(ask().step(code(200)));
    assert_eq!(
        finish(s.step(Event::Report(Err("not json".to_string())))).err(),
        Some((502, "invalid prover response: not json".to_string()))
    );
    let fetch = || {
        let (s, _) = perform(ask().step(code(200)));
        let report = JobReport { status: "complete".to_string(), error: None };
        perform(s.step(Event::Report(Ok(report)))).0
    };
    assert_eq!(
        finish(fetch().step(Event::Sent(Err("reset".to_string())))).err(),
        Some((502, "receipt download failed: reset".to_string()))
    );
    assert_eq!(
        finish(fetch().step(code(503))).err(),
        Some((502, "receipt download failed: 503 Service Unavailable".to_string()))
    );
    let (s, _) = perform(fetch().step(code(200)));
    assert_eq!(
        finish(s.step(Event::Bytes(Err("short".to_string())))).err(),
        Some((502, "receipt read failed: short".to_string()))
    );
}

#[test]
fn an_event_that_answers_nothing_is_ignored() {
    let (s, _) = perform(poll_prover("@example"));
    match s.step(Event::Woke) {
        Step::Ignored(s) => {
            let (_, a) = perform(s.step(value("http://p")));
            assert!(matches!(a, Action::ReadSetting(Setting::ProverAuthToken)));
        }
        _ => panic!("expected the event to be ignored"),
    }
}

fn push_until_sent() -> PushStage {
    let (s, _) = perform(push_to_prover("@example"));
    let (s, _) = perform(s.step(value("http://prover//")));
    let (s, _) = perform(s.step(Event::Value(Ok(None))));
    let (s, a) = perform(s.step(request(-3, false)));
    match a {
        Action::Send(call) => {
            assert!(call.post);
            assert_eq!(call.url, "http://prover/prove");
            assert_eq!(call.token, None);
            assert!(matches!(call.payload, Payload::Octets(ref b) if b == &vec![1, 2, 3]));
        }
        _ => panic!("expected a call"),
    }
    s
}

#[test]
fn push_remembers_the_job() {
    let (s, a) = perform(push_until_sent().step(code(202)));
    assert!(matches!(a, Action::ReadJobId));
    let (s, a) = perform(s.step(Event::Text(Ok("job-9".to_string()))));
    assert!(matches!(a, Action::WriteKey(ref k, ref v) if k == "job:@example:-3:step" && v == "job-9"));
    let answer = finish(s.step(Event::Done(Ok(())))).unwrap();
    assert!(answer.success);
    assert_eq!(answer.job_id.as_deref(), Some("job-9"));
    assert_eq!(answer.message.as_deref(), Some("proving request submitted to prover"));
}

#[test]
fn push_refusals() {
    let (s, _) = perform(push_to_prover("@example"));
    assert_eq!(
        finish(s.step(Event::Value(Ok(None)))).err(),
        Some((400, "prover_endpoint not configured. Set it via POST /config".to_string()))
    );
    let (s, _) = perform(push_to_prover("@example"));
    let (s, _) = perform(s.step(value("http://p")));
    let (s, _) = perform(s.step(Event::Value(Ok(None))));
    let bad = ProvingRequest { commitment_id: 1, is_fold: false, encoded: Err("io".to_string()) };
    assert_eq!(
        finish(s.step(Event::Request(Ok(Some(bad))))).err(),
        Some((500, "serialize error: io".to_string()))
    );
    let (s, _) = perform(push_to_prover("@example"));
    let (s, _) = perform(s.step(value("http://p")));
    let (s, _) = perform(s.step(Event::Value(Ok(None))));
    let idle = finish(s.step(Event::Request(Ok(None)))).unwrap();
    assert!(!idle.success);
    assert_eq!(idle.message.as_deref(), Some("no pending proving request"));
    assert_eq!(
        finish(push_until_sent().step(Event::Sent(Err("down".to_string())))).err(),
        Some((502, "prover request failed: down".to_string()))
    );
    let (s, _) = perform(push_until_sent().step(code(401)));
    assert_eq!(
        finish(s.step(Event::Text(Ok("no".to_string())))).err(),
        Some((502, "prover returned 401 Unauthorized: no".to_string()))
    );
    let (s, _) = perform(push_until_sent().step(code(200)));
    assert_eq!(
        finish(s.step(Event::Text(Err("eof".to_string())))).err(),
        Some((502, "invalid prover response: eof".to_string()))
    );
    let (s, _) = perform(push_until_sent().step(code(200)));
    let (s, _) = perform(s.step(Event::Text(Ok("j".to_string()))));
    assert_eq!(
        finish(s.step(Event::Done(Err("full".to_string())))).err(),
        Some((500, "full".to_string()))
    );
}

#[test]
fn job_keys_name_the_proof() {
    assert_eq!(job_key_text("@example", 12, false), "job:@example:12:step");
    assert_eq!(job_key_text("@example", 12, true), "job:@example:12:fold");
    assert_eq!(job_key_text("@a", i64::MIN, false), "job:@a:-9223372036854775808:step");
    assert_ne!(job_key_text("@a:1", 2, false), job_key_text("@a", 12, false));
}

fn cancel_until_told() -> subs::routes::proving::CancelStage {
    let (s, _) = perform(cancel_proving("@example"));
    let (s, a) = perform(s.step(value("http://prover/")));
    assert!(matches!(a, Action::NextRequest(_)));
    let (s, a) = perform(s.step(request(4, false)));
    assert!(matches!(a, Action::ReadKey(ref k) if k == "job:@example:4:step"));
    let (s, a) = perform(s.step(value("job-4")));
    assert!(matches!(a, Action::ReadSetting(Setting::ProverAuthToken)));
    let (s, a) = perform(s.step(value("t")));
    match a {
        Action::Send(call) => {
            assert!(call.post);
            assert_eq!(call.url, "http://prover/jobs/job-4/cancel");
            assert_eq!(call.timeout, Some(10));
            assert_eq!(call.token.as_deref(), Some("t"));
        }
        _ => panic!("expected a call"),
    }
    s
}

#[test]
fn cancel_forgets_the_job_whatever_the_prover_says() {
    let (s, a) = perform(cancel_until_told().step(Event::Sent(Err("down".to_string()))));
    assert!(matches!(a, Action::DeleteKey(ref k) if k == "job:@example:4:step"));
    let answer = finish(s.step(Event::Done(Err("ignored".to_string())))).unwrap();
    assert!(answer.success);
    assert_eq!(answer.job_id, "job-4");
    assert!(matches!(answer.prover, ProverSaid::Unreachable(ref e) if e == "down"));

    let (s, _) = perform(cancel_until_told().step(code(409)));
    let (s, a) = perform(s.step(Event::Text(Ok("job already Complete".to_string()))));
    assert!(matches!(a, Action::DeleteKey(_)));
    let answer = finish(s.step(Event::Done(Ok(())))).unwrap();
    assert!(
        matches!(answer.prover, ProverSaid::Refused { status: 409, ref body } if body == "job already Complete")
    );

    let (s, _) = perform(cancel_until_told().step(code(200)));
    let (s, _) = perform(s.step(Event::Text(Ok("{\"cancelled\":true}".to_string()))));
    let answer = finish(s.step(Event::Done(Ok(())))).unwrap();
    assert!(matches!(answer.prover, ProverSaid::Agreed(ref j) if j == "{\"cancelled\":true}"));

    let (s, _) = perform(cancel_until_told().step(code(200)));
    let (s, _) = perform(s.step(Event::Text(Ok("ok, done".to_string()))));
    let answer = finish(s.step(Event::Done(Ok(())))).unwrap();
    assert!(matches!(answer.prover, ProverSaid::Agreed(ref j) if j == "{}"));
}

#[test]
fn cancel_refusals() {
    let (s, _) = perform(cancel_proving("@example"));
    assert_eq!(
        finish(s.step(Event::Value(Ok(None)))).err(),
        Some((400, "prover_endpoint not configured".to_string()))
    );
    let (s, _) = perform(cancel_proving("@example"));
    let (s, _) = perform(s.step(value("http://p")));
    assert_eq!(
        finish(s.step(Event::Request(Ok(None)))).err(),
        Some((400, "no proving request in flight".to_string()))
    );
    let (s, _) = perform(cancel_proving("@example"));
    let (s, _) = perform(s.step(value("http://p")));
    let (s, _) = perform(s.step(request(1, true)));
    assert_eq!(
        finish(s.step(Event::Value(Ok(None)))).err(),
        Some((400, "no job in flight for this commitment".to_string()))
    );
}

#[test]
fn words_of_the_prover() {
    assert!(matches!(hear_as(204, "x".to_string(), false), ProverSaid::Agreed(ref j) if j == "{}"));
    assert!(matches!(hear_as(200, "[]".to_string(), true), ProverSaid::Agreed(ref j) if j == "[]"));
    assert!(matches!(hear_as(500, "[]".to_string(), true), ProverSaid::Refused { status: 500, .. }));
}

#[test]
fn estimate_is_passed_on() {
    let (s, _) = perform(get_estimate("@example"));
    let (s, _) = perform(s.step(value("http://p/")));
    let (s, _) = perform(s.step(Event::Value(Ok(None))));
    let (s, a) = perform(s.step(request(1, false)));
    assert!(matches!(a, Action::Send(ref c) if c.post && c.url == "http://p/estimate"));
    let (s, a) = perform(s.step(code(200)));
    assert!(matches!(a, Action::ReadJson));
    assert_eq!(finish(s.step(Event::Text(Ok("{\"a\":1}".to_string())))).unwrap(), "{\"a\":1}");

    let (s, _) = perform(get_estimate("@example"));
    let (s, _) = perform(s.step(value("http://p/")));
    let (s, _) = perform(s.step(Event::Value(Ok(None))));
    assert_eq!(
        finish(s.step(Event::Request(Ok(None)))).err(),
        Some((404, "no pending proving request".to_string()))
    );
}

#[test]
fn fulfillment_payload() {
    let mut body = vec![0xfe, 0xff, 0xff, 0xff, 0xff, 0xff, 0xff, 0xff, 1, 7, 7];
    let handed = read_fulfillment("@example".to_string(), &body).ok().unwrap();
    assert_eq!(handed.space, "@example");
    assert_eq!(handed.commitment_id, -2);
    assert!(handed.is_fold);
    assert_eq!(handed.receipt, vec![7, 7]);

    body[0..8].copy_from_slice(&1_000_000_007i64.to_le_bytes());
    body[8] = 0;
    let handed = fulfill("@example", &body).ok().unwrap();
    assert_eq!(handed.commitment_id, 1_000_000_007);
    assert!(!handed.is_fold);

    body[0..8].copy_from_slice(&i64::MIN.to_le_bytes());
    assert_eq!(fulfill("@example", &body).ok().unwrap().commitment_id, i64::MIN);
    body[0..8].copy_from_slice(&i64::MAX.to_le_bytes());
    assert_eq!(fulfill("@example", &body).ok().unwrap().commitment_id, i64::MAX);

    let refused = |body: &[u8]| fulfill("@example", body).err().map(|e| (e.status, e.message));
    assert_eq!(
        refused(&[0; 8]),
        Some((400, "payload too short: need commitment_id (8) + type (1) + receipt".to_string()))
    );
    assert_eq!(refused(&[0; 9]), Some((400, "empty receipt".to_string())));
    body[8] = 200;
    assert_eq!(refused(&body), Some((400, "invalid request_type: 200".to_string())));
    assert_eq!(fulfill("", &body).err().unwrap().status, 400);

    let answer = fulfill_answer(Ok(())).ok().unwrap();
    assert!(answer.success && answer.message.is_none());
    assert_eq!(fulfill_answer(Err("db".to_string())).err().unwrap().status, 500);
}

#[test]
fn next_request_answers() {
    assert_eq!(get_next("@example").ok().unwrap(), "@example");
    assert_eq!(get_next("@#3438-1-0").ok().unwrap(), "#3438-1-0");
    assert_eq!(get_next("#3438-1-0").ok().unwrap(), "#3438-1-0");
    assert_eq!(get_next_answer(Ok(Ok(vec![0]))).ok().unwrap(), vec![0]);
    assert_eq!(
        get_next_answer(Ok(Err("io".to_string()))).err().unwrap().message,
        "serialize error: io"
    );
    assert_eq!(get_next_answer(Err("db".to_string())).err().unwrap().message, "db");
}

#[test]
fn compression_answers() {
    assert_eq!(get_compress_input("@example").ok().unwrap(), "@example");
    let input = CompressInput { receipt: b"proof".to_vec(), commitment: 5u8 };
    let answer = compress_input_answer(Ok(Some(input))).ok().unwrap();
    let json = answer.input.unwrap();
    assert_eq!(json.receipt, "cHJvb2Y=");
    assert_eq!(json.commitment, 5);
    assert!(compress_input_answer::<u8>(Ok(None)).ok().unwrap().input.is_none());
    assert_eq!(compress_input_answer::<u8>(Err("x".to_string())).err().unwrap().status, 500);
}

#[test]
fn snark_answers() {
    let body = SaveSnarkBody { receipt: "cHJvb2Y=".to_string() };
    let (space, bytes) = save_snark("@example", &body).ok().unwrap();
    assert_eq!(space, "@example");
    assert_eq!(bytes, b"proof".to_vec());
    let bad = SaveSnarkBody { receipt: "@@".to_string() };
    let refused = save_snark("@example", &bad).err().unwrap();
    assert_eq!(refused.status, 400);
    assert!(refused.message.starts_with("invalid base64: "));
    assert!(save_snark_answer(Ok(())).ok().unwrap().success);
    assert_eq!(save_snark_answer(Err("x".to_string())).err().unwrap().status, 500);
}
