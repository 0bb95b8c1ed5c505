use subs::flow::{
    Action, Event, Payload, PendingHandle, Setting, SkippedHandle, SpaceStaging, StagedBatch,
    StatusCode, Step,
};
use subs::routes::registry::{
    auth_error, notify_registry, original_text, registry_status, scope_of, sync_from_registry,
    sync_once, triage_all, NotifyRequest, RequestedSync, SyncOutcome, SyncStage,
};

fn perform<S, T>(step: Step<S, T>) -> (S, Action) {
    match step {
        Step::Perform(stage, action) => (stage, action),
        Step::Finish(_) => panic!("finished early"),
        Step::Ignored(_) => panic!("ignored the event"),
    }
}

fn finish<S, T>(step: Step<S, T>) -> Result<T, (u16, String)> {
    match step {
        Step::Finish(Ok(answer)) => Ok(answer),
        Step::Finish(Err(e)) => Err((e.status, e.message)),
        Step::Perform(_, _) => panic!("still going"),
        Step::Ignored(_) => panic!("ignored the event"),
    }
}

fn code(n: u16) -> Event {
    Event::Sent(Ok(StatusCode::from_u16(n).unwrap()))
}

fn names(list: &[&str]) -> Vec<String> {
    list.iter().map(|s| s.to_string()).collect()
}

fn pending(list: &[(&str, &str)]) -> Vec<PendingHandle> {
    list.iter()
        .map(|(h, s)| PendingHandle { handle: h.to_string(), script_pubkey: s.to_string() })
        .collect()
}

fn cycle_over(running: &[&str], delegated: Result<Vec<String>, String>) -> Step<SyncStage, SyncOutcome> {
    let (s, a) = perform(sync_once("http://registry/".to_string(), Some("t".to_string())));
    assert!(matches!(a, Action::Connect(10)));
    let (s, a) = perform(s.step(Event::Done(Ok(()))));
    assert!(matches!(a, Action::ListSpaces));
    let (s, a) = perform(s.step(Event::Spaces(names(running))));
    assert!(matches!(a, Action::ListDelegated));
    s.step(Event::Names(delegated))
}

#[test]
fn scope_is_sorted_and_without_repetition() {
    assert_eq!(
        scope_of(names(&["@b", "@a"]), Ok(names(&["@c", "@a"]))),
        names(&["@a", "@b", "@c"])
    );
    assert_eq!(scope_of(names(&["@b", "@a", "@b"]), Err("rpc".to_string())), names(&["@a", "@b"]));
    assert_eq!(scope_of(names(&["@ab", "@a", "@B", "@é"]), Ok(vec![])), names(&["@B", "@a", "@ab", "@é"]));
}

#[test]
fn a_cycle_without_spaces_ends_at_once() {
    let outcome = finish(cycle_over(&[], Ok(vec![]))).unwrap();
    assert_eq!((outcome.pulled, outcome.staged, outcome.errors.len()), (0, 0, 0));
}

#[test]
fn a_client_that_cannot_be_set_up_ends_the_cycle() {
    let (s, _) = perform(sync_once("http://r".to_string(), None));
    assert_eq!(finish(s.step(Event::Done(Err("tls".to_string())))).err(), Some((502, "tls".to_string())));
}

#[test]
fn a_cycle_pulls_stages_and_acknowledges() {
    let (s, a) = perform(cycle_over(&["@example"], Ok(vec![])));
    match a {
        Action::Send(call) => {
            assert!(!call.post);
            assert_eq!(call.url, "http://registry/pending");
            assert_eq!(call.token.as_deref(), Some("t"));
            assert_eq!(call.timeout, Some(10));
            assert!(matches!(call.payload, Payload::Space(ref s) if s == "@example"));
        }
        _ => panic!("expected a call"),
    }
    let (s, a) = perform(s.step(code(200)));
    assert!(matches!(a, Action::ReadPending));
    let list = pending(&[
        ("alice@example", "5120aa"),
        ("not a handle", "00"),
        ("bob@other", "5120bb"),
        ("carol@example", "5120cc"),
    ]);
    let (s, a) = perform(s.step(Event::Pending(Ok(list))));
    match a {
        Action::Stage(requests) => {
            let got: Vec<(String, String)> =
                requests.into_iter().map(|r| (r.handle, r.script_pubkey)).collect();
            assert_eq!(
                got,
                vec![
                    ("alice@example".to_string(), "5120aa".to_string()),
                    ("carol@example".to_string(), "5120cc".to_string())
                ]
            );
        }
        _ => panic!("expected handles to be staged"),
    }
    let batch = StagedBatch {
        total_added: 1,
        by_space: vec![SpaceStaging {
            added: names(&["alice@example"]),
            skipped: vec![SkippedHandle {
                handle: "carol@example".to_string(),
                outcome: "already_committed".to_string(),
            }],
        }],
    };
    let (s, a) = perform(s.step(Event::Staged(Ok(batch))));
    match a {
        Action::Send(call) => {
            assert!(call.post);
            assert_eq!(call.url, "http://registry/ack");
            match call.payload {
                Payload::Acks(acks) => {
                    let got: Vec<(String, String)> =
                        acks.into_iter().map(|e| (e.handle, e.outcome)).collect();
                    assert_eq!(
                        got,
                        vec![
                            ("not a handle".to_string(), "invalid".to_string()),
                            ("alice@example".to_string(), "staged".to_string()),
                            ("carol@example".to_string(), "already_committed".to_string())
                        ]
                    );
                }
                _ => panic!("expected a report"),
            }
        }
        _ => panic!("expected a call"),
    }
    let outcome = finish(s.step(code(200))).unwrap();
    assert_eq!((outcome.pulled, outcome.staged), (4, 1));
    assert_eq!(outcome.errors.len(), 2);
    assert!(outcome.errors[0].starts_with("not a handle: invalid handle: "));
    assert_eq!(
        outcome.errors[1],
        "bob@other: registry returned a handle for Some(\"@other\") when @example was requested"
    );
}

#[test]
fn handles_without_a_name_are_settled_as_invalid() {
    let list = pending(&[("", "00"), ("@example", "01"), ("alice@example", "02"), ("@other", "03")]);
    let t = triage_all("@example", &list);
    let acks: Vec<(&str, &str)> =
        t.outcomes.iter().map(|e| (e.handle.as_str(), e.outcome.as_str())).collect();
    assert_eq!(acks, [("", "invalid"), ("@example", "invalid")]);
    assert_eq!(t.requests.len(), 1);
    assert_eq!(t.requests[0].handle, "alice@example");
    assert_eq!(t.errors[0], ": invalid handle: not in name@space form");
    assert_eq!(t.errors[1], "@example: invalid handle: not in name@space form");
    assert!(t.errors[2].starts_with("@other: registry returned a handle for "));
}

#[test]
fn handles_that_could_not_be_staged_stay_pending() {
    let (s, _) = perform(cycle_over(&["@example"], Ok(vec![])));
    let (s, _) = perform(s.step(code(200)));
    let (s, _) = perform(s.step(Event::Pending(Ok(pending(&[("alice@example", "00")])))));
    let outcome = finish(s.step(Event::Staged(Err("no wallet".to_string())))).unwrap();
    assert_eq!((outcome.pulled, outcome.staged), (1, 0));
    assert_eq!(outcome.errors, names(&["failed to stage: no wallet"]));
}

#[test]
fn a_failing_space_does_not_affect_the_next() {
    let (s, a) = perform(cycle_over(&["@b"], Ok(names(&["@a"]))));
    assert!(matches!(a, Action::Send(ref c) if matches!(c.payload, Payload::Space(ref s) if s == "@a")));
    let (s, a) = perform(s.step(code(403)));
    assert!(matches!(a, Action::Send(ref c) if matches!(c.payload, Payload::Space(ref s) if s == "@b")));
    let (s, _) = perform(s.step(code(200)));
    let outcome = finish(s.step(Event::Pending(Ok(vec![])))).unwrap();
    assert_eq!(
        outcome.errors,
        names(&[
            "@a: registry rejected our credentials (403 Forbidden); check the auth token in Settings"
        ])
    );
}

#[test]
fn failures_of_a_pull() {
    let pull = || perform(cycle_over(&["@example"], Err("rpc".to_string()))).0;
    let errors = |step: Step<SyncStage, SyncOutcome>| finish(step).unwrap().errors;
    assert_eq!(
        errors(pull().step(Event::Sent(Err("dns".to_string())))),
        names(&["@example: failed to connect to registry: dns"])
    );
    assert_eq!(
        errors(pull().step(code(500))),
        names(&["@example: registry returned status: 500 Internal Server Error"])
    );
    let (s, _) = perform(pull().step(code(200)));
    assert_eq!(
        errors(s.step(Event::Pending(Err("json".to_string())))),
        names(&["@example: invalid response from registry: json"])
    );
    let ack = || {
        let (s, _) = perform(pull().step(code(200)));
        perform(s.step(Event::Pending(Ok(pending(&[("???", "")]))))).0
    };
    assert_eq!(errors(ack().step(code(204))).len(), 1);
    assert_eq!(errors(ack().step(code(500)))[1], "ack failed: registry returned 500 Internal Server Error");
    assert_eq!(
        errors(ack().step(code(401)))[1],
        "ack failed: registry rejected our credentials (401 Unauthorized); check the auth token in Settings"
    );
    assert_eq!(errors(ack().step(Event::Sent(Err("reset".to_string()))))[1], "ack failed: reset");
}

#[test]
fn credentials_errors_are_named() {
    let status = |n: u16| StatusCode::from_u16(n).unwrap();
    assert_eq!(auth_error(status(200)), None);
    assert_eq!(auth_error(status(404)), None);
    assert!(auth_error(status(401)).unwrap().contains("401 Unauthorized"));
    assert!(StatusCode::from_u16(99).is_none());
    assert!(StatusCode::from_u16(1000).is_none());
}

#[test]
fn triage_keeps_the_names_of_the_registry() {
    let t = triage_all("@example", &pending(&[("alice@example", "aa")]));
    assert_eq!(original_text(&t.submitted, "alice@example"), "alice@example");
    assert_eq!(original_text(&t.submitted, "bob@example"), "bob@example");
    let pairs = vec![
        ("a".to_string(), "first".to_string()),
        ("b".to_string(), "other".to_string()),
        ("a".to_string(), "second".to_string()),
    ];
    assert_eq!(original_text(&pairs, "a"), "second");
}

#[test]
fn requested_sync_answers() {
    let (s, a) = perform(sync_from_registry());
    assert!(matches!(a, Action::ReadSetting(Setting::RegistryEndpoint)));
    assert_eq!(
        finish(s.step(Event::Value(Ok(None)))).err(),
        Some((400, "registry_endpoint not configured. Set it in Settings.".to_string()))
    );
    assert_eq!(
        finish(RequestedSync::Endpoint.step(Event::Value(Err("db".to_string())))).err(),
        Some((500, "db".to_string()))
    );
    let (s, _) = perform(RequestedSync::Endpoint.step(Event::Value(Ok(Some("http://r".to_string())))));
    let (s, a) = perform(s.step(Event::Value(Ok(None))));
    assert!(matches!(a, Action::Connect(10)));
    let (s, _) = perform(s.step(Event::Done(Ok(()))));
    let (s, _) = perform(s.step(Event::Spaces(vec![])));
    let answer = finish(s.step(Event::Names(Ok(vec![])))).unwrap();
    assert!(answer.success);
    assert_eq!(answer.pulled, 0);
}

#[test]
fn notification_names_the_committed_handles() {
    let req = NotifyRequest { space: "@example".to_string(), root: "abcd".to_string() };
    let (s, _) = perform(notify_registry(req));
    let (s, a) = perform(s.step(Event::Value(Ok(Some("http://r/".to_string())))));
    assert!(matches!(a, Action::ListCommitted { ref space, ref root } if space == "@example" && root == "abcd"));
    let (s, a) = perform(s.step(Event::Names(Ok(names(&["alice", "bob"])))));
    assert!(matches!(a, Action::ReadSetting(Setting::RegistryAuthToken)));
    let (s, a) = perform(s.step(Event::Value(Ok(None))));
    match a {
        Action::Send(call) => {
            assert_eq!(call.url, "http://r/committed");
            match call.payload {
                Payload::Committed { root, handles } => {
                    assert_eq!(root, "abcd");
                    assert_eq!(handles, names(&["alice@example", "bob@example"]));
                }
                _ => panic!("expected the commitment"),
            }
        }
        _ => panic!("expected a call"),
    }
    let answer = finish(s.step(code(200))).unwrap();
    assert_eq!(answer.notified, 2);
    assert!(answer.success && answer.message.is_none());
}

#[test]
fn notification_refusals() {
    let start = |space: &str| {
        perform(notify_registry(NotifyRequest { space: space.to_string(), root: "r".to_string() })).0
    };
    assert_eq!(
        finish(start("@example").step(Event::Value(Ok(None)))).err(),
        Some((400, "registry_endpoint not configured".to_string()))
    );
    let url = || Event::Value(Ok(Some("http://r".to_string())));
    assert_eq!(finish(start("bad space").step(url())).err().unwrap().0, 400);
    let (s, _) = perform(start("@example").step(url()));
    let none = finish(s.step(Event::Names(Ok(vec![])))).unwrap();
    assert_eq!(none.message.as_deref(), Some("No handles found for this commitment"));
    assert!(none.success && none.notified == 0);
    let tell = || {
        let (s, _) = perform(start("@example").step(url()));
        let (s, _) = perform(s.step(Event::Names(Ok(names(&["a"])))));
        perform(s.step(Event::Value(Ok(None)))).0
    };
    assert_eq!(
        finish(tell().step(Event::Sent(Err("down".to_string())))).err(),
        Some((502, "Failed to notify registry: down".to_string()))
    );
    assert_eq!(
        finish(tell().step(code(500))).err(),
        Some((502, "Registry /committed returned: 500 Internal Server Error".to_string()))
    );
}

#[test]
fn registry_status_tells_whether_it_is_configured() {
    let on = registry_status(Ok(Some("http://r".to_string())));
    assert!(on.configured && on.endpoint.as_deref() == Some("http://r"));
    assert!(!registry_status(Ok(None)).configured);
    assert!(!registry_status(Err("db".to_string())).configured);
}
