use subs::flow::{Action, Event, Setting, StatusCode, Step};
use subs::routes::config::{
    get_config, set_config, test_prover, test_registry, SetConfigRequest, TestEndpointRequest,
    TestEndpointResponse, TestStage,
};

fn perform<S, T>(step: Step<S, T>) -> (S, Action) {
    match step {
        Step::Perform(stage, action) => (stage, action),
        Step::Finish(_) => panic!("finished early"),
        Step::Ignored(_) => panic!("ignored the event"),
    }
}

fn finish<S, T>(step: Step<S, T>) -> Result<T, (u16, String)> {
    match step {
        Step::Finish(Ok(answer)) => Ok(answer),
        Step::Finish(Err(e)) => Err((e.status, e.message)),
        Step::Perform(_, _) => panic!("still going"),
        Step::Ignored(_) => panic!("ignored the event"),
    }
}

fn value(text: &str) -> Event {
    Event::Value(Ok(Some(text.to_string())))
}

fn nothing() -> SetConfigRequest {
    SetConfigRequest {
        prover_endpoint: None,
        prover_auth_token: None,
        registry_endpoint: None,
        registry_auth_token: None,
        registry_auto_sync: None,
    }
}

#[test]
fn config_tells_whether_tokens_are_set() {
    let (s, _) = perform(get_config());
    let (s, _) = perform(s.step(true, value("http://p")));
    let (s, a) = perform(s.step(true, value("secret")));
    assert!(matches!(a, Action::ReadSetting(Setting::RegistryEndpoint)));
    let (s, _) = perform(s.step(true, Event::Value(Ok(None))));
    let (s, a) = perform(s.step(true, value("")));
    assert!(matches!(a, Action::ReadAutoSync));
    let config = finish(s.step(true, Event::Flag(Ok(true)))).unwrap();
    assert_eq!(config.prover_endpoint.as_deref(), Some("http://p"));
    assert!(config.prover_auth_token_set);
    assert_eq!(config.registry_endpoint, None);
    assert!(!config.registry_auth_token_set);
    assert!(config.registry_auto_sync);
}

#[test]
fn config_fails_where_an_endpoint_cannot_be_read() {
    let (s, _) = perform(get_config());
    assert_eq!(
        finish(s.step(true, Event::Value(Err("db".to_string())))).err(),
        Some((500, "db".to_string()))
    );
    let (s, _) = perform(get_config());
    let (s, _) = perform(s.step(true, Event::Value(Ok(None))));
    let (s, _) = perform(s.step(true, Event::Value(Err("db".to_string()))));
    assert_eq!(
        finish(s.step(true, Event::Value(Err("db".to_string())))).err(),
        Some((500, "db".to_string()))
    );
}

#[test]
fn setting_nothing_only_reads() {
    let (s, a) = perform(set_config(nothing()));
    assert!(matches!(a, Action::ReadSetting(Setting::ProverEndpoint)));
    let (s, _) = perform(s.step(Event::Value(Err("db".to_string()))));
    let (s, _) = perform(s.step(Event::Value(Ok(None))));
    let (s, _) = perform(s.step(Event::Value(Ok(None))));
    let (s, _) = perform(s.step(Event::Value(Ok(None))));
    let answer = finish(s.step(Event::Flag(Err("db".to_string())))).unwrap();
    assert!(answer.success && answer.prover_endpoint.is_none() && !answer.registry_auto_sync);
}

#[test]
fn settings_are_stored_or_cleared_in_turn() {
    let req = SetConfigRequest {
        prover_endpoint: Some("http://p".to_string()),
        prover_auth_token: Some(String::new()),
        registry_endpoint: Some(String::new()),
        registry_auth_token: Some("tok".to_string()),
        registry_auto_sync: Some(true),
    };
    let (s, a) = perform(set_config(req));
    assert!(matches!(a, Action::WriteSetting(Setting::ProverEndpoint, ref v) if v == "http://p"));
    let (s, a) = perform(s.step(Event::Done(Ok(()))));
    assert!(matches!(a, Action::ClearSetting(Setting::ProverAuthToken)));
    let (s, a) = perform(s.step(Event::Done(Ok(()))));
    assert!(matches!(a, Action::ClearSetting(Setting::RegistryEndpoint)));
    let (s, a) = perform(s.step(Event::Done(Ok(()))));
    assert!(matches!(a, Action::WriteSetting(Setting::RegistryAuthToken, ref v) if v == "tok"));
    let (s, a) = perform(s.step(Event::Done(Ok(()))));
    assert!(matches!(a, Action::WriteAutoSync(true)));
    let (_, a) = perform(s.step(Event::Done(Ok(()))));
    assert!(matches!(a, Action::ReadSetting(Setting::ProverEndpoint)));
}

#[test]
fn a_change_that_fails_ends_the_request() {
    let req = SetConfigRequest { registry_endpoint: Some("http://r".to_string()), ..nothing() };
    let (s, a) = perform(set_config(req));
    assert!(matches!(a, Action::WriteSetting(Setting::RegistryEndpoint, _)));
    assert_eq!(
        finish(s.step(Event::Done(Err("full".to_string())))).err(),
        Some((500, "full".to_string()))
    );
}

fn asked(token: Option<&str>) -> TestEndpointRequest {
    TestEndpointRequest { endpoint: "http://x//".to_string(), auth_token: token.map(|t| t.to_string()) }
}

fn probe(step: Step<TestStage, TestEndpointResponse>, token: Option<&str>) -> TestStage {
    let (s, a) = perform(step);
    match a {
        Action::Send(call) => {
            assert!(!call.post);
            assert_eq!(call.url, "http://x/health");
            assert_eq!(call.timeout, Some(5));
            assert_eq!(call.token.as_deref(), token);
        }
        _ => panic!("expected a call"),
    }
    s
}

fn code(n: u16) -> Event {
    Event::Sent(Ok(StatusCode::from_u16(n).unwrap()))
}

#[test]
fn a_test_falls_back_to_the_stored_token() {
    let (s, a) = perform(test_prover(asked(None)));
    assert!(matches!(a, Action::ReadSetting(Setting::ProverAuthToken)));
    let s = probe(s.step(value("stored")), Some("stored"));
    assert!(finish(s.step(code(200))).unwrap().success);
    let (s, a) = perform(test_registry(asked(None)));
    assert!(matches!(a, Action::ReadSetting(Setting::RegistryAuthToken)));
    probe(s.step(Event::Value(Err("db".to_string()))), None);
    probe(test_prover(asked(Some(""))), None);
    probe(test_registry(asked(Some("t"))), Some("t"));
}

#[test]
fn verdicts_on_a_prover() {
    let s = probe(test_prover(asked(Some("t"))), Some("t"));
    let fault = finish(s.step(code(401))).unwrap();
    assert!(!fault.success);
    assert_eq!(fault.error.as_deref(), Some("Prover returned status: 401 Unauthorized"));
    let s = probe(test_prover(asked(Some("t"))), Some("t"));
    let fault = finish(s.step(Event::Sent(Err("down".to_string())))).unwrap();
    assert_eq!(fault.error.as_deref(), Some("Connection failed: down"));
}

#[test]
fn verdicts_on_a_registry() {
    let with = |n: u16| finish(probe(test_registry(asked(Some("t"))), Some("t")).step(code(n))).unwrap();
    let without = |n: u16| finish(probe(test_registry(asked(Some(""))), None).step(code(n))).unwrap();
    assert!(with(204).success);
    assert_eq!(with(403).error.as_deref(), Some("Registry rejected the auth token (403 Forbidden)"));
    assert_eq!(
        without(401).error.as_deref(),
        Some("Registry requires authentication (401 Unauthorized); set an auth token")
    );
}

#[test]
fn a_registry_without_a_health_page_is_asked_for_its_front_page() {
    let front = |n: u16| {
        let s = probe(test_registry(asked(Some("t"))), Some("t"));
        let (s, a) = perform(s.step(code(n)));
        match a {
            Action::Send(call) => {
                assert!(!call.post);
                assert_eq!(call.url, "http://x/");
                assert_eq!(call.timeout, Some(5));
                assert_eq!(call.token.as_deref(), Some("t"));
            }
            _ => panic!("expected a call"),
        }
        s
    };
    let passed = finish(front(404).step(code(200))).unwrap();
    assert!(passed.success && passed.error.is_none());
    assert_eq!(
        finish(front(500).step(code(404))).unwrap().error.as_deref(),
        Some("Registry returned status: 404 Not Found")
    );
    assert_eq!(
        finish(front(404).step(code(401))).unwrap().error.as_deref(),
        Some("Registry rejected the auth token (401 Unauthorized)")
    );
    assert_eq!(
        finish(front(404).step(Event::Sent(Err("down".to_string())))).unwrap().error.as_deref(),
        Some("Connection failed: down")
    );
}
