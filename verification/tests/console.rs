use subs::flow::{Action, Event, Payload, RpcBody, StatusCode, Step};
use subs::routes::certs::{
    export_answer, export_message, issue_cert, issue_cert_answer, Issued,
};
use subs::routes::console::{
    default_mine_count, get_endpoints, mine_answer, mine_blocks, proxy_bitcoin, proxy_spaced,
    MineRequest, NodeStatus, NodeUrls, ProxyStage, RpcReply, RpcRequest, ServerInfo,
};

fn perform<S, T>(step: Step<S, T>) -> (S, Action) {
    match step {
        Step::Perform(stage, action) => (stage, action),
        Step::Finish(_) => panic!("finished early"),
        Step::Ignored(_) => panic!("ignored the event"),
    }
}

fn finish<S, T>(step: Step<S, T>) -> Result<T, (u16, String)> {
    match step {
        Step::Finish(Ok(answer)) => Ok(answer),
        Step::Finish(Err(e)) => Err((e.status, e.message)),
        Step::Perform(_, _) => panic!("still going"),
        Step::Ignored(_) => panic!("ignored the event"),
    }
}

fn call() -> RpcRequest {
    RpcRequest { method: "getinfo".to_string(), params: "[]".to_string() }
}

fn sent_with(action: Action) -> Option<String> {
    match action {
        Action::Send(call) => {
            assert!(call.post);
            assert_eq!(call.url, "http://node");
            assert_eq!(call.timeout, Some(30));
            match call.payload {
                Payload::Rpc { method, params, authorization } => {
                    assert_eq!((method.as_str(), params.as_str()), ("getinfo", "[]"));
                    authorization
                }
                _ => panic!("expected a JSON-RPC call"),
            }
        }
        _ => panic!("expected a call"),
    }
}

#[test]
fn calls_carry_credentials() {
    let url = Some("http://node");
    let (_, a) = perform(proxy_spaced(url, Some("alice"), Some("secret"), Some("/c"), call()));
    assert_eq!(sent_with(a).as_deref(), Some("Basic YWxpY2U6c2VjcmV0"));
    let (_, a) = perform(proxy_spaced(url, None, None, None, call()));
    assert_eq!(sent_with(a), None);
    let (s, a) = perform(proxy_spaced(url, None, None, Some("/c"), call()));
    assert!(matches!(a, Action::ReadFile(ref p) if p == "/c"));
    let (_, a) = perform(s.step(Event::Text(Ok("alice:secret\n".to_string()))));
    assert_eq!(sent_with(a).as_deref(), Some("Basic YWxpY2U6c2VjcmV0"));
    let (_, a) = perform(proxy_bitcoin(url, call()));
    assert_eq!(sent_with(a).as_deref(), Some("Basic dXNlcjpwYXNzd29yZA=="));
}

#[test]
fn calls_that_cannot_be_made() {
    assert_eq!(
        finish(proxy_spaced(None, None, None, None, call())).err(),
        Some((503, "Spaced RPC URL not configured".to_string()))
    );
    assert_eq!(
        finish(proxy_bitcoin(None, call())).err(),
        Some((503, "Bitcoin RPC not available (only in test-rig mode)".to_string()))
    );
    let (s, _) = perform(proxy_spaced(Some("http://node"), None, None, Some("/c"), call()));
    assert_eq!(
        finish(s.step(Event::Text(Err("denied".to_string())))).err(),
        Some((500, "Failed to read RPC cookie file: denied".to_string()))
    );
    assert_eq!(
        finish(ProxyStage::Call.step(Event::Sent(Err("down".to_string())))).err(),
        Some((502, "RPC request failed: down".to_string()))
    );
}

#[test]
fn replies_of_the_node() {
    let read = |n: u16| perform(ProxyStage::Call.step(Event::Sent(Ok(StatusCode::from_u16(n).unwrap())))).0;
    let body = |error: Option<&str>| {
        Event::Rpc(Ok(RpcBody { json: "{}".to_string(), error: error.map(|e| e.to_string()) }))
    };
    assert!(matches!(finish(read(200).step(body(Some("1")))).unwrap(), RpcReply::Body(ref j) if j == "{}"));
    assert!(matches!(finish(read(500).step(body(Some("1")))).unwrap(), RpcReply::Fault(ref j) if j == "1"));
    assert_eq!(
        finish(read(500).step(body(None))).err(),
        Some((502, "RPC error: 500 Internal Server Error".to_string()))
    );
    assert_eq!(
        finish(read(200).step(Event::Rpc(Err("eof".to_string())))).err(),
        Some((502, "Invalid RPC response: eof".to_string()))
    );
}

#[test]
fn mining_needs_a_rig() {
    assert_eq!(default_mine_count(), 1);
    assert_eq!(mine_blocks(true, &MineRequest { count: 3 }).ok(), Some(3));
    assert_eq!(
        mine_blocks(false, &MineRequest { count: 3 }).err().unwrap().message,
        "Mining only available in test-rig mode"
    );
    let mined = mine_answer(3, Ok(())).ok().unwrap();
    assert!(mined.success && mined.blocks_mined == 3);
    assert_eq!(mine_answer(3, Err("x".to_string())).err().unwrap().message, "Failed to mine: x");
}

fn urls() -> NodeUrls {
    NodeUrls { spaced: Some("s".to_string()), bitcoin: None, certrelay: None }
}

#[test]
fn what_is_known_of_the_node() {
    let off = get_endpoints(urls(), "w".to_string(), None);
    assert_eq!((off.network.as_str(), off.synced, off.balance_sats), ("offline", false, 0));
    assert_eq!((off.spaced.as_deref(), off.wallet.as_str()), (Some("s"), "w"));
    let blank = NodeStatus { info: None, balance_sats: Some(5) };
    let unknown = get_endpoints(urls(), "w".to_string(), Some(blank));
    assert_eq!((unknown.network.as_str(), unknown.balance_sats), ("unknown", 5));
    let info = ServerInfo { network: "main".to_string(), tip_height: 4, chain_height: 5, synced: true };
    let known = get_endpoints(
        urls(),
        "w".to_string(),
        Some(NodeStatus { info: Some(info), balance_sats: None }),
    );
    assert_eq!((known.network.as_str(), known.tip_height, known.chain_height), ("main", 4, 5));
    assert!(known.synced && known.balance_sats == 0);
}

#[test]
fn certificates_are_encoded() {
    assert_eq!(issue_cert("alice@example").ok().unwrap(), "alice@example");
    let refused = issue_cert("no handle").err().unwrap();
    assert_eq!(refused.status, 400);
    assert!(refused.message.starts_with("invalid handle: "));
    let issued = Issued { root: Ok(b"root".to_vec()), handle: Some(Ok(b"leaf".to_vec())) };
    let answer = issue_cert_answer(Ok(issued)).ok().unwrap();
    assert_eq!((answer.root_cert.as_str(), answer.handle_cert.as_deref()), ("cm9vdA==", Some("bGVhZg==")));
    let root_only = Issued { root: Ok(b"root".to_vec()), handle: None };
    assert!(issue_cert_answer(Ok(root_only)).ok().unwrap().handle_cert.is_none());
    let bad = Issued { root: Err("io".to_string()), handle: None };
    assert_eq!(issue_cert_answer(Ok(bad)).err().unwrap().message, "failed to serialize root cert: io");
    let bad = Issued { root: Ok(vec![]), handle: Some(Err("io".to_string())) };
    assert_eq!(issue_cert_answer(Ok(bad)).err().unwrap().message, "failed to serialize handle cert: io");
    assert_eq!(issue_cert_answer(Err("x".to_string())).err().unwrap().status, 500);
}

#[test]
fn messages_are_exported() {
    assert_eq!(export_message("@example").ok().unwrap(), "@example");
    let message = export_answer("alice@example", Ok(vec![1])).ok().unwrap();
    assert_eq!(message.disposition, "attachment; filename=\"alice_example.message.bin\"");
    assert_eq!(message.bytes, vec![1]);
    assert_eq!(export_answer("x", Err("e".to_string())).err().unwrap().message, "e");
}
