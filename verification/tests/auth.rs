use subs::basic_auth::{
    basic_header, constant_time_eq, credentials_match, decoded_match, path_segments, unauthorized,
    Credentials,
};
use subs::prover::auth as prover_auth;
use subs::prover::server::{bearer_auth, required_token};
use subs::routes::auth;
use subs::rpc::{
    build_rpc_client, certrelay_port, cookie_authorization, user_authorization,
    wallet_load_failure, RpcAuth,
};

fn alice() -> Option<Credentials> {
    Some(Credentials { user: "alice".to_string(), pass: "secret".to_string() })
}

#[test]
fn paths_are_split() {
    assert_eq!(path_segments("/a//b/"), ["a", "b"]);
    assert!(path_segments("///").is_empty());
}

#[test]
fn comparison_of_bytes() {
    assert!(constant_time_eq(b"", b""));
    assert!(constant_time_eq(b"abc", b"abc"));
    assert!(!constant_time_eq(b"abc", b"abd"));
    assert!(!constant_time_eq(b"abc", b"ab"));
    assert!(!constant_time_eq(b"bbc", b"abc"));
}

#[test]
fn credentials_in_a_header() {
    assert_eq!(basic_header("alice:secret"), "Basic YWxpY2U6c2VjcmV0");
    assert!(credentials_match(Some(&basic_header("alice:secret")), "alice", "secret"));
    assert!(credentials_match(Some("basic   YWxpY2U6c2VjcmV0 "), "alice", "secret"));
    assert!(!credentials_match(Some("BASIC YWxpY2U6c2VjcmV0"), "alice", "secret"));
    assert!(!credentials_match(Some("Basic YWxpY2U6c2VjcmV0"), "alice", "other"));
    assert!(!credentials_match(Some("Basic ???"), "alice", "secret"));
    assert!(!credentials_match(Some("Bearer YWxpY2U6c2VjcmV0"), "alice", "secret"));
    assert!(!credentials_match(None, "alice", "secret"));
    assert!(!credentials_match(Some("Basic YWxpY2U6c2VjcmV0"), "alic", "e:secret"));
    assert!(decoded_match(Ok(b"a:b".to_vec()), "a", "b"));
    assert!(!decoded_match(Err("x".to_string()), "a", "b"));
}

#[test]
fn the_challenge() {
    let c = unauthorized("subs");
    assert_eq!(c.status, 401);
    assert_eq!(c.authenticate, "Basic realm=\"subs\", charset=\"UTF-8\"");
    assert_eq!(c.body, "Unauthorized");
}

#[test]
fn open_endpoints() {
    assert!(auth::is_anonymous("GET", "/health"));
    assert!(auth::is_anonymous("GET", "/status/"));
    assert!(!auth::is_anonymous("POST", "/health"));
    for path in ["/requests", "/reserve", "/claim"] {
        assert!(auth::is_anonymous("POST", path));
        assert!(!auth::is_anonymous("GET", path));
    }
    assert!(auth::is_anonymous("GET", "/certs/alice@example"));
    assert!(!auth::is_anonymous("GET", "/certs/alice@example/message"));
    assert!(auth::is_anonymous("GET", "/spaces/@example/handles/alice"));
    assert!(!auth::is_anonymous("GET", "/spaces/@example/commits/alice"));
    assert!(!auth::is_anonymous("GET", "/"));
    assert!(prover_auth::is_anonymous("GET", "//health"));
    assert!(!prover_auth::is_anonymous("POST", "/health"));
    assert!(!prover_auth::is_anonymous("GET", "/status"));
}

#[test]
fn requests_pass_or_are_challenged() {
    assert!(auth::require_basic_auth(&None, "POST", "/config", None).is_ok());
    assert!(auth::require_basic_auth(&alice(), "OPTIONS", "/config", None).is_ok());
    assert!(auth::require_basic_auth(&alice(), "GET", "/health", None).is_ok());
    let header = basic_header("alice:secret");
    assert!(auth::require_basic_auth(&alice(), "POST", "/config", Some(&header)).is_ok());
    let c = auth::require_basic_auth(&alice(), "POST", "/config", None).err().unwrap();
    assert_eq!(c.authenticate, "Basic realm=\"subs\", charset=\"UTF-8\"");
    let c = prover_auth::require_basic_auth(&alice(), "POST", "/prove", None).err().unwrap();
    assert_eq!(c.authenticate, "Basic realm=\"subs-prover\", charset=\"UTF-8\"");
    assert!(prover_auth::require_basic_auth(&alice(), "GET", "/health", None).is_ok());
}

#[test]
fn bearer_tokens() {
    assert!(bearer_auth("t", Some("Bearer t")).is_ok());
    let refused = bearer_auth("t", Some("Bearer  t")).err().unwrap();
    assert_eq!((refused.status, refused.message.as_str()), (401, "missing or bad bearer token"));
    assert!(bearer_auth("t", Some("bearer t")).is_err());
    assert!(bearer_auth("t", None).is_err());
    assert_eq!(required_token(Some(String::new())), None);
    assert_eq!(required_token(Some("x".to_string())), Some("x".to_string()));
    assert_eq!(required_token(None), None);
}

#[test]
fn credentials_for_the_node() {
    assert_eq!(user_authorization("alice", Some("secret")), "Basic YWxpY2U6c2VjcmV0");
    assert_eq!(user_authorization("alice", None), "Basic YWxpY2U6");
    assert_eq!(cookie_authorization(" alice:secret\n"), "Basic YWxpY2U6c2VjcmV0");
    assert!(
        matches!(build_rpc_client(Some("alice"), Some("secret"), Some("/c")), RpcAuth::Header(ref h) if h == "Basic YWxpY2U6c2VjcmV0")
    );
    assert!(matches!(build_rpc_client(None, Some("x"), Some("/c")), RpcAuth::Cookie(ref p) if p == "/c"));
    assert!(matches!(build_rpc_client(None, None, None), RpcAuth::Open));
}

#[test]
fn wallets_that_are_loaded() {
    assert_eq!(wallet_load_failure("w", "wallet already loaded"), None);
    assert_eq!(wallet_load_failure("w", "it already exists"), None);
    assert_eq!(
        wallet_load_failure("w", "not found"),
        Some("Failed to load wallet w: not found".to_string())
    );
    assert_eq!(certrelay_port(7777), 7779);
}
