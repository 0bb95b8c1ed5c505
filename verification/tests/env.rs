use subs::config_origins::{
    display_secret, line_key, load_dotenv, log_entry, log_entry_optional, log_section,
    origin_for_env_var, origin_from_clap, parse_dotenv_keys, resolve_env_file, Arguments,
    ConfigOrigin, DotenvLoad, Environment, ValueSource,
};
use subs::env::{
    apply_runtime_config_from_env, env_bool_default_false, log_startup,
    resolve_publish_require_finalized, Origins, StartupValues, TestRigValues,
};
use subs::flow::{Action, Setting};
use subs::prover::env::{log_bench_startup, log_server_startup, log_subcommand_startup};

fn env(vars: &[(&str, &str)]) -> Environment {
    Environment { vars: vars.iter().map(|(k, v)| (k.to_string(), v.to_string())).collect() }
}

fn args(sources: &[(&str, ValueSource)]) -> Arguments {
    Arguments { sources: sources.iter().map(|(k, v)| (k.to_string(), *v)).collect() }
}

fn no_file() -> DotenvLoad {
    DotenvLoad { env_file: None, keys_from_dotenv: vec![] }
}

#[test]
fn env_bool_default_false_unset_is_false() {
    let key = "SUBS_PUBLISH_REQUIRE_FINALIZED_TEST_UNSET";
    assert!(!env_bool_default_false(&env(&[]), key));
}

#[test]
fn env_bool_default_false_truthy_values() {
    let key = "SUBS_PUBLISH_REQUIRE_FINALIZED_TEST_TRUTHY";
    for v in ["1", "true", "TRUE", " yes ", "on"] {
        assert!(env_bool_default_false(&env(&[(key, v)]), key), "expected true for {v:?}");
    }
}

#[test]
fn env_bool_default_false_falsey_values() {
    let key = "SUBS_PUBLISH_REQUIRE_FINALIZED_TEST_FALSEY";
    for v in ["", "0", "false", "no", "off", "maybe"] {
        assert!(!env_bool_default_false(&env(&[(key, v)]), key), "expected false for {v:?}");
    }
}

#[test]
fn the_command_line_counts_before_the_environment() {
    let on = env(&[("SUBS_PUBLISH_REQUIRE_FINALIZED", "yes")]);
    let flagged = args(&[("publish_require_finalized", ValueSource::CommandLine)]);
    let unset = args(&[("publish_require_finalized", ValueSource::DefaultValue)]);
    assert!(!resolve_publish_require_finalized(&flagged, false, &on));
    assert!(resolve_publish_require_finalized(&flagged, true, &env(&[])));
    assert!(resolve_publish_require_finalized(&unset, false, &on));
    assert!(!resolve_publish_require_finalized(&unset, true, &env(&[])));
}

#[test]
fn lines_of_a_file_name_variables() {
    assert_eq!(line_key("FOO=bar"), Some("FOO".to_string()));
    assert_eq!(line_key("  export FOO = bar = baz\r"), Some("FOO".to_string()));
    assert_eq!(line_key("# FOO=bar"), None);
    assert_eq!(line_key("FOO"), None);
    assert_eq!(line_key(" = x"), None);
    assert_eq!(line_key(""), None);
    assert_eq!(
        parse_dotenv_keys("A=1\n\n#c\nexport B=2\r\nA=3\nC\n"),
        vec!["A".to_string(), "B".to_string()]
    );
}

#[test]
fn the_file_to_load() {
    assert_eq!(resolve_env_file(Some("x.env"), true), Some("x.env".to_string()));
    assert_eq!(resolve_env_file(Some(""), true), Some(".env".to_string()));
    assert_eq!(resolve_env_file(None, false), None);
}

#[test]
fn a_file_does_not_override_the_environment() {
    let before = env(&[("A", "0")]);
    let after = env(&[("A", "0"), ("B", "2")]);
    let load = load_dotenv(Some(".env".to_string()), Some("A=1\nB=2\nC=3"), &before, &after);
    assert_eq!(load.keys_from_dotenv, vec!["B".to_string()]);
    assert_eq!(origin_for_env_var(&after, "A", &load), Some(ConfigOrigin::Environment));
    assert_eq!(origin_for_env_var(&after, "B", &load), Some(ConfigOrigin::DotEnv));
    assert_eq!(origin_for_env_var(&after, "C", &load), None);
    let none = load_dotenv(None, None, &before, &after);
    assert!(none.env_file.is_none() && none.keys_from_dotenv.is_empty());
}

#[test]
fn origins_of_arguments() {
    let load = DotenvLoad { env_file: None, keys_from_dotenv: vec!["P".to_string()] };
    let vars = env(&[("P", "1"), ("Q", "2")]);
    let m = args(&[
        ("a", ValueSource::CommandLine),
        ("b", ValueSource::EnvVariable),
        ("c", ValueSource::DefaultValue),
    ]);
    let origin = |id: &str, var: Option<&str>| origin_from_clap(&m, id, var, &vars, &load);
    assert_eq!(origin("a", Some("P")), ConfigOrigin::Param);
    assert_eq!(origin("b", Some("P")), ConfigOrigin::DotEnv);
    assert_eq!(origin("b", Some("Q")), ConfigOrigin::Environment);
    assert_eq!(origin("b", Some("R")), ConfigOrigin::Environment);
    assert_eq!(origin("b", None), ConfigOrigin::Environment);
    assert_eq!(origin("c", Some("P")), ConfigOrigin::Default);
    assert_eq!(origin("d", Some("P")), ConfigOrigin::Default);
    assert_eq!(ConfigOrigin::DotEnv.text(), ".env");
    assert_eq!(ConfigOrigin::Default.text(), "default");
}

#[test]
fn lines_of_a_configuration() {
    assert_eq!(log_entry("port", "7777", ConfigOrigin::Param), "  port = 7777 (param)");
    let origin = Some(ConfigOrigin::Environment);
    assert_eq!(log_entry_optional("x", Some("v"), origin, false), "  x = v (environment)");
    assert_eq!(log_entry_optional("x", Some("v"), origin, true), "  x = (set) (environment)");
    assert_eq!(log_entry_optional("x", None, origin, false), "  x = (not set)");
    assert_eq!(log_entry_optional("x", Some("v"), None, false), "  x = (not set)");
    assert_eq!(display_secret(Some("hunter2")), "(set)");
    assert_eq!(display_secret(Some("")), "(not set)");
    assert_eq!(display_secret(None), "(not set)");
    assert_eq!(log_section("subs", &no_file()), vec!["subs configuration:".to_string()]);
    let load = DotenvLoad { env_file: Some("/a/.env".to_string()), keys_from_dotenv: vec![] };
    assert_eq!(log_section("subs", &load)[1], "  (loaded env file: /a/.env)");
}

fn values(password: Option<&str>) -> StartupValues {
    StartupValues {
        port: 7777,
        data_dir: "./data".to_string(),
        wallet: Some("w".to_string()),
        rpc_url: None,
        rpc_user: Some("u".to_string()),
        rpc_password: password.map(|p| p.to_string()),
        rpc_cookie: None,
        basic_auth_user: None,
        basic_auth_password: None,
        publish_require_finalized: true,
        rig: None,
    }
}

#[test]
fn startup_lines() {
    let m = args(&[
        ("port", ValueSource::DefaultValue),
        ("data_dir", ValueSource::CommandLine),
        ("wallet", ValueSource::EnvVariable),
        ("rpc_password", ValueSource::CommandLine),
    ]);
    let vars = env(&[
        ("SUBS_WALLET", "w"),
        ("SUBS_SPACED_RPC_USER", "u"),
        ("SUBS_PROVER_ENDPOINT", "http://p"),
        ("SUBS_PUBLISH_REQUIRE_FINALIZED", "1"),
    ]);
    let load = DotenvLoad {
        env_file: Some(".env".to_string()),
        keys_from_dotenv: vec!["SUBS_WALLET".to_string()],
    };
    let origins = Origins { matches: &m, env: &vars, dotenv: &load };
    let lines = log_startup(&origins, &values(Some("hunter2")));
    let expected = [
        "subs configuration:",
        "  (loaded env file: .env)",
        "  port = 7777 (default)",
        "  data_dir = ./data (param)",
        "  wallet = w (.env)",
        "  rpc_url = (not set)",
        "  rpc_user = u (environment)",
        "  rpc_password = (set) (param)",
        "  rpc_cookie = (not set)",
        "  basic_auth_user = (not set)",
        "  basic_auth_password = (not set)",
        "  prover_endpoint = http://p (environment)",
        "  registry_endpoint = (not set)",
        "  publish_require_finalized = true (environment)",
        "  server_url = http://127.0.0.1:7777 (derived from port)",
    ];
    assert_eq!(lines, expected);
    assert_eq!(lines, log_startup(&origins, &values(Some("other"))));
    let mut rigged = values(None);
    rigged.rig = Some(TestRigValues { test_rig: true, test_rig_dir: "./rig".to_string() });
    let lines = log_startup(&origins, &rigged);
    assert_eq!(lines[14], "  test_rig = true (default)");
    assert_eq!(lines[15], "  test_rig_dir = ./rig (default)");
}

#[test]
fn a_restriction_that_nothing_sets_is_shown_with_its_default() {
    let (m, vars, load) = (args(&[]), env(&[]), no_file());
    let origins = Origins { matches: &m, env: &vars, dotenv: &load };
    let mut cfg = values(None);
    cfg.publish_require_finalized = false;
    let lines = log_startup(&origins, &cfg);
    assert!(lines.contains(&"  publish_require_finalized = false (default)".to_string()));
}

#[test]
fn settings_from_the_environment() {
    let vars = env(&[("SUBS_PROVER_ENDPOINT", " http://p "), ("SUBS_REGISTRY_ENDPOINT", "  ")]);
    let actions = apply_runtime_config_from_env(&vars);
    assert_eq!(actions.len(), 1);
    assert!(
        matches!(actions[0], Action::WriteSetting(Setting::ProverEndpoint, ref v) if v == "http://p")
    );
    let vars = env(&[("SUBS_REGISTRY_ENDPOINT", "http://r")]);
    let actions = apply_runtime_config_from_env(&vars);
    assert!(
        matches!(actions[0], Action::WriteSetting(Setting::RegistryEndpoint, ref v) if v == "http://r")
    );
}

#[test]
fn prover_startup_lines() {
    let m = args(&[("server", ValueSource::CommandLine), ("insert", ValueSource::EnvVariable)]);
    let vars = env(&[("SUBS_PROVER_BENCH_INSERT", "5"), ("SUBS_PROVER_INPUT", "in.bin")]);
    let load = no_file();
    let origins = Origins { matches: &m, env: &vars, dotenv: &load };
    assert_eq!(
        log_server_startup(&origins, true, 8888),
        [
            "subs-prover configuration:",
            "  server = true (param)",
            "  server_port = 8888 (default)",
            "  server_url = http://127.0.0.1:8888 (derived from server_port)",
        ]
    );
    assert_eq!(
        log_bench_startup(&origins, 10, 5),
        [
            "subs-prover configuration:",
            "  command = bench (param)",
            "  bench_existing = 10 (default)",
            "  bench_insert = 5 (environment)",
        ]
    );
    assert_eq!(
        log_subcommand_startup(&origins, "prove", Some("in.bin"), None),
        [
            "subs-prover configuration:",
            "  command = prove (param)",
            "  input = in.bin (environment)",
            "  output = (not set)",
        ]
    );
}
