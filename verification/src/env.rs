//! Settings from the environment, and what is shown of them at startup.
use vstd::prelude::*;

use crate::config_origins::{
    argument_origin, display_secret, entry, entry_line, env_origin, log_entry, log_entry_optional,
    log_section, optional_line, origin_for_env_var, origin_from_clap, section_lines, shown_secret,
    Arguments, ConfigOrigin, DotenvLoad, DotenvLoadView, Environment, ValueSource,
};
use crate::flow::{Action, ActionView, Setting};
use crate::text::{
    decimal, group_list_view, list_view, lowered, lowered_eq, opt_str_view, opt_view, trim, trimmed,
    u64_text,
};

verus! {

broadcast use group_list_view;

/// The variable that restricts publishing to final commitments.
pub open spec fn publish_variable() -> Seq<char> {
    "SUBS_PUBLISH_REQUIRE_FINALIZED"@
}

/// A value that switches something on: `1`, `true`, `yes` or `on`, in upper or lower
/// case and with blanks around it.
pub open spec fn truthy(value: Seq<char>) -> bool {
    let v = lowered(trimmed(value));
    v == "1"@ || v == "true"@ || v == "yes"@ || v == "on"@
}

/// A switch in the environment: off where the variable is not set, empty or anything
/// that does not switch it on.
pub open spec fn env_switch(env: Seq<(Seq<char>, Seq<char>)>, name: Seq<char>) -> bool {
    entry(env, name) matches Some(value) && truthy(value)
}

/// A switch in the environment.
pub fn env_bool_default_false(env: &Environment, var: &str) -> (on: bool)
    ensures
        on == env_switch(env@, var@),
{
    match env.var(var) {
        None => false,
        Some(value) => {
            let v = trim(value);
            lowered_eq(v, "1") || lowered_eq(v, "true") || lowered_eq(v, "yes") || lowered_eq(
                v,
                "on",
            )
        },
    }
}

/// Whether only final commitments may be published: as the command line says, else
/// as the environment does.
pub open spec fn require_finalized(
    matches: Seq<(Seq<char>, ValueSource)>,
    cli_flag: bool,
    env: Seq<(Seq<char>, Seq<char>)>,
) -> bool {
    if entry(matches, "publish_require_finalized"@) == Some(ValueSource::CommandLine) {
        cli_flag
    } else {
        env_switch(env, publish_variable())
    }
}

/// Whether only final commitments may be published.
pub fn resolve_publish_require_finalized(
    matches: &Arguments,
    cli_flag: bool,
    env: &Environment,
) -> (required: bool)
    ensures
        required == require_finalized(matches@, cli_flag, env@),
{
    match matches.value_source("publish_require_finalized") {
        Some(ValueSource::CommandLine) => cli_flag,
        _ => env_bool_default_false(env, "SUBS_PUBLISH_REQUIRE_FINALIZED"),
    }
}

// ---------------------------------------------------------------------------
// What is shown at startup
// ---------------------------------------------------------------------------

/// The settings of a test rig.
pub struct TestRigValues {
    pub test_rig: bool,
    pub test_rig_dir: String,
}

pub ghost struct TestRigValuesView {
    pub test_rig: bool,
    pub test_rig_dir: Seq<char>,
}

impl View for TestRigValues {
    type V = TestRigValuesView;

    open spec fn view(&self) -> TestRigValuesView {
        TestRigValuesView { test_rig: self.test_rig, test_rig_dir: self.test_rig_dir@ }
    }
}

/// The settings that are shown at startup.
pub struct StartupValues {
    pub port: u16,
    pub data_dir: String,
    pub wallet: Option<String>,
    pub rpc_url: Option<String>,
    pub rpc_user: Option<String>,
    pub rpc_password: Option<String>,
    pub rpc_cookie: Option<String>,
    pub basic_auth_user: Option<String>,
    pub basic_auth_password: Option<String>,
    pub publish_require_finalized: bool,
    /// Where there is a test rig.
    pub rig: Option<TestRigValues>,
}

pub ghost struct StartupValuesView {
    pub port: u16,
    pub data_dir: Seq<char>,
    pub wallet: Option<Seq<char>>,
    pub rpc_url: Option<Seq<char>>,
    pub rpc_user: Option<Seq<char>>,
    pub rpc_password: Option<Seq<char>>,
    pub rpc_cookie: Option<Seq<char>>,
    pub basic_auth_user: Option<Seq<char>>,
    pub basic_auth_password: Option<Seq<char>>,
    pub publish_require_finalized: bool,
    pub rig: Option<TestRigValuesView>,
}

impl View for StartupValues {
    type V = StartupValuesView;

    open spec fn view(&self) -> StartupValuesView {
        StartupValuesView {
            port: self.port,
            data_dir: self.data_dir@,
            wallet: opt_view(self.wallet),
            rpc_url: opt_view(self.rpc_url),
            rpc_user: opt_view(self.rpc_user),
            rpc_password: opt_view(self.rpc_password),
            rpc_cookie: opt_view(self.rpc_cookie),
            basic_auth_user: opt_view(self.basic_auth_user),
            basic_auth_password: opt_view(self.basic_auth_password),
            publish_require_finalized: self.publish_require_finalized,
            rig: opt_view(self.rig),
        }
    }
}

/// What there is to know about origins.
pub struct Origins<'a> {
    pub matches: &'a Arguments,
    pub env: &'a Environment,
    pub dotenv: &'a DotenvLoad,
}

pub ghost struct OriginsView {
    pub matches: Seq<(Seq<char>, ValueSource)>,
    pub env: Seq<(Seq<char>, Seq<char>)>,
    pub dotenv: DotenvLoadView,
}

impl<'a> View for Origins<'a> {
    type V = OriginsView;

    open spec fn view(&self) -> OriginsView {
        OriginsView { matches: self.matches@, env: self.env@, dotenv: self.dotenv@ }
    }
}

impl OriginsView {
    /// The origin of an argument that may also come from a variable.
    pub open spec fn of_argument(self, field_id: Seq<char>, env_var: Seq<char>) -> ConfigOrigin {
        argument_origin(entry(self.matches, field_id), self.env, self.dotenv, Some(env_var))
    }

    /// The origin of an optional argument: none where neither the arguments nor,
    /// for a value that is there, the environment knows it.
    pub open spec fn of_field(
        self,
        field_id: Seq<char>,
        env_var: Seq<char>,
        value: Option<Seq<char>>,
    ) -> Option<ConfigOrigin> {
        if entry(self.matches, field_id) is Some {
            Some(self.of_argument(field_id, env_var))
        } else if value is Some {
            env_origin(self.env, self.dotenv, env_var)
        } else {
            None
        }
    }
}

/// A line for an optional argument. Of a secret only whether it is set is shown.
pub open spec fn field_line(
    o: OriginsView,
    field_id: Seq<char>,
    env_var: Seq<char>,
    value: Option<Seq<char>>,
    secret: bool,
) -> Seq<char> {
    let origin = o.of_field(field_id, env_var, value);
    if secret {
        match origin {
            Some(origin) => entry_line(field_id, shown_secret(value), origin),
            None => "  "@ + field_id + " = "@ + shown_secret(value),
        }
    } else {
        optional_line(field_id, value, origin, false)
    }
}

/// The line for an optional argument.
pub fn log_field(
    o: &Origins<'_>,
    field_id: &str,
    env_var: &str,
    value: Option<&str>,
    secret: bool,
) -> (line: String)
    ensures
        line@ == field_line(o@, field_id@, env_var@, opt_str_view(value), secret),
{
    let origin = match o.matches.value_source(field_id) {
        Some(_) => Some(origin_from_clap(o.matches, field_id, Some(env_var), o.env, o.dotenv)),
        None => if value.is_some() {
            origin_for_env_var(o.env, env_var, o.dotenv)
        } else {
            None
        },
    };
    if secret {
        let shown = display_secret(value);
        match origin {
            Some(origin) => log_entry(field_id, shown.as_str(), origin),
            None => "  ".to_owned().concat(field_id).concat(" = ").concat(shown.as_str()),
        }
    } else {
        log_entry_optional(field_id, value, origin, false)
    }
}

/// A line for a setting that has no command-line flag.
pub open spec fn env_only_line(
    o: OriginsView,
    name: Seq<char>,
    env_var: Seq<char>,
    secret: bool,
) -> Seq<char> {
    optional_line(name, entry(o.env, env_var), env_origin(o.env, o.dotenv, env_var), secret)
}

/// The line for a setting that has no command-line flag.
pub fn log_env_only(o: &Origins<'_>, name: &str, env_var: &str, secret: bool) -> (line: String)
    ensures
        line@ == env_only_line(o@, name@, env_var@, secret),
{
    let origin = origin_for_env_var(o.env, env_var, o.dotenv);
    log_entry_optional(name, o.env.var(env_var), origin, secret)
}

/// The origin of the restriction to final commitments: the command line, else the
/// variable, else the default.
pub open spec fn publish_origin(o: OriginsView) -> Option<ConfigOrigin> {
    if entry(o.matches, "publish_require_finalized"@) == Some(ValueSource::CommandLine) {
        Some(ConfigOrigin::Param)
    } else {
        match env_origin(o.env, o.dotenv, publish_variable()) {
            Some(origin) => Some(origin),
            None => Some(ConfigOrigin::Default),
        }
    }
}

/// The text of a switch.
pub open spec fn switch_text(on: bool) -> Seq<char> {
    if on {
        "true"@
    } else {
        "false"@
    }
}

/// The text of a switch.
pub fn switch(on: bool) -> (text: &'static str)
    ensures
        text@ == switch_text(on),
{
    if on {
        "true"
    } else {
        "false"
    }
}

/// The lines for the settings of a test rig.
pub open spec fn rig_lines(o: OriginsView, rig: Option<TestRigValuesView>) -> Seq<Seq<char>> {
    match rig {
        Some(rig) => seq![
            entry_line(
                "test_rig"@,
                switch_text(rig.test_rig),
                o.of_argument("test_rig"@, "SUBS_TEST_RIG"@),
            ),
            entry_line(
                "test_rig_dir"@,
                rig.test_rig_dir,
                o.of_argument("test_rig_dir"@, "SUBS_TEST_RIG_DIR"@),
            ),
        ],
        None => Seq::empty(),
    }
}

/// All lines that are shown at startup: a heading, then each setting with its
/// origin, then the address of the server.
pub open spec fn startup_lines(o: OriginsView, cfg: StartupValuesView) -> Seq<Seq<char>> {
    section_lines("subs"@, o.dotenv) + seq![
        entry_line("port"@, decimal(cfg.port as nat), o.of_argument("port"@, "SUBS_PORT"@)),
        entry_line("data_dir"@, cfg.data_dir, o.of_argument("data_dir"@, "SUBS_DATA_DIR"@)),
        field_line(o, "wallet"@, "SUBS_WALLET"@, cfg.wallet, false),
        field_line(o, "rpc_url"@, "SUBS_SPACED_RPC_URL"@, cfg.rpc_url, false),
        field_line(o, "rpc_user"@, "SUBS_SPACED_RPC_USER"@, cfg.rpc_user, false),
        field_line(o, "rpc_password"@, "SUBS_SPACED_RPC_PASSWORD"@, cfg.rpc_password, true),
        field_line(o, "rpc_cookie"@, "SUBS_SPACED_RPC_COOKIE"@, cfg.rpc_cookie, false),
        field_line(o, "basic_auth_user"@, "SUBS_BASIC_AUTH_USER"@, cfg.basic_auth_user, false),
        field_line(
            o,
            "basic_auth_password"@,
            "SUBS_BASIC_AUTH_PASSWORD"@,
            cfg.basic_auth_password,
            true,
        ),
        env_only_line(o, "prover_endpoint"@, "SUBS_PROVER_ENDPOINT"@, false),
        env_only_line(o, "registry_endpoint"@, "SUBS_REGISTRY_ENDPOINT"@, false),
        optional_line(
            "publish_require_finalized"@,
            Some(switch_text(cfg.publish_require_finalized)),
            publish_origin(o),
            false,
        ),
    ] + rig_lines(o, cfg.rig) + seq![
        "  server_url = http://127.0.0.1:"@ + decimal(cfg.port as nat)
            + " (derived from port)"@,
    ]
}

fn opt_str(text: &Option<String>) -> (s: Option<&str>)
    ensures
        opt_str_view(s) == opt_view(*text),
{
    match text {
        Some(t) => Some(t.as_str()),
        None => None,
    }
}

fn argument_line(o: &Origins<'_>, name: &str, value: &str, env_var: &str) -> (line: String)
    ensures
        line@ == entry_line(name@, value@, o@.of_argument(name@, env_var@)),
{
    let origin = origin_from_clap(o.matches, name, Some(env_var), o.env, o.dotenv);
    log_entry(name, value, origin)
}

fn publish_line(o: &Origins<'_>, on: bool) -> (line: String)
    ensures
        line@ == optional_line(
            "publish_require_finalized"@,
            Some(switch_text(on)),
            publish_origin(o@),
            false,
        ),
{
    let name = "publish_require_finalized";
    let variable = "SUBS_PUBLISH_REQUIRE_FINALIZED";
    let origin = match o.matches.value_source(name) {
        Some(ValueSource::CommandLine) => Some(
            origin_from_clap(o.matches, name, Some(variable), o.env, o.dotenv),
        ),
        _ => match origin_for_env_var(o.env, variable, o.dotenv) {
            Some(origin) => Some(origin),
            None => Some(ConfigOrigin::Default),
        },
    };
    log_entry_optional(name, Some(switch(on)), origin, false)
}

/// The lines that are shown at startup.
pub fn log_startup(o: &Origins<'_>, cfg: &StartupValues) -> (lines: Vec<String>)
    ensures
        list_view(lines@) == startup_lines(o@, cfg@),
{
    let port = u64_text(cfg.port as u64);
    let mut lines = log_section("subs", o.dotenv);
    let ghost head = list_view(lines@);
    lines.push(argument_line(o, "port", port.as_str(), "SUBS_PORT"));
    lines.push(argument_line(o, "data_dir", cfg.data_dir.as_str(), "SUBS_DATA_DIR"));
    lines.push(log_field(o, "wallet", "SUBS_WALLET", opt_str(&cfg.wallet), false));
    lines.push(log_field(o, "rpc_url", "SUBS_SPACED_RPC_URL", opt_str(&cfg.rpc_url), false));
    lines.push(log_field(o, "rpc_user", "SUBS_SPACED_RPC_USER", opt_str(&cfg.rpc_user), false));
    lines.push(
        log_field(o, "rpc_password", "SUBS_SPACED_RPC_PASSWORD", opt_str(&cfg.rpc_password), true),
    );
    lines.push(
        log_field(o, "rpc_cookie", "SUBS_SPACED_RPC_COOKIE", opt_str(&cfg.rpc_cookie), false),
    );
    lines.push(
        log_field(
            o,
            "basic_auth_user",
            "SUBS_BASIC_AUTH_USER",
            opt_str(&cfg.basic_auth_user),
            false,
        ),
    );
    lines.push(
        log_field(
            o,
            "basic_auth_password",
            "SUBS_BASIC_AUTH_PASSWORD",
            opt_str(&cfg.basic_auth_password),
            true,
        ),
    );
    lines.push(log_env_only(o, "prover_endpoint", "SUBS_PROVER_ENDPOINT", false));
    lines.push(log_env_only(o, "registry_endpoint", "SUBS_REGISTRY_ENDPOINT", false));
    lines.push(publish_line(o, cfg.publish_require_finalized));
    let ghost body = list_view(lines@);
    match &cfg.rig {
        Some(rig) => {
            lines.push(argument_line(o, "test_rig", switch(rig.test_rig), "SUBS_TEST_RIG"));
            lines.push(
                argument_line(o, "test_rig_dir", rig.test_rig_dir.as_str(), "SUBS_TEST_RIG_DIR"),
            );
        },
        None => {},
    }
    assert(list_view(lines@) =~= body + rig_lines(o@, cfg@.rig));
    lines.push(
        "  server_url = http://127.0.0.1:".to_owned().concat(port.as_str()).concat(
            " (derived from port)",
        ),
    );
    assert(list_view(lines@) =~= startup_lines(o@, cfg@));
    lines
}

/// Two values of a secret that nothing tells apart: both are set or none is, and
/// both are empty or none is.
pub open spec fn alike(a: Option<Seq<char>>, b: Option<Seq<char>>) -> bool {
    match (a, b) {
        (Some(x), Some(y)) => x.len() == 0 <==> y.len() == 0,
        (None, None) => true,
        _ => false,
    }
}

/// What is shown at startup does not depend on what the passwords are, only on
/// whether they are set.
pub proof fn lemma_passwords_are_not_shown(
    o: OriginsView,
    a: StartupValuesView,
    b: StartupValuesView,
)
    requires
        a == (StartupValuesView {
            rpc_password: a.rpc_password,
            basic_auth_password: a.basic_auth_password,
            ..b
        }),
        alike(a.rpc_password, b.rpc_password),
        alike(a.basic_auth_password, b.basic_auth_password),
    ensures
        startup_lines(o, a) == startup_lines(o, b),
{
}

// ---------------------------------------------------------------------------
// Settings that the environment gives
// ---------------------------------------------------------------------------

/// The change that a variable makes to a setting: none where it is not set or
/// blank.
pub open spec fn setting_from(
    env: Seq<(Seq<char>, Seq<char>)>,
    name: Seq<char>,
    setting: Setting,
) -> Seq<ActionView> {
    match entry(env, name) {
        Some(value) if trimmed(value).len() > 0 => seq![
            ActionView::WriteSetting(setting, trimmed(value)),
        ],
        _ => Seq::empty(),
    }
}

fn push_setting(actions: &mut Vec<Action>, env: &Environment, name: &str, setting: Setting)
    ensures
        list_view(final(actions)@) == list_view(old(actions)@) + setting_from(
            env@,
            name@,
            setting,
        ),
{
    let ghost before = list_view(actions@);
    match env.var(name) {
        Some(value) => {
            let value = trim(value);
            if !value.is_empty() {
                actions.push(Action::WriteSetting(setting, value.to_owned()));
            }
        },
        None => {},
    }
    assert(list_view(actions@) =~= before + setting_from(env@, name@, setting));
}

/// The changes that the environment makes to the store at startup, in order.
pub fn apply_runtime_config_from_env(env: &Environment) -> (actions: Vec<Action>)
    ensures
        list_view(actions@) == setting_from(
            env@,
            "SUBS_PROVER_ENDPOINT"@,
            Setting::ProverEndpoint,
        ) + setting_from(env@, "SUBS_REGISTRY_ENDPOINT"@, Setting::RegistryEndpoint),
{
    let mut actions: Vec<Action> = Vec::new();
    push_setting(&mut actions, env, "SUBS_PROVER_ENDPOINT", Setting::ProverEndpoint);
    push_setting(&mut actions, env, "SUBS_REGISTRY_ENDPOINT", Setting::RegistryEndpoint);
    assert(list_view(actions@) =~= setting_from(
        env@,
        "SUBS_PROVER_ENDPOINT"@,
        Setting::ProverEndpoint,
    ) + setting_from(env@, "SUBS_REGISTRY_ENDPOINT"@, Setting::RegistryEndpoint));
    actions
}

} // verus!
