//! Where settings come from, and what is shown of them.
use vstd::prelude::*;

use crate::config_origins::{
    argument_origin, entry, entry_line, env_file, env_origin, key_of, keys_in, optional_line,
    section_lines, shown_secret, ConfigOrigin, DotenvLoadView, ValueSource,
};
use crate::env::{
    env_only_line, env_switch, field_line, publish_origin, require_finalized, setting_from,
    startup_lines, truthy, OriginsView, StartupValuesView,
};
use crate::flow::{ActionView, Setting};
use crate::laws::text::{
    all_blank, lemma_blanks_are_dropped, lemma_first_pieces, lemma_openings_are_stripped,
};
use crate::prover::env::{bench_lines, path_line, server_lines, subcommand_lines};
use crate::text::{before_first, decimal, has_prefix, is_space, lowered, trimmed};

verus! {

// ---------------------------------------------------------------------------
// Variables
// ---------------------------------------------------------------------------

/// A name has the value of the first entry for it, and none where there is no entry.
pub proof fn lemma_the_first_entry_counts<T>(
    name: Seq<char>,
    other: Seq<char>,
    value: T,
    rest: Seq<(Seq<char>, T)>,
)
    requires
        name != other,
    ensures
        entry(seq![(name, value)] + rest, name) == Some(value),
        entry(seq![(other, value)] + rest, name) == entry(rest, name),
        entry(Seq::<(Seq<char>, T)>::empty(), name) is None,
{
    assert((seq![(other, value)] + rest).skip(1) =~= rest);
}

/// The file that is named is loaded; without a name, or with an empty one, the usual file is where it
/// exists, and else none.
pub proof fn lemma_the_file_to_load(path: Seq<char>, usual_exists: bool)
    ensures
        path.len() > 0 ==> env_file(Some(path), usual_exists) == Some(path),
        env_file(None, true) == Some(".env"@),
        env_file(Some(Seq::empty()), true) == Some(".env"@),
        env_file(None, false) is None,
        env_file(Some(Seq::empty()), false) is None,
{
}

/// A text that neither starts nor ends with white space.
pub open spec fn tight(s: Seq<char>) -> bool {
    s.len() > 0 && !is_space(s[0]) && !is_space(s.last())
}

/// A line that gives a name a value sets that name, with blanks anywhere around; blank lines,
/// comments and lines without an equals sign set none.
pub proof fn lemma_lines_set_variables(
    a: Seq<char>,
    b: Seq<char>,
    key: Seq<char>,
    value: Seq<char>,
    c: Seq<char>,
    rest: Seq<char>,
)
    requires
        all_blank(a),
        all_blank(b),
        all_blank(c),
        tight(key),
        !key.contains('='),
        key[0] != '#',
        !has_prefix(key + b + seq!['='] + value, "export "@),
        value.len() > 0 ==> !is_space(value.last()),
        tight("#"@ + rest),
    ensures
        key_of(a + (key + b + seq!['='] + value) + c) == Some(key),
        key_of(a) is None,
        key_of(a + ("#"@ + rest) + c) is None,
        key_of(a + key + c) is None,
{
    reveal_strlit("#");
    reveal_strlit("export ");
    let line = key + b + seq!['='] + value;
    assert(line.last() == if value.len() > 0 {
        value.last()
    } else {
        '='
    });
    assert(line[0] == key[0]);
    lemma_blanks_are_dropped(a, line, c);
    let none = Seq::<char>::empty();
    lemma_blanks_are_dropped(none, line, none);
    assert(none + line + none =~= line);
    assert forall|i: int| 0 <= i < b.len() implies #[trigger] b[i] != '=' by {
        assert(is_space(b[i]));
    }
    assert(!(key + b).contains('=')) by {
        if (key + b).contains('=') {
            let k = choose|k: int| 0 <= k < (key + b).len() && (key + b)[k] == '=';
            if k < key.len() {
                assert(key[k] == '=');
            } else {
                assert(b[k - key.len()] == '=');
            }
        }
    }
    lemma_first_pieces(key + b, value, '=');
    assert(line[(key + b).len() as int] == '=');
    lemma_blanks_are_dropped(none, key, b);
    assert(none + key + b =~= key + b);
    if has_prefix(line, "#"@) {
        assert(line.take(1)[0] == line[0]);
    }
    lemma_blanks_are_dropped(a, none, none);
    assert(a + none + none =~= a);
    let comment = "#"@ + rest;
    lemma_blanks_are_dropped(a, comment, c);
    assert(comment.take(1) =~= "#"@);
    lemma_blanks_are_dropped(a, key, c);
    let setting = trimmed(crate::config_origins::without_export(key));
    if key_of(a + key + c) is Some {
        assert(setting.contains('='));
        lemma_inner_parts(key, '=');
    }
}

/// An `export` in front of a setting changes nothing.
pub proof fn lemma_exports_set_variables(
    a: Seq<char>,
    d: Seq<char>,
    b: Seq<char>,
    key: Seq<char>,
    value: Seq<char>,
    c: Seq<char>,
)
    requires
        all_blank(a),
        all_blank(b),
        all_blank(c),
        all_blank(d),
        tight(key),
        !key.contains('='),
        value.len() > 0 ==> !is_space(value.last()),
    ensures
        key_of(a + ("export "@ + (d + (key + b + seq!['='] + value))) + c) == Some(key),
{
    reveal_strlit("#");
    reveal_strlit("export ");
    let setting = key + b + seq!['='] + value;
    let line = "export "@ + (d + setting);
    let none = Seq::<char>::empty();
    assert(setting.last() == if value.len() > 0 {
        value.last()
    } else {
        '='
    });
    assert(setting[0] == key[0]);
    assert(line.last() == setting.last());
    assert(line[0] == 'e');
    lemma_blanks_are_dropped(a, line, c);
    lemma_openings_are_stripped("export "@, d + setting, line);
    lemma_blanks_are_dropped(d, setting, none);
    assert(d + setting + none =~= d + setting);
    assert forall|i: int| 0 <= i < b.len() implies #[trigger] b[i] != '=' by {
        assert(is_space(b[i]));
    }
    assert(!(key + b).contains('=')) by {
        if (key + b).contains('=') {
            let k = choose|k: int| 0 <= k < (key + b).len() && (key + b)[k] == '=';
            if k < key.len() {
                assert(key[k] == '=');
            } else {
                assert(b[k - key.len()] == '=');
            }
        }
    }
    lemma_first_pieces(key + b, value, '=');
    assert(setting[(key + b).len() as int] == '=');
    lemma_blanks_are_dropped(none, key, b);
    assert(none + key + b =~= key + b);
    if has_prefix(line, "#"@) {
        assert(line.take(1)[0] == line[0]);
    }
}

/// What is left of a text when an opening and blanks are dropped holds no character that the text
/// does not hold.
proof fn lemma_inner_parts(s: Seq<char>, c: char)
    requires
        !s.contains(c),
    ensures
        !trimmed(crate::config_origins::without_export(s)).contains(c),
{
    let t = crate::config_origins::without_export(s);
    assert(!t.contains(c)) by {
        if t.contains(c) {
            let k = choose|k: int| 0 <= k < t.len() && t[k] == c;
            if has_prefix(s, "export "@) {
                assert(s[k + "export "@.len()] == c);
            } else {
                assert(s[k] == c);
            }
        }
    }
    let (n, m) = crate::laws::text::lemma_trimmed_is_inner(t);
    if trimmed(t).contains(c) {
        let k = choose|k: int| 0 <= k < trimmed(t).len() && trimmed(t)[k] == c;
        assert(t[n + k] == c);
    }
}

/// A variable that is not set has no origin; one that a file gave comes from the file, and any other
/// from the environment.
pub proof fn lemma_origins_of_variables(
    env: Seq<(Seq<char>, Seq<char>)>,
    dotenv: DotenvLoadView,
    name: Seq<char>,
)
    ensures
        env_origin(env, dotenv, name) is None <==> entry(env, name) is None,
        env_origin(env, dotenv, name) == Some(ConfigOrigin::DotEnv) <==> entry(env, name) is Some
            && dotenv.keys_from_dotenv.contains(name),
        env_origin(env, dotenv, name) == Some(ConfigOrigin::Environment) <==> entry(env, name)
            is Some && !dotenv.keys_from_dotenv.contains(name),
{
}

/// An argument from the command line is a parameter; one from a variable has the variable's origin,
/// or the environment's where that is not known; all else is a default.
pub proof fn lemma_origins_of_arguments(
    env: Seq<(Seq<char>, Seq<char>)>,
    dotenv: DotenvLoadView,
    name: Seq<char>,
    variable: Option<Seq<char>>,
)
    ensures
        argument_origin(Some(ValueSource::CommandLine), env, dotenv, variable)
            == ConfigOrigin::Param,
        argument_origin(Some(ValueSource::DefaultValue), env, dotenv, variable)
            == ConfigOrigin::Default,
        argument_origin(None, env, dotenv, variable) == ConfigOrigin::Default,
        argument_origin(Some(ValueSource::EnvVariable), env, dotenv, None)
            == ConfigOrigin::Environment,
        argument_origin(Some(ValueSource::EnvVariable), env, dotenv, Some(name)) == if entry(
            env,
            name,
        ) is Some && dotenv.keys_from_dotenv.contains(name) {
            ConfigOrigin::DotEnv
        } else {
            ConfigOrigin::Environment
        },
{
}

/// A switch is on exactly where its variable holds, in any case and with blanks around it, one of
/// four words.
pub proof fn lemma_switches(
    head: Seq<char>,
    word: Seq<char>,
    tail: Seq<char>,
    env: Seq<(Seq<char>, Seq<char>)>,
    name: Seq<char>,
)
    requires
        all_blank(head),
        all_blank(tail),
        tight(word) || word.len() == 0,
    ensures
        truthy(head + word + tail) <==> lowered(word) == "1"@ || lowered(word) == "true"@ || lowered(
            word,
        ) == "yes"@ || lowered(word) == "on"@,
        env_switch(env, name) <==> entry(env, name) is Some && truthy(entry(env, name)->Some_0),
{
    lemma_blanks_are_dropped(head, word, tail);
}

/// Whether final commitments are required is as the command line says where it says anything, and
/// else as the variable does.
pub proof fn lemma_finality_is_required(
    matches: Seq<(Seq<char>, ValueSource)>,
    cli_flag: bool,
    env: Seq<(Seq<char>, Seq<char>)>,
)
    ensures
        entry(matches, "publish_require_finalized"@) == Some(ValueSource::CommandLine)
            ==> require_finalized(matches, cli_flag, env) == cli_flag,
        entry(matches, "publish_require_finalized"@) != Some(ValueSource::CommandLine)
            ==> require_finalized(matches, cli_flag, env) == env_switch(
            env,
            "SUBS_PUBLISH_REQUIRE_FINALIZED"@,
        ),
{
}

/// A variable that is set to more than blanks is stored, without the blanks around it; any other
/// changes nothing.
pub proof fn lemma_variables_are_stored(
    env: Seq<(Seq<char>, Seq<char>)>,
    name: Seq<char>,
    setting: Setting,
)
    ensures
        setting_from(env, name, setting) == match entry(env, name) {
            None => Seq::<ActionView>::empty(),
            Some(value) => if trimmed(value).len() == 0 {
                Seq::empty()
            } else {
                seq![ActionView::WriteSetting(setting, trimmed(value))]
            },
        },
{
}

// ---------------------------------------------------------------------------
// Lines
// ---------------------------------------------------------------------------

/// The word for an origin.
pub open spec fn word(origin: ConfigOrigin) -> Seq<char> {
    match origin {
        ConfigOrigin::Param => "param"@,
        ConfigOrigin::Environment => "environment"@,
        ConfigOrigin::DotEnv => ".env"@,
        ConfigOrigin::Default => "default"@,
    }
}

/// A line with a name, a value and an origin.
pub open spec fn shown(name: Seq<char>, value: Seq<char>, origin: ConfigOrigin) -> Seq<char> {
    "  "@ + name + " = "@ + value + " ("@ + word(origin) + ")"@
}

/// A value with an origin is shown with both, a secret one only as set; a value that is missing or
/// without an origin is shown as not set. A secret counts as set where it is not empty.
pub proof fn lemma_values_are_shown(
    name: Seq<char>,
    value: Seq<char>,
    origin: ConfigOrigin,
    secret: bool,
    none: Option<ConfigOrigin>,
)
    ensures
        entry_line(name, value, origin) == shown(name, value, origin),
        optional_line(name, Some(value), Some(origin), false) == shown(name, value, origin),
        optional_line(name, Some(value), Some(origin), true) == shown(name, "(set)"@, origin),
        optional_line(name, None, none, secret) == "  "@ + name + " = (not set)"@,
        optional_line(name, Some(value), None, secret) == "  "@ + name + " = (not set)"@,
        value.len() > 0 ==> shown_secret(Some(value)) == "(set)"@,
        shown_secret(Some(Seq::empty())) == "(not set)"@,
        shown_secret(None) == "(not set)"@,
{
}

/// A section starts with its heading and the file that was loaded, if any.
pub proof fn lemma_sections_start(component: Seq<char>, dotenv: DotenvLoadView)
    ensures
        section_lines(component, dotenv) == match dotenv.env_file {
            None => seq![component + " configuration:"@],
            Some(path) => seq![
                component + " configuration:"@,
                "  (loaded env file: "@ + path + ")"@,
            ],
        },
{
}

/// The origin of an argument.
pub open spec fn origin_of(o: OriginsView, field: Seq<char>, variable: Seq<char>) -> ConfigOrigin {
    match entry(o.matches, field) {
        Some(ValueSource::CommandLine) => ConfigOrigin::Param,
        Some(ValueSource::EnvVariable) => if entry(o.env, variable) is Some
            && o.dotenv.keys_from_dotenv.contains(variable) {
            ConfigOrigin::DotEnv
        } else {
            ConfigOrigin::Environment
        },
        _ => ConfigOrigin::Default,
    }
}

/// The origin of an argument that may be missing.
pub open spec fn origin_if_any(
    o: OriginsView,
    field: Seq<char>,
    variable: Seq<char>,
    value: Option<Seq<char>>,
) -> Option<ConfigOrigin> {
    if entry(o.matches, field) is Some {
        Some(origin_of(o, field, variable))
    } else if value is Some && entry(o.env, variable) is Some {
        Some(
            if o.dotenv.keys_from_dotenv.contains(variable) {
                ConfigOrigin::DotEnv
            } else {
                ConfigOrigin::Environment
            },
        )
    } else {
        None
    }
}

/// The line of an argument that may be missing.
pub open spec fn plain_field(
    o: OriginsView,
    field: Seq<char>,
    variable: Seq<char>,
    value: Option<Seq<char>>,
) -> Seq<char> {
    match (value, origin_if_any(o, field, variable, value)) {
        (Some(v), Some(origin)) => shown(field, v, origin),
        _ => "  "@ + field + " = (not set)"@,
    }
}

/// The line of a secret argument.
pub open spec fn secret_field(
    o: OriginsView,
    field: Seq<char>,
    variable: Seq<char>,
    value: Option<Seq<char>>,
) -> Seq<char> {
    let text = match value {
        Some(v) if v.len() > 0 => "(set)"@,
        _ => "(not set)"@,
    };
    match origin_if_any(o, field, variable, value) {
        Some(origin) => shown(field, text, origin),
        None => "  "@ + field + " = "@ + text,
    }
}

/// The line of a setting that has no flag.
pub open spec fn variable_field(o: OriginsView, name: Seq<char>, variable: Seq<char>) -> Seq<char> {
    match entry(o.env, variable) {
        None => "  "@ + name + " = (not set)"@,
        Some(value) => shown(
            name,
            value,
            if o.dotenv.keys_from_dotenv.contains(variable) {
                ConfigOrigin::DotEnv
            } else {
                ConfigOrigin::Environment
            },
        ),
    }
}

/// The word for a switch.
pub open spec fn on_or_off(on: bool) -> Seq<char> {
    if on {
        "true"@
    } else {
        "false"@
    }
}

/// At startup each setting is shown, in a fixed order, with its value, or whether it is set, and
/// its origin, and at the end the address of the server.
pub proof fn lemma_startup_shows_every_setting(o: OriginsView, cfg: StartupValuesView)
    requires
        cfg.rig is None,
    ensures
        ({
            let lines = startup_lines(o, cfg);
            let n = section_lines("subs"@, o.dotenv).len() as int;
            let variable = "SUBS_PUBLISH_REQUIRE_FINALIZED"@;
            let from = if entry(o.matches, "publish_require_finalized"@) == Some(
                ValueSource::CommandLine,
            ) {
                ConfigOrigin::Param
            } else if entry(o.env, variable) is None {
                ConfigOrigin::Default
            } else if o.dotenv.keys_from_dotenv.contains(variable) {
                ConfigOrigin::DotEnv
            } else {
                ConfigOrigin::Environment
            };
            &&& lines.len() == n + 13
            &&& lines.take(n) == section_lines("subs"@, o.dotenv)
            &&& lines[n] == shown(
                "port"@,
                decimal(cfg.port as nat),
                origin_of(o, "port"@, "SUBS_PORT"@),
            )
            &&& lines[n + 1] == shown(
                "data_dir"@,
                cfg.data_dir,
                origin_of(o, "data_dir"@, "SUBS_DATA_DIR"@),
            )
            &&& lines[n + 2] == plain_field(o, "wallet"@, "SUBS_WALLET"@, cfg.wallet)
            &&& lines[n + 3] == plain_field(o, "rpc_url"@, "SUBS_SPACED_RPC_URL"@, cfg.rpc_url)
            &&& lines[n + 4] == plain_field(o, "rpc_user"@, "SUBS_SPACED_RPC_USER"@, cfg.rpc_user)
            &&& lines[n + 5] == secret_field(
                o,
                "rpc_password"@,
                "SUBS_SPACED_RPC_PASSWORD"@,
                cfg.rpc_password,
            )
            &&& lines[n + 6] == plain_field(
                o,
                "rpc_cookie"@,
                "SUBS_SPACED_RPC_COOKIE"@,
                cfg.rpc_cookie,
            )
            &&& lines[n + 7] == plain_field(
                o,
                "basic_auth_user"@,
                "SUBS_BASIC_AUTH_USER"@,
                cfg.basic_auth_user,
            )
            &&& lines[n + 8] == secret_field(
                o,
                "basic_auth_password"@,
                "SUBS_BASIC_AUTH_PASSWORD"@,
                cfg.basic_auth_password,
            )
            &&& lines[n + 9] == variable_field(o, "prover_endpoint"@, "SUBS_PROVER_ENDPOINT"@)
            &&& lines[n + 10] == variable_field(
                o,
                "registry_endpoint"@,
                "SUBS_REGISTRY_ENDPOINT"@,
            )
            &&& lines[n + 11] == shown(
                "publish_require_finalized"@,
                on_or_off(cfg.publish_require_finalized),
                from,
            )
            &&& lines[n + 12] == "  server_url = http://127.0.0.1:"@ + decimal(cfg.port as nat)
                + " (derived from port)"@
        }),
{
    let lines = startup_lines(o, cfg);
    let n = section_lines("subs"@, o.dotenv).len() as int;
    assert(lines.take(n) =~= section_lines("subs"@, o.dotenv));
}

/// With a test rig, its switch and its directory are shown before the address; the other lines are
/// the same.
pub proof fn lemma_startup_shows_the_rig(o: OriginsView, cfg: StartupValuesView)
    requires
        cfg.rig is Some,
    ensures
        ({
            let rig = cfg.rig->Some_0;
            let bare = startup_lines(o, StartupValuesView { rig: None, ..cfg });
            startup_lines(o, cfg) == bare.drop_last() + seq![
                shown(
                    "test_rig"@,
                    on_or_off(rig.test_rig),
                    origin_of(o, "test_rig"@, "SUBS_TEST_RIG"@),
                ),
                shown(
                    "test_rig_dir"@,
                    rig.test_rig_dir,
                    origin_of(o, "test_rig_dir"@, "SUBS_TEST_RIG_DIR"@),
                ),
                bare.last(),
            ]
        }),
{
    let rig = cfg.rig->Some_0;
    let bare = startup_lines(o, StartupValuesView { rig: None, ..cfg });
    assert(startup_lines(o, cfg) =~= bare.drop_last() + seq![
        shown(
            "test_rig"@,
            on_or_off(rig.test_rig),
            origin_of(o, "test_rig"@, "SUBS_TEST_RIG"@),
        ),
        shown(
            "test_rig_dir"@,
            rig.test_rig_dir,
            origin_of(o, "test_rig_dir"@, "SUBS_TEST_RIG_DIR"@),
        ),
        bare.last(),
    ]);
}

/// What the prover shows when it starts as a server, as a command on files, and as a benchmark.
pub proof fn lemma_prover_startup(
    o: OriginsView,
    server: bool,
    port: u16,
    command: Seq<char>,
    input: Option<Seq<char>>,
    output: Option<Seq<char>>,
    existing: usize,
    insert: usize,
)
    ensures
        server_lines(o, server, port) == section_lines("subs-prover"@, o.dotenv) + seq![
            shown(
                "server"@,
                on_or_off(server),
                origin_of(o, "server"@, "SUBS_PROVER_SERVER"@),
            ),
            shown(
                "server_port"@,
                decimal(port as nat),
                origin_of(o, "server_port"@, "SUBS_PROVER_PORT"@),
            ),
            "  server_url = http://127.0.0.1:"@ + decimal(port as nat)
                + " (derived from server_port)"@,
        ],
        subcommand_lines(o, command, input, output) == section_lines("subs-prover"@, o.dotenv)
            + seq![
            "  command = "@ + command + " (param)"@,
            plain_field(o, "input"@, "SUBS_PROVER_INPUT"@, input),
            plain_field(o, "output"@, "SUBS_PROVER_OUTPUT"@, output),
        ],
        bench_lines(o, existing, insert) == section_lines("subs-prover"@, o.dotenv) + seq![
            "  command = bench (param)"@,
            shown(
                "bench_existing"@,
                decimal(existing as nat),
                origin_of(o, "existing"@, "SUBS_PROVER_BENCH_EXISTING"@),
            ),
            shown(
                "bench_insert"@,
                decimal(insert as nat),
                origin_of(o, "insert"@, "SUBS_PROVER_BENCH_INSERT"@),
            ),
        ],
{
}

} // verus!
