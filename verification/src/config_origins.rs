//! Where configuration values come from, and how they are shown at startup.
use vstd::prelude::*;

use crate::text::{
    before_first, group_list_view, has_prefix, list_contains, list_view, opt_str_view, opt_view,
    after_prefix, split, split_head, split_on, starts_with, strip_prefix, text_eq, trim, trimmed,
};

verus! {

broadcast use group_list_view;

/// Where a configuration value came from.
#[derive(Debug, Clone, Copy, PartialEq, Eq, Structural)]
pub enum ConfigOrigin {
    /// A command-line flag or argument.
    Param,
    /// The process environment, before a file was applied.
    Environment,
    /// A file of variables.
    DotEnv,
    /// A built-in default.
    Default,
}

impl View for ConfigOrigin {
    type V = ConfigOrigin;

    open spec fn view(&self) -> ConfigOrigin {
        *self
    }
}

impl ConfigOrigin {
    /// The name of an origin.
    pub open spec fn name(self) -> Seq<char> {
        match self {
            ConfigOrigin::Param => "param"@,
            ConfigOrigin::Environment => "environment"@,
            ConfigOrigin::DotEnv => ".env"@,
            ConfigOrigin::Default => "default"@,
        }
    }

    /// The name of an origin.
    pub fn text(self) -> (name: &'static str)
        ensures
            name@ == self.name(),
    {
        match self {
            ConfigOrigin::Param => "param",
            ConfigOrigin::Environment => "environment",
            ConfigOrigin::DotEnv => ".env",
            ConfigOrigin::Default => "default",
        }
    }
}

// ---------------------------------------------------------------------------
// The environment and the arguments
// ---------------------------------------------------------------------------

/// The variables of a process.
pub struct Environment {
    pub vars: Vec<(String, String)>,
}

impl View for Environment {
    type V = Seq<(Seq<char>, Seq<char>)>;

    open spec fn view(&self) -> Seq<(Seq<char>, Seq<char>)> {
        list_view(self.vars@)
    }
}

/// The value of the first entry with a given name.
pub open spec fn entry<T>(entries: Seq<(Seq<char>, T)>, name: Seq<char>) -> Option<T>
    decreases entries.len(),
{
    if entries.len() == 0 {
        None
    } else if entries[0].0 == name {
        Some(entries[0].1)
    } else {
        entry(entries.skip(1), name)
    }
}

proof fn lemma_entry_skip<T>(entries: Seq<(Seq<char>, T)>, name: Seq<char>, n: int)
    requires
        0 <= n < entries.len(),
        entries[n].0 != name,
    ensures
        entry(entries.skip(n), name) == entry(entries.skip(n + 1), name),
{
    assert(entries.skip(n)[0] == entries[n]);
    assert(entries.skip(n).skip(1) =~= entries.skip(n + 1));
}

impl Environment {
    /// The value of a variable.
    pub fn var(&self, name: &str) -> (value: Option<&str>)
        ensures
            opt_str_view(value) == entry(self@, name@),
    {
        let mut i: usize = 0;
        assert(self@.skip(0) =~= self@);
        while i < self.vars.len()
            invariant
                i <= self.vars.len(),
                entry(self@, name@) == entry(self@.skip(i as int), name@),
            decreases self.vars.len() - i,
        {
            assert(self@[i as int] == self.vars@[i as int]@);
            if text_eq(self.vars[i].0.as_str(), name) {
                assert(self@.skip(i as int)[0] == self@[i as int]);
                return Some(self.vars[i].1.as_str());
            }
            proof {
                lemma_entry_skip(self@, name@, i as int);
            }
            i = i + 1;
        }
        assert(self@.skip(i as int) =~= Seq::empty());
        None
    }
}

/// How an argument got its value.
#[derive(Debug, Clone, Copy, PartialEq, Eq, Structural)]
pub enum ValueSource {
    CommandLine,
    EnvVariable,
    DefaultValue,
}

impl View for ValueSource {
    type V = ValueSource;

    open spec fn view(&self) -> ValueSource {
        *self
    }
}

/// How the arguments of a command got their values.
pub struct Arguments {
    pub sources: Vec<(String, ValueSource)>,
}

impl View for Arguments {
    type V = Seq<(Seq<char>, ValueSource)>;

    open spec fn view(&self) -> Seq<(Seq<char>, ValueSource)> {
        list_view(self.sources@)
    }
}

impl Arguments {
    /// How an argument got its value, if it has one.
    pub fn value_source(&self, field_id: &str) -> (source: Option<ValueSource>)
        ensures
            source == entry(self@, field_id@),
    {
        let mut i: usize = 0;
        assert(self@.skip(0) =~= self@);
        while i < self.sources.len()
            invariant
                i <= self.sources.len(),
                entry(self@, field_id@) == entry(self@.skip(i as int), field_id@),
            decreases self.sources.len() - i,
        {
            assert(self@[i as int] == self.sources@[i as int]@);
            if text_eq(self.sources[i].0.as_str(), field_id) {
                assert(self@.skip(i as int)[0] == self@[i as int]);
                return Some(self.sources[i].1);
            }
            proof {
                lemma_entry_skip(self@, field_id@, i as int);
            }
            i = i + 1;
        }
        assert(self@.skip(i as int) =~= Seq::empty());
        None
    }
}

// ---------------------------------------------------------------------------
// Files of variables
// ---------------------------------------------------------------------------

/// What came of loading a file of variables.
pub struct DotenvLoad {
    /// The file that was loaded, if any.
    pub env_file: Option<String>,
    /// The variables that the file gave: those that were not set before.
    pub keys_from_dotenv: Vec<String>,
}

pub ghost struct DotenvLoadView {
    pub env_file: Option<Seq<char>>,
    pub keys_from_dotenv: Seq<Seq<char>>,
}

impl View for DotenvLoad {
    type V = DotenvLoadView;

    open spec fn view(&self) -> DotenvLoadView {
        DotenvLoadView {
            env_file: opt_view(self.env_file),
            keys_from_dotenv: list_view(self.keys_from_dotenv@),
        }
    }
}

/// The file to load: the one that a variable names, or the usual one where it
/// exists.
pub open spec fn env_file(named: Option<Seq<char>>, usual_exists: bool) -> Option<Seq<char>> {
    match named {
        Some(path) if path.len() > 0 => Some(path),
        _ => if usual_exists {
            Some(".env"@)
        } else {
            None
        },
    }
}

/// The file to load, given the value of the variable that may name one, and
/// whether the usual one exists.
pub fn resolve_env_file(named: Option<&str>, usual_exists: bool) -> (path: Option<String>)
    ensures
        opt_view(path) == env_file(opt_str_view(named), usual_exists),
{
    match named {
        Some(path) => {
            if !path.is_empty() {
                return Some(path.to_owned());
            }
        },
        None => {},
    }
    if usual_exists {
        Some(".env".to_owned())
    } else {
        None
    }
}

/// A line without an `export` in front of it.
pub open spec fn without_export(line: Seq<char>) -> Seq<char> {
    match after_prefix(line, "export "@) {
        Some(rest) => rest,
        None => line,
    }
}

/// The variable that a line sets. Blank lines and comments set none.
pub open spec fn key_of(line: Seq<char>) -> Option<Seq<char>> {
    let line = trimmed(line);
    let setting = trimmed(without_export(line));
    let key = trimmed(before_first(setting, '='));
    if line.len() == 0 || has_prefix(line, "#"@) || !setting.contains('=') || key.len() == 0 {
        None
    } else {
        Some(key)
    }
}

/// The variable that a line sets.
pub fn line_key(line: &str) -> (key: Option<String>)
    ensures
        opt_view(key) == key_of(line@),
{
    let line = trim(line);
    if line.is_empty() || starts_with(line, "#") {
        return None;
    }
    let setting = match strip_prefix(line, "export ") {
        Some(rest) => rest,
        None => line,
    };
    match split_head(trim(setting), '=') {
        None => None,
        Some(key) => {
            let key = trim(key);
            if key.is_empty() {
                None
            } else {
                Some(key.to_owned())
            }
        },
    }
}

/// The variables that some lines set, each once, in the order of the first line
/// that sets it.
pub open spec fn keys_in(lines: Seq<Seq<char>>) -> Seq<Seq<char>>
    decreases lines.len(),
{
    if lines.len() == 0 {
        Seq::empty()
    } else {
        let before = keys_in(lines.drop_last());
        match key_of(lines.last()) {
            Some(key) if !before.contains(key) => before.push(key),
            _ => before,
        }
    }
}

/// The variables that a file sets, going by its text.
pub fn parse_dotenv_keys(content: &str) -> (keys: Vec<String>)
    ensures
        list_view(keys@) == keys_in(split_on(content@, '\n')),
{
    let lines = split(content, '\n');
    let ghost all = split_on(content@, '\n');
    let mut keys: Vec<String> = Vec::new();
    let mut i: usize = 0;
    assert(all.take(0) =~= Seq::empty());
    while i < lines.len()
        invariant
            i <= lines.len(),
            all == list_view(lines@),
            list_view(keys@) == keys_in(all.take(i as int)),
        decreases lines.len() - i,
    {
        let key = line_key(lines[i].as_str());
        i = i + 1;
        assert(all.take(i as int).drop_last() =~= all.take(i - 1));
        assert(all.take(i as int).last() == lines@[i - 1]@);
        match key {
            Some(key) => {
                if !list_contains(&keys, key.as_str()) {
                    keys.push(key);
                }
            },
            None => {},
        }
    }
    assert(all.take(i as int) =~= all);
    keys
}

/// The variables of a file are those that some line of it sets, and none is listed
/// twice.
pub proof fn lemma_keys_in(lines: Seq<Seq<char>>, key: Seq<char>)
    ensures
        keys_in(lines).no_duplicates(),
        keys_in(lines).contains(key) <==> exists|i: int|
            0 <= i < lines.len() && key_of(#[trigger] lines[i]) == Some(key),
    decreases lines.len(),
{
    if lines.len() > 0 {
        let front = lines.drop_last();
        let before = keys_in(front);
        lemma_keys_in(front, key);
        if before.contains(key) {
            let i = choose|i: int|
                0 <= i < front.len() && key_of(#[trigger] front[i]) == Some(key);
            assert(key_of(lines[i]) == Some(key));
            let k = choose|k: int| 0 <= k < before.len() && before[k] == key;
            assert(keys_in(lines)[k] == key);
        }
        if key_of(lines.last()) == Some(key) {
            assert(key_of(lines[lines.len() - 1]) == Some(key));
            if !before.contains(key) {
                assert(keys_in(lines)[before.len() as int] == key);
            }
        }
        if exists|i: int| 0 <= i < lines.len() && key_of(#[trigger] lines[i]) == Some(key) {
            let i = choose|i: int| 0 <= i < lines.len() && key_of(#[trigger] lines[i]) == Some(key);
            if i < front.len() {
                assert(key_of(front[i]) == Some(key));
            }
        }
        if keys_in(lines).contains(key) && !before.contains(key) {
            let k = choose|k: int| 0 <= k < keys_in(lines).len() && keys_in(lines)[k] == key;
            if k < before.len() {
                assert(before[k] == key);
            }
        }
    }
}

/// The variables of a list that are set after a file was applied and were not
/// before.
pub open spec fn newly_set(
    keys: Seq<Seq<char>>,
    before: Seq<(Seq<char>, Seq<char>)>,
    after: Seq<(Seq<char>, Seq<char>)>,
) -> Seq<Seq<char>>
    decreases keys.len(),
{
    if keys.len() == 0 {
        Seq::empty()
    } else {
        let rest = newly_set(keys.drop_last(), before, after);
        if entry(after, keys.last()) is Some && entry(before, keys.last()) is None {
            rest.push(keys.last())
        } else {
            rest
        }
    }
}

/// The variables that a file with a given text, or one that could not be read, gives.
pub open spec fn file_keys(content: Option<Seq<char>>) -> Seq<Seq<char>> {
    match content {
        Some(text) => keys_in(split_on(text, '\n')),
        None => Seq::empty(),
    }
}

/// What came of loading a file, from its path, its text where it could be read, and
/// the environment before and after it was applied.
pub fn load_dotenv(
    env_file: Option<String>,
    content: Option<&str>,
    before: &Environment,
    after: &Environment,
) -> (load: DotenvLoad)
    ensures
        load@ == (DotenvLoadView {
            env_file: opt_view(env_file),
            keys_from_dotenv: newly_set(file_keys(opt_str_view(content)), before@, after@),
        }),
{
    let keys = match content {
        Some(text) => parse_dotenv_keys(text),
        None => Vec::new(),
    };
    let ghost all = file_keys(opt_str_view(content));
    assert(list_view(keys@) =~= all);
    let mut fresh: Vec<String> = Vec::new();
    let mut i: usize = 0;
    assert(all.take(0) =~= Seq::empty());
    while i < keys.len()
        invariant
            i <= keys.len(),
            all == list_view(keys@),
            list_view(fresh@) == newly_set(all.take(i as int), before@, after@),
        decreases keys.len() - i,
    {
        let key = &keys[i];
        let is_new = after.var(key.as_str()).is_some() && before.var(key.as_str()).is_none();
        i = i + 1;
        assert(all.take(i as int).drop_last() =~= all.take(i - 1));
        assert(all.take(i as int).last() == keys@[i - 1]@);
        if is_new {
            fresh.push(key.clone());
        }
    }
    assert(all.take(i as int) =~= all);
    DotenvLoad { env_file, keys_from_dotenv: fresh }
}

/// A variable counts as given by a file only if the file sets it, it is set now,
/// and it was not set before: what was set before is never overridden.
pub proof fn lemma_newly_set(
    keys: Seq<Seq<char>>,
    before: Seq<(Seq<char>, Seq<char>)>,
    after: Seq<(Seq<char>, Seq<char>)>,
    key: Seq<char>,
)
    ensures
        newly_set(keys, before, after).contains(key) <==> keys.contains(key) && entry(after, key)
            is Some && entry(before, key) is None,
    decreases keys.len(),
{
    if keys.len() > 0 {
        let front = keys.drop_last();
        let rest = newly_set(front, before, after);
        let all = newly_set(keys, before, after);
        lemma_newly_set(front, before, after, key);
        if front.contains(key) {
            let k = choose|k: int| 0 <= k < front.len() && front[k] == key;
            assert(keys[k] == key);
        }
        if keys.contains(key) && key != keys.last() {
            let k = choose|k: int| 0 <= k < keys.len() && keys[k] == key;
            assert(front[k] == key);
        }
        assert(keys[keys.len() - 1] == keys.last());
        if rest.contains(key) {
            let k = choose|k: int| 0 <= k < rest.len() && rest[k] == key;
            assert(all[k] == key);
        }
        if all.len() > rest.len() {
            assert(all[rest.len() as int] == keys.last());
        }
        if all.contains(key) && key != keys.last() {
            let k = choose|k: int| 0 <= k < all.len() && all[k] == key;
            assert(rest[k] == key);
        }
        if all.contains(key) && all.len() == rest.len() {
            let k = choose|k: int| 0 <= k < all.len() && all[k] == key;
            assert(rest[k] == key);
        }
    }
}

// ---------------------------------------------------------------------------
// Origins
// ---------------------------------------------------------------------------

/// The origin of a variable that is set.
pub open spec fn env_origin(
    env: Seq<(Seq<char>, Seq<char>)>,
    dotenv: DotenvLoadView,
    name: Seq<char>,
) -> Option<ConfigOrigin> {
    if entry(env, name) is None {
        None
    } else if dotenv.keys_from_dotenv.contains(name) {
        Some(ConfigOrigin::DotEnv)
    } else {
        Some(ConfigOrigin::Environment)
    }
}

/// The origin of a setting that has no command-line flag, if it is set.
pub fn origin_for_env_var(env: &Environment, env_var: &str, dotenv: &DotenvLoad) -> (origin: Option<
    ConfigOrigin,
>)
    ensures
        origin == env_origin(env@, dotenv@, env_var@),
{
    if env.var(env_var).is_none() {
        return None;
    }
    if list_contains(&dotenv.keys_from_dotenv, env_var) {
        Some(ConfigOrigin::DotEnv)
    } else {
        Some(ConfigOrigin::Environment)
    }
}

/// The origin of an argument that may also come from a variable.
pub open spec fn argument_origin(
    source: Option<ValueSource>,
    env: Seq<(Seq<char>, Seq<char>)>,
    dotenv: DotenvLoadView,
    env_var: Option<Seq<char>>,
) -> ConfigOrigin {
    match source {
        Some(ValueSource::CommandLine) => ConfigOrigin::Param,
        Some(ValueSource::EnvVariable) => match env_var {
            Some(name) => match env_origin(env, dotenv, name) {
                Some(origin) => origin,
                None => ConfigOrigin::Environment,
            },
            None => ConfigOrigin::Environment,
        },
        _ => ConfigOrigin::Default,
    }
}

/// The origin of an argument that may also come from a variable.
pub fn origin_from_clap(
    matches: &Arguments,
    field_id: &str,
    env_var: Option<&str>,
    env: &Environment,
    dotenv: &DotenvLoad,
) -> (origin: ConfigOrigin)
    ensures
        origin == argument_origin(
            entry(matches@, field_id@),
            env@,
            dotenv@,
            opt_str_view(env_var),
        ),
{
    match matches.value_source(field_id) {
        Some(ValueSource::CommandLine) => ConfigOrigin::Param,
        Some(ValueSource::EnvVariable) => match env_var {
            Some(name) => match origin_for_env_var(env, name, dotenv) {
                Some(origin) => origin,
                None => ConfigOrigin::Environment,
            },
            None => ConfigOrigin::Environment,
        },
        _ => ConfigOrigin::Default,
    }
}

/// What was set before a file was applied counts as set by the environment, whatever
/// the file says.
pub proof fn lemma_environment_comes_before_the_file(
    file: Option<Seq<char>>,
    keys: Seq<Seq<char>>,
    before: Seq<(Seq<char>, Seq<char>)>,
    after: Seq<(Seq<char>, Seq<char>)>,
    name: Seq<char>,
)
    requires
        entry(before, name) is Some,
        entry(after, name) is Some,
    ensures
        env_origin(
            after,
            DotenvLoadView { env_file: file, keys_from_dotenv: newly_set(keys, before, after) },
            name,
        ) == Some(ConfigOrigin::Environment),
{
    lemma_newly_set(keys, before, after, name);
}

/// A value on the command line counts before any variable.
pub proof fn lemma_command_line_comes_first(
    env: Seq<(Seq<char>, Seq<char>)>,
    dotenv: DotenvLoadView,
    env_var: Option<Seq<char>>,
)
    ensures
        argument_origin(Some(ValueSource::CommandLine), env, dotenv, env_var)
            == ConfigOrigin::Param,
{
}

// ---------------------------------------------------------------------------
// Lines
// ---------------------------------------------------------------------------

/// The heading of a section, and the file that was loaded for it.
pub open spec fn section_lines(component: Seq<char>, dotenv: DotenvLoadView) -> Seq<Seq<char>> {
    let heading = component + " configuration:"@;
    match dotenv.env_file {
        Some(path) => seq![heading, "  (loaded env file: "@ + path + ")"@],
        None => seq![heading],
    }
}

/// The lines that head a section.
pub fn log_section(component: &str, dotenv: &DotenvLoad) -> (lines: Vec<String>)
    ensures
        list_view(lines@) == section_lines(component@, dotenv@),
{
    let mut lines: Vec<String> = Vec::new();
    lines.push(component.to_owned().concat(" configuration:"));
    match &dotenv.env_file {
        Some(path) => {
            lines.push("  (loaded env file: ".to_owned().concat(path.as_str()).concat(")"));
        },
        None => {},
    }
    assert(list_view(lines@) =~= section_lines(component@, dotenv@));
    lines
}

/// A line for a value and its origin.
pub open spec fn entry_line(name: Seq<char>, value: Seq<char>, origin: ConfigOrigin) -> Seq<char> {
    "  "@ + name + " = "@ + value + " ("@ + origin.name() + ")"@
}

/// The line for a value and its origin.
pub fn log_entry(name: &str, value: &str, origin: ConfigOrigin) -> (line: String)
    ensures
        line@ == entry_line(name@, value@, origin),
{
    "  ".to_owned().concat(name).concat(" = ").concat(value).concat(" (").concat(
        origin.text(),
    ).concat(")")
}

/// A line for a value that may be missing. Of a secret only that it is set is shown.
pub open spec fn optional_line(
    name: Seq<char>,
    value: Option<Seq<char>>,
    origin: Option<ConfigOrigin>,
    secret: bool,
) -> Seq<char> {
    match (value, origin) {
        (Some(v), Some(o)) => entry_line(
            name,
            if secret {
                "(set)"@
            } else {
                v
            },
            o,
        ),
        _ => "  "@ + name + " = (not set)"@,
    }
}

/// The line for a value that may be missing.
pub fn log_entry_optional(
    name: &str,
    value: Option<&str>,
    origin: Option<ConfigOrigin>,
    secret: bool,
) -> (line: String)
    ensures
        line@ == optional_line(name@, opt_str_view(value), origin, secret),
{
    match (value, origin) {
        (Some(v), Some(o)) => {
            if secret {
                log_entry(name, "(set)", o)
            } else {
                log_entry(name, v, o)
            }
        },
        _ => "  ".to_owned().concat(name).concat(" = (not set)"),
    }
}

/// What is shown of a secret.
pub open spec fn shown_secret(value: Option<Seq<char>>) -> Seq<char> {
    match value {
        Some(v) if v.len() > 0 => "(set)"@,
        _ => "(not set)"@,
    }
}

/// What is shown of a secret.
pub fn display_secret(value: Option<&str>) -> (shown: String)
    ensures
        shown@ == shown_secret(opt_str_view(value)),
{
    match value {
        Some(v) => if v.is_empty() {
            "(not set)".to_owned()
        } else {
            "(set)".to_owned()
        },
        None => "(not set)".to_owned(),
    }
}

/// What is shown of a secret does not depend on what it is, only on whether there
/// is one.
pub proof fn lemma_secrets_are_not_shown(
    a: Seq<char>,
    b: Seq<char>,
    name: Seq<char>,
    origin: Option<ConfigOrigin>,
)
    requires
        a.len() > 0,
        b.len() > 0,
    ensures
        shown_secret(Some(a)) == shown_secret(Some(b)),
        optional_line(name, Some(a), origin, true) == optional_line(name, Some(b), origin, true),
{
}

} // verus!
