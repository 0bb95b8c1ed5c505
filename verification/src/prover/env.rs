//! What the prover shows of its settings at startup.
use vstd::prelude::*;

use crate::config_origins::{
    entry_line, log_entry, log_entry_optional, log_section, optional_line, origin_for_env_var,
    origin_from_clap, section_lines,
};
use crate::env::{switch, switch_text, Origins, OriginsView};
use crate::text::{
    decimal, group_list_view, list_view, opt_str_view, u64_text, usize_text,
};

verus! {

broadcast use group_list_view;

/// The lines for the server.
pub open spec fn server_lines(o: OriginsView, server: bool, port: u16) -> Seq<Seq<char>> {
    section_lines("subs-prover"@, o.dotenv) + seq![
        entry_line("server"@, switch_text(server), o.of_argument("server"@, "SUBS_PROVER_SERVER"@)),
        entry_line(
            "server_port"@,
            decimal(port as nat),
            o.of_argument("server_port"@, "SUBS_PROVER_PORT"@),
        ),
        "  server_url = http://127.0.0.1:"@ + decimal(port as nat)
            + " (derived from server_port)"@,
    ]
}

fn argument_line(o: &Origins<'_>, name: &str, value: &str, env_var: &str) -> (line: String)
    ensures
        line@ == entry_line(name@, value@, o@.of_argument(name@, env_var@)),
{
    let origin = origin_from_clap(o.matches, name, Some(env_var), o.env, o.dotenv);
    log_entry(name, value, origin)
}

/// The lines that are shown when the server starts.
pub fn log_server_startup(o: &Origins<'_>, server: bool, port: u16) -> (lines: Vec<String>)
    ensures
        list_view(lines@) == server_lines(o@, server, port),
{
    let number = u64_text(port as u64);
    let mut lines = log_section("subs-prover", o.dotenv);
    lines.push(argument_line(o, "server", switch(server), "SUBS_PROVER_SERVER"));
    lines.push(argument_line(o, "server_port", number.as_str(), "SUBS_PROVER_PORT"));
    lines.push(
        "  server_url = http://127.0.0.1:".to_owned().concat(number.as_str()).concat(
            " (derived from server_port)",
        ),
    );
    assert(list_view(lines@) =~= server_lines(o@, server, port));
    lines
}

/// A line for a path that is read or written.
pub open spec fn path_line(
    o: OriginsView,
    field_id: Seq<char>,
    env_var: Seq<char>,
    value: Option<Seq<char>>,
) -> Seq<char> {
    optional_line(field_id, value, o.of_field(field_id, env_var, value), false)
}

/// The line for a path that is read or written.
pub fn log_io_path(o: &Origins<'_>, field_id: &str, env_var: &str, value: Option<&str>) -> (line:
    String)
    ensures
        line@ == path_line(o@, field_id@, env_var@, opt_str_view(value)),
{
    let origin = match o.matches.value_source(field_id) {
        Some(_) => Some(origin_from_clap(o.matches, field_id, Some(env_var), o.env, o.dotenv)),
        None => if value.is_some() {
            origin_for_env_var(o.env, env_var, o.dotenv)
        } else {
            None
        },
    };
    log_entry_optional(field_id, value, origin, false)
}

/// The lines for a command that reads and writes.
pub open spec fn subcommand_lines(
    o: OriginsView,
    sub_name: Seq<char>,
    input: Option<Seq<char>>,
    output: Option<Seq<char>>,
) -> Seq<Seq<char>> {
    section_lines("subs-prover"@, o.dotenv) + seq![
        "  command = "@ + sub_name + " (param)"@,
        path_line(o, "input"@, "SUBS_PROVER_INPUT"@, input),
        path_line(o, "output"@, "SUBS_PROVER_OUTPUT"@, output),
    ]
}

/// The lines that are shown when a command that reads and writes starts.
pub fn log_subcommand_startup(
    o: &Origins<'_>,
    sub_name: &str,
    input: Option<&str>,
    output: Option<&str>,
) -> (lines: Vec<String>)
    ensures
        list_view(lines@) == subcommand_lines(
            o@,
            sub_name@,
            opt_str_view(input),
            opt_str_view(output),
        ),
{
    let mut lines = log_section("subs-prover", o.dotenv);
    lines.push("  command = ".to_owned().concat(sub_name).concat(" (param)"));
    lines.push(log_io_path(o, "input", "SUBS_PROVER_INPUT", input));
    lines.push(log_io_path(o, "output", "SUBS_PROVER_OUTPUT", output));
    assert(list_view(lines@) =~= subcommand_lines(
        o@,
        sub_name@,
        opt_str_view(input),
        opt_str_view(output),
    ));
    lines
}

/// The lines for the benchmark.
pub open spec fn bench_lines(o: OriginsView, existing: usize, insert: usize) -> Seq<Seq<char>> {
    section_lines("subs-prover"@, o.dotenv) + seq![
        "  command = bench (param)"@,
        entry_line(
            "bench_existing"@,
            decimal(existing as nat),
            o.of_argument("existing"@, "SUBS_PROVER_BENCH_EXISTING"@),
        ),
        entry_line(
            "bench_insert"@,
            decimal(insert as nat),
            o.of_argument("insert"@, "SUBS_PROVER_BENCH_INSERT"@),
        ),
    ]
}

/// The lines that are shown when the benchmark starts.
pub fn log_bench_startup(o: &Origins<'_>, existing: usize, insert: usize) -> (lines: Vec<String>)
    ensures
        list_view(lines@) == bench_lines(o@, existing, insert),
{
    let mut lines = log_section("subs-prover", o.dotenv);
    lines.push("  command = bench (param)".to_owned());
    let first = origin_from_clap(
        o.matches,
        "existing",
        Some("SUBS_PROVER_BENCH_EXISTING"),
        o.env,
        o.dotenv,
    );
    lines.push(log_entry("bench_existing", usize_text(existing).as_str(), first));
    let second = origin_from_clap(
        o.matches,
        "insert",
        Some("SUBS_PROVER_BENCH_INSERT"),
        o.env,
        o.dotenv,
    );
    lines.push(log_entry("bench_insert", usize_text(insert).as_str(), second));
    assert(list_view(lines@) =~= bench_lines(o@, existing, insert));
    lines
}

} // verus!
