# subs

The decision logic of a service that operates spaces: it stages handles, commits them,
has them proved, and publishes their certificates. The library in `src/` is verified with
Verus; what touches the world stands in `app/`.

## How it is laid out

- `src/flow.rs` holds the vocabulary. A handler that needs outside help is a function from
  the stage it has reached and an event to the next action, or to its answer. Laws about
  whole runs are stated over such machines.
- `src/routes/` holds the handlers of the HTTP interface, `src/background.rs` the loops
  that run beside it, and `src/logs.rs` the log that can be followed.
- `src/prover/` holds the jobs of the prover's server, their progress, and who may use it.
- `src/config_origins.rs` and `src/env.rs` say where settings come from and what is shown
  of them.
- `src/tools/` holds the tools for operators.
- `src/adapters.rs` holds every call into another crate, each with the claim that is
  made of it. Nothing else in `src/` is taken on trust.
- `app/` is the program: command line, files, HTTP, and the loop that performs actions.
  It reaches the operator's state and the maker of proofs through the traits in
  `app/ports.rs`.
