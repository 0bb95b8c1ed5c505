//! Decision logic of an operator service that stages, commits, proves and
//! publishes off-chain names, together with its prover and its maintenance tools.
#![allow(unused_imports)]

pub mod adapters;
pub mod background;
pub mod basic_auth;
pub mod config_origins;
pub mod env;
pub mod flow;
pub mod laws;
pub mod logs;
pub mod prover;
pub mod routes;
pub mod rpc;
pub mod text;
pub mod tools;
