//! The prover's server: its jobs, their progress, and who may use it.
pub mod auth;
pub mod env;
pub mod progress;
pub mod server;
