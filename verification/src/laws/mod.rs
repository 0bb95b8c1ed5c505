//! What the operations are for.
//!
//! Each law says, for all inputs, what an operation asks of the world and what it answers,
//! in terms of what it was given and what it was told, whatever the stages in between.
pub mod auth;
pub mod background;
pub mod commits;
pub mod config;
pub mod console;
pub mod history;
pub mod logs;
pub mod prover;
pub mod proving;
pub mod registry;
pub mod settings;
pub mod text;
pub mod tools;
