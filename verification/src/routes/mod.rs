//! The handlers of the HTTP interface.
pub mod auth;
pub mod certs;
pub mod commits;
pub mod config;
pub mod console;
pub mod logging;
pub mod logs;
pub mod proving;
pub mod registry;
