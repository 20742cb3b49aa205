//! Token verification and device-login logic for the runbeam command-line tool.
//!
//! The library holds the decisions: which signing key verifies a token, when a
//! cached key set may be reused, how a device login advances from one server
//! answer to the next, and how the local registry of proxy instances changes.
//! Network calls, files and the terminal stay with the caller.

pub mod text;
pub mod error;
pub mod jwt;
pub mod login;
pub mod storage;
pub mod config;
pub mod management;
pub mod cli;
