//! The decision core of the DIG node service.
use vstd::prelude::*;

pub mod config;
pub mod error;
pub mod json;
pub mod log;
pub mod meta;
pub mod net;
pub mod oracle;
pub mod outcome;
pub mod paths;
pub mod server;
pub mod service;
pub mod service_control;
pub mod spend_audit;
pub mod spend_audit_cli;
pub mod state;
pub mod text;
pub mod tls;
pub mod tokens;
pub mod untrusted_text;
pub mod updater;
pub mod user_scope;

verus! {

} // verus!
