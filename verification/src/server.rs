//! What the node decides about the requests it serves: which origins and hosts it answers, which
//! calls need a credential, what is read on whose behalf, and what is said in the log.
//!
//! The sockets, the files and the engine behind the node are the caller's. Each function here takes
//! what they reported and says what is to be done next.
use vstd::prelude::*;

pub mod access;
pub mod collateral;
pub mod content;
pub mod frames;
pub mod listen;
pub mod mirror;
pub mod origin;
pub mod rpc;
pub mod ws;

verus! {

/// The service's version.
pub const VERSION: &'static str = "0.1.0";

} // verus!
