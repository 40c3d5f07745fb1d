//! What a command reports: a summary for a person, and the result for a program.
use vstd::prelude::*;

verus! {

/// What a command reports.
#[derive(Debug)]
pub struct Outcome<R> {
    /// For a person.
    pub summary: String,
    /// For a program.
    pub result: R,
}

/// How a command ends when it does not succeed.
#[derive(Debug, Clone, Copy, PartialEq, Eq, Structural)]
pub enum ExitCode {
    /// It was asked for something that is not there.
    Usage,
    /// What it needs is not served.
    NotServing,
    /// A file or the chain could not be read.
    IoError,
}

} // verus!
