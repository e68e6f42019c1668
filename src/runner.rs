//! What one run of the watched command produced.
use vstd::prelude::*;

verus! {

/// The outcome of a run that could be spawned and waited for.
pub struct CmdOutput {
    /// The exit code, or `None` when the process was ended by a signal.
    pub status: Option<i32>,
    pub stdout: String,
    pub stderr: String,
}

/// A run's outcome, or the description of why it could not be spawned or
/// waited for.
pub type CmdResult = Result<CmdOutput, String>;

} // verus!
