//! What running another program gave back.

use vstd::prelude::*;

verus! {

/// The end of a program that was run.
#[derive(Clone, Debug)]
pub struct CommandOutput {
    pub success: bool,
    /// How the exit status is shown.
    pub status: String,
    pub exit_code: i32,
    pub stdout: String,
    pub stderr: String,
}

} // verus!
