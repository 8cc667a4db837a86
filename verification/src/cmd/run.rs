//! `specmate run`: not implemented yet.
use crate::text::owned;
use vstd::prelude::*;

verus! {

/// Arguments for `specmate run`.
#[derive(Debug)]
pub struct RunArgs {
    /// Task Spec ID to run (e.g. `exec-auth-add-oauth/task-01`).
    pub task_id: String,
    /// Skip review agent, run coding agent only.
    pub code_only: bool,
    /// Run review agent on current state without re-coding.
    pub review_only: bool,
}

/// Runs `specmate run`, which always reports that it is not implemented yet.
pub fn run(args: RunArgs) -> (r: Result<(), String>)
    ensures
        r is Err && r->Err_0@ == "specmate run is not yet implemented"@,
{
    Err(owned("specmate run is not yet implemented"))
}

} // verus!
