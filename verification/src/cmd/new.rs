//! `specmate new`: not implemented yet.
use crate::text::owned;
use vstd::prelude::*;

verus! {

/// Arguments for `specmate new`.
#[derive(Debug)]
pub struct NewArgs {
    /// Document type (prd, design, plan, task, patch).
    pub doc_type: String,
    /// Slug for the new document.
    pub slug: Option<String>,
}

/// Runs `specmate new`, which always reports that it is not implemented yet.
pub fn run(args: NewArgs) -> (r: Result<(), String>)
    ensures
        r is Err && r->Err_0@ == "specmate new is not yet implemented"@,
{
    Err(owned("specmate new is not yet implemented"))
}

} // verus!
