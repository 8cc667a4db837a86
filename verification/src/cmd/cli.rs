//! The help text of the command-line surface.
use vstd::prelude::*;

verus! {

/// The one-line description of the program.
pub fn about() -> (r: &'static str)
    ensures
        r@ == "specmate — CLI companion for document-driven AI coding"@,
{
    "specmate — CLI companion for document-driven AI coding"
}

/// The description of `specmate check`.
pub fn check_about() -> (r: &'static str)
    ensures
        r@ == "Validate the managed document system"@,
{
    "Validate the managed document system"
}

/// The examples shown under `specmate check --help`.
pub fn check_after_help() -> (r: &'static str)
    ensures
        r@ == "Examples:\n  specmate check\n  specmate check names\n  specmate check boundaries task-0001"@,
{
    "Examples:\n  specmate check\n  specmate check names\n  specmate check boundaries task-0001"
}

/// The description of `specmate init`.
pub fn init_about() -> (r: &'static str)
    ensures
        r@ == "Initialise a new repo with the specmate document structure"@,
{
    "Initialise a new repo with the specmate document structure"
}

/// The examples shown under `specmate init --help`.
pub fn init_after_help() -> (r: &'static str)
    ensures
        r@ == "Examples:\n  specmate init\n  specmate init --lang zh\n  specmate init --merge --dry-run"@,
{
    "Examples:\n  specmate init\n  specmate init --lang zh\n  specmate init --merge --dry-run"
}

/// The description of `specmate move`.
pub fn move_about() -> (r: &'static str)
    ensures
        r@ == "Move a managed document to a new lifecycle status"@,
{
    "Move a managed document to a new lifecycle status"
}

/// The examples shown under `specmate move --help`.
pub fn move_after_help() -> (r: &'static str)
    ensures
        r@ == "Examples:\n  specmate move exec-auth-add-oauth/task-01 closed\n  specmate move design-auth-system implemented --dry-run\n  specmate move design-auth-system-patch-01-fix-links obsolete:merged"@,
{
    "Examples:\n  specmate move exec-auth-add-oauth/task-01 closed\n  specmate move design-auth-system implemented --dry-run\n  specmate move design-auth-system-patch-01-fix-links obsolete:merged"
}

/// The description of `specmate status`.
pub fn status_about() -> (r: &'static str)
    ensures
        r@ == "Show repository status or the detail of one managed document"@,
{
    "Show repository status or the detail of one managed document"
}

/// The examples shown under `specmate status --help`.
pub fn status_after_help() -> (r: &'static str)
    ensures
        r@ == "Examples:\n  specmate status\n  specmate status --all\n  specmate status design-auth-system\n  specmate status exec-auth-add-oauth/task-01"@,
{
    "Examples:\n  specmate status\n  specmate status --all\n  specmate status design-auth-system\n  specmate status exec-auth-add-oauth/task-01"
}

} // verus!
