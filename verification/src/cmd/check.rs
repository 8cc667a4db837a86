//! `specmate check`: which checks run, and what the command prints and reports.
use crate::check::{render_reports, rendered, reports_view, CheckName, CheckReport, CheckReportView};
use crate::text::{concat3};
use vstd::prelude::*;

verus! {

/// Arguments for `specmate check`.
#[derive(Debug)]
pub struct CheckArgs {
    pub command: Option<CheckCommand>,
}

/// Supported `specmate check` subcommands.
#[derive(Debug)]
pub enum CheckCommand {
    /// Validate managed document filenames and managed locations.
    Names,
    /// Validate frontmatter fields and frontmatter-level rules.
    Frontmatter,
    /// Validate document directory placement against status.
    Status,
    /// Validate cross-document references.
    Refs,
    /// Validate task boundary overlap.
    Conflicts,
    /// Validate changed files against a Task Spec boundary.
    Boundaries(BoundariesArgs),
}

/// Arguments for `specmate check boundaries`.
#[derive(Debug)]
pub struct BoundariesArgs {
    /// Task Spec id such as `exec-auth-add-oauth/task-01`.
    pub task_id: String,
}

/// The named check a subcommand runs; `None` for the boundaries check.
pub open spec fn named_check(c: CheckCommand) -> Option<CheckName> {
    match c {
        CheckCommand::Names => Some(CheckName::Names),
        CheckCommand::Frontmatter => Some(CheckName::Frontmatter),
        CheckCommand::Status => Some(CheckName::Status),
        CheckCommand::Refs => Some(CheckName::Refs),
        CheckCommand::Conflicts => Some(CheckName::Conflicts),
        CheckCommand::Boundaries(_) => None,
    }
}

impl CheckCommand {
    /// The named check this subcommand runs; `None` for the boundaries check.
    pub fn check_name(&self) -> (r: Option<CheckName>)
        ensures
            r == named_check(*self),
    {
        match self {
            CheckCommand::Names => Some(CheckName::Names),
            CheckCommand::Frontmatter => Some(CheckName::Frontmatter),
            CheckCommand::Status => Some(CheckName::Status),
            CheckCommand::Refs => Some(CheckName::Refs),
            CheckCommand::Conflicts => Some(CheckName::Conflicts),
            CheckCommand::Boundaries(_) => None,
        }
    }
}

/// What `specmate check` prints, and whether it fails.
#[derive(Debug)]
pub struct CheckOutput {
    pub stdout: String,
    pub stderr: String,
    pub failed: bool,
}

/// The output for the reports of a run, or for the error that stopped it.
pub open spec fn check_output_of(reports: Result<Seq<CheckReportView>, Seq<char>>) -> (Seq<char>, Seq<char>, bool) {
    match reports {
        Err(e) => (
            Seq::empty(),
            "[fail] check\n       "@ + e + "\n       -> Fix the reported issue and re-run specmate check.\n"@,
            true,
        ),
        Ok(rs) => (
            rendered(rs),
            Seq::empty(),
            exists|i: int| 0 <= i < rs.len() && #[trigger] rs[i].violations.len() > 0,
        ),
    }
}

/// Decides what `specmate check` prints and whether it fails.
pub fn check_output(reports: Result<Vec<CheckReport>, String>) -> (r: CheckOutput)
    ensures
        (r.stdout@, r.stderr@, r.failed) == check_output_of(
            match reports {
                Ok(v) => Ok(reports_view(v@)),
                Err(e) => Err(e@),
            },
        ),
{
    match reports {
        Err(e) => {
            let stderr = concat3(
                "[fail] check\n       ",
                e.as_str(),
                "\n       -> Fix the reported issue and re-run specmate check.\n",
            );
            CheckOutput { stdout: String::new(), stderr, failed: true }
        },
        Ok(v) => {
            let ghost rs = reports_view(v@);
            let stdout = render_reports(&v);
            let mut failed = false;
            let mut i: usize = 0;
            while i < v.len()
                invariant
                    i <= v.len(),
                    rs == reports_view(v@),
                    failed == exists|j: int| 0 <= j < i && #[trigger] rs[j].violations.len() > 0,
                decreases v.len() - i,
            {
                assert(rs[i as int] == v@[i as int]@);
                if !v[i].passed() {
                    failed = true;
                }
                i = i + 1;
            }
            CheckOutput { stdout, stderr: String::new(), failed }
        },
    }
}

} // verus!
