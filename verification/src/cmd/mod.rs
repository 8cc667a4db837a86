//! The command surface: the decisions behind each `specmate` subcommand.
pub mod check;
pub mod cli;
pub mod colors;
pub mod init;
pub mod move_;
pub mod new;
pub mod run;
pub mod status;

use crate::check::relative_to;
use crate::doc::path::segment_start;
use crate::text::{append, chars_of, concat2, concat3, has_prefix, owned, pieces_view, slice_prefix, starts_with, string_of};
use vstd::prelude::*;

verus! {

/// All specmate subcommands.
#[derive(Debug)]
pub enum Commands {
    /// Validate the managed document system.
    Check(check::CheckArgs),
    /// Initialise a new repo with the specmate document structure.
    Init(init::InitArgs),
    /// Move a managed document to a new lifecycle status.
    Move(move_::MoveArgs),
    /// Show repository status or the detail of one managed document.
    Status(status::StatusArgs),
}

/// Why a command was refused, where, and what to do about it.
#[derive(Debug)]
pub struct CommandFailure {
    pub path: Option<String>,
    pub message: String,
    pub fix: String,
}

pub struct FailureView {
    pub path: Option<Seq<char>>,
    pub message: Seq<char>,
    pub fix: Seq<char>,
}

impl View for CommandFailure {
    type V = FailureView;

    open spec fn view(&self) -> FailureView {
        FailureView { path: self.path.deep_view(), message: self.message@, fix: self.fix@ }
    }
}

pub open spec fn failure(path: Option<Seq<char>>, message: Seq<char>, fix: Seq<char>) -> FailureView {
    FailureView { path, message, fix }
}

impl CommandFailure {
    /// A failure at an optional path, with its message and fix.
    pub fn new(path: Option<String>, message: String, fix: &str) -> (r: Self)
        ensures
            r@ == failure(path.deep_view(), message@, fix@),
    {
        CommandFailure { path, message, fix: owned(fix) }
    }
}

/// The parent directory of a `/`-separated path without a trailing `/`.
pub open spec fn parent_dir(p: Seq<char>) -> Option<Seq<char>> {
    let k = segment_start(p);
    if p.len() == 0 || k == p.len() {
        None
    } else if k == 0 {
        Some(Seq::empty())
    } else if k == 1 {
        Some("/"@)
    } else {
        Some(p.take(k - 1))
    }
}

/// A directory and all its ancestors, innermost first.
pub open spec fn ancestors(p: Seq<char>) -> Seq<Seq<char>>
    decreases p.len(),
{
    match parent_dir(p) {
        Some(q) => if q.len() < p.len() {
            seq![p] + ancestors(q)
        } else {
            seq![p]
        },
        None => seq![p],
    }
}

proof fn lemma_segment_start_bound(p: Seq<char>)
    ensures
        0 <= segment_start(p) <= p.len(),
        segment_start(p) > 0 ==> p[segment_start(p) - 1] == '/',
        forall|j: int| segment_start(p) <= j < p.len() ==> p[j] != '/',
    decreases p.len(),
{
    if p.len() > 0 && p.last() != '/' {
        lemma_segment_start_bound(p.drop_last());
        assert forall|j: int| segment_start(p) <= j < p.len() implies p[j] != '/' by {
            if j < p.len() - 1 {
                assert(p[j] == p.drop_last()[j]);
            }
        }
    }
}

/// The parent directory of a path.
pub fn parent_of(path: &str) -> (r: Option<String>)
    ensures
        match r {
            Some(q) => parent_dir(path@) == Some(q@),
            None => parent_dir(path@) is None,
        },
{
    let cs = chars_of(path);
    let mut k: usize = cs.len();
    while k > 0 && cs[k - 1] != '/'
        invariant
            k <= cs.len(),
            cs@ == path@,
            forall|j: int| k <= j < cs.len() ==> cs@[j] != '/',
        decreases k,
    {
        k = k - 1;
    }
    proof {
        crate::doc::path::lemma_segment_start(path@, k as int);
        reveal_strlit("/");
    }
    if cs.len() == 0 || k == cs.len() {
        None
    } else if k == 0 {
        Some(String::new())
    } else if k == 1 {
        Some(owned("/"))
    } else {
        Some(string_of(slice_prefix(cs.as_slice(), k - 1).as_slice()))
    }
}

/// The directories from `start` up to the filesystem root, where a repository root is searched.
pub fn candidate_roots(start: &str) -> (r: Vec<String>)
    ensures
        pieces_view(r@) == ancestors(start@),
{
    let mut r: Vec<String> = Vec::new();
    let mut current = owned(start);
    assert(pieces_view(r@) =~= Seq::<Seq<char>>::empty());
    loop
        invariant
            pieces_view(r@) + ancestors(current@) == ancestors(start@),
        decreases current@.len(),
    {
        let ghost before = pieces_view(r@);
        let here = current.clone();
        match parent_of(current.as_str()) {
            Some(q) => {
                if chars_of(q.as_str()).len() < chars_of(current.as_str()).len() {
                    r.push(here);
                    assert(pieces_view(r@) =~= before.push(current@));
                    assert(pieces_view(r@) + ancestors(q@) =~= before + (seq![current@] + ancestors(q@)));
                    current = q;
                } else {
                    r.push(here);
                    assert(pieces_view(r@) =~= before + seq![current@]);
                    return r;
                }
            },
            None => {
                r.push(here);
                assert(pieces_view(r@) =~= before + seq![current@]);
                return r;
            },
        }
    }
}

/// The file whose presence marks a directory as a repository root: its project spec.
pub open spec fn marker_of(dir: Seq<char>) -> Seq<char> {
    crate::doc::path::join_path(dir, "docs/specs/project.md"@)
}

/// The marker file of each candidate directory, in order, for the caller to look up.
pub fn marker_paths(candidates: &Vec<String>) -> (r: Vec<String>)
    ensures
        r@.len() == candidates@.len(),
        forall|i: int| 0 <= i < r@.len() ==> #[trigger] r@[i]@ == marker_of(candidates@[i]@),
{
    let mut r: Vec<String> = Vec::new();
    let mut i: usize = 0;
    while i < candidates.len()
        invariant
            i <= candidates.len(),
            r@.len() == i,
            forall|j: int| 0 <= j < i ==> #[trigger] r@[j]@ == marker_of(candidates@[j]@),
        decreases candidates.len() - i,
    {
        r.push(crate::doc::path::join_path_str(candidates[i].as_str(), "docs/specs/project.md"));
        i = i + 1;
    }
    r
}

/// The repository root: the first candidate directory that holds `docs/specs/project.md`.
pub open spec fn repo_root_result(
    candidates: Seq<Seq<char>>,
    has_marker: Seq<bool>,
    start: Seq<char>,
    command: Seq<char>,
    n: nat,
) -> Result<
    Seq<char>,
    FailureView,
>
    decreases candidates.len() - n,
{
    if n >= candidates.len() || n >= has_marker.len() {
        Err(
            failure(
                Some(start),
                "could not locate a specmate repository root from "@ + start,
                "Run specmate "@ + command + " from a specmate repository or one of its subdirectories."@,
            ),
        )
    } else if has_marker[n as int] {
        Ok(candidates[n as int])
    } else {
        repo_root_result(candidates, has_marker, start, command, n + 1)
    }
}

/// Locates the repository root among the candidate directories, given which of them
/// hold the project spec.
pub fn locate_repo_root(candidates: &Vec<String>, has_marker: &Vec<bool>, start: &str, command: &str) -> (r: Result<
    String,
    CommandFailure,
>)
    ensures
        match r {
            Ok(root) => repo_root_result(pieces_view(candidates@), has_marker@, start@, command@, 0) == Ok::<
                Seq<char>,
                FailureView,
            >(root@),
            Err(f) => repo_root_result(pieces_view(candidates@), has_marker@, start@, command@, 0) == Err::<
                Seq<char>,
                FailureView,
            >(f@),
        },
{
    let ghost cv = pieces_view(candidates@);
    let mut i: usize = 0;
    while i < candidates.len() && i < has_marker.len()
        invariant
            i <= candidates.len(),
            cv == pieces_view(candidates@),
            repo_root_result(cv, has_marker@, start@, command@, 0) == repo_root_result(
                cv,
                has_marker@,
                start@,
                command@,
                i as nat,
            ),
        decreases candidates.len() - i,
    {
        if has_marker[i] {
            assert(cv[i as int] == candidates@[i as int]@);
            return Ok(candidates[i].clone());
        }
        i = i + 1;
    }
    let fix = concat3("Run specmate ", command, " from a specmate repository or one of its subdirectories.");
    Err(
        CommandFailure {
            path: Some(owned(start)),
            message: concat2("could not locate a specmate repository root from ", start),
            fix,
        },
    )
}

/// A path as a command shows it: relative to the repository root, or the
/// root itself.
pub open spec fn display_path(root: Seq<char>, p: Seq<char>) -> Seq<char> {
    if starts_with(p, root) && relative_to(root, p).len() == 0 {
        root
    } else {
        relative_to(root, p)
    }
}

/// Shows a path relative to the repository root.
pub fn display_path_str(root: &str, path: &str) -> (r: String)
    ensures
        r@ == display_path(root@, path@),
{
    let rel = crate::check::relative_path(root, path);
    if has_prefix(path, root) && rel.as_str().is_empty() {
        owned(root)
    } else {
        rel
    }
}

/// The report of a failed command: its name, where it failed, why, and what to do.
pub open spec fn failure_text(command: Seq<char>, root: Seq<char>, f: FailureView) -> Seq<char> {
    "[fail] "@ + command + "\n"@ + (match f.path {
        Some(p) => "       "@ + display_path(root, p) + "\n"@,
        None => Seq::empty(),
    }) + "       "@ + f.message + "\n"@ + "       -> "@ + f.fix + "\n"@
}

/// Renders a failure of the command `command`.
pub fn render_failure(command: &str, root: &str, failure: &CommandFailure) -> (r: String)
    ensures
        r@ == failure_text(command@, root@, failure@),
{
    let mut out = concat3("[fail] ", command, "\n");
    match &failure.path {
        Some(p) => {
            let shown = display_path_str(root, p.as_str());
            append(&mut out, "       ");
            append(&mut out, shown.as_str());
            append(&mut out, "\n");
        },
        None => {},
    }
    append(&mut out, "       ");
    append(&mut out, failure.message.as_str());
    append(&mut out, "\n");
    append(&mut out, "       -> ");
    append(&mut out, failure.fix.as_str());
    append(&mut out, "\n");
    assert(out@ =~= failure_text(command@, root@, failure@));
    out
}

} // verus!
