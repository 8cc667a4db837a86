//! Classification of repository paths into the managed document space.
use crate::doc::parse::{trim_end_matches, trim_end_seq, trim_start_matches, trim_start_seq};
use crate::doc::types::DocType;
use crate::text::{append, chars_of, concat2, ends_with, slice_suffix, string_of, has_prefix, has_suffix, join, join_strings, owned, pieces_view, starts_with, str_eq};
use vstd::prelude::*;

verus! {

/// Where a markdown file sits in the managed document space.
#[derive(Debug)]
pub enum PathDisposition {
    /// `docs/prd/<bucket>/*.md`
    Prd,
    /// `docs/design/<bucket>/*.md`
    Design,
    /// `docs/exec-plans/exec-<slug>/plan.md`
    ExecPlan { exec_slug: String },
    /// `docs/exec-plans/exec-<slug>/*.md`
    Task { exec_slug: String },
    /// `docs/specs/project.md` and `docs/specs/org.md`
    FixedManaged(DocType),
    /// `docs/guidelines/*.md` and `docs/guidelines/obsolete/*.md`
    GuidelineManaged(String),
    /// Markdown under a managed root that no rule accepts, with the reason.
    InvalidManaged(String),
    /// Markdown outside the managed document system, or support material.
    Ignored,
}

pub enum DispositionView {
    Prd,
    Design,
    ExecPlan { exec_slug: Seq<char> },
    Task { exec_slug: Seq<char> },
    FixedManaged(DocType),
    GuidelineManaged(Seq<char>),
    InvalidManaged(Seq<char>),
    Ignored,
}

impl View for PathDisposition {
    type V = DispositionView;

    open spec fn view(&self) -> DispositionView {
        match self {
            PathDisposition::Prd => DispositionView::Prd,
            PathDisposition::Design => DispositionView::Design,
            PathDisposition::ExecPlan { exec_slug } => DispositionView::ExecPlan {
                exec_slug: exec_slug@,
            },
            PathDisposition::Task { exec_slug } => DispositionView::Task { exec_slug: exec_slug@ },
            PathDisposition::FixedManaged(t) => DispositionView::FixedManaged(*t),
            PathDisposition::GuidelineManaged(s) => DispositionView::GuidelineManaged(s@),
            PathDisposition::InvalidManaged(s) => DispositionView::InvalidManaged(s@),
            PathDisposition::Ignored => DispositionView::Ignored,
        }
    }
}

/// The `/`-separated rendering of relative path components.
pub open spec fn rel_path(parts: Seq<Seq<char>>) -> Seq<char> {
    join(parts, "/"@)
}

/// The first two components name a managed root under `docs/`.
pub open spec fn under_managed_root(parts: Seq<Seq<char>>) -> bool {
    parts.len() >= 2 && parts[0] == "docs"@ && (parts[1] == "guidelines"@ || parts[1]
        == "specs"@ || parts[1] == "prd"@ || parts[1] == "design"@ || parts[1] == "exec-plans"@)
}

/// The disposition of a repository-relative path, given by its components.
pub open spec fn classify(parts: Seq<Seq<char>>) -> DispositionView {
    if parts.len() == 0 {
        DispositionView::Ignored
    } else if parts.last() == "README.md"@ {
        DispositionView::Ignored
    } else if parts.len() == 3 && parts[0] == "docs"@ && parts[1] == "specs"@ && parts[2]
        == "project.md"@ {
        DispositionView::FixedManaged(DocType::ProjectSpec)
    } else if parts.len() == 3 && parts[0] == "docs"@ && parts[1] == "specs"@ && parts[2]
        == "org.md"@ {
        DispositionView::FixedManaged(DocType::OrgSpec)
    } else if parts.len() == 3 && parts[0] == "docs"@ && parts[1] == "guidelines"@ && ends_with(
        parts[2],
        ".md"@,
    ) {
        DispositionView::GuidelineManaged(trim_end_seq(parts[2], ".md"@))
    } else if parts.len() == 4 && parts[0] == "docs"@ && parts[1] == "guidelines"@ && parts[2]
        == "obsolete"@ && ends_with(parts[3], ".md"@) {
        DispositionView::GuidelineManaged("obsolete/"@ + trim_end_seq(parts[3], ".md"@))
    } else if parts.len() == 4 && parts[0] == "docs"@ && parts[1] == "prd"@ && (parts[2]
        == "draft"@ || parts[2] == "approved"@ || parts[2] == "obsolete"@) && ends_with(
        parts[3],
        ".md"@,
    ) {
        DispositionView::Prd
    } else if parts.len() == 4 && parts[0] == "docs"@ && parts[1] == "design"@ && (parts[2]
        == "draft"@ || parts[2] == "candidate"@ || parts[2] == "implemented"@ || parts[2]
        == "obsolete"@) && ends_with(parts[3], ".md"@) {
        DispositionView::Design
    } else if parts.len() == 4 && parts[0] == "docs"@ && parts[1] == "exec-plans"@ && parts[3]
        == "plan.md"@ && starts_with(parts[2], "exec-"@) {
        DispositionView::ExecPlan { exec_slug: trim_start_seq(parts[2], "exec-"@) }
    } else if parts.len() == 4 && parts[0] == "docs"@ && parts[1] == "exec-plans"@
        && starts_with(parts[2], "exec-"@) && ends_with(parts[3], ".md"@) && parts[3]
        != "plan.md"@ && !ends_with(parts[3], "-report.md"@) {
        DispositionView::Task { exec_slug: trim_start_seq(parts[2], "exec-"@) }
    } else if parts.len() == 4 && parts[0] == "docs"@ && parts[1] == "exec-plans"@
        && starts_with(parts[2], "exec-"@) && ends_with(parts[3], "-report.md"@) {
        DispositionView::Ignored
    } else if ends_with(parts.last(), ".md"@) && under_managed_root(parts) {
        DispositionView::InvalidManaged("unsupported markdown location "@ + rel_path(parts))
    } else {
        DispositionView::Ignored
    }
}

/// Classifies a repository-relative path, given by its components.
pub fn classify_path(parts: &Vec<String>) -> (r: PathDisposition)
    ensures
        r@ == classify(pieces_view(parts@)),
{
    let ghost ps = pieces_view(parts@);
    let n = parts.len();
    if n == 0 {
        return PathDisposition::Ignored;
    }
    let file = parts[n - 1].as_str();
    if str_eq(file, "README.md") {
        return PathDisposition::Ignored;
    }
    let in_docs = str_eq(parts[0].as_str(), "docs");
    let p1_specs = n >= 2 && str_eq(parts[1].as_str(), "specs");
    let p1_guidelines = n >= 2 && str_eq(parts[1].as_str(), "guidelines");
    let p1_prd = n >= 2 && str_eq(parts[1].as_str(), "prd");
    let p1_design = n >= 2 && str_eq(parts[1].as_str(), "design");
    let p1_exec = n >= 2 && str_eq(parts[1].as_str(), "exec-plans");
    let md = has_suffix(file, ".md");
    if n == 3 && in_docs && p1_specs && str_eq(parts[2].as_str(), "project.md") {
        return PathDisposition::FixedManaged(DocType::ProjectSpec);
    }
    if n == 3 && in_docs && p1_specs && str_eq(parts[2].as_str(), "org.md") {
        return PathDisposition::FixedManaged(DocType::OrgSpec);
    }
    if n == 3 && in_docs && p1_guidelines && md {
        return PathDisposition::GuidelineManaged(trim_end_matches(parts[2].as_str(), ".md"));
    }
    if n == 4 && in_docs && p1_guidelines && str_eq(parts[2].as_str(), "obsolete") && md {
        let stem = trim_end_matches(parts[3].as_str(), ".md");
        return PathDisposition::GuidelineManaged(concat2("obsolete/", stem.as_str()));
    }
    if n == 4 && in_docs && p1_prd && (str_eq(parts[2].as_str(), "draft") || str_eq(
        parts[2].as_str(),
        "approved",
    ) || str_eq(parts[2].as_str(), "obsolete")) && md {
        return PathDisposition::Prd;
    }
    if n == 4 && in_docs && p1_design && (str_eq(parts[2].as_str(), "draft") || str_eq(
        parts[2].as_str(),
        "candidate",
    ) || str_eq(parts[2].as_str(), "implemented") || str_eq(parts[2].as_str(), "obsolete"))
        && md {
        return PathDisposition::Design;
    }
    let exec_dir = n == 4 && in_docs && p1_exec && has_prefix(parts[2].as_str(), "exec-");
    if exec_dir && str_eq(parts[3].as_str(), "plan.md") {
        return PathDisposition::ExecPlan {
            exec_slug: trim_start_matches(parts[2].as_str(), "exec-"),
        };
    }
    let report = has_suffix(file, "-report.md");
    if exec_dir && md && !str_eq(parts[3].as_str(), "plan.md") && !report {
        return PathDisposition::Task { exec_slug: trim_start_matches(parts[2].as_str(), "exec-") };
    }
    if exec_dir && report {
        return PathDisposition::Ignored;
    }
    if md && n >= 2 && in_docs && (p1_guidelines || p1_specs || p1_prd || p1_design || p1_exec) {
        let rel = join_strings(parts, "/");
        return PathDisposition::InvalidManaged(concat2("unsupported markdown location ", rel.as_str()));
    }
    PathDisposition::Ignored
}

/// The position just after the last `/` of a path (0 when there is none).
pub open spec fn segment_start(p: Seq<char>) -> int
    decreases p.len(),
{
    if p.len() == 0 {
        0
    } else if p.last() == '/' {
        p.len() as int
    } else {
        segment_start(p.drop_last())
    }
}

/// The file name of a `/`-separated path: its last segment, unless that is
/// empty, `.` or `..`.
pub open spec fn file_name(p: Seq<char>) -> Option<Seq<char>> {
    let name = p.skip(segment_start(p));
    if name.len() == 0 || name == "."@ || name == ".."@ {
        None
    } else {
        Some(name)
    }
}

/// `base` joined with the relative path `rest`, with one `/` between them.
pub open spec fn join_path(base: Seq<char>, rest: Seq<char>) -> Seq<char> {
    if base.len() == 0 {
        rest
    } else if base.last() == '/' {
        base + rest
    } else {
        base + "/"@ + rest
    }
}

pub proof fn lemma_segment_start(p: Seq<char>, i: int)
    requires
        0 <= i <= p.len(),
        forall|j: int| i <= j < p.len() ==> p[j] != '/',
        i == 0 || p[i - 1] == '/',
    ensures
        segment_start(p) == i,
    decreases p.len(),
{
    if p.len() > i {
        lemma_segment_start(p.drop_last(), i);
    }
}

proof fn lemma_segment_start_bound(p: Seq<char>)
    ensures
        0 <= segment_start(p) <= p.len(),
    decreases p.len(),
{
    if p.len() > 0 && p.last() != '/' {
        lemma_segment_start_bound(p.drop_last());
    }
}

/// The file name of a `/`-separated path.
pub fn file_name_of(path: &str) -> (r: Option<String>)
    ensures
        match r {
            Some(n) => file_name(path@) == Some(n@),
            None => file_name(path@) is None,
        },
{
    let cs = chars_of(path);
    let mut i: usize = cs.len();
    while i > 0 && cs[i - 1] != '/'
        invariant
            i <= cs.len(),
            cs@ == path@,
            forall|j: int| i <= j < cs.len() ==> cs@[j] != '/',
        decreases i,
    {
        i = i - 1;
    }
    proof {
        lemma_segment_start(path@, i as int);
    }
    let name = string_of(slice_suffix(cs.as_slice(), i).as_slice());
    if name.as_str().is_empty() || str_eq(name.as_str(), ".") || str_eq(name.as_str(), "..") {
        None
    } else {
        Some(name)
    }
}

/// `base` joined with the relative path `rest`.
pub fn join_path_str(base: &str, rest: &str) -> (r: String)
    ensures
        r@ == join_path(base@, rest@),
{
    proof {
        reveal_strlit("/");
    }
    if base.is_empty() {
        owned(rest)
    } else if has_suffix(base, "/") {
        assert(base@.skip(base@.len() - 1)[0] == base@.last());
        concat2(base, rest)
    } else {
        assert(base@.last() != '/') by {
            if base@.last() == '/' {
                assert(base@.skip(base@.len() - 1) =~= "/"@);
            }
        }
        let mut r = concat2(base, "/");
        append(&mut r, rest);
        r
    }
}

/// A markdown file directly under an Exec Plan directory is a Task Spec exactly
/// when it is neither `plan.md`, `README.md` nor a report (`-report.md`);
/// reports are ignored.
pub proof fn lemma_exec_directory_files(e: Seq<char>, f: Seq<char>)
    requires
        starts_with(e, "exec-"@),
        ends_with(f, ".md"@),
        f != "README.md"@,
    ensures
        ends_with(f, "-report.md"@) ==> classify(seq!["docs"@, "exec-plans"@, e, f]) is Ignored,
        (classify(seq!["docs"@, "exec-plans"@, e, f]) is Task) <==> (f != "plan.md"@ && !ends_with(
            f,
            "-report.md"@,
        )),
{
    reveal_strlit("docs");
    reveal_strlit("exec-plans");
    reveal_strlit("specs");
    reveal_strlit("guidelines");
    reveal_strlit("prd");
    reveal_strlit("design");
    reveal_strlit("plan.md");
    reveal_strlit("-report.md");
    reveal_strlit(".md");
    let parts = seq!["docs"@, "exec-plans"@, e, f];
    assert(parts.last() == f);
    assert(parts.len() == 4);
    assert(parts[0] == "docs"@ && parts[1] == "exec-plans"@ && parts[2] == e && parts[3] == f);
    assert("exec-plans"@.len() == 10 && "specs"@.len() == 5 && "guidelines"@.len() == 10 && "prd"@.len()
        == 3 && "design"@.len() == 6);
    assert("exec-plans"@ != "guidelines"@) by {
        assert("exec-plans"@[0] != "guidelines"@[0]);
    }
    if ends_with(f, "-report.md"@) {
        assert(f != "plan.md"@) by {
            if f == "plan.md"@ {
                assert(f.skip(f.len() - 10).len() == 10);
            }
        }
    }
}

} // verus!
