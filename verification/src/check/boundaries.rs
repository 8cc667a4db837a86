//! `check boundaries <task-id>`: the changed files of a candidate Task Spec
//! against its allowed and forbidden glob patterns.
use crate::check::{
    check_violations_view, make_relative, plural, plural_of, relative_to, CheckReport,
    CheckReportView, CheckViolation, CheckViolationView,
};
use crate::doc::frontmatter::{list_or_empty, opt_list};
use crate::doc::index::{
    build_index, index_of, scans_view, ContentView, FileContent, ScanView, ScannedFile,
};
use crate::doc::parse::{local_sequence, parse_local_sequence};
use crate::doc::path::segment_start;
use crate::doc::types::{
    clone_strings, decimal_string, docs_view, id_string, Boundaries, BoundariesView, DocId,
    DocType, Document, DocumentIndex, DocumentView, IndexView, SpecDocId, Status,
};
use crate::text::{
    append, chars_of, concat2, concat3, decimal, has_prefix, join, join_strings, owned,
    pieces_view, slice_suffix, starts_with, str_eq, string_of,
};
use vstd::prelude::*;

verus! {

/// A compiled glob pattern of the `glob` crate.
#[verifier::external_type_specification]
#[verifier::external_body]
pub struct ExGlobPattern(glob::Pattern);

/// What `glob::Pattern::new` reports for a pattern: `None` when it compiles, else
/// the text of its `PatternError`.
pub uninterp spec fn glob_compile_error(raw: Seq<char>) -> Option<Seq<char>>;

/// Whether the `glob` pattern compiled from `pattern` matches `path` under
/// `glob::Pattern::matches` (the default match options).
pub uninterp spec fn glob_match(pattern: Seq<char>, path: Seq<char>) -> bool;

/// A glob pattern together with the text it was compiled from.
#[derive(Debug)]
pub struct CompiledPattern {
    source: String,
    pattern: glob::Pattern,
}

impl View for CompiledPattern {
    type V = Seq<char>;

    closed spec fn view(&self) -> Seq<char> {
        self.source@
    }
}

/// Compiles a glob pattern with `glob::Pattern::new`. Trusted: it succeeds exactly
/// when `glob_compile_error` names no error for the text, and otherwise returns
/// the `Display` text of the `PatternError`; the compiled pattern keeps its text.
#[verifier::external_body]
fn compile_glob(raw: &str) -> (r: Result<CompiledPattern, String>)
    ensures
        match r {
            Ok(c) => glob_compile_error(raw@) is None && c@ == raw@,
            Err(m) => glob_compile_error(raw@) == Some(m@),
        },
{
    match glob::Pattern::new(raw) {
        Ok(pattern) => Ok(CompiledPattern { source: raw.to_string(), pattern }),
        Err(error) => Err(error.to_string()),
    }
}

/// Matches a path against a compiled pattern with `glob::Pattern::matches`.
/// Trusted: the answer is `glob_match` of the pattern's text and the path.
#[verifier::external_body]
fn glob_matches(pattern: &CompiledPattern, path: &str) -> (r: bool)
    ensures
        r == glob_match(pattern@, path@),
{
    pattern.pattern.matches(path)
}

/// The first pattern, among the first `n`, that does not compile, with its error.
pub open spec fn first_glob_error(raws: Seq<Seq<char>>, n: nat) -> Option<Seq<char>>
    decreases n,
{
    if n == 0 || n > raws.len() {
        None
    } else {
        match first_glob_error(raws, (n - 1) as nat) {
            Some(e) => Some(e),
            None => glob_compile_error(raws[n - 1]),
        }
    }
}

/// The error for a pattern list that does not compile.
pub open spec fn glob_field_error(task_id: Seq<char>, field: Seq<char>, root: Seq<char>, e: Seq<char>) -> Seq<char> {
    task_id + ": invalid glob in "@ + field + " at "@ + root + ": "@ + e
}

fn compile_patterns(repo_root: &str, task_id: &str, field: &str, patterns: &Vec<String>) -> (r: Result<
    Vec<CompiledPattern>,
    String,
>)
    ensures
        match r {
            Ok(v) => first_glob_error(patterns.deep_view(), patterns.deep_view().len()) is None
                && v@.len() == patterns@.len() && forall|k: int| 0 <= k < v@.len() ==> #[trigger] v@[k]@
                == patterns@[k]@,
            Err(m) => match first_glob_error(patterns.deep_view(), patterns.deep_view().len()) {
                Some(e) => m@ == glob_field_error(task_id@, field@, repo_root@, e),
                None => false,
            },
        },
{
    let ghost raws = patterns.deep_view();
    let mut out: Vec<CompiledPattern> = Vec::new();
    let mut i: usize = 0;
    while i < patterns.len()
        invariant
            i <= patterns.len(),
            raws == patterns.deep_view(),
            first_glob_error(raws, i as nat) is None,
            out@.len() == i,
            forall|k: int| 0 <= k < i ==> #[trigger] out@[k]@ == patterns@[k]@,
        decreases patterns.len() - i,
    {
        assert(raws[i as int] == patterns@[i as int]@);
        match compile_glob(patterns[i].as_str()) {
            Ok(c) => {
                out.push(c);
            },
            Err(e) => {
                let mut m = concat3(task_id, ": invalid glob in ", field);
                append(&mut m, " at ");
                append(&mut m, repo_root);
                append(&mut m, ": ");
                append(&mut m, e.as_str());
                proof {
                    lemma_first_glob_error_stays(raws, (i + 1) as nat, raws.len());
                }
                return Err(m);
            },
        }
        i = i + 1;
    }
    Ok(out)
}

proof fn lemma_first_glob_error_stays(raws: Seq<Seq<char>>, n: nat, m: nat)
    requires
        n <= m <= raws.len(),
        first_glob_error(raws, n) is Some,
    ensures
        first_glob_error(raws, m) == first_glob_error(raws, n),
    decreases m - n,
{
    if n < m {
        lemma_first_glob_error_stays(raws, n, (m - 1) as nat);
    }
}

/// Whether one of the patterns matches the path.
pub open spec fn any_match(patterns: Seq<Seq<char>>, path: Seq<char>) -> bool {
    exists|k: int| 0 <= k < patterns.len() && glob_match(#[trigger] patterns[k], path)
}

fn matches_any(patterns: &Vec<CompiledPattern>, path: &str) -> (r: bool)
    ensures
        r == exists|k: int| 0 <= k < patterns@.len() && glob_match(#[trigger] patterns@[k]@, path@),
{
    let mut i: usize = 0;
    while i < patterns.len()
        invariant
            i <= patterns.len(),
            forall|k: int| 0 <= k < i ==> !glob_match(#[trigger] patterns@[k]@, path@),
        decreases patterns.len() - i,
    {
        if glob_matches(&patterns[i], path) {
            return true;
        }
        i = i + 1;
    }
    false
}

/// The violation, if any, of one changed path, given whether a forbidden pattern
/// matches it and whether an allowed one does.
pub open spec fn boundary_violation(
    task_id: Seq<char>,
    path: Seq<char>,
    allowed: Seq<Seq<char>>,
    forbidden_hit: bool,
    allowed_hit: bool,
) -> Option<CheckViolationView> {
    if forbidden_hit {
        Some(
            CheckViolationView {
                path,
                message: "matches forbidden pattern(s) for "@ + task_id,
                fix: "Remove the change from the forbidden path or update boundaries.forbidden_patterns in the task spec."@,
            },
        )
    } else if !allowed_hit {
        Some(
            CheckViolationView {
                path,
                message: "is not in boundaries.allowed for "@ + task_id,
                fix: "Keep changes within the task scope. Allowed: "@ + join(allowed, ", "@),
            },
        )
    } else {
        None
    }
}

/// Reports one changed path against the boundaries of a task.
pub fn path_violation(
    task_id: &str,
    path: &str,
    allowed: &Vec<String>,
    forbidden_hit: bool,
    allowed_hit: bool,
) -> (r: Option<CheckViolation>)
    ensures
        match r {
            Some(v) => boundary_violation(task_id@, path@, allowed.deep_view(), forbidden_hit, allowed_hit)
                == Some(v@),
            None => boundary_violation(task_id@, path@, allowed.deep_view(), forbidden_hit, allowed_hit)
                is None,
        },
{
    if forbidden_hit {
        Some(
            CheckViolation {
                path: owned(path),
                message: concat2("matches forbidden pattern(s) for ", task_id),
                fix: owned(
                    "Remove the change from the forbidden path or update boundaries.forbidden_patterns in the task spec.",
                ),
            },
        )
    } else if !allowed_hit {
        let joined = join_strings(allowed, ", ");
        assert(pieces_view(allowed@) =~= allowed.deep_view());
        Some(
            CheckViolation {
                path: owned(path),
                message: concat2("is not in boundaries.allowed for ", task_id),
                fix: concat2("Keep changes within the task scope. Allowed: ", joined.as_str()),
            },
        )
    } else {
        None
    }
}

/// The violations of the first `n` changed paths, with `hits[i]` telling whether a
/// forbidden and whether an allowed pattern matches path `i`.
pub open spec fn path_violations(
    task_id: Seq<char>,
    allowed: Seq<Seq<char>>,
    paths: Seq<Seq<char>>,
    hits: Seq<(bool, bool)>,
    n: nat,
) -> Seq<CheckViolationView>
    decreases n,
{
    if n == 0 || n > paths.len() || n > hits.len() {
        Seq::empty()
    } else {
        path_violations(task_id, allowed, paths, hits, (n - 1) as nat) + match boundary_violation(
            task_id,
            paths[n - 1],
            allowed,
            hits[n - 1].0,
            hits[n - 1].1,
        ) {
            Some(v) => seq![v],
            None => Seq::empty(),
        }
    }
}

proof fn lemma_path_violations_empty(
    task_id: Seq<char>,
    allowed: Seq<Seq<char>>,
    paths: Seq<Seq<char>>,
    hits: Seq<(bool, bool)>,
    n: nat,
)
    requires
        n <= paths.len(),
        n <= hits.len(),
    ensures
        path_violations(task_id, allowed, paths, hits, n).len() == 0 <==> forall|i: int|
            0 <= i < n ==> !(#[trigger] hits[i]).0 && hits[i].1,
    decreases n,
{
    if n > 0 {
        lemma_path_violations_empty(task_id, allowed, paths, hits, (n - 1) as nat);
    }
}

/// A boundaries report passes exactly when every changed path matches an allowed
/// pattern and no forbidden pattern.
pub proof fn lemma_boundaries_pass_iff_within(
    task_id: Seq<char>,
    allowed: Seq<Seq<char>>,
    forbidden: Seq<Seq<char>>,
    paths: Seq<Seq<char>>,
)
    ensures
        boundaries_report_of(
            task_id,
            allowed,
            paths,
            Seq::new(
                paths.len(),
                |i: int| (any_match(forbidden, paths[i]), any_match(allowed, paths[i])),
            ),
        ).violations.len() == 0 <==> forall|i: int|
            0 <= i < paths.len() ==> any_match(allowed, #[trigger] paths[i]) && !any_match(
                forbidden,
                paths[i],
            ),
{
    let hits = Seq::new(
        paths.len(),
        |i: int| (any_match(forbidden, paths[i]), any_match(allowed, paths[i])),
    );
    lemma_path_violations_empty(task_id, allowed, paths, hits, paths.len());
    let within = forall|i: int|
        0 <= i < paths.len() ==> any_match(allowed, #[trigger] paths[i]) && !any_match(
            forbidden,
            paths[i],
        );
    let clean = forall|i: int| 0 <= i < paths.len() ==> !(#[trigger] hits[i]).0 && hits[i].1;
    if clean {
        assert forall|i: int| 0 <= i < paths.len() implies any_match(allowed, #[trigger] paths[i])
            && !any_match(forbidden, paths[i]) by {
            assert(!hits[i].0 && hits[i].1);
        }
    }
    if within {
        assert forall|i: int| 0 <= i < paths.len() implies !(#[trigger] hits[i]).0 && hits[i].1 by {
            assert(any_match(allowed, paths[i]) && !any_match(forbidden, paths[i]));
        }
    }
}

/// The report of `check boundaries <task-id>` for the given changed paths and pattern hits.
pub open spec fn boundaries_report_of(
    task_id: Seq<char>,
    allowed: Seq<Seq<char>>,
    paths: Seq<Seq<char>>,
    hits: Seq<(bool, bool)>,
) -> CheckReportView {
    CheckReportView {
        label: "check boundaries "@ + task_id,
        pass_summary: if paths.len() == 0 {
            "no changed files to validate for "@ + task_id
        } else {
            "all "@ + decimal(paths.len()) + " changed file"@ + plural_of(paths.len())
                + " respect task boundaries"@
        },
        violations: path_violations(task_id, allowed, paths, hits, paths.len()),
    }
}

/// Builds the boundaries report from the changed paths and, for each, whether a
/// forbidden pattern and whether an allowed pattern matches it.
pub fn boundaries_report(
    task_id: &str,
    allowed: &Vec<String>,
    changed: &Vec<String>,
    hits: &Vec<(bool, bool)>,
) -> (r: CheckReport)
    requires
        hits@.len() == changed@.len(),
    ensures
        r@ == boundaries_report_of(task_id@, allowed.deep_view(), changed.deep_view(), hits@),
{
    let ghost paths = changed.deep_view();
    let mut violations: Vec<CheckViolation> = Vec::new();
    let mut i: usize = 0;
    assert(check_violations_view(violations@) =~= path_violations(task_id@, allowed.deep_view(), paths, hits@, 0));
    while i < changed.len()
        invariant
            i <= changed.len(),
            hits@.len() == changed@.len(),
            paths == changed.deep_view(),
            check_violations_view(violations@) == path_violations(
                task_id@,
                allowed.deep_view(),
                paths,
                hits@,
                i as nat,
            ),
        decreases changed.len() - i,
    {
        assert(paths[i as int] == changed@[i as int]@);
        let (forbidden_hit, allowed_hit) = hits[i];
        match path_violation(task_id, changed[i].as_str(), allowed, forbidden_hit, allowed_hit) {
            Some(v) => {
                violations.push(v);
            },
            None => {},
        }
        assert(check_violations_view(violations@) =~= path_violations(
            task_id@,
            allowed.deep_view(),
            paths,
            hits@,
            (i + 1) as nat,
        ));
        i = i + 1;
    }
    let n = changed.len();
    let pass_summary = if n == 0 {
        concat2("no changed files to validate for ", task_id)
    } else {
        let count = decimal_string(n as u64);
        let mut s = concat3("all ", count.as_str(), " changed file");
        append(&mut s, plural(n));
        append(&mut s, " respect task boundaries");
        s
    };
    CheckReport { label: concat2("check boundaries ", task_id), pass_summary, violations }
}

/// The first document, from position `i` on, whose canonical id is `task_id`.
pub open spec fn doc_with_id(docs: Seq<DocumentView>, task_id: Seq<char>, i: int) -> Option<DocumentView>
    decreases docs.len() - i,
{
    if i < 0 || i >= docs.len() {
        None
    } else if id_string(docs[i].id) == task_id {
        Some(docs[i])
    } else {
        doc_with_id(docs, task_id, i + 1)
    }
}

/// The last `/`-separated segment of a path.
pub open spec fn last_segment(p: Seq<char>) -> Seq<char> {
    p.skip(segment_start(p))
}

/// Whether an invalid entry is a file of the task `task_id` (`<task-id>-...`).
pub open spec fn entry_of_task(root: Seq<char>, path: Seq<char>, task_id: Seq<char>) -> bool {
    starts_with(last_segment(relative_to(root, path)), task_id + "-"@)
}

/// The first invalid entry, from position `i` on, that is a file of the task.
pub open spec fn invalid_task_entry(idx: IndexView, task_id: Seq<char>, i: int) -> Option<
    crate::doc::types::InvalidEntryView,
>
    decreases idx.invalid_entries.len() - i,
{
    if i < 0 || i >= idx.invalid_entries.len() {
        None
    } else if entry_of_task(idx.repo_root, idx.invalid_entries[i].path, task_id) {
        Some(idx.invalid_entries[i])
    } else {
        invalid_task_entry(idx, task_id, i + 1)
    }
}

/// The Task Spec that `task_id` names, or why there is none.
pub open spec fn task_lookup(idx: IndexView, task_id: Seq<char>) -> Result<DocumentView, Seq<char>> {
    match doc_with_id(idx.documents, task_id, 0) {
        Some(d) => Ok(d),
        None => match invalid_task_entry(idx, task_id, 0) {
            Some(e) => Err(
                "task spec "@ + task_id + " is invalid: "@ + relative_to(idx.repo_root, e.path)
                    + " ("@ + e.reason + ")"@,
            ),
            None => Err("task spec "@ + task_id + " does not exist"@),
        },
    }
}

fn last_segment_of(path: &str) -> (r: String)
    ensures
        r@ == last_segment(path@),
{
    let cs = chars_of(path);
    let mut i: usize = cs.len();
    while i > 0 && cs[i - 1] != '/'
        invariant
            i <= cs.len(),
            cs@ == path@,
            forall|j: int| i <= j < cs.len() ==> cs@[j] != '/',
        decreases i,
    {
        i = i - 1;
    }
    proof {
        crate::doc::path::lemma_segment_start(path@, i as int);
    }
    string_of(slice_suffix(cs.as_slice(), i).as_slice())
}

/// Finds the document of a task id, or explains why there is none.
pub fn find_task_spec<'a>(index: &'a DocumentIndex, task_id: &str) -> (r: Result<&'a Document, String>)
    ensures
        match r {
            Ok(d) => task_lookup(index@, task_id@) == Ok::<DocumentView, Seq<char>>(d@),
            Err(m) => task_lookup(index@, task_id@) == Err::<DocumentView, Seq<char>>(m@),
        },
{
    let docs = index.documents.values();
    let ghost dv = docs_view(docs@);
    let mut i: usize = 0;
    while i < docs.len()
        invariant
            i <= docs.len(),
            dv == docs_view(docs@),
            dv == index@.documents,
            doc_with_id(dv, task_id@, 0) == doc_with_id(dv, task_id@, i as int),
        decreases docs.len() - i,
    {
        assert(dv[i as int] == docs@[i as int]@);
        let id = docs[i].id.as_string();
        if str_eq(id.as_str(), task_id) {
            return Ok(&docs[i]);
        }
        i = i + 1;
    }
    let prefix = concat2(task_id, "-");
    let mut k: usize = 0;
    while k < index.invalid_entries.len()
        invariant
            k <= index.invalid_entries.len(),
            prefix@ == task_id@ + "-"@,
            doc_with_id(index@.documents, task_id@, 0) is None,
            invalid_task_entry(index@, task_id@, 0) == invalid_task_entry(index@, task_id@, k as int),
        decreases index.invalid_entries.len() - k,
    {
        let e = &index.invalid_entries[k];
        assert(index@.invalid_entries[k as int] == e@);
        let rel = make_relative(index, e.path.as_str());
        let last = last_segment_of(rel.as_str());
        if has_prefix(last.as_str(), prefix.as_str()) {
            let mut m = concat3("task spec ", task_id, " is invalid: ");
            append(&mut m, rel.as_str());
            append(&mut m, " (");
            append(&mut m, e.reason.as_str());
            append(&mut m, ")");
            return Err(m);
        }
        k = k + 1;
    }
    Err(concat3("task spec ", task_id, " does not exist"))
}

/// The boundaries that a document gives `check boundaries <task-id>`: only a
/// candidate Task Spec with a `boundaries` section gives any.
pub open spec fn doc_task_boundaries(task_id: Seq<char>, d: DocumentView) -> Result<
    BoundariesView,
    Seq<char>,
> {
    if d.doc_type != DocType::TaskSpec {
        Err(task_id + " is not a Task Spec"@)
    } else if d.status != Status::Candidate {
        Err(task_id + " is not candidate"@)
    } else {
        match d.frontmatter.boundaries {
            None => Err(task_id + " is missing boundaries"@),
            Some(b) => Ok(b),
        }
    }
}

/// The number of a legacy task id `task-<nn>` (two or more digits, not zero).
pub open spec fn legacy_task_number(task_id: Seq<char>) -> Option<u32> {
    if starts_with(task_id, "task-"@) {
        local_sequence(task_id.skip(5))
    } else {
        None
    }
}

/// The boundaries of a legacy task file: a markdown file whose frontmatter
/// declares the id `task_id` and the legacy running status `active`.
pub open spec fn legacy_file_boundaries(f: ScanView, task_id: Seq<char>) -> Option<BoundariesView> {
    match f.content {
        ContentView::Read { yaml: Ok(fm), .. } => if fm.id == Some(task_id) && fm.status == Some(
            "active"@,
        ) {
            fm.boundaries
        } else {
            None
        },
        _ => None,
    }
}

/// The boundaries of the first legacy task file of `task_id`, from position `i` on.
pub open spec fn legacy_task_file(files: Seq<ScanView>, task_id: Seq<char>, i: int) -> Option<
    BoundariesView,
>
    decreases files.len() - i,
{
    if i < 0 || i >= files.len() {
        None
    } else {
        match legacy_file_boundaries(files[i], task_id) {
            Some(b) => Some(b),
            None => legacy_task_file(files, task_id, i + 1),
        }
    }
}

/// Whether a document is a Task Spec with the local number `n`.
pub open spec fn has_task_number(d: DocumentView, n: u32) -> bool {
    d.doc_type == DocType::TaskSpec && (d.id matches SpecDocId::TaskSpec { sequence, .. }
        && sequence == n)
}

/// The Task Specs with the local number `n`, from position `i` on, in order.
pub open spec fn numbered_tasks(docs: Seq<DocumentView>, n: u32, i: int) -> Seq<DocumentView>
    decreases docs.len() - i,
{
    if i < 0 || i >= docs.len() {
        Seq::empty()
    } else if has_task_number(docs[i], n) {
        seq![docs[i]] + numbered_tasks(docs, n, i + 1)
    } else {
        numbered_tasks(docs, n, i + 1)
    }
}

/// The boundaries that `check boundaries <task-id>` works with, or why there are
/// none. A canonical id names its document. A legacy id `task-<nn>` that names
/// no document names the legacy task file that declares it, else the one Task
/// Spec whose local number is `<nn>`.
pub open spec fn task_boundaries(root: Seq<char>, files: Seq<ScanView>, task_id: Seq<char>) -> Result<
    BoundariesView,
    Seq<char>,
> {
    let idx = index_of(root, files);
    match task_lookup(idx, task_id) {
        Ok(d) => doc_task_boundaries(task_id, d),
        Err(m) => match legacy_task_number(task_id) {
            None => Err(m),
            Some(n) => match legacy_task_file(files, task_id, 0) {
                Some(b) => Ok(b),
                None => {
                    let found = numbered_tasks(idx.documents, n, 0);
                    if found.len() == 1 {
                        doc_task_boundaries(task_id, found[0])
                    } else if found.len() > 1 {
                        Err("task spec "@ + task_id + " names more than one Task Spec"@)
                    } else {
                        Err(m)
                    }
                },
            },
        },
    }
}

/// The outcome of `check boundaries <task-id>` on a scanned repository, given what
/// reading the changed paths gave.
pub open spec fn boundaries_outcome(
    root: Seq<char>,
    files: Seq<ScanView>,
    task_id: Seq<char>,
    changed: Result<Seq<Seq<char>>, Seq<char>>,
) -> Result<CheckReportView, Seq<char>> {
    match task_boundaries(root, files, task_id) {
        Err(e) => Err(e),
        Ok(b) => match changed {
            Err(e) => Err(e),
            Ok(paths) => match first_glob_error(b.allowed, b.allowed.len()) {
                Some(e) => Err(glob_field_error(task_id, "boundaries.allowed"@, root, e)),
                None => match first_glob_error(b.forbidden_patterns, b.forbidden_patterns.len()) {
                    Some(e) => Err(
                        glob_field_error(task_id, "boundaries.forbidden_patterns"@, root, e),
                    ),
                    None => Ok(
                        boundaries_report_of(
                            task_id,
                            b.allowed,
                            paths,
                            Seq::new(
                                paths.len(),
                                |i: int|
                                    (
                                        any_match(b.forbidden_patterns, paths[i]),
                                        any_match(b.allowed, paths[i]),
                                    ),
                            ),
                        ),
                    ),
                },
            },
        },
    }
}

fn strings_or_empty(v: &Option<Vec<String>>) -> (r: Vec<String>)
    ensures
        r.deep_view() == list_or_empty(opt_list(*v)),
{
    match v {
        Some(l) => clone_strings(l),
        None => {
            let r: Vec<String> = Vec::new();
            assert(r.deep_view() =~= Seq::<Seq<char>>::empty());
            r
        },
    }
}

/// The number of a legacy task id `task-<nn>`.
pub fn legacy_task_number_of(task_id: &str) -> (r: Option<u32>)
    ensures
        r == legacy_task_number(task_id@),
{
    if !has_prefix(task_id, "task-") {
        return None;
    }
    proof {
        reveal_strlit("task-");
    }
    let cs = chars_of(task_id);
    let rest = string_of(slice_suffix(cs.as_slice(), 5).as_slice());
    assert(rest@ =~= task_id@.skip(5));
    parse_local_sequence(rest.as_str())
}

/// The boundaries of the first legacy task file that declares `task_id`.
pub fn find_legacy_task_file(files: &Vec<ScannedFile>, task_id: &str) -> (r: Option<Boundaries>)
    ensures
        match r {
            Some(b) => legacy_task_file(scans_view(files@), task_id@, 0) == Some(b@),
            None => legacy_task_file(scans_view(files@), task_id@, 0) is None,
        },
{
    let ghost fs = scans_view(files@);
    let mut i: usize = 0;
    while i < files.len()
        invariant
            i <= files.len(),
            fs == scans_view(files@),
            legacy_task_file(fs, task_id@, 0) == legacy_task_file(fs, task_id@, i as int),
        decreases files.len() - i,
    {
        assert(fs[i as int] == files@[i as int]@);
        match &files[i].content {
            FileContent::Read { yaml: Ok(fm), .. } => {
                let id_ok = match &fm.id {
                    Some(v) => str_eq(v.as_str(), task_id),
                    None => false,
                };
                let status_ok = match &fm.status {
                    Some(v) => str_eq(v.as_str(), "active"),
                    None => false,
                };
                proof {
                    reveal_strlit("active");
                }
                if id_ok && status_ok {
                    match &fm.boundaries {
                        Some(b) => {
                            let found = Boundaries {
                                allowed: strings_or_empty(&b.allowed),
                                forbidden_patterns: strings_or_empty(&b.forbidden_patterns),
                            };
                            return Some(found);
                        },
                        None => {},
                    }
                }
            },
            _ => {},
        }
        i = i + 1;
    }
    None
}

/// The one Task Spec with the local number `n`: `Ok(None)` when there is none,
/// `Err(())` when there are several.
pub fn find_numbered_task(index: &DocumentIndex, n: u32) -> (r: Result<Option<&Document>, ()>)
    ensures
        match r {
            Ok(Some(d)) => numbered_tasks(index@.documents, n, 0).len() == 1
                && numbered_tasks(index@.documents, n, 0)[0] == d@,
            Ok(None) => numbered_tasks(index@.documents, n, 0).len() == 0,
            Err(_) => numbered_tasks(index@.documents, n, 0).len() > 1,
        },
{
    let docs = index.documents.values();
    let ghost dv = docs_view(docs@);
    let ghost mut acc: Seq<DocumentView> = Seq::empty();
    let mut first: Option<usize> = None;
    let mut i: usize = 0;
    while i < docs.len()
        invariant
            i <= docs.len(),
            dv == docs_view(docs@),
            dv == index@.documents,
            numbered_tasks(dv, n, 0) == acc + numbered_tasks(dv, n, i as int),
            acc.len() <= 1,
            acc.len() == 0 ==> first is None,
            acc.len() == 1 ==> (first matches Some(f) && f < docs.len() && acc[0] == dv[f as int]),
        decreases docs.len() - i,
    {
        assert(dv[i as int] == docs@[i as int]@);
        let d = &docs[i];
        let hit = match &d.id {
            DocId::TaskSpec { sequence, .. } => d.doc_type == DocType::TaskSpec && *sequence == n,
            _ => false,
        };
        if hit {
            match first {
                Some(_) => {
                    assert(numbered_tasks(dv, n, 0).len() > 1);
                    return Err(());
                },
                None => {
                    proof {
                        assert(acc + numbered_tasks(dv, n, i as int) =~= (acc + seq![dv[i as int]])
                            + numbered_tasks(dv, n, i + 1));
                        acc = acc + seq![dv[i as int]];
                    }
                    first = Some(i);
                },
            }
        } else {
            assert(!has_task_number(dv[i as int], n));
        }
        i = i + 1;
    }
    match first {
        Some(f) => Ok(Some(&docs[f])),
        None => {
            assert(acc + numbered_tasks(dv, n, i as int) =~= acc);
            Ok(None)
        },
    }
}

/// The boundaries that `check boundaries <task-id>` works with, given the
/// repository index and what the scan's legacy task files give.
pub fn resolve_task_boundaries(
    index: &DocumentIndex,
    legacy: Option<Boundaries>,
    task_id: &str,
) -> (r: Result<Boundaries, String>)
    ensures
        ({
            let expected = match task_lookup(index@, task_id@) {
                Ok(d) => doc_task_boundaries(task_id@, d),
                Err(m) => match legacy_task_number(task_id@) {
                    None => Err(m),
                    Some(n) => match legacy {
                        Some(b) => Ok(b@),
                        None => {
                            let found = numbered_tasks(index@.documents, n, 0);
                            if found.len() == 1 {
                                doc_task_boundaries(task_id@, found[0])
                            } else if found.len() > 1 {
                                Err("task spec "@ + task_id@ + " names more than one Task Spec"@)
                            } else {
                                Err(m)
                            }
                        },
                    },
                },
            };
            match r {
                Ok(b) => expected == Ok::<BoundariesView, Seq<char>>(b@),
                Err(m) => expected == Err::<BoundariesView, Seq<char>>(m@),
            }
        }),
{
    let document = match find_task_spec(index, task_id) {
        Ok(d) => d,
        Err(m) => {
            let n = match legacy_task_number_of(task_id) {
                None => {
                    return Err(m);
                },
                Some(n) => n,
            };
            if let Some(b) = legacy {
                return Ok(b);
            }
            match find_numbered_task(index, n) {
                Ok(Some(d)) => d,
                Ok(None) => {
                    return Err(m);
                },
                Err(_) => {
                    return Err(concat3("task spec ", task_id, " names more than one Task Spec"));
                },
            }
        },
    };
    if document.doc_type != DocType::TaskSpec {
        return Err(concat2(task_id, " is not a Task Spec"));
    }
    if document.status != Status::Candidate {
        return Err(concat2(task_id, " is not candidate"));
    }
    match &document.frontmatter.boundaries {
        Some(b) => Ok(b.clone()),
        None => Err(concat2(task_id, " is missing boundaries")),
    }
}

/// Runs `check boundaries <task-id>` over the scanned repository and the changed
/// paths that were read from version control.
pub fn run_boundaries(
    repo_root: String,
    files: Vec<ScannedFile>,
    task_id: &str,
    changed_paths: Result<Vec<String>, String>,
) -> (r: Result<CheckReport, String>)
    ensures
        match r {
            Ok(report) => boundaries_outcome(
                repo_root@,
                scans_view(files@),
                task_id@,
                match changed_paths {
                    Ok(v) => Ok(v.deep_view()),
                    Err(e) => Err(e@),
                },
            ) == Ok::<CheckReportView, Seq<char>>(report@),
            Err(m) => boundaries_outcome(
                repo_root@,
                scans_view(files@),
                task_id@,
                match changed_paths {
                    Ok(v) => Ok(v.deep_view()),
                    Err(e) => Err(e@),
                },
            ) == Err::<CheckReportView, Seq<char>>(m@),
        },
{
    let root = repo_root.clone();
    let legacy = find_legacy_task_file(&files, task_id);
    let index = build_index(repo_root, files);
    let boundaries = resolve_task_boundaries(&index, legacy, task_id)?;
    let changed = match changed_paths {
        Ok(v) => v,
        Err(e) => {
            return Err(e);
        },
    };
    let allowed = compile_patterns(root.as_str(), task_id, "boundaries.allowed", &boundaries.allowed)?;
    let forbidden = compile_patterns(
        root.as_str(),
        task_id,
        "boundaries.forbidden_patterns",
        &boundaries.forbidden_patterns,
    )?;
    let ghost paths = changed.deep_view();
    let ghost av = boundaries.allowed.deep_view();
    let ghost fv = boundaries.forbidden_patterns.deep_view();
    let mut hits: Vec<(bool, bool)> = Vec::new();
    let mut i: usize = 0;
    while i < changed.len()
        invariant
            i <= changed.len(),
            paths == changed.deep_view(),
            av == boundaries.allowed.deep_view(),
            fv == boundaries.forbidden_patterns.deep_view(),
            allowed@.len() == av.len(),
            forbidden@.len() == fv.len(),
            forall|k: int| 0 <= k < allowed@.len() ==> #[trigger] allowed@[k]@ == av[k],
            forall|k: int| 0 <= k < forbidden@.len() ==> #[trigger] forbidden@[k]@ == fv[k],
            hits@.len() == i,
            forall|k: int|
                0 <= k < i ==> #[trigger] hits@[k] == (any_match(fv, paths[k]), any_match(av, paths[k])),
        decreases changed.len() - i,
    {
        let path = changed[i].as_str();
        assert(paths[i as int] == path@);
        let f = matches_any(&forbidden, path);
        let a = matches_any(&allowed, path);
        proof {
            if f {
                let k = choose|k: int| 0 <= k < forbidden@.len() && glob_match(#[trigger] forbidden@[k]@, path@);
                assert(glob_match(fv[k], path@));
            }
            if any_match(fv, path@) {
                let k = choose|k: int| 0 <= k < fv.len() && glob_match(#[trigger] fv[k], path@);
                assert(glob_match(forbidden@[k]@, path@));
            }
            if a {
                let k = choose|k: int| 0 <= k < allowed@.len() && glob_match(#[trigger] allowed@[k]@, path@);
                assert(glob_match(av[k], path@));
            }
            if any_match(av, path@) {
                let k = choose|k: int| 0 <= k < av.len() && glob_match(#[trigger] av[k], path@);
                assert(glob_match(allowed@[k]@, path@));
            }
        }
        hits.push((f, a));
        i = i + 1;
    }
    let report = boundaries_report(task_id, &boundaries.allowed, &changed, &hits);
    assert(hits@ =~= Seq::new(
        paths.len(),
        |k: int| (any_match(fv, paths[k]), any_match(av, paths[k])),
    ));
    Ok(report)
}

} // verus!
