//! Check engine for validating the managed document system.
pub mod boundaries;
pub mod charset;
pub mod pattern;

use crate::check::pattern::{overlap, patterns_overlap};
use crate::doc::index::{build_index, index_of, scans_view, ScannedFile};
use crate::doc::types::{docs_view, id_string, violations_view, DocType, DocumentIndex, DocumentView, IndexView, InvalidEntryView, Status, ViolationView};
use crate::doc::validate::{index_violations, validate_index};
use crate::text::{append, concat2, concat3, contains_seq, contains_str, decimal, find_chars, find_from, has_prefix, owned, split_once, split_once_str, starts_with, trim, trim_str, chars_of, slice_suffix, string_of};
use crate::doc::types::decimal_string;
use crate::text::push_char;
use vstd::prelude::*;

verus! {

/// A named check available under `specmate check`.
#[derive(Debug, Clone, Copy, PartialEq, Eq, Structural)]
pub enum CheckName {
    /// Validate managed document filenames and managed markdown locations.
    Names,
    /// Validate frontmatter fields and frontmatter-level repository rules.
    Frontmatter,
    /// Validate directory placement against status.
    Status,
    /// Validate cross-document references.
    Refs,
    /// Validate boundary overlap across tasks.
    Conflicts,
}

/// The stable CLI spelling of a check.
pub open spec fn check_name(n: CheckName) -> Seq<char> {
    match n {
        CheckName::Names => "names"@,
        CheckName::Frontmatter => "frontmatter"@,
        CheckName::Status => "status"@,
        CheckName::Refs => "refs"@,
        CheckName::Conflicts => "conflicts"@,
    }
}

/// The report label of a check.
pub open spec fn check_label(n: CheckName) -> Seq<char> {
    "check "@ + check_name(n)
}

impl CheckName {
    /// Returns the stable CLI spelling for this check.
    pub fn as_str(self) -> (r: &'static str)
        ensures
            r@ == check_name(self),
    {
        let r = match self {
            CheckName::Names => "names",
            CheckName::Frontmatter => "frontmatter",
            CheckName::Status => "status",
            CheckName::Refs => "refs",
            CheckName::Conflicts => "conflicts",
        };
        proof {
            reveal_strlit("names");
            reveal_strlit("frontmatter");
            reveal_strlit("status");
            reveal_strlit("refs");
            reveal_strlit("conflicts");
        }
        r
    }

    /// The report label, such as `check names`.
    pub fn label(self) -> (r: String)
        ensures
            r@ == check_label(self),
    {
        concat2("check ", self.as_str())
    }
}

/// A concrete violation produced by a check.
#[derive(Debug, PartialEq, Eq)]
pub struct CheckViolation {
    /// Repository-relative path associated with the violation.
    pub path: String,
    /// Human-readable rule explanation.
    pub message: String,
    /// Concrete next step to fix the violation.
    pub fix: String,
}

pub struct CheckViolationView {
    pub path: Seq<char>,
    pub message: Seq<char>,
    pub fix: Seq<char>,
}

impl View for CheckViolation {
    type V = CheckViolationView;

    open spec fn view(&self) -> CheckViolationView {
        CheckViolationView { path: self.path@, message: self.message@, fix: self.fix@ }
    }
}

impl Clone for CheckViolation {
    fn clone(&self) -> (r: Self)
        ensures
            r@ == self@,
    {
        CheckViolation { path: self.path.clone(), message: self.message.clone(), fix: self.fix.clone() }
    }
}

pub open spec fn check_violations_view(v: Seq<CheckViolation>) -> Seq<CheckViolationView> {
    v.map_values(|x: CheckViolation| x@)
}

/// The pass/fail result for a single named check.
#[derive(Debug, PartialEq, Eq)]
pub struct CheckReport {
    /// Stable label such as `check names`.
    pub label: String,
    /// Human-readable pass summary.
    pub pass_summary: String,
    /// Violations reported by this check.
    pub violations: Vec<CheckViolation>,
}

pub struct CheckReportView {
    pub label: Seq<char>,
    pub pass_summary: Seq<char>,
    pub violations: Seq<CheckViolationView>,
}

impl View for CheckReport {
    type V = CheckReportView;

    open spec fn view(&self) -> CheckReportView {
        CheckReportView {
            label: self.label@,
            pass_summary: self.pass_summary@,
            violations: check_violations_view(self.violations@),
        }
    }
}

impl Clone for CheckReport {
    fn clone(&self) -> (r: Self)
        ensures
            r@ == self@,
    {
        let mut violations: Vec<CheckViolation> = Vec::new();
        let mut i: usize = 0;
        while i < self.violations.len()
            invariant
                i <= self.violations.len(),
                check_violations_view(violations@) == check_violations_view(self.violations@).take(i as int),
            decreases self.violations.len() - i,
        {
            let v = self.violations[i].clone();
            assert(v@ == self.violations@[i as int]@);
            assert(check_violations_view(self.violations@)[i as int] == self.violations@[i as int]@);
            let ghost old_view = check_violations_view(violations@);
            violations.push(v);
            assert(check_violations_view(violations@) =~= old_view.push(self.violations@[i as int]@));
            assert(check_violations_view(self.violations@).take(i + 1) =~= check_violations_view(
                self.violations@,
            ).take(i as int).push(self.violations@[i as int]@));
            i = i + 1;
        }
        assert(check_violations_view(self.violations@).take(i as int) =~= check_violations_view(self.violations@));
        CheckReport { label: self.label.clone(), pass_summary: self.pass_summary.clone(), violations }
    }
}

pub open spec fn reports_view(v: Seq<CheckReport>) -> Seq<CheckReportView> {
    v.map_values(|r: CheckReport| r@)
}

impl CheckReport {
    /// A passing report.
    pub fn pass(name: CheckName, pass_summary: String) -> (r: Self)
        ensures
            r@ == (CheckReportView {
                label: check_label(name),
                pass_summary: pass_summary@,
                violations: Seq::empty(),
            }),
    {
        let r = CheckReport { label: name.label(), pass_summary, violations: Vec::new() };
        assert(check_violations_view(r.violations@) =~= Seq::<CheckViolationView>::empty());
        r
    }

    /// A failing report.
    pub fn fail(name: CheckName, pass_summary: String, violations: Vec<CheckViolation>) -> (r: Self)
        ensures
            r@ == (CheckReportView {
                label: check_label(name),
                pass_summary: pass_summary@,
                violations: check_violations_view(violations@),
            }),
    {
        CheckReport { label: name.label(), pass_summary, violations }
    }

    /// Returns whether the check passed.
    pub fn passed(&self) -> (r: bool)
        ensures
            r == (self@.violations.len() == 0),
    {
        self.violations.len() == 0
    }
}

/// The report of a check: its label, pass summary and violations.
pub open spec fn report_of(name: CheckName, pass_summary: Seq<char>, violations: Seq<CheckViolationView>) -> CheckReportView {
    CheckReportView { label: check_label(name), pass_summary, violations }
}

fn build_report(name: CheckName, pass_summary: String, violations: Vec<CheckViolation>) -> (r: CheckReport)
    ensures
        r@ == report_of(name, pass_summary@, check_violations_view(violations@)),
{
    if violations.len() == 0 {
        let r = CheckReport::pass(name, pass_summary);
        assert(check_violations_view(violations@) =~= Seq::<CheckViolationView>::empty());
        r
    } else {
        CheckReport::fail(name, pass_summary, violations)
    }
}

/// Which check reports an invalid managed entry.
#[derive(Debug, Clone, Copy, PartialEq, Eq, Structural)]
pub enum InvalidKind {
    Names,
    Frontmatter,
    Status,
}

/// The check that an invalid-entry reason belongs to.
pub open spec fn invalid_kind(reason: Seq<char>) -> InvalidKind {
    if starts_with(reason, "invalid filename"@) || starts_with(
        reason,
        "invalid managed document path"@,
    ) || contains_seq(reason, "unsupported markdown location"@) {
        InvalidKind::Names
    } else if contains_seq(reason, "expected directory "@) {
        InvalidKind::Status
    } else {
        InvalidKind::Frontmatter
    }
}

/// Classifies an invalid-entry reason.
pub fn invalid_entry_kind(reason: &str) -> (r: InvalidKind)
    ensures
        r == invalid_kind(reason@),
{
    if has_prefix(reason, "invalid filename") || has_prefix(reason, "invalid managed document path")
        || contains_str(reason, "unsupported markdown location") {
        InvalidKind::Names
    } else if contains_str(reason, "expected directory ") {
        InvalidKind::Status
    } else {
        InvalidKind::Frontmatter
    }
}

/// Whether a repository-level violation is about a cross-document reference.
pub open spec fn reference_violation(m: Seq<char>) -> bool {
    starts_with(m, "prd "@) || starts_with(m, "parent "@) || starts_with(m, "merged-into "@)
        || starts_with(m, "superseded-by "@) || starts_with(m, "exec-plan "@) || starts_with(
        m,
        "design-docs "@,
    ) || starts_with(m, "design patch "@)
}

/// Returns whether a repository-level violation is about a cross-document reference.
pub fn is_reference_violation(message: &str) -> (r: bool)
    ensures
        r == reference_violation(message@),
{
    has_prefix(message, "prd ") || has_prefix(message, "parent ") || has_prefix(
        message,
        "merged-into ",
    ) || has_prefix(message, "superseded-by ") || has_prefix(message, "exec-plan ") || has_prefix(
        message,
        "design-docs ",
    ) || has_prefix(message, "design patch ")
}

/// Returns whether a repository-level violation belongs to the frontmatter check.
pub fn is_frontmatter_violation(message: &str) -> (r: bool)
    ensures
        r == !reference_violation(message@),
{
    !is_reference_violation(message)
}

/// The expected and actual directories named by a directory-mismatch reason.
pub open spec fn expected_actual(reason: Seq<char>) -> Option<(Seq<char>, Seq<char>)> {
    let marker = "expected directory "@;
    match find_from(reason, marker, 0) {
        None => None,
        Some(k) => match split_once(reason.skip(k + marker.len()), ", found "@) {
            Some((e, a)) => Some((trim(e), trim(a))),
            None => None,
        },
    }
}

/// Extracts the expected and actual directories from a directory-mismatch reason.
pub fn parse_expected_actual_directory(reason: &str) -> (r: Option<(String, String)>)
    ensures
        match r {
            Some((e, a)) => expected_actual(reason@) == Some((e@, a@)),
            None => expected_actual(reason@) is None,
        },
{
    let cs = chars_of(reason);
    let marker = chars_of("expected directory ");
    proof {
        reveal_strlit("expected directory ");
    }
    let k = match find_chars(cs.as_slice(), marker.as_slice(), 0) {
        Some(k) => k,
        None => {
            return None;
        },
    };
    proof {
        crate::text::lemma_find_from_some(cs@, marker@, 0);
        assert(crate::text::occurs_at(cs@, marker@, k as int));
        assert(k + marker@.len() <= cs@.len());
    }
    assert(k + marker.len() <= cs.len());
    assert(cs.len() <= usize::MAX);
    let end: usize = k + marker.len();
    let rest = string_of(slice_suffix(cs.as_slice(), end).as_slice());
    match split_once_str(rest.as_str(), ", found ") {
        Some((e, a)) => Some((trim_str(e.as_str()), trim_str(a.as_str()))),
        None => None,
    }
}

/// The message of the status check for an invalid-entry reason.
pub open spec fn status_message_of(reason: Seq<char>) -> Seq<char> {
    match expected_actual(reason) {
        Some((e, a)) => "status directory mismatch: expected "@ + e + ", found "@ + a,
        None => reason,
    }
}

/// The fix of the status check for an invalid-entry reason.
pub open spec fn status_fix_of(reason: Seq<char>) -> Seq<char> {
    match expected_actual(reason) {
        Some((e, _)) => "Move the file into "@ + e + " or update its status field."@,
        None => "Move the file into the directory that matches its status."@,
    }
}

pub fn status_message(reason: &str) -> (r: String)
    ensures
        r@ == status_message_of(reason@),
{
    match parse_expected_actual_directory(reason) {
        Some((e, a)) => {
            let mut m = concat3("status directory mismatch: expected ", e.as_str(), ", found ");
            append(&mut m, a.as_str());
            m
        },
        None => owned(reason),
    }
}

pub fn status_fix(reason: &str) -> (r: String)
    ensures
        r@ == status_fix_of(reason@),
{
    match parse_expected_actual_directory(reason) {
        Some((e, _)) => concat3("Move the file into ", e.as_str(), " or update its status field."),
        None => owned("Move the file into the directory that matches its status."),
    }
}

/// A path relative to the repository root, when it lies under it; else the path itself.
pub open spec fn relative_to(root: Seq<char>, p: Seq<char>) -> Seq<char> {
    if starts_with(p, root) {
        let rest = p.skip(root.len() as int);
        if rest.len() == 0 {
            rest
        } else if rest[0] == '/' {
            rest.skip(1)
        } else if root.len() > 0 && root.last() == '/' {
            rest
        } else {
            p
        }
    } else {
        p
    }
}

/// The form of `path` relative to `root`.
pub fn relative_path(root: &str, path: &str) -> (r: String)
    ensures
        r@ == relative_to(root@, path@),
{
    if !has_prefix(path, root) {
        return owned(path);
    }
    let cs = chars_of(path);
    let rc = chars_of(root);
    let rest = slice_suffix(cs.as_slice(), rc.len());
    if rest.len() == 0 {
        string_of(rest.as_slice())
    } else if rest[0] == '/' {
        string_of(slice_suffix(rest.as_slice(), 1).as_slice())
    } else if rc.len() > 0 && rc[rc.len() - 1] == '/' {
        string_of(rest.as_slice())
    } else {
        owned(path)
    }
}

/// The repository-relative form of a path of the index.
pub fn make_relative(index: &DocumentIndex, path: &str) -> (r: String)
    ensures
        r@ == relative_to(index@.repo_root, path@),
{
    relative_path(index.repo_root.as_str(), path)
}

/// `""` for one, `"s"` otherwise.
pub open spec fn plural_of(n: nat) -> Seq<char> {
    if n == 1 {
        Seq::empty()
    } else {
        "s"@
    }
}

pub fn plural(count: usize) -> (r: &'static str)
    ensures
        r@ == plural_of(count as nat),
{
    proof {
        reveal_strlit("");
        reveal_strlit("s");
    }
    if count == 1 {
        ""
    } else {
        "s"
    }
}

/// The fix proposed for an invalid entry reported by a check.
pub open spec fn entry_fix(kind: InvalidKind, reason: Seq<char>) -> Seq<char> {
    match kind {
        InvalidKind::Names => "Rename the file to match the managed naming convention for this directory."@,
        InvalidKind::Frontmatter => "Repair the frontmatter fields so the document satisfies its document type contract."@,
        InvalidKind::Status => status_fix_of(reason),
    }
}

/// How a check reports an invalid managed entry of its kind.
pub open spec fn entry_violation(root: Seq<char>, kind: InvalidKind, e: InvalidEntryView) -> CheckViolationView {
    CheckViolationView {
        path: relative_to(root, e.path),
        message: if kind == InvalidKind::Status {
            status_message_of(e.reason)
        } else {
            e.reason
        },
        fix: entry_fix(kind, e.reason),
    }
}

/// The violations for the invalid entries of `kind` among the first `n`.
pub open spec fn entry_violations(root: Seq<char>, entries: Seq<InvalidEntryView>, kind: InvalidKind, n: nat) -> Seq<
    CheckViolationView,
>
    decreases n,
{
    if n == 0 || n > entries.len() {
        Seq::empty()
    } else {
        entry_violations(root, entries, kind, (n - 1) as nat) + if invalid_kind(entries[n - 1].reason)
            == kind {
            seq![entry_violation(root, kind, entries[n - 1])]
        } else {
            Seq::empty()
        }
    }
}

/// The fix proposed for a repository-level violation.
pub open spec fn rule_fix(refs: bool) -> Seq<char> {
    if refs {
        "Update the reference so it points to an existing document whose status is valid for the current source document."@
    } else {
        "Fix the referenced frontmatter field so the repository-level rule passes."@
    }
}

/// The violations, among the first `n` repository-level ones, that are about
/// references (`refs`) or about frontmatter (`!refs`).
pub open spec fn rule_violations(root: Seq<char>, vs: Seq<ViolationView>, refs: bool, n: nat) -> Seq<
    CheckViolationView,
>
    decreases n,
{
    if n == 0 || n > vs.len() {
        Seq::empty()
    } else {
        rule_violations(root, vs, refs, (n - 1) as nat) + if reference_violation(vs[n - 1].message)
            == refs {
            seq![
                CheckViolationView {
                    path: relative_to(root, vs[n - 1].path),
                    message: vs[n - 1].message,
                    fix: rule_fix(refs),
                },
            ]
        } else {
            Seq::empty()
        }
    }
}

fn entry_checks(index: &DocumentIndex, kind: InvalidKind) -> (r: Vec<CheckViolation>)
    ensures
        check_violations_view(r@) == entry_violations(
            index@.repo_root,
            index@.invalid_entries,
            kind,
            index@.invalid_entries.len(),
        ),
{
    let ghost root = index@.repo_root;
    let ghost es = index@.invalid_entries;
    let mut out: Vec<CheckViolation> = Vec::new();
    let mut i: usize = 0;
    assert(check_violations_view(out@) =~= entry_violations(root, es, kind, 0));
    while i < index.invalid_entries.len()
        invariant
            i <= index.invalid_entries.len(),
            root == index@.repo_root,
            es == index@.invalid_entries,
            check_violations_view(out@) == entry_violations(root, es, kind, i as nat),
        decreases index.invalid_entries.len() - i,
    {
        let e = &index.invalid_entries[i];
        assert(es[i as int] == e@);
        let ghost before = check_violations_view(out@);
        if invalid_entry_kind(e.reason.as_str()) == kind {
            let path = make_relative(index, e.path.as_str());
            let (message, fix) = match kind {
                InvalidKind::Names => (
                    e.reason.clone(),
                    owned("Rename the file to match the managed naming convention for this directory."),
                ),
                InvalidKind::Frontmatter => (
                    e.reason.clone(),
                    owned(
                        "Repair the frontmatter fields so the document satisfies its document type contract.",
                    ),
                ),
                InvalidKind::Status => (status_message(e.reason.as_str()), status_fix(e.reason.as_str())),
            };
            out.push(CheckViolation { path, message, fix });
        }
        assert(check_violations_view(out@) =~= entry_violations(root, es, kind, (i + 1) as nat));
        i = i + 1;
    }
    out
}

fn rule_checks(index: &DocumentIndex, violations: &Vec<crate::doc::types::ValidationViolation>, refs: bool) -> (r: Vec<
    CheckViolation,
>)
    ensures
        check_violations_view(r@) == rule_violations(
            index@.repo_root,
            violations_view(violations@),
            refs,
            violations@.len(),
        ),
{
    let ghost root = index@.repo_root;
    let ghost vs = violations_view(violations@);
    let mut out: Vec<CheckViolation> = Vec::new();
    let mut i: usize = 0;
    assert(check_violations_view(out@) =~= rule_violations(root, vs, refs, 0));
    while i < violations.len()
        invariant
            i <= violations.len(),
            root == index@.repo_root,
            vs == violations_view(violations@),
            check_violations_view(out@) == rule_violations(root, vs, refs, i as nat),
        decreases violations.len() - i,
    {
        let v = &violations[i];
        assert(vs[i as int] == v@);
        if is_reference_violation(v.message.as_str()) == refs {
            let path = make_relative(index, v.path.as_str());
            let fix = if refs {
                owned(
                    "Update the reference so it points to an existing document whose status is valid for the current source document.",
                )
            } else {
                owned("Fix the referenced frontmatter field so the repository-level rule passes.")
            };
            out.push(CheckViolation { path, message: v.message.clone(), fix });
        }
        assert(check_violations_view(out@) =~= rule_violations(root, vs, refs, (i + 1) as nat));
        i = i + 1;
    }
    out
}

/// The summary `all <n> documents pass`.
pub open spec fn all_pass(n: nat) -> Seq<char> {
    "all "@ + decimal(n) + " documents pass"@
}

fn all_pass_summary(index: &DocumentIndex) -> (r: String)
    ensures
        r@ == all_pass(index@.documents.len()),
{
    let n = decimal_string(index.documents.len() as u64);
    concat3("all ", n.as_str(), " documents pass")
}

/// The report of check `name` on an index.
pub open spec fn named_report(idx: IndexView, name: CheckName) -> CheckReportView {
    let root = idx.repo_root;
    let es = idx.invalid_entries;
    let vs = index_violations(idx);
    match name {
        CheckName::Names => report_of(
            name,
            all_pass(idx.documents.len()),
            entry_violations(root, es, InvalidKind::Names, es.len()),
        ),
        CheckName::Frontmatter => report_of(
            name,
            all_pass(idx.documents.len()),
            entry_violations(root, es, InvalidKind::Frontmatter, es.len()) + rule_violations(
                root,
                vs,
                false,
                vs.len(),
            ),
        ),
        CheckName::Status => report_of(
            name,
            all_pass(idx.documents.len()),
            entry_violations(root, es, InvalidKind::Status, es.len()),
        ),
        CheckName::Refs => report_of(
            name,
            "all references valid"@,
            rule_violations(root, vs, true, vs.len()),
        ),
        CheckName::Conflicts => report_of(
            name,
            "no boundary conflicts"@,
            dedup(conflicts_of(idx.documents)),
        ),
    }
}

/// Runs one named check against a loaded index.
pub fn run_named_with_index(index: &DocumentIndex, name: CheckName) -> (r: CheckReport)
    ensures
        r@ == named_report(index@, name),
{
    match name {
        CheckName::Names => build_report(
            name,
            all_pass_summary(index),
            entry_checks(index, InvalidKind::Names),
        ),
        CheckName::Frontmatter => {
            let mut v = entry_checks(index, InvalidKind::Frontmatter);
            let vs = validate_index(index);
            let mut w = rule_checks(index, &vs, false);
            let ghost a = check_violations_view(v@);
            let ghost b = check_violations_view(w@);
            v.append(&mut w);
            assert(check_violations_view(v@) =~= a + b);
            build_report(name, all_pass_summary(index), v)
        },
        CheckName::Status => build_report(
            name,
            all_pass_summary(index),
            entry_checks(index, InvalidKind::Status),
        ),
        CheckName::Refs => {
            let vs = validate_index(index);
            build_report(name, owned("all references valid"), rule_checks(index, &vs, true))
        },
        CheckName::Conflicts => build_report(
            name,
            owned("no boundary conflicts"),
            dedup_violations(conflict_checks(index)),
        ),
    }
}

/// The reports of every named check, in CLI order.
pub open spec fn all_reports(idx: IndexView) -> Seq<CheckReportView> {
    seq![
        named_report(idx, CheckName::Names),
        named_report(idx, CheckName::Frontmatter),
        named_report(idx, CheckName::Status),
        named_report(idx, CheckName::Refs),
        named_report(idx, CheckName::Conflicts),
    ]
}

/// Runs the aggregate check suite used by `specmate check` over the scanned repository.
pub fn run_all(repo_root: String, files: Vec<ScannedFile>) -> (r: Vec<CheckReport>)
    ensures
        reports_view(r@) == all_reports(index_of(repo_root@, scans_view(files@))),
{
    let index = build_index(repo_root, files);
    let mut r: Vec<CheckReport> = Vec::new();
    r.push(run_named_with_index(&index, CheckName::Names));
    r.push(run_named_with_index(&index, CheckName::Frontmatter));
    r.push(run_named_with_index(&index, CheckName::Status));
    r.push(run_named_with_index(&index, CheckName::Refs));
    r.push(run_named_with_index(&index, CheckName::Conflicts));
    assert(reports_view(r@) =~= all_reports(index@));
    r
}

/// Runs one named check over the scanned repository.
pub fn run_named(repo_root: String, files: Vec<ScannedFile>, name: CheckName) -> (r: CheckReport)
    ensures
        r@ == named_report(index_of(repo_root@, scans_view(files@)), name),
{
    let index = build_index(repo_root, files);
    run_named_with_index(&index, name)
}

/// Whether a document is a candidate Task Spec, whose boundaries may conflict.
pub open spec fn candidate_task(d: DocumentView) -> bool {
    d.doc_type == DocType::TaskSpec && d.status == Status::Candidate
}

/// The candidate Task Specs among the first `n` documents, in order.
pub open spec fn candidates_upto(docs: Seq<DocumentView>, n: nat) -> Seq<DocumentView>
    decreases n,
{
    if n == 0 || n > docs.len() {
        Seq::empty()
    } else {
        candidates_upto(docs, (n - 1) as nat) + if candidate_task(docs[n - 1]) {
            seq![docs[n - 1]]
        } else {
            Seq::empty()
        }
    }
}

/// The report of one overlapping pair of patterns.
pub open spec fn conflict_violation(a: Seq<char>, b: Seq<char>, p: Seq<char>, q: Seq<char>) -> CheckViolationView {
    CheckViolationView {
        path: a + " <-> "@ + b,
        message: "'"@ + p + "' overlaps '"@ + q + "'"@,
        fix: "Resolve by serialising the tasks or splitting the boundary patterns."@,
    }
}

/// The conflicts of pattern `p` with the first `m` patterns of `qs`.
pub open spec fn pattern_conflicts(a: Seq<char>, b: Seq<char>, p: Seq<char>, qs: Seq<Seq<char>>, m: nat) -> Seq<
    CheckViolationView,
>
    decreases m,
{
    if m == 0 || m > qs.len() {
        Seq::empty()
    } else {
        pattern_conflicts(a, b, p, qs, (m - 1) as nat) + if overlap(p, qs[m - 1]) {
            seq![conflict_violation(a, b, p, qs[m - 1])]
        } else {
            Seq::empty()
        }
    }
}

/// The conflicts of the first `n` patterns of `ps` with all of `qs`.
pub open spec fn patterns_conflicts(a: Seq<char>, b: Seq<char>, ps: Seq<Seq<char>>, qs: Seq<Seq<char>>, n: nat) -> Seq<
    CheckViolationView,
>
    decreases n,
{
    if n == 0 || n > ps.len() {
        Seq::empty()
    } else {
        patterns_conflicts(a, b, ps, qs, (n - 1) as nat) + pattern_conflicts(a, b, ps[n - 1], qs, qs.len())
    }
}

/// The conflicts between the allowed patterns of two candidate tasks.
pub open spec fn pair_conflicts(x: DocumentView, y: DocumentView) -> Seq<CheckViolationView> {
    match x.frontmatter.boundaries {
        Some(bx) => match y.frontmatter.boundaries {
            Some(by) => patterns_conflicts(
                id_string(x.id),
                id_string(y.id),
                bx.allowed,
                by.allowed,
                bx.allowed.len(),
            ),
            None => Seq::empty(),
        },
        None => Seq::empty(),
    }
}

/// The conflicts of candidate `i` with the candidates after it, up to position `m`.
pub open spec fn row_conflicts(c: Seq<DocumentView>, i: int, m: nat) -> Seq<CheckViolationView>
    decreases m,
{
    if m == 0 || m <= i + 1 || m > c.len() {
        Seq::empty()
    } else {
        row_conflicts(c, i, (m - 1) as nat) + pair_conflicts(c[i], c[m - 1])
    }
}

/// The conflicts of the first `n` candidates with the candidates after them.
pub open spec fn all_conflicts(c: Seq<DocumentView>, n: nat) -> Seq<CheckViolationView>
    decreases n,
{
    if n == 0 || n > c.len() {
        Seq::empty()
    } else {
        all_conflicts(c, (n - 1) as nat) + row_conflicts(c, n - 1, c.len())
    }
}

/// Every boundary conflict between candidate Task Specs, pair by pair in canonical order.
pub open spec fn conflicts_of(docs: Seq<DocumentView>) -> Seq<CheckViolationView> {
    let c = candidates_upto(docs, docs.len());
    all_conflicts(c, c.len())
}

/// The first `n` violations without repeats, each kept at its first occurrence.
pub open spec fn dedup_upto(s: Seq<CheckViolationView>, n: nat) -> Seq<CheckViolationView>
    decreases n,
{
    if n == 0 || n > s.len() {
        Seq::empty()
    } else {
        dedup_upto(s, (n - 1) as nat) + if s.take(n - 1).contains(s[n - 1]) {
            Seq::empty()
        } else {
            seq![s[n - 1]]
        }
    }
}

pub open spec fn dedup(s: Seq<CheckViolationView>) -> Seq<CheckViolationView> {
    dedup_upto(s, s.len())
}

proof fn lemma_dedup_upto(s: Seq<CheckViolationView>, n: nat)
    requires
        n <= s.len(),
    ensures
        dedup_upto(s, n).no_duplicates(),
        forall|x: CheckViolationView| dedup_upto(s, n).contains(x) <==> s.take(n as int).contains(x),
    decreases n,
{
    if n > 0 {
        lemma_dedup_upto(s, (n - 1) as nat);
        let prev = dedup_upto(s, (n - 1) as nat);
        let last = s[n - 1];
        let before = s.take(n - 1);
        assert(s.take(n as int) =~= before.push(last));
        assert forall|x: CheckViolationView| #[trigger] before.push(last).contains(x) <==> (x
            == last || before.contains(x)) by {
            vstd::seq_lib::lemma_seq_contains_after_push(before, last, x);
        }
        if before.contains(last) {
            assert(dedup_upto(s, n) =~= prev);
        } else {
            assert(dedup_upto(s, n) =~= prev.push(last));
            assert forall|x: CheckViolationView| #[trigger] prev.push(last).contains(x) <==> (x
                == last || prev.contains(x)) by {
                vstd::seq_lib::lemma_seq_contains_after_push(prev, last, x);
            }
            assert forall|i: int, j: int|
                0 <= i < dedup_upto(s, n).len() && 0 <= j < dedup_upto(s, n).len() && i != j
                implies dedup_upto(s, n)[i] != dedup_upto(s, n)[j] by {
                if i < prev.len() && j < prev.len() {
                } else if i < prev.len() {
                    assert(prev.contains(prev[i]));
                } else {
                    assert(prev.contains(prev[j]));
                }
            }
        }
    }
}

/// Dropping repeated violations keeps every violation exactly once.
pub proof fn lemma_dedup_keeps_each_violation_once(s: Seq<CheckViolationView>)
    ensures
        dedup(s).no_duplicates(),
        forall|x: CheckViolationView| dedup(s).contains(x) <==> s.contains(x),
{
    lemma_dedup_upto(s, s.len());
    assert(s.take(s.len() as int) =~= s);
}

fn pattern_checks(
    a: &str,
    b: &str,
    p: &str,
    qs: &Vec<String>,
    out: &mut Vec<CheckViolation>,
)
    ensures
        check_violations_view(final(out)@) == check_violations_view(old(out)@) + pattern_conflicts(
            a@,
            b@,
            p@,
            qs.deep_view(),
            qs.deep_view().len(),
        ),
{
    let ghost start = check_violations_view(out@);
    let ghost qv = qs.deep_view();
    let mut j: usize = 0;
    assert(start =~= start + pattern_conflicts(a@, b@, p@, qv, 0));
    while j < qs.len()
        invariant
            j <= qs.len(),
            qv == qs.deep_view(),
            check_violations_view(out@) == start + pattern_conflicts(a@, b@, p@, qv, j as nat),
        decreases qs.len() - j,
    {
        let q = qs[j].as_str();
        assert(qv[j as int] == q@);
        let ghost before = check_violations_view(out@);
        if patterns_overlap(p, q) {
            let path = concat3(a, " <-> ", b);
            let mut message = concat3("'", p, "' overlaps '");
            append(&mut message, q);
            append(&mut message, "'");
            let v = CheckViolation {
                path,
                message,
                fix: owned("Resolve by serialising the tasks or splitting the boundary patterns."),
            };
            assert(v@ == conflict_violation(a@, b@, p@, q@));
            out.push(v);
            assert(check_violations_view(out@) =~= before.push(v@));
        }
        assert(check_violations_view(out@) =~= start + pattern_conflicts(a@, b@, p@, qv, (j + 1) as nat));
        j = j + 1;
    }
}

fn pair_checks(x: &crate::doc::types::Document, y: &crate::doc::types::Document, out: &mut Vec<CheckViolation>)
    ensures
        check_violations_view(final(out)@) == check_violations_view(old(out)@) + pair_conflicts(x@, y@),
{
    let ghost start = check_violations_view(out@);
    match &x.frontmatter.boundaries {
        Some(bx) => match &y.frontmatter.boundaries {
            Some(by) => {
                let a = x.id.as_string();
                let b = y.id.as_string();
                let ghost ps = bx.allowed.deep_view();
                let ghost qs = by.allowed.deep_view();
                let mut i: usize = 0;
                assert(start =~= start + patterns_conflicts(a@, b@, ps, qs, 0));
                while i < bx.allowed.len()
                    invariant
                        i <= bx.allowed.len(),
                        ps == bx.allowed.deep_view(),
                        qs == by.allowed.deep_view(),
                        check_violations_view(out@) == start + patterns_conflicts(a@, b@, ps, qs, i as nat),
                    decreases bx.allowed.len() - i,
                {
                    assert(ps[i as int] == bx.allowed@[i as int]@);
                    pattern_checks(a.as_str(), b.as_str(), bx.allowed[i].as_str(), &by.allowed, out);
                    assert(check_violations_view(out@) =~= start + patterns_conflicts(a@, b@, ps, qs, (i + 1) as nat));
                    i = i + 1;
                }
            },
            None => {
                assert(start =~= start + Seq::<CheckViolationView>::empty());
            },
        },
        None => {
            assert(start =~= start + Seq::<CheckViolationView>::empty());
        },
    }
}

fn conflict_checks(index: &DocumentIndex) -> (r: Vec<CheckViolation>)
    ensures
        check_violations_view(r@) == conflicts_of(index@.documents),
{
    let docs = index.documents.values();
    let ghost dv = docs_view(docs@);
    let mut cands: Vec<usize> = Vec::new();
    let mut k: usize = 0;
    assert(Seq::<DocumentView>::empty() =~= candidates_upto(dv, 0));
    while k < docs.len()
        invariant
            k <= docs.len(),
            dv == docs_view(docs@),
            cands@.len() == candidates_upto(dv, k as nat).len(),
            forall|m: int| 0 <= m < cands@.len() ==> #[trigger] cands@[m] < docs.len() && dv[cands@[m] as int]
                == candidates_upto(dv, k as nat)[m],
        decreases docs.len() - k,
    {
        assert(dv[k as int] == docs@[k as int]@);
        let ghost before = candidates_upto(dv, k as nat);
        if docs[k].doc_type == DocType::TaskSpec && docs[k].status == Status::Candidate {
            cands.push(k);
        }
        assert(candidates_upto(dv, (k + 1) as nat) =~= before + if candidate_task(dv[k as int]) {
            seq![dv[k as int]]
        } else {
            Seq::<DocumentView>::empty()
        });
        k = k + 1;
    }
    let ghost c = candidates_upto(dv, dv.len());
    let mut out: Vec<CheckViolation> = Vec::new();
    let n = cands.len();
    let mut i: usize = 0;
    assert(check_violations_view(out@) =~= all_conflicts(c, 0));
    while i < n
        invariant
            i <= n,
            n == cands@.len(),
            n == c.len(),
            dv == docs_view(docs@),
            forall|m: int| 0 <= m < n ==> #[trigger] cands@[m] < docs.len() && dv[cands@[m] as int] == c[m],
            check_violations_view(out@) == all_conflicts(c, i as nat),
        decreases n - i,
    {
        let ghost row_start = check_violations_view(out@);
        let mut j: usize = i + 1;
        assert(row_start =~= row_start + row_conflicts(c, i as int, j as nat));
        while j < n
            invariant
                i < j <= n,
                n == cands@.len(),
                n == c.len(),
                dv == docs_view(docs@),
                forall|m: int| 0 <= m < n ==> #[trigger] cands@[m] < docs.len() && dv[cands@[m] as int] == c[m],
                check_violations_view(out@) == row_start + row_conflicts(c, i as int, j as nat),
            decreases n - j,
        {
            let x = &docs[cands[i]];
            let y = &docs[cands[j]];
            assert(x@ == c[i as int]);
            assert(y@ == c[j as int]);
            pair_checks(x, y, &mut out);
            assert(check_violations_view(out@) =~= row_start + row_conflicts(c, i as int, (j + 1) as nat));
            j = j + 1;
        }
        assert(check_violations_view(out@) =~= all_conflicts(c, (i + 1) as nat));
        i = i + 1;
    }
    out
}

fn same_violation(a: &CheckViolation, b: &CheckViolation) -> (r: bool)
    ensures
        r == (a@ == b@),
{
    let r = crate::text::str_eq(a.path.as_str(), b.path.as_str()) && crate::text::str_eq(
        a.message.as_str(),
        b.message.as_str(),
    ) && crate::text::str_eq(a.fix.as_str(), b.fix.as_str());
    r
}

/// Drops repeated violations, keeping the first occurrence of each.
pub fn dedup_violations(violations: Vec<CheckViolation>) -> (r: Vec<CheckViolation>)
    ensures
        check_violations_view(r@) == dedup(check_violations_view(violations@)),
{
    let ghost s = check_violations_view(violations@);
    let mut out: Vec<CheckViolation> = Vec::new();
    let mut i: usize = 0;
    assert(check_violations_view(out@) =~= dedup_upto(s, 0));
    while i < violations.len()
        invariant
            i <= violations.len(),
            s == check_violations_view(violations@),
            check_violations_view(out@) == dedup_upto(s, i as nat),
            forall|x: CheckViolationView| check_violations_view(out@).contains(x) <==> s.take(i as int).contains(x),
        decreases violations.len() - i,
    {
        let v = &violations[i];
        assert(s[i as int] == v@);
        let mut seen = false;
        let mut k: usize = 0;
        while k < out.len()
            invariant
                k <= out.len(),
                i < violations.len(),
                s == check_violations_view(violations@),
                v@ == s[i as int],
                check_violations_view(out@) == dedup_upto(s, i as nat),
                forall|x: CheckViolationView| check_violations_view(out@).contains(x) <==> s.take(i as int).contains(x),
                seen == exists|m: int| 0 <= m < k && check_violations_view(out@)[m] == v@,
            decreases out.len() - k,
        {
            assert(check_violations_view(out@)[k as int] == out@[k as int]@);
            if same_violation(&out[k], v) {
                seen = true;
            }
            k = k + 1;
        }
        let ghost before = check_violations_view(out@);
        assert(seen == before.contains(v@));
        if !seen {
            out.push(v.clone());
        }
        proof {
            assert(s.take(i + 1) =~= s.take(i as int).push(s[i as int]));
            assert forall|x: CheckViolationView| check_violations_view(out@).contains(x) <==> s.take(i + 1).contains(x) by {
                if check_violations_view(out@).contains(x) {
                    let m = choose|m: int| 0 <= m < check_violations_view(out@).len() && check_violations_view(out@)[m] == x;
                    if m < before.len() {
                        assert(before[m] == x);
                        assert(before.contains(x));
                        assert(s.take(i as int).contains(x));
                        let q = choose|q: int| 0 <= q < i && s.take(i as int)[q] == x;
                        assert(s.take(i + 1)[q] == x);
                    } else {
                        assert(s.take(i + 1)[i as int] == x);
                    }
                }
                if s.take(i + 1).contains(x) {
                    let q = choose|q: int| 0 <= q < i + 1 && #[trigger] s.take(i + 1)[q] == x;
                    if q < i {
                        assert(s.take(i as int)[q] == x);
                        assert(before.contains(x));
                        let m = choose|m: int| 0 <= m < before.len() && before[m] == x;
                        assert(check_violations_view(out@)[m] == x);
                    } else if seen {
                        assert(before.contains(x));
                        let m = choose|m: int| 0 <= m < before.len() && before[m] == x;
                        assert(check_violations_view(out@)[m] == x);
                    } else {
                        assert(check_violations_view(out@)[before.len() as int] == x);
                    }
                }
            }
            assert(check_violations_view(out@) =~= dedup_upto(s, (i + 1) as nat));
        }
        i = i + 1;
    }
    out
}

/// `n` spaces.
pub open spec fn spaces(n: nat) -> Seq<char> {
    Seq::new(n, |i: int| ' ')
}

/// Text left-aligned in a column of `w` characters.
pub open spec fn padded_to(s: Seq<char>, w: nat) -> Seq<char> {
    if s.len() < w {
        s + spaces((w - s.len()) as nat)
    } else {
        s
    }
}

/// A label left-aligned in a column of twenty characters.
pub open spec fn padded(s: Seq<char>) -> Seq<char> {
    padded_to(s, 20)
}

/// The three lines that describe one violation.
pub open spec fn violation_text(v: CheckViolationView) -> Seq<char> {
    "       "@ + v.path + "\n"@ + "       "@ + v.message + "\n"@ + "       -> "@ + v.fix + "\n"@
}

pub open spec fn violations_text(vs: Seq<CheckViolationView>, n: nat) -> Seq<char>
    decreases n,
{
    if n == 0 || n > vs.len() {
        Seq::empty()
    } else {
        violations_text(vs, (n - 1) as nat) + violation_text(vs[n - 1])
    }
}

/// The lines of one report.
pub open spec fn report_text(r: CheckReportView) -> Seq<char> {
    let n = r.violations.len();
    if n == 0 {
        "[pass] "@ + padded(r.label) + " "@ + r.pass_summary + "\n"@
    } else {
        "[fail] "@ + padded(r.label) + " "@ + decimal(n) + " violation"@ + plural_of(n) + "\n"@
            + violations_text(r.violations, n)
    }
}

pub open spec fn reports_text(rs: Seq<CheckReportView>, n: nat) -> Seq<char>
    decreases n,
{
    if n == 0 || n > rs.len() {
        Seq::empty()
    } else {
        reports_text(rs, (n - 1) as nat) + report_text(rs[n - 1])
    }
}

/// How many of the first `n` reports failed.
pub open spec fn failed_count(rs: Seq<CheckReportView>, n: nat) -> nat
    decreases n,
{
    if n == 0 || n > rs.len() {
        0
    } else {
        failed_count(rs, (n - 1) as nat) + if rs[n - 1].violations.len() > 0 {
            1nat
        } else {
            0nat
        }
    }
}

/// The full rendering of a list of reports, with the closing summary when a check failed.
pub open spec fn rendered(rs: Seq<CheckReportView>) -> Seq<char> {
    let failed = failed_count(rs, rs.len());
    reports_text(rs, rs.len()) + if failed > 0 {
        "\n"@ + decimal(failed) + " check"@ + plural_of(failed)
            + " failed. Fix violations before running specmate run.\n"@
    } else {
        Seq::empty()
    }
}

proof fn lemma_failed_count_bound(rs: Seq<CheckReportView>, n: nat)
    ensures
        failed_count(rs, n) <= n,
    decreases n,
{
    if n > 0 && n <= rs.len() {
        lemma_failed_count_bound(rs, (n - 1) as nat);
    }
}

/// Appends `label` left-aligned in a column of `width` characters.
pub fn push_padded_to(out: &mut String, label: &str, width: usize)
    ensures
        final(out)@ == old(out)@ + padded_to(label@, width as nat),
{
    let ghost start = out@;
    append(out, label);
    let n = chars_of(label).len();
    if n < width {
        let mut k: usize = n;
        while k < width
            invariant
                n <= k <= width,
                n == label@.len(),
                out@ == start + label@ + spaces((k - n) as nat),
            decreases width - k,
        {
            push_char(out, ' ');
            k = k + 1;
            assert(spaces((k - n) as nat) =~= spaces((k - 1 - n) as nat).push(' '));
            assert(out@ =~= start + label@ + spaces((k - n) as nat));
        }
    } else {
        assert(out@ =~= start + padded_to(label@, width as nat));
    }
}

fn push_padded(out: &mut String, label: &str)
    ensures
        final(out)@ == old(out)@ + padded(label@),
{
    push_padded_to(out, label, 20);
}

fn push_report(out: &mut String, report: &CheckReport)
    ensures
        final(out)@ == old(out)@ + report_text(report@),
{
    let ghost start = out@;
    let n = report.violations.len();
    if n == 0 {
        append(out, "[pass] ");
        push_padded(out, report.label.as_str());
        append(out, " ");
        append(out, report.pass_summary.as_str());
        append(out, "\n");
        assert(out@ =~= start + report_text(report@));
    } else {
        append(out, "[fail] ");
        push_padded(out, report.label.as_str());
        append(out, " ");
        let count = decimal_string(n as u64);
        append(out, count.as_str());
        append(out, " violation");
        append(out, plural(n));
        append(out, "\n");
        let ghost head = out@;
        let ghost vs = report@.violations;
        let mut i: usize = 0;
        assert(head =~= head + violations_text(vs, 0));
        while i < n
            invariant
                i <= n,
                n == report.violations@.len(),
                vs == report@.violations,
                out@ == head + violations_text(vs, i as nat),
            decreases n - i,
        {
            let v = &report.violations[i];
            assert(vs[i as int] == v@);
            append(out, "       ");
            append(out, v.path.as_str());
            append(out, "\n");
            append(out, "       ");
            append(out, v.message.as_str());
            append(out, "\n");
            append(out, "       -> ");
            append(out, v.fix.as_str());
            append(out, "\n");
            i = i + 1;
            assert(out@ =~= head + violations_text(vs, i as nat));
        }
        assert(out@ =~= start + report_text(report@));
    }
}

/// Renders reports using the CLI conventions expected by `specmate check`.
pub fn render_reports(reports: &Vec<CheckReport>) -> (r: String)
    ensures
        r@ == rendered(reports_view(reports@)),
{
    let ghost rs = reports_view(reports@);
    let mut out = String::new();
    let mut failed: usize = 0;
    let mut i: usize = 0;
    assert(out@ =~= reports_text(rs, 0));
    while i < reports.len()
        invariant
            i <= reports.len(),
            rs == reports_view(reports@),
            out@ == reports_text(rs, i as nat),
            failed as nat == failed_count(rs, i as nat),
        decreases reports.len() - i,
    {
        let report = &reports[i];
        assert(rs[i as int] == report@);
        push_report(&mut out, report);
        proof {
            lemma_failed_count_bound(rs, i as nat);
        }
        if !report.passed() {
            failed = failed + 1;
        }
        i = i + 1;
    }
    if failed > 0 {
        append(&mut out, "\n");
        let count = decimal_string(failed as u64);
        append(&mut out, count.as_str());
        append(&mut out, " check");
        append(&mut out, plural(failed));
        append(&mut out, " failed. Fix violations before running specmate run.\n");
    }
    assert(out@ =~= rendered(rs));
    out
}

/// Whether a violation's path names the two documents `x` and `y`, as `x <-> y`.
pub open spec fn names_pair(v: CheckViolationView, x: DocumentView, y: DocumentView) -> bool {
    v.path == id_string(x.id) + " <-> "@ + id_string(y.id)
}

proof fn lemma_pattern_conflicts_path(a: Seq<char>, b: Seq<char>, p: Seq<char>, qs: Seq<Seq<char>>, m: nat)
    ensures
        forall|k: int|
            0 <= k < pattern_conflicts(a, b, p, qs, m).len() ==> (#[trigger] pattern_conflicts(
                a,
                b,
                p,
                qs,
                m,
            )[k]).path == a + " <-> "@ + b,
    decreases m,
{
    if m > 0 && m <= qs.len() {
        lemma_pattern_conflicts_path(a, b, p, qs, (m - 1) as nat);
        let left = pattern_conflicts(a, b, p, qs, (m - 1) as nat);
        let right = if overlap(p, qs[m - 1]) {
            seq![conflict_violation(a, b, p, qs[m - 1])]
        } else {
            Seq::<CheckViolationView>::empty()
        };
        assert(pattern_conflicts(a, b, p, qs, m) == left + right);
        assert forall|k: int| 0 <= k < (left + right).len() implies (#[trigger] (left + right)[k]).path
            == a + " <-> "@ + b by {
            if k < left.len() {
                assert((left + right)[k] == left[k]);
            } else {
                assert((left + right)[k] == right[k - left.len()]);
            }
        }
    }
}

proof fn lemma_patterns_conflicts_path(a: Seq<char>, b: Seq<char>, ps: Seq<Seq<char>>, qs: Seq<Seq<char>>, n: nat)
    ensures
        forall|k: int|
            0 <= k < patterns_conflicts(a, b, ps, qs, n).len() ==> (#[trigger] patterns_conflicts(
                a,
                b,
                ps,
                qs,
                n,
            )[k]).path == a + " <-> "@ + b,
    decreases n,
{
    if n > 0 && n <= ps.len() {
        lemma_patterns_conflicts_path(a, b, ps, qs, (n - 1) as nat);
        lemma_pattern_conflicts_path(a, b, ps[n - 1], qs, qs.len());
        let left = patterns_conflicts(a, b, ps, qs, (n - 1) as nat);
        let right = pattern_conflicts(a, b, ps[n - 1], qs, qs.len());
        assert(patterns_conflicts(a, b, ps, qs, n) == left + right);
        assert forall|k: int| 0 <= k < (left + right).len() implies (#[trigger] (left + right)[k]).path
            == a + " <-> "@ + b by {
            if k < left.len() {
                assert((left + right)[k] == left[k]);
            } else {
                assert((left + right)[k] == right[k - left.len()]);
            }
        }
    }
}

proof fn lemma_pair_conflicts_names(x: DocumentView, y: DocumentView)
    ensures
        forall|k: int|
            0 <= k < pair_conflicts(x, y).len() ==> names_pair(#[trigger] pair_conflicts(x, y)[k], x, y),
{
    match x.frontmatter.boundaries {
        Some(bx) => match y.frontmatter.boundaries {
            Some(by) => lemma_patterns_conflicts_path(
                id_string(x.id),
                id_string(y.id),
                bx.allowed,
                by.allowed,
                bx.allowed.len(),
            ),
            None => {},
        },
        None => {},
    }
}

proof fn lemma_row_conflicts_names(c: Seq<DocumentView>, i: int, m: nat)
    requires
        0 <= i,
    ensures
        forall|k: int|
            #![trigger row_conflicts(c, i, m)[k]]
            0 <= k < row_conflicts(c, i, m).len() ==> exists|j: int|
                #![trigger c[j]]
                i < j < c.len() && names_pair(row_conflicts(c, i, m)[k], c[i], c[j]),
    decreases m,
{
    if !(m == 0 || m <= i + 1 || m > c.len()) {
        lemma_row_conflicts_names(c, i, (m - 1) as nat);
        lemma_pair_conflicts_names(c[i], c[m - 1]);
        let left = row_conflicts(c, i, (m - 1) as nat);
        let right = pair_conflicts(c[i], c[m - 1]);
        assert(row_conflicts(c, i, m) == left + right);
        assert forall|k: int| 0 <= k < (left + right).len() implies exists|j: int|
            i < j < c.len() && names_pair(#[trigger] (left + right)[k], c[i], c[j]) by {
            if k < left.len() {
                assert((left + right)[k] == left[k]);
            } else {
                assert((left + right)[k] == right[k - left.len()]);
                assert(names_pair(right[k - left.len()], c[i], c[m - 1]));
            }
        }
    }
}

proof fn lemma_all_conflicts_names(c: Seq<DocumentView>, n: nat)
    ensures
        forall|k: int|
            #![trigger all_conflicts(c, n)[k]]
            0 <= k < all_conflicts(c, n).len() ==> exists|i: int, j: int|
                #![trigger c[i], c[j]]
                0 <= i < j < c.len() && names_pair(all_conflicts(c, n)[k], c[i], c[j]),
    decreases n,
{
    if n > 0 && n <= c.len() {
        lemma_all_conflicts_names(c, (n - 1) as nat);
        lemma_row_conflicts_names(c, n - 1, c.len());
        let left = all_conflicts(c, (n - 1) as nat);
        let right = row_conflicts(c, n - 1, c.len());
        assert(all_conflicts(c, n) == left + right);
        assert forall|k: int| #![trigger (left + right)[k]] 0 <= k < (left + right).len() implies exists|i: int, j: int|
            #![trigger c[i], c[j]]
            0 <= i < j < c.len() && names_pair((left + right)[k], c[i], c[j]) by {
            if k < left.len() {
                assert((left + right)[k] == left[k]);
                let (i, j) = choose|i: int, j: int|
                    #![trigger c[i], c[j]]
                    0 <= i < j < c.len() && names_pair(left[k], c[i], c[j]);
                assert(names_pair((left + right)[k], c[i], c[j]));
            } else {
                assert((left + right)[k] == right[k - left.len()]);
                let j = choose|j: int| #![trigger c[j]] n - 1 < j < c.len() && names_pair(right[k - left.len()], c[n - 1], c[j]);
                assert(names_pair((left + right)[k], c[n - 1], c[j]));
            }
        }
    }
}

/// Whether `x` is one of `docs` and a Task Spec in status candidate.
pub open spec fn candidate_task_in(docs: Seq<DocumentView>, x: DocumentView) -> bool {
    exists|i: int|
        0 <= i < docs.len() && #[trigger] docs[i] == x && x.doc_type == DocType::TaskSpec && x.status
            == Status::Candidate
}

proof fn lemma_candidates_are_candidate_tasks(docs: Seq<DocumentView>, n: nat)
    ensures
        forall|k: int|
            0 <= k < candidates_upto(docs, n).len() ==> candidate_task_in(
                docs,
                #[trigger] candidates_upto(docs, n)[k],
            ),
    decreases n,
{
    if n > 0 && n <= docs.len() {
        lemma_candidates_are_candidate_tasks(docs, (n - 1) as nat);
        let left = candidates_upto(docs, (n - 1) as nat);
        let right = if candidate_task(docs[n - 1]) {
            seq![docs[n - 1]]
        } else {
            Seq::<DocumentView>::empty()
        };
        assert(candidates_upto(docs, n) == left + right);
        assert forall|k: int| 0 <= k < (left + right).len() implies candidate_task_in(
            docs,
            #[trigger] (left + right)[k],
        ) by {
            if k < left.len() {
                assert((left + right)[k] == left[k]);
                assert(candidate_task_in(docs, left[k]));
            } else {
                assert((left + right)[k] == docs[n - 1]);
                assert(candidate_task(docs[n - 1]));
                assert(docs[n - 1] == docs[n - 1]);
            }
        }
    }
}

/// Whether a conflict names two Task Specs of `docs` in status candidate.
pub open spec fn names_candidate_tasks(docs: Seq<DocumentView>, v: CheckViolationView) -> bool {
    exists|x: DocumentView, y: DocumentView|
        #![trigger names_pair(v, x, y)]
        candidate_task_in(docs, x) && candidate_task_in(docs, y) && names_pair(v, x, y)
}

/// Only candidate Task Specs can conflict: every conflict that `check conflicts`
/// finds names two Task Specs of the repository in status candidate
/// (`<a> <-> <b>`), so a closed or draft Task Spec never appears in one.
pub proof fn lemma_conflicts_name_candidate_tasks(docs: Seq<DocumentView>)
    ensures
        forall|k: int|
            0 <= k < conflicts_of(docs).len() ==> names_candidate_tasks(
                docs,
                #[trigger] conflicts_of(docs)[k],
            ),
{
    let c = candidates_upto(docs, docs.len());
    lemma_candidates_are_candidate_tasks(docs, docs.len());
    lemma_all_conflicts_names(c, c.len());
    assert(conflicts_of(docs) == all_conflicts(c, c.len()));
    assert forall|k: int| 0 <= k < conflicts_of(docs).len() implies names_candidate_tasks(
        docs,
        #[trigger] conflicts_of(docs)[k],
    ) by {
        assert(conflicts_of(docs)[k] == all_conflicts(c, c.len())[k]);
        let (a, b) = choose|a: int, b: int|
            #![trigger c[a], c[b]]
            0 <= a < b < c.len() && names_pair(all_conflicts(c, c.len())[k], c[a], c[b]);
        assert(candidate_task_in(docs, c[a]));
        assert(candidate_task_in(docs, c[b]));
        assert(names_pair(conflicts_of(docs)[k], c[a], c[b]));
    }
}

} // verus!
