//! `specmate status`: the repository dashboard and the detail view of one document.
use crate::check::{make_relative, relative_to};
use crate::cmd::{failure, CommandFailure, FailureView};
use crate::cmd::move_::doc_by_id;

use crate::doc::association::{association_summaries, summaries_of};
use crate::doc::lifecycle::{expected_dir, expected_directory, is_live_status, is_terminal_status, live, terminal};
use crate::doc::types::{decimal_string, doc_type_name, docs_view, id_string, seq_lt, status_name, str_lt, violations_view, AssociatedView, AssociationKind, AssociationSummary, DocType, Document, DocumentIndex, DocumentView, IndexView, Status, SummaryView, ValidationViolation, ViolationView};
use crate::text::{append, concat3, contains_seq, contains_str, decimal, join, join_strings, owned, pieces_view, str_eq};
use vstd::prelude::*;

verus! {

/// Arguments for `specmate status`.
#[derive(Debug)]
pub struct StatusArgs {
    /// Optional managed document id such as `exec-auth-add-oauth/task-01` or `design-auth-system`.
    pub doc_id: Option<String>,
    /// Expand the dashboard to list all lifecycle-managed documents.
    pub all: bool,
    /// Control ANSI color output.
    pub color: ColorWhen,
}

/// ANSI color policy for `specmate status`.
#[derive(Debug, Clone, Copy, PartialEq, Eq, Structural)]
pub enum ColorWhen {
    /// Enable color only when writing to a TTY.
    Auto,
    /// Always emit ANSI color sequences.
    Always,
    /// Never emit ANSI color sequences.
    Never,
}

/// Whether a color policy colors the output of a terminal (`is_tty`) or not.
pub open spec fn color_enabled(color: ColorWhen, is_tty: bool) -> bool {
    match color {
        ColorWhen::Auto => is_tty,
        ColorWhen::Always => true,
        ColorWhen::Never => false,
    }
}

/// How text is colored.
#[derive(Debug, Clone, Copy)]
pub struct Palette {
    enabled: bool,
}

impl View for Palette {
    type V = bool;

    closed spec fn view(&self) -> bool {
        self.enabled
    }
}

/// `text` wrapped in the ANSI color `code` when coloring is on.
pub open spec fn painted(on: bool, code: Seq<char>, text: Seq<char>) -> Seq<char> {
    if on {
        "\u{1b}["@ + code + "m"@ + text + "\u{1b}[0m"@
    } else {
        text
    }
}

/// The ANSI color of a status.
pub open spec fn status_code(s: Status) -> Seq<char> {
    match s {
        Status::Implemented | Status::Approved | Status::Closed => "32"@,
        Status::Candidate => "33"@,
        Status::Draft => "36"@,
        Status::Obsolete | Status::ObsoleteMerged => "90"@,
        Status::Active => "35"@,
    }
}

/// A status name in its color.
pub open spec fn painted_status(on: bool, s: Status) -> Seq<char> {
    painted(on, status_code(s), status_name(s))
}

impl Palette {
    /// The palette for a color policy, given whether the output is a terminal.
    pub fn new(color: ColorWhen, is_tty: bool) -> (r: Self)
        ensures
            r@ == color_enabled(color, is_tty),
    {
        let enabled = match color {
            ColorWhen::Auto => is_tty,
            ColorWhen::Always => true,
            ColorWhen::Never => false,
        };
        Palette { enabled }
    }

    /// Wraps `text` in the ANSI color `code` when coloring is on.
    pub fn paint(&self, code: &str, text: &str) -> (r: String)
        ensures
            r@ == painted(self@, code@, text@),
    {
        if self.enabled {
            let mut r = concat3("\u{1b}[", code, "m");
            append(&mut r, text);
            append(&mut r, "\u{1b}[0m");
            r
        } else {
            owned(text)
        }
    }

    /// A section header.
    pub fn header(&self, text: &str) -> (r: String)
        ensures
            r@ == painted(self@, "1"@, text@),
    {
        self.paint("1", text)
    }

    /// A document id.
    pub fn doc_id(&self, text: &str) -> (r: String)
        ensures
            r@ == painted(self@, "1"@, text@),
    {
        self.paint("1", text)
    }

    /// A status in its color.
    pub fn status(&self, status: Status) -> (r: String)
        ensures
            r@ == painted_status(self@, status),
    {
        let code = match status {
            Status::Implemented | Status::Approved | Status::Closed => "32",
            Status::Candidate => "33",
            Status::Draft => "36",
            Status::Obsolete | Status::ObsoleteMerged => "90",
            Status::Active => "35",
        };
        proof {
            reveal_strlit("32");
            reveal_strlit("33");
            reveal_strlit("36");
            reveal_strlit("90");
            reveal_strlit("35");
        }
        self.paint(code, status.as_str())
    }
}

/// Inserts `d` into `sorted` before the first document whose id string orders after its own.
pub open spec fn insert_by_id(sorted: Seq<DocumentView>, d: DocumentView) -> Seq<DocumentView>
    decreases sorted.len(),
{
    if sorted.len() == 0 {
        seq![d]
    } else if seq_lt(id_string(d.id), id_string(sorted[0].id)) {
        seq![d] + sorted
    } else {
        seq![sorted[0]] + insert_by_id(sorted.drop_first(), d)
    }
}

/// The first `n` documents, stably sorted by id string.
pub open spec fn sorted_by_id(docs: Seq<DocumentView>, n: nat) -> Seq<DocumentView>
    decreases n,
{
    if n == 0 || n > docs.len() {
        Seq::empty()
    } else {
        insert_by_id(sorted_by_id(docs, (n - 1) as nat), docs[n - 1])
    }
}

/// The documents among the first `n` whose type is one of `types` and whose status is `s`.
pub open spec fn with_types_status(docs: Seq<DocumentView>, types: Seq<DocType>, s: Status, n: nat) -> Seq<
    DocumentView,
>
    decreases n,
{
    if n == 0 || n > docs.len() {
        Seq::empty()
    } else {
        with_types_status(docs, types, s, (n - 1) as nat) + if types.contains(docs[n - 1].doc_type)
            && docs[n - 1].status == s {
            seq![docs[n - 1]]
        } else {
            Seq::empty()
        }
    }
}

/// The documents of a type set and status, sorted by id string.
pub open spec fn listed(docs: Seq<DocumentView>, types: Seq<DocType>, s: Status) -> Seq<DocumentView> {
    let f = with_types_status(docs, types, s, docs.len());
    sorted_by_id(f, f.len())
}

fn insert_sorted<'a>(sorted: &mut Vec<&'a Document>, d: &'a Document)
    ensures
        docs_view(deref_all(final(sorted)@)) == insert_by_id(docs_view(deref_all(old(sorted)@)), d@),
{
    let ghost before = docs_view(deref_all(sorted@));
    let key = d.id.as_string();
    let mut i: usize = 0;
    let mut stop = false;
    assert(before.skip(0) =~= before);
    assert(before.take(0) + insert_by_id(before, d@) =~= insert_by_id(before, d@));
    while i < sorted.len() && !stop
        invariant
            i <= sorted.len(),
            stop ==> i < sorted.len() && seq_lt(id_string(d@.id), id_string(before[i as int].id)),
            before == docs_view(deref_all(sorted@)),
            key@ == id_string(d@.id),
            insert_by_id(before, d@) == before.take(i as int) + insert_by_id(before.skip(i as int), d@),
            forall|k: int| 0 <= k < i ==> !seq_lt(id_string(d@.id), id_string(#[trigger] before[k].id)),
        decreases sorted.len() - i + (if stop {
            0int
        } else {
            1int
        }),
    {
        let other = sorted[i].id.as_string();
        assert(before[i as int] == sorted@[i as int]@);
        if str_lt(key.as_str(), other.as_str()) {
            stop = true;
            continue;
        }
        proof {
            let rest = before.skip(i as int);
            assert(rest[0] == before[i as int]);
            assert(rest.drop_first() =~= before.skip(i + 1));
            assert(before.take(i + 1) =~= before.take(i as int) + seq![before[i as int]]);
        }
        i = i + 1;
    }
    proof {
        let rest = before.skip(i as int);
        if i < before.len() {
            assert(rest[0] == before[i as int]);
        }
    }
    sorted.insert(i, d);
    assert(docs_view(deref_all(sorted@)) =~= before.take(i as int) + (seq![d@] + before.skip(i as int)));
}

/// The documents behind a list of references.
pub open spec fn deref_all(v: Seq<&Document>) -> Seq<Document> {
    v.map_values(|d: &Document| *d)
}

fn type_in(types: &Vec<DocType>, t: DocType) -> (r: bool)
    ensures
        r == types@.contains(t),
{
    let mut i: usize = 0;
    while i < types.len()
        invariant
            i <= types.len(),
            forall|k: int| 0 <= k < i ==> types@[k] != t,
        decreases types.len() - i,
    {
        if types[i] == t {
            assert(types@[i as int] == t);
            return true;
        }
        i = i + 1;
    }
    false
}

fn sort_documents<'a>(docs: Vec<&'a Document>) -> (r: Vec<&'a Document>)
    ensures
        docs_view(deref_all(r@)) == sorted_by_id(docs_view(deref_all(docs@)), docs@.len()),
{
    let ghost all = docs_view(deref_all(docs@));
    let mut sorted: Vec<&'a Document> = Vec::new();
    let mut i: usize = 0;
    assert(docs_view(deref_all(sorted@)) =~= sorted_by_id(all, 0));
    while i < docs.len()
        invariant
            i <= docs.len(),
            all == docs_view(deref_all(docs@)),
            docs_view(deref_all(sorted@)) == sorted_by_id(all, i as nat),
        decreases docs.len() - i,
    {
        assert(all[i as int] == docs@[i as int]@);
        insert_sorted(&mut sorted, docs[i]);
        i = i + 1;
    }
    sorted
}

/// The documents of the given types in status `status`, sorted by id.
pub fn documents_by_types_and_status<'a>(index: &'a DocumentIndex, types: &Vec<DocType>, status: Status) -> (r:
    Vec<&'a Document>)
    ensures
        docs_view(deref_all(r@)) == listed(index@.documents, types@, status),
{
    let docs = index.documents.values();
    let ghost dv = docs_view(docs@);
    let mut found: Vec<&'a Document> = Vec::new();
    let mut i: usize = 0;
    assert(docs_view(deref_all(found@)) =~= with_types_status(dv, types@, status, 0));
    while i < docs.len()
        invariant
            i <= docs.len(),
            dv == docs_view(docs@),
            dv == index@.documents,
            docs_view(deref_all(found@)) == with_types_status(dv, types@, status, i as nat),
        decreases docs.len() - i,
    {
        assert(dv[i as int] == docs@[i as int]@);
        let ghost before = docs_view(deref_all(found@));
        if type_in(types, docs[i].doc_type) && docs[i].status == status {
            found.push(&docs[i]);
        }
        assert(docs_view(deref_all(found@)) =~= with_types_status(dv, types@, status, (i + 1) as nat));
        i = i + 1;
    }
    sort_documents(found)
}

/// The documents of one type in status `status`, sorted by id.
pub fn documents_by_type_and_status<'a>(index: &'a DocumentIndex, doc_type: DocType, status: Status) -> (r:
    Vec<&'a Document>)
    ensures
        docs_view(deref_all(r@)) == listed(index@.documents, seq![doc_type], status),
{
    let mut types: Vec<DocType> = Vec::new();
    types.push(doc_type);
    assert(types@ =~= seq![doc_type]);
    documents_by_types_and_status(index, &types, status)
}

/// Every document, sorted by id.
pub fn all_documents<'a>(index: &'a DocumentIndex) -> (r: Vec<&'a Document>)
    ensures
        docs_view(deref_all(r@)) == sorted_by_id(index@.documents, index@.documents.len()),
{
    let docs = index.documents.values();
    let mut refs: Vec<&'a Document> = Vec::new();
    let mut i: usize = 0;
    while i < docs.len()
        invariant
            i <= docs.len(),
            docs_view(deref_all(refs@)) == docs_view(docs@).take(i as int),
        decreases docs.len() - i,
    {
        let ghost before = docs_view(deref_all(refs@));
        refs.push(&docs[i]);
        assert(docs_view(deref_all(refs@)) =~= before.push(docs@[i as int]@));
        assert(docs_view(docs@).take(i + 1) =~= docs_view(docs@).take(i as int).push(docs@[i as int]@));
        i = i + 1;
    }
    assert(docs_view(docs@).take(docs@.len() as int) =~= docs_view(docs@));
    sort_documents(refs)
}

/// How many of the first `n` documents have type `t` and status `s`.
pub open spec fn count_docs(docs: Seq<DocumentView>, t: DocType, s: Status, n: nat) -> nat
    decreases n,
{
    if n == 0 || n > docs.len() {
        0
    } else {
        count_docs(docs, t, s, (n - 1) as nat) + if docs[n - 1].doc_type == t && docs[n - 1].status
            == s {
            1nat
        } else {
            0nat
        }
    }
}

/// How many of the first `n` documents are Task Specs of `exec` in status `s`.
pub open spec fn count_tasks(docs: Seq<DocumentView>, exec: Seq<char>, s: Status, n: nat) -> nat
    decreases n,
{
    if n == 0 || n > docs.len() {
        0
    } else {
        count_tasks(docs, exec, s, (n - 1) as nat) + if docs[n - 1].doc_type == DocType::TaskSpec
            && docs[n - 1].frontmatter.exec_plan == Some(exec) && docs[n - 1].status == s {
            1nat
        } else {
            0nat
        }
    }
}

proof fn lemma_count_docs_bound(docs: Seq<DocumentView>, t: DocType, s: Status, n: nat)
    ensures
        count_docs(docs, t, s, n) <= n,
    decreases n,
{
    if n > 0 && n <= docs.len() {
        lemma_count_docs_bound(docs, t, s, (n - 1) as nat);
    }
}

proof fn lemma_count_tasks_bound(docs: Seq<DocumentView>, exec: Seq<char>, s: Status, n: nat)
    ensures
        count_tasks(docs, exec, s, n) <= n,
    decreases n,
{
    if n > 0 && n <= docs.len() {
        lemma_count_tasks_bound(docs, exec, s, (n - 1) as nat);
    }
}

/// The number of documents of type `doc_type` in status `status`.
pub fn count_by_status(index: &DocumentIndex, doc_type: DocType, status: Status) -> (r: usize)
    ensures
        r == count_docs(index@.documents, doc_type, status, index@.documents.len()),
{
    let docs = index.documents.values();
    let ghost dv = docs_view(docs@);
    let mut c: usize = 0;
    let mut i: usize = 0;
    while i < docs.len()
        invariant
            i <= docs.len(),
            dv == docs_view(docs@),
            dv == index@.documents,
            c == count_docs(dv, doc_type, status, i as nat),
        decreases docs.len() - i,
    {
        assert(dv[i as int] == docs@[i as int]@);
        proof {
            lemma_count_docs_bound(dv, doc_type, status, i as nat);
        }
        if docs[i].doc_type == doc_type && docs[i].status == status {
            c = c + 1;
        }
        i = i + 1;
    }
    c
}

/// The number of Task Specs of the Exec Plan `exec_id` in status `status`.
pub fn task_status_count(index: &DocumentIndex, exec_id: &str, status: Status) -> (r: usize)
    ensures
        r == count_tasks(index@.documents, exec_id@, status, index@.documents.len()),
{
    let docs = index.documents.values();
    let ghost dv = docs_view(docs@);
    let mut c: usize = 0;
    let mut i: usize = 0;
    while i < docs.len()
        invariant
            i <= docs.len(),
            dv == docs_view(docs@),
            dv == index@.documents,
            c == count_tasks(dv, exec_id@, status, i as nat),
        decreases docs.len() - i,
    {
        assert(dv[i as int] == docs@[i as int]@);
        proof {
            lemma_count_tasks_bound(dv, exec_id@, status, i as nat);
        }
        if docs[i].doc_type == DocType::TaskSpec && crate::doc::transition::field_is(
            &docs[i].frontmatter.exec_plan,
            exec_id,
        ) && docs[i].status == status {
            c = c + 1;
        }
        i = i + 1;
    }
    c
}

/// The title shown for a document.
pub open spec fn title_of(d: DocumentView) -> Seq<char> {
    match d.title {
        Some(t) => t,
        None => "untitled"@,
    }
}

pub fn title_for(document: &Document) -> (r: String)
    ensures
        r@ == title_of(document@),
{
    match &document.title {
        Some(t) => t.clone(),
        None => owned("untitled"),
    }
}

/// The label of an association set.
pub open spec fn association_name(kind: AssociationKind) -> Seq<char> {
    match kind {
        AssociationKind::PrdDesignDocs => "design docs"@,
        AssociationKind::DesignDocPatches => "patches"@,
        AssociationKind::DesignDocExecPlans => "exec plans"@,
        AssociationKind::DesignDocTasks => "direct tasks"@,
        AssociationKind::ExecPlanTasks => "tasks"@,
    }
}

pub fn association_label(kind: AssociationKind) -> (r: &'static str)
    ensures
        r@ == association_name(kind),
{
    proof {
        reveal_strlit("design docs");
        reveal_strlit("patches");
        reveal_strlit("exec plans");
        reveal_strlit("direct tasks");
        reveal_strlit("tasks");
    }
    match kind {
        AssociationKind::PrdDesignDocs => "design docs",
        AssociationKind::DesignDocPatches => "patches",
        AssociationKind::DesignDocExecPlans => "exec plans",
        AssociationKind::DesignDocTasks => "direct tasks",
        AssociationKind::ExecPlanTasks => "tasks",
    }
}

/// The dashboard line of a design document.
pub open spec fn design_line(on: bool, d: DocumentView) -> Seq<char> {
    "    "@ + painted(on, "1"@, id_string(d.id)) + "  "@ + title_of(d) + "  "@ + painted_status(
        on,
        d.status,
    ) + "\n"@
}

/// The concatenation of `line(on, ds[i])` over the first `n` documents.
pub open spec fn lines_of(on: bool, ds: Seq<DocumentView>, line: spec_fn(bool, DocumentView) -> Seq<char>, n: nat) -> Seq<
    char,
>
    decreases n,
{
    if n == 0 || n > ds.len() {
        Seq::empty()
    } else {
        lines_of(on, ds, line, (n - 1) as nat) + line(on, ds[n - 1])
    }
}

/// The listed documents as lines, or `none`.
pub open spec fn block_of(on: bool, ds: Seq<DocumentView>, line: spec_fn(bool, DocumentView) -> Seq<char>) -> Seq<char> {
    if ds.len() == 0 {
        "    none\n"@
    } else {
        lines_of(on, ds, line, ds.len())
    }
}

/// The design documents (and patches) of one status.
pub open spec fn design_bucket(on: bool, idx: IndexView, s: Status) -> Seq<char> {
    "  "@ + painted_status(on, s) + "\n"@ + block_of(
        on,
        listed(idx.documents, seq![DocType::DesignDoc, DocType::DesignPatch], s),
        |o: bool, d: DocumentView| design_line(o, d),
    )
}

/// The dashboard line of a candidate Exec Plan.
pub open spec fn exec_line(on: bool, docs: Seq<DocumentView>, e: DocumentView) -> Seq<char> {
    let id = id_string(e.id);
    let dd = e.frontmatter.design_docs;
    "    "@ + painted(on, "1"@, id) + "  "@ + title_of(e) + "  design-docs: "@ + (if dd.len() == 0 {
        "none"@
    } else {
        join(dd, ", "@)
    }) + "  tasks: draft="@ + decimal(count_tasks(docs, id, Status::Draft, docs.len()))
        + " candidate="@ + decimal(count_tasks(docs, id, Status::Candidate, docs.len()))
        + " closed="@ + decimal(count_tasks(docs, id, Status::Closed, docs.len())) + "\n"@
}

/// The dashboard line of a candidate Task Spec.
pub open spec fn task_line(on: bool, t: DocumentView) -> Seq<char> {
    "    "@ + painted(on, "1"@, id_string(t.id)) + "  "@ + title_of(t) + "\n"@
}

/// The candidate Exec Plans with their task counts.
pub open spec fn exec_plans_part(on: bool, idx: IndexView) -> Seq<char> {
    let docs = idx.documents;
    "  "@ + painted_status(on, Status::Candidate) + " exec plans\n"@ + block_of(
        on,
        listed(docs, seq![DocType::ExecPlan], Status::Candidate),
        |o: bool, e: DocumentView| exec_line(o, docs, e),
    )
}

/// The candidate Task Specs.
pub open spec fn task_specs_part(on: bool, idx: IndexView) -> Seq<char> {
    "  "@ + painted_status(on, Status::Candidate) + " task specs\n"@ + block_of(
        on,
        listed(idx.documents, seq![DocType::TaskSpec], Status::Candidate),
        |o: bool, t: DocumentView| task_line(o, t),
    )
}

/// The execution overview: candidate Exec Plans with their task counts, then candidate Task Specs.
pub open spec fn exec_overview(on: bool, idx: IndexView) -> Seq<char> {
    exec_plans_part(on, idx) + task_specs_part(on, idx)
}

/// `status=count` for each status, separated by spaces.
pub open spec fn totals_cells(on: bool, docs: Seq<DocumentView>, t: DocType, ss: Seq<Status>) -> Seq<Seq<char>> {
    Seq::new(
        ss.len(),
        |i: int| painted_status(on, ss[i]) + "="@ + decimal(count_docs(docs, t, ss[i], docs.len())),
    )
}

/// The status totals of one document type.
pub open spec fn totals_line(on: bool, idx: IndexView, t: DocType, ss: Seq<Status>) -> Seq<char> {
    "  "@ + doc_type_name(t) + "  "@ + join(totals_cells(on, idx.documents, t, ss), " "@) + "\n"@
}

/// The line of a document in the full listing.
pub open spec fn listing_line(on: bool, d: DocumentView) -> Seq<char> {
    "  "@ + painted(on, "1"@, id_string(d.id)) + "  "@ + doc_type_name(d.doc_type) + "  "@
        + painted_status(on, d.status) + "\n"@
}

/// The health section of the dashboard.
pub open spec fn health_section(idx: IndexView, violations: nat, on: bool) -> Seq<char> {
    painted(on, "1"@, "Repository Health"@) + "\n"@ + "  valid managed documents: "@ + decimal(
        idx.documents.len(),
    ) + "\n"@ + "  invalid managed entries: "@ + decimal(idx.invalid_entries.len()) + "\n"@
        + "  repository validation violations: "@ + decimal(violations) + "\n"@
}

/// The design section of the dashboard.
pub open spec fn design_section(idx: IndexView, on: bool) -> Seq<char> {
    "\n"@ + painted(on, "1"@, "Design Overview"@) + "\n"@ + design_bucket(on, idx, Status::Draft)
        + design_bucket(on, idx, Status::Candidate) + design_bucket(on, idx, Status::Implemented)
}

/// The execution section of the dashboard.
pub open spec fn exec_section(idx: IndexView, on: bool) -> Seq<char> {
    "\n"@ + painted(on, "1"@, "Execution Overview"@) + "\n"@ + exec_overview(on, idx)
}

/// The totals section of the dashboard.
pub open spec fn totals_section(idx: IndexView, on: bool) -> Seq<char> {
    "\n"@ + painted(on, "1"@, "Status Totals"@) + "\n"@ + totals_line(
        on,
        idx,
        DocType::Prd,
        seq![Status::Draft, Status::Approved, Status::Obsolete],
    ) + totals_line(
        on,
        idx,
        DocType::DesignDoc,
        seq![Status::Draft, Status::Candidate, Status::Implemented, Status::Obsolete],
    ) + totals_line(
        on,
        idx,
        DocType::DesignPatch,
        seq![
            Status::Draft,
            Status::Candidate,
            Status::Implemented,
            Status::Obsolete,
            Status::ObsoleteMerged,
        ],
    ) + totals_line(on, idx, DocType::ExecPlan, seq![Status::Draft, Status::Candidate, Status::Closed])
        + totals_line(on, idx, DocType::TaskSpec, seq![Status::Draft, Status::Candidate, Status::Closed])
}

/// The full listing of the dashboard, shown on request.
pub open spec fn listing_section(idx: IndexView, show_all: bool, on: bool) -> Seq<char> {
    if show_all {
        "\n"@ + painted(on, "1"@, "All Documents"@) + "\n"@ + lines_of(
            on,
            sorted_by_id(idx.documents, idx.documents.len()),
            |o: bool, d: DocumentView| listing_line(o, d),
            idx.documents.len(),
        )
    } else {
        Seq::empty()
    }
}

/// The repository dashboard.
pub open spec fn dashboard(idx: IndexView, violations: nat, show_all: bool, on: bool) -> Seq<char> {
    health_section(idx, violations, on) + design_section(idx, on) + exec_section(idx, on)
        + totals_section(idx, on) + listing_section(idx, show_all, on)
}

fn push_str(out: &mut String, piece: String)
    ensures
        final(out)@ == old(out)@ + piece@,
{
    append(out, piece.as_str());
}

fn push_design_bucket(out: &mut String, index: &DocumentIndex, status: Status, palette: Palette)
    ensures
        final(out)@ == old(out)@ + design_bucket(palette@, index@, status),
{
    let ghost start = out@;
    let ghost on = palette@;
    append(out, "  ");
    push_str(out, palette.status(status));
    append(out, "\n");
    let mut types: Vec<DocType> = Vec::new();
    types.push(DocType::DesignDoc);
    types.push(DocType::DesignPatch);
    assert(types@ =~= seq![DocType::DesignDoc, DocType::DesignPatch]);
    let documents = documents_by_types_and_status(index, &types, status);
    let ghost ds = docs_view(deref_all(documents@));
    let ghost line = |o: bool, d: DocumentView| design_line(o, d);
    if documents.len() == 0 {
        append(out, "    none\n");
    } else {
        let ghost head = out@;
        let mut i: usize = 0;
        assert(head =~= head + lines_of(on, ds, line, 0));
        while i < documents.len()
            invariant
                i <= documents.len(),
                on == palette@,
                ds == docs_view(deref_all(documents@)),
                line == (|o: bool, d: DocumentView| design_line(o, d)),
                out@ == head + lines_of(on, ds, line, i as nat),
            decreases documents.len() - i,
        {
            let d = documents[i];
            assert(ds[i as int] == d@);
            append(out, "    ");
            push_str(out, palette.doc_id(d.id.as_string().as_str()));
            append(out, "  ");
            push_str(out, title_for(d));
            append(out, "  ");
            push_str(out, palette.status(d.status));
            append(out, "\n");
            i = i + 1;
            assert(out@ =~= head + lines_of(on, ds, line, i as nat));
        }
    }
    assert(out@ =~= start + design_bucket(palette@, index@, status));
}

fn push_exec_plans(out: &mut String, index: &DocumentIndex, palette: Palette)
    ensures
        final(out)@ == old(out)@ + exec_plans_part(palette@, index@),
{
    let ghost start = out@;
    let ghost on = palette@;
    let ghost docs = index@.documents;
    append(out, "  ");
    push_str(out, palette.status(Status::Candidate));
    append(out, " exec plans\n");
    let execs = documents_by_type_and_status(index, DocType::ExecPlan, Status::Candidate);
    let ghost es = docs_view(deref_all(execs@));
    let ghost eline = |o: bool, e: DocumentView| exec_line(o, docs, e);
    let ghost mid0 = out@;
    if execs.len() == 0 {
        append(out, "    none\n");
    } else {
        let ghost head = out@;
        let mut i: usize = 0;
        assert(head =~= head + lines_of(on, es, eline, 0));
        while i < execs.len()
            invariant
                i <= execs.len(),
                on == palette@,
                docs == index@.documents,
                es == docs_view(deref_all(execs@)),
                eline == (|o: bool, e: DocumentView| exec_line(o, docs, e)),
                out@ == head + lines_of(on, es, eline, i as nat),
            decreases execs.len() - i,
        {
            let e = execs[i];
            assert(es[i as int] == e@);
            push_exec_line(out, index, e, palette);
            i = i + 1;
            assert(out@ =~= head + lines_of(on, es, eline, i as nat));
        }
    }
    assert(out@ =~= start + exec_plans_part(palette@, index@));
}

fn push_task_specs(out: &mut String, index: &DocumentIndex, palette: Palette)
    ensures
        final(out)@ == old(out)@ + task_specs_part(palette@, index@),
{
    let ghost start = out@;
    let ghost on = palette@;
    append(out, "  ");
    push_str(out, palette.status(Status::Candidate));
    append(out, " task specs\n");
    let tasks = documents_by_type_and_status(index, DocType::TaskSpec, Status::Candidate);
    let ghost ts = docs_view(deref_all(tasks@));
    let ghost tline = |o: bool, t: DocumentView| task_line(o, t);
    if tasks.len() == 0 {
        append(out, "    none\n");
    } else {
        let ghost head = out@;
        let mut i: usize = 0;
        assert(head =~= head + lines_of(on, ts, tline, 0));
        while i < tasks.len()
            invariant
                i <= tasks.len(),
                on == palette@,
                ts == docs_view(deref_all(tasks@)),
                tline == (|o: bool, t: DocumentView| task_line(o, t)),
                out@ == head + lines_of(on, ts, tline, i as nat),
            decreases tasks.len() - i,
        {
            let t = tasks[i];
            assert(ts[i as int] == t@);
            append(out, "    ");
            push_str(out, palette.doc_id(t.id.as_string().as_str()));
            append(out, "  ");
            push_str(out, title_for(t));
            append(out, "\n");
            i = i + 1;
            assert(out@ =~= head + lines_of(on, ts, tline, i as nat));
        }
    }
    assert(out@ =~= start + task_specs_part(palette@, index@));
}

fn push_exec_overview(out: &mut String, index: &DocumentIndex, palette: Palette)
    ensures
        final(out)@ == old(out)@ + exec_overview(palette@, index@),
{
    let ghost start = out@;
    push_exec_plans(out, index, palette);
    push_task_specs(out, index, palette);
    assert(out@ =~= start + exec_overview(palette@, index@));
}

fn push_totals(out: &mut String, index: &DocumentIndex, doc_type: DocType, statuses: &Vec<Status>, palette: Palette)
    ensures
        final(out)@ == old(out)@ + totals_line(palette@, index@, doc_type, statuses@),
{
    let ghost start = out@;
    let mut cells: Vec<String> = Vec::new();
    let mut i: usize = 0;
    while i < statuses.len()
        invariant
            i <= statuses.len(),
            pieces_view(cells@) == totals_cells(palette@, index@.documents, doc_type, statuses@).take(i as int),
        decreases statuses.len() - i,
    {
        let mut cell = palette.status(statuses[i]);
        append(&mut cell, "=");
        push_str(&mut cell, decimal_string(count_by_status(index, doc_type, statuses[i]) as u64));
        let ghost before = pieces_view(cells@);
        cells.push(cell);
        assert(pieces_view(cells@) =~= before.push(cells@[i as int]@));
        i = i + 1;
        assert(pieces_view(cells@) =~= totals_cells(palette@, index@.documents, doc_type, statuses@).take(i as int));
    }
    assert(totals_cells(palette@, index@.documents, doc_type, statuses@).take(i as int) =~= totals_cells(palette@, index@.documents, doc_type, statuses@));
    append(out, "  ");
    append(out, doc_type.as_str());
    append(out, "  ");
    push_str(out, join_strings(&cells, " "));
    append(out, "\n");
}

fn statuses_of(a: Status, b: Status, c: Status) -> (r: Vec<Status>)
    ensures
        r@ == seq![a, b, c],
{
    let mut r: Vec<Status> = Vec::new();
    r.push(a);
    r.push(b);
    r.push(c);
    assert(r@ =~= seq![a, b, c]);
    r
}

fn push_exec_line(out: &mut String, index: &DocumentIndex, e: &Document, palette: Palette)
    ensures
        final(out)@ == old(out)@ + exec_line(palette@, index@.documents, e@),
{
    let ghost start = out@;
    let id = e.id.as_string();
    append(out, "    ");
    push_str(out, palette.doc_id(id.as_str()));
    append(out, "  ");
    push_str(out, title_for(e));
    append(out, "  design-docs: ");
    let ghost mid = out@;
    if e.frontmatter.design_docs.len() == 0 {
        append(out, "none");
    } else {
        let joined = join_strings(&e.frontmatter.design_docs, ", ");
        assert(pieces_view(e.frontmatter.design_docs@) =~= e@.frontmatter.design_docs);
        push_str(out, joined);
    }
    let ghost mid2 = out@;
    append(out, "  tasks: draft=");
    push_str(out, decimal_string(task_status_count(index, id.as_str(), Status::Draft) as u64));
    append(out, " candidate=");
    push_str(out, decimal_string(task_status_count(index, id.as_str(), Status::Candidate) as u64));
    append(out, " closed=");
    push_str(out, decimal_string(task_status_count(index, id.as_str(), Status::Closed) as u64));
    append(out, "\n");
    assert(out@ =~= start + exec_line(palette@, index@.documents, e@));
}

fn push_listing_line(out: &mut String, d: &Document, palette: Palette)
    ensures
        final(out)@ == old(out)@ + listing_line(palette@, d@),
{
    let ghost start = out@;
    append(out, "  ");
    push_str(out, palette.doc_id(d.id.as_string().as_str()));
    append(out, "  ");
    append(out, d.doc_type.as_str());
    append(out, "  ");
    push_str(out, palette.status(d.status));
    append(out, "\n");
    assert(out@ =~= start + listing_line(palette@, d@));
}

fn push_health(out: &mut String, index: &DocumentIndex, violations: usize, palette: Palette)
    ensures
        final(out)@ == old(out)@ + health_section(index@, violations as nat, palette@),
{
    let ghost start = out@;
    push_str(out, palette.header("Repository Health"));
    append(out, "\n");
    append(out, "  valid managed documents: ");
    push_str(out, decimal_string(index.documents.len() as u64));
    append(out, "\n");
    append(out, "  invalid managed entries: ");
    push_str(out, decimal_string(index.invalid_entries.len() as u64));
    append(out, "\n");
    append(out, "  repository validation violations: ");
    push_str(out, decimal_string(violations as u64));
    append(out, "\n");
    assert(out@ =~= start + health_section(index@, violations as nat, palette@));
}

fn push_design_section(out: &mut String, index: &DocumentIndex, palette: Palette)
    ensures
        final(out)@ == old(out)@ + design_section(index@, palette@),
{
    let ghost start = out@;
    append(out, "\n");
    push_str(out, palette.header("Design Overview"));
    append(out, "\n");
    push_design_bucket(out, index, Status::Draft, palette);
    push_design_bucket(out, index, Status::Candidate, palette);
    push_design_bucket(out, index, Status::Implemented, palette);
    assert(out@ =~= start + design_section(index@, palette@));
}

fn push_exec_section(out: &mut String, index: &DocumentIndex, palette: Palette)
    ensures
        final(out)@ == old(out)@ + exec_section(index@, palette@),
{
    let ghost start = out@;
    append(out, "\n");
    push_str(out, palette.header("Execution Overview"));
    append(out, "\n");
    push_exec_overview(out, index, palette);
    assert(out@ =~= start + exec_section(index@, palette@));
}

fn push_totals_section(out: &mut String, index: &DocumentIndex, palette: Palette)
    ensures
        final(out)@ == old(out)@ + totals_section(index@, palette@),
{
    let ghost start = out@;
    append(out, "\n");
    push_str(out, palette.header("Status Totals"));
    append(out, "\n");
    push_totals(out, index, DocType::Prd, &statuses_of(Status::Draft, Status::Approved, Status::Obsolete), palette);
    let mut design: Vec<Status> = Vec::new();
    design.push(Status::Draft);
    design.push(Status::Candidate);
    design.push(Status::Implemented);
    design.push(Status::Obsolete);
    assert(design@ =~= seq![Status::Draft, Status::Candidate, Status::Implemented, Status::Obsolete]);
    push_totals(out, index, DocType::DesignDoc, &design, palette);
    let mut patch: Vec<Status> = Vec::new();
    patch.push(Status::Draft);
    patch.push(Status::Candidate);
    patch.push(Status::Implemented);
    patch.push(Status::Obsolete);
    patch.push(Status::ObsoleteMerged);
    assert(patch@ =~= seq![
        Status::Draft,
        Status::Candidate,
        Status::Implemented,
        Status::Obsolete,
        Status::ObsoleteMerged,
    ]);
    push_totals(out, index, DocType::DesignPatch, &patch, palette);
    push_totals(out, index, DocType::ExecPlan, &statuses_of(Status::Draft, Status::Candidate, Status::Closed), palette);
    push_totals(out, index, DocType::TaskSpec, &statuses_of(Status::Draft, Status::Candidate, Status::Closed), palette);
    assert(out@ =~= start + totals_section(index@, palette@));
}

fn push_listing_section(out: &mut String, index: &DocumentIndex, show_all: bool, palette: Palette)
    ensures
        final(out)@ == old(out)@ + listing_section(index@, show_all, palette@),
{
    let ghost start = out@;
    if show_all {
        append(out, "\n");
        push_str(out, palette.header("All Documents"));
        append(out, "\n");
        let documents = all_documents(index);
        let ghost ds = docs_view(deref_all(documents@));
        let ghost line = |o: bool, d: DocumentView| listing_line(o, d);
        let ghost head = out@;
        let mut i: usize = 0;
        assert(head =~= head + lines_of(palette@, ds, line, 0));
        while i < documents.len()
            invariant
                i <= documents.len(),
                ds == docs_view(deref_all(documents@)),
                line == (|o: bool, d: DocumentView| listing_line(o, d)),
                out@ == head + lines_of(palette@, ds, line, i as nat),
            decreases documents.len() - i,
        {
            let d = documents[i];
            assert(ds[i as int] == d@);
            push_listing_line(out, d, palette);
            i = i + 1;
            assert(out@ =~= head + lines_of(palette@, ds, line, i as nat));
        }
        proof {
            lemma_sorted_len(index@.documents, index@.documents.len());
        }
        assert(out@ =~= start + listing_section(index@, show_all, palette@));
    } else {
        assert(out@ =~= start + listing_section(index@, show_all, palette@));
    }
}

/// Renders the repository dashboard.
pub fn render_dashboard(index: &DocumentIndex, violations: &Vec<ValidationViolation>, show_all: bool, palette: Palette) -> (r:
    String)
    ensures
        r@ == dashboard(index@, violations@.len(), show_all, palette@),
{
    let mut out = String::new();
    push_health(&mut out, index, violations.len(), palette);
    push_design_section(&mut out, index, palette);
    push_exec_section(&mut out, index, palette);
    push_totals_section(&mut out, index, palette);
    push_listing_section(&mut out, index, show_all, palette);
    assert(out@ =~= dashboard(index@, violations@.len(), show_all, palette@));
    out
}

proof fn lemma_insert_len(sorted: Seq<DocumentView>, d: DocumentView)
    ensures
        insert_by_id(sorted, d).len() == sorted.len() + 1,
    decreases sorted.len(),
{
    if sorted.len() > 0 && !seq_lt(id_string(d.id), id_string(sorted[0].id)) {
        lemma_insert_len(sorted.drop_first(), d);
    }
}

proof fn lemma_sorted_len(docs: Seq<DocumentView>, n: nat)
    requires
        n <= docs.len(),
    ensures
        sorted_by_id(docs, n).len() == n,
    decreases n,
{
    if n > 0 {
        lemma_sorted_len(docs, (n - 1) as nat);
        lemma_insert_len(sorted_by_id(docs, (n - 1) as nat), docs[n - 1]);
    }
}

/// The identity lines of the overview of one document.
pub open spec fn overview_head(d: DocumentView, on: bool) -> Seq<char> {
    painted(on, "1"@, "Overview"@) + "\n"@ + "  id: "@ + painted(on, "1"@, id_string(d.id)) + "\n"@
        + "  title: "@ + (match d.title {
        Some(t) => t,
        None => "none"@,
    }) + "\n"@ + "  type: "@ + doc_type_name(d.doc_type) + "\n"@ + "  status: "@ + painted_status(
        on,
        d.status,
    ) + "\n"@
}

/// The placement lines of the overview of one document.
pub open spec fn overview_tail(idx: IndexView, d: DocumentView) -> Seq<char> {
    "  path: "@ + relative_to(idx.repo_root, d.path) + "\n"@ + "  lifecycle state: "@ + (if terminal(
        d.doc_type,
        d.status,
    ) {
        "terminal"@
    } else if live(d.doc_type, d.status) {
        "live"@
    } else {
        "none"@
    }) + "\n"@ + match expected_dir(d.doc_type, d.status) {
        Some(dir) => "  expected directory: "@ + dir + "\n"@,
        None => Seq::empty(),
    }
}

/// The overview of one document.
pub open spec fn overview_part(idx: IndexView, d: DocumentView, on: bool) -> Seq<char> {
    overview_head(d, on) + overview_tail(idx, d)
}

/// One upstream reference row, when the field is set.
pub open spec fn ref_row(label: Seq<char>, value: Option<Seq<char>>) -> Seq<char> {
    match value {
        Some(v) => "  "@ + label + ": "@ + v + "\n"@,
        None => Seq::empty(),
    }
}

/// The upstream reference rows of a document.
pub open spec fn ref_rows(d: DocumentView) -> Seq<char> {
    let fm = d.frontmatter;
    ref_row("prd"@, fm.prd) + ref_row("parent"@, fm.parent) + ref_row("merged-into"@, fm.merged_into)
        + ref_row("superseded-by"@, fm.superseded_by) + (if fm.design_docs.len() > 0 {
        "  design-docs: "@ + join(fm.design_docs, ", "@) + "\n"@
    } else {
        Seq::empty()
    }) + ref_row("exec-plan"@, fm.exec_plan)
}

/// Whether a document has any upstream reference.
pub open spec fn has_refs(d: DocumentView) -> bool {
    let fm = d.frontmatter;
    fm.prd is Some || fm.parent is Some || fm.merged_into is Some || fm.superseded_by is Some
        || fm.design_docs.len() > 0 || fm.exec_plan is Some
}

/// The upstream references of one document.
pub open spec fn refs_part(d: DocumentView, on: bool) -> Seq<char> {
    "\n"@ + painted(on, "1"@, "Upstream References"@) + "\n"@ + if has_refs(d) {
        ref_rows(d)
    } else {
        "  none\n"@
    }
}

/// `id (status)` of each related document.
pub open spec fn related_items(rs: Seq<AssociatedView>) -> Seq<Seq<char>> {
    Seq::new(rs.len(), |i: int| id_string(rs[i].id) + " ("@ + status_name(rs[i].status) + ")"@)
}

/// The lines of the non-empty association sets among the first `n`.
pub open spec fn assoc_lines(ss: Seq<SummaryView>, n: nat) -> Seq<char>
    decreases n,
{
    if n == 0 || n > ss.len() {
        Seq::empty()
    } else {
        assoc_lines(ss, (n - 1) as nat) + if ss[n - 1].related.len() == 0 {
            Seq::empty()
        } else {
            "  "@ + association_name(ss[n - 1].kind) + ": "@ + join(
                related_items(ss[n - 1].related),
                ", "@,
            ) + "\n"@
        }
    }
}

/// The downstream associations of one document.
pub open spec fn assoc_part(idx: IndexView, d: DocumentView, on: bool) -> Seq<char> {
    let ss = summaries_of(idx, d);
    "\n"@ + painted(on, "1"@, "Downstream Associations"@) + "\n"@ + if forall|i: int|
        0 <= i < ss.len() ==> #[trigger] ss[i].related.len() == 0 {
        "  none\n"@
    } else {
        assoc_lines(ss, ss.len())
    }
}

/// Whether a repository violation concerns the document.
pub open spec fn concerns(root: Seq<char>, v: ViolationView, d: DocumentView) -> bool {
    v.path == d.path || contains_seq(v.message, id_string(d.id)) || relative_to(root, v.path)
        == relative_to(root, d.path)
}

/// The warning lines among the first `n` violations that concern the document.
pub open spec fn warning_lines(root: Seq<char>, vs: Seq<ViolationView>, d: DocumentView, n: nat) -> Seq<char>
    decreases n,
{
    if n == 0 || n > vs.len() {
        Seq::empty()
    } else {
        warning_lines(root, vs, d, (n - 1) as nat) + if concerns(root, vs[n - 1], d) {
            "  "@ + relative_to(root, vs[n - 1].path) + ": "@ + vs[n - 1].message + "\n"@
        } else {
            Seq::empty()
        }
    }
}

/// The repository warnings related to one document.
pub open spec fn warnings_part(idx: IndexView, vs: Seq<ViolationView>, d: DocumentView, on: bool) -> Seq<char> {
    "\n"@ + painted(on, "1"@, "Related Repository Warnings"@) + "\n"@ + if exists|i: int|
        0 <= i < vs.len() && concerns(idx.repo_root, #[trigger] vs[i], d) {
        warning_lines(idx.repo_root, vs, d, vs.len())
    } else {
        "  none\n"@
    }
}

/// The detail view of the document `doc_id`, or why it cannot be shown.
pub open spec fn detail(idx: IndexView, vs: Seq<ViolationView>, doc_id: Seq<char>, on: bool) -> Result<
    Seq<char>,
    FailureView,
> {
    match doc_by_id(idx.documents, doc_id, 0) {
        None => Err(
            failure(
                Some(idx.repo_root),
                "managed document "@ + doc_id + " does not exist"@,
                "Use a canonical managed document id such as design-auth-system or exec-auth-add-oauth/task-01."@,
            ),
        ),
        Some(d) => if d.doc_type == DocType::Guideline {
            Err(
                failure(
                    Some(d.path),
                    "guideline lookup target "@ + doc_id + " is not supported"@,
                    "Choose a lifecycle-managed document id."@,
                ),
            )
        } else {
            Ok(
                overview_part(idx, d, on) + refs_part(d, on) + assoc_part(idx, d, on) + warnings_part(
                    idx,
                    vs,
                    d,
                    on,
                ),
            )
        },
    }
}

#[verifier::rlimit(60)]
fn push_overview_head(out: &mut String, d: &Document, palette: Palette)
    ensures
        final(out)@ == old(out)@ + overview_head(d@, palette@),
{
    let ghost start = out@;
    push_str(out, palette.header("Overview"));
    append(out, "\n");
    append(out, "  id: ");
    push_str(out, palette.doc_id(d.id.as_string().as_str()));
    append(out, "\n");
    append(out, "  title: ");
    match &d.title {
        Some(t) => append(out, t.as_str()),
        None => append(out, "none"),
    }
    append(out, "\n");
    append(out, "  type: ");
    append(out, d.doc_type.as_str());
    append(out, "\n");
    append(out, "  status: ");
    push_str(out, palette.status(d.status));
    append(out, "\n");
    assert(out@ =~= start + overview_head(d@, palette@));
}

fn push_overview_tail(out: &mut String, index: &DocumentIndex, d: &Document)
    ensures
        final(out)@ == old(out)@ + overview_tail(index@, d@),
{
    let ghost start = out@;
    append(out, "  path: ");
    push_str(out, make_relative(index, d.path.as_str()));
    append(out, "\n");
    append(out, "  lifecycle state: ");
    if is_terminal_status(d.doc_type, d.status) {
        append(out, "terminal");
    } else if is_live_status(d.doc_type, d.status) {
        append(out, "live");
    } else {
        append(out, "none");
    }
    append(out, "\n");
    let ghost mid = out@;
    match expected_directory(d.doc_type, d.status) {
        Some(dir) => {
            append(out, "  expected directory: ");
            append(out, dir);
            append(out, "\n");
        },
        None => {},
    }
    assert(out@ =~= start + overview_tail(index@, d@));
}

fn push_overview(out: &mut String, index: &DocumentIndex, d: &Document, palette: Palette)
    ensures
        final(out)@ == old(out)@ + overview_part(index@, d@, palette@),
{
    let ghost start = out@;
    push_overview_head(out, d, palette);
    push_overview_tail(out, index, d);
    assert(out@ =~= start + overview_part(index@, d@, palette@));
}

fn push_ref_row(out: &mut String, label: &str, value: &Option<String>)
    ensures
        final(out)@ == old(out)@ + ref_row(label@, value.deep_view()),
{
    let ghost start = out@;
    match value {
        Some(v) => {
            append(out, "  ");
            append(out, label);
            append(out, ": ");
            append(out, v.as_str());
            append(out, "\n");
        },
        None => {},
    }
    assert(out@ =~= start + ref_row(label@, value.deep_view()));
}

#[verifier::rlimit(60)]
fn push_ref_rows(out: &mut String, d: &Document)
    ensures
        final(out)@ == old(out)@ + ref_rows(d@),
{
    let ghost start = out@;
    let fm = &d.frontmatter;
    push_ref_row(out, "prd", &fm.prd);
    push_ref_row(out, "parent", &fm.parent);
    push_ref_row(out, "merged-into", &fm.merged_into);
    push_ref_row(out, "superseded-by", &fm.superseded_by);
    let ghost mid = out@;
    if fm.design_docs.len() > 0 {
        append(out, "  design-docs: ");
        push_str(out, join_strings(&fm.design_docs, ", "));
        assert(pieces_view(fm.design_docs@) =~= d@.frontmatter.design_docs);
        append(out, "\n");
    }
    let ghost mid2 = out@;
    push_ref_row(out, "exec-plan", &fm.exec_plan);
    assert(out@ =~= start + ref_rows(d@));
}

fn push_refs(out: &mut String, d: &Document, palette: Palette)
    ensures
        final(out)@ == old(out)@ + refs_part(d@, palette@),
{
    let ghost start = out@;
    append(out, "\n");
    push_str(out, palette.header("Upstream References"));
    append(out, "\n");
    let fm = &d.frontmatter;
    if fm.prd.is_some() || fm.parent.is_some() || fm.merged_into.is_some() || fm.superseded_by.is_some()
        || fm.design_docs.len() > 0 || fm.exec_plan.is_some() {
        push_ref_rows(out, d);
    } else {
        append(out, "  none\n");
    }
    assert(out@ =~= start + refs_part(d@, palette@));
}

fn push_summary_line(out: &mut String, summary: &AssociationSummary)
    ensures
        final(out)@ == old(out)@ + if summary@.related.len() == 0 {
            Seq::empty()
        } else {
            "  "@ + association_name(summary@.kind) + ": "@ + join(related_items(summary@.related), ", "@) + "\n"@
        },
{
    let ghost start = out@;
    if summary.related.len() == 0 {
        assert(out@ =~= start + Seq::<char>::empty());
        return;
    }
    let mut items: Vec<String> = Vec::new();
    let mut i: usize = 0;
    while i < summary.related.len()
        invariant
            i <= summary.related.len(),
            pieces_view(items@) == related_items(summary@.related).take(i as int),
        decreases summary.related.len() - i,
    {
        let r = &summary.related[i];
        assert(summary@.related[i as int] == r@);
        let mut item = r.id.as_string();
        append(&mut item, " (");
        append(&mut item, r.status.as_str());
        append(&mut item, ")");
        let ghost before = pieces_view(items@);
        items.push(item);
        assert(pieces_view(items@) =~= before.push(items@[i as int]@));
        i = i + 1;
        assert(pieces_view(items@) =~= related_items(summary@.related).take(i as int));
    }
    assert(related_items(summary@.related).take(i as int) =~= related_items(summary@.related));
    append(out, "  ");
    append(out, association_label(summary.kind));
    append(out, ": ");
    push_str(out, join_strings(&items, ", "));
    append(out, "\n");
}

fn push_associations(out: &mut String, index: &DocumentIndex, d: &Document, palette: Palette)
    ensures
        final(out)@ == old(out)@ + assoc_part(index@, d@, palette@),
{
    let ghost start = out@;
    append(out, "\n");
    push_str(out, palette.header("Downstream Associations"));
    append(out, "\n");
    let summaries = association_summaries(index, d);
    let ghost ss = summaries@.map_values(|s: AssociationSummary| s@);
    let mut any = false;
    let mut k: usize = 0;
    while k < summaries.len()
        invariant
            k <= summaries.len(),
            ss == summaries@.map_values(|s: AssociationSummary| s@),
            any == exists|j: int| 0 <= j < k && #[trigger] ss[j].related.len() != 0,
        decreases summaries.len() - k,
    {
        assert(ss[k as int] == summaries@[k as int]@);
        assert(ss[k as int].related.len() == summaries@[k as int].related@.len());
        if summaries[k].related.len() != 0 {
            any = true;
        }
        k = k + 1;
    }
    if !any {
        append(out, "  none\n");
    } else {
        let ghost head = out@;
        let mut i: usize = 0;
        assert(head =~= head + assoc_lines(ss, 0));
        while i < summaries.len()
            invariant
                i <= summaries.len(),
                ss == summaries@.map_values(|s: AssociationSummary| s@),
                out@ == head + assoc_lines(ss, i as nat),
            decreases summaries.len() - i,
        {
            assert(ss[i as int] == summaries@[i as int]@);
            push_summary_line(out, &summaries[i]);
            i = i + 1;
            assert(out@ =~= head + assoc_lines(ss, i as nat));
        }
    }
    assert(out@ =~= start + assoc_part(index@, d@, palette@));
}

fn push_warnings(out: &mut String, index: &DocumentIndex, violations: &Vec<ValidationViolation>, d: &Document, palette: Palette)
    ensures
        final(out)@ == old(out)@ + warnings_part(index@, violations_view(violations@), d@, palette@),
{
    let ghost start = out@;
    let ghost vs = violations_view(violations@);
    let ghost root = index@.repo_root;
    append(out, "\n");
    push_str(out, palette.header("Related Repository Warnings"));
    append(out, "\n");
    let id = d.id.as_string();
    let own = make_relative(index, d.path.as_str());
    let mut lines = String::new();
    let mut any = false;
    let mut i: usize = 0;
    assert(lines@ =~= warning_lines(root, vs, d@, 0));
    while i < violations.len()
        invariant
            i <= violations.len(),
            vs == violations_view(violations@),
            root == index@.repo_root,
            id@ == id_string(d@.id),
            own@ == relative_to(root, d@.path),
            lines@ == warning_lines(root, vs, d@, i as nat),
            any == exists|j: int| 0 <= j < i && concerns(root, #[trigger] vs[j], d@),
        decreases violations.len() - i,
    {
        let v = &violations[i];
        assert(vs[i as int] == v@);
        let path = make_relative(index, v.path.as_str());
        if str_eq(v.path.as_str(), d.path.as_str()) || contains_str(v.message.as_str(), id.as_str())
            || str_eq(path.as_str(), own.as_str()) {
            append(&mut lines, "  ");
            append(&mut lines, path.as_str());
            append(&mut lines, ": ");
            append(&mut lines, v.message.as_str());
            append(&mut lines, "\n");
            any = true;
        }
        i = i + 1;
        assert(lines@ =~= warning_lines(root, vs, d@, i as nat));
    }
    if any {
        push_str(out, lines);
    } else {
        append(out, "  none\n");
    }
    assert(out@ =~= start + warnings_part(index@, vs, d@, palette@));
}

/// Renders the detail view of one document.
pub fn render_detail(index: &DocumentIndex, violations: &Vec<ValidationViolation>, doc_id: &str, palette: Palette) -> (r:
    Result<String, CommandFailure>)
    ensures
        match r {
            Ok(text) => detail(index@, violations_view(violations@), doc_id@, palette@) == Ok::<
                Seq<char>,
                FailureView,
            >(text@),
            Err(f) => detail(index@, violations_view(violations@), doc_id@, palette@) == Err::<
                Seq<char>,
                FailureView,
            >(f@),
        },
{
    let docs = index.documents.values();
    let ghost dv = docs_view(docs@);
    let mut found: Option<&Document> = None;
    let mut i: usize = 0;
    while i < docs.len() && found.is_none()
        invariant
            i <= docs.len(),
            dv == docs_view(docs@),
            dv == index@.documents,
            found is None ==> doc_by_id(dv, doc_id@, 0) == doc_by_id(dv, doc_id@, i as int),
            found matches Some(d) ==> doc_by_id(dv, doc_id@, 0) == Some(d@),
        decreases docs.len() - i,
    {
        assert(dv[i as int] == docs@[i as int]@);
        let id = docs[i].id.as_string();
        if str_eq(id.as_str(), doc_id) {
            found = Some(&docs[i]);
        }
        i = i + 1;
    }
    let d = match found {
        Some(d) => d,
        None => {
            return Err(
                CommandFailure {
                    path: Some(index.repo_root.clone()),
                    message: concat3("managed document ", doc_id, " does not exist"),
                    fix: owned(
                        "Use a canonical managed document id such as design-auth-system or exec-auth-add-oauth/task-01.",
                    ),
                },
            );
        },
    };
    if d.doc_type == DocType::Guideline {
        return Err(
            CommandFailure {
                path: Some(d.path.clone()),
                message: concat3("guideline lookup target ", doc_id, " is not supported"),
                fix: owned("Choose a lifecycle-managed document id."),
            },
        );
    }
    let mut out = String::new();
    push_overview(&mut out, index, d, palette);
    push_refs(&mut out, d, palette);
    push_associations(&mut out, index, d, palette);
    push_warnings(&mut out, index, violations, d, palette);
    Ok(out)
}

/// What `specmate status` shows for a scanned repository: the detail of `doc_id`
/// (trimmed), or the dashboard.
pub open spec fn status_view_of(
    root: Seq<char>,
    files: Seq<crate::doc::index::ScanView>,
    doc_id: Option<Seq<char>>,
    show_all: bool,
    on: bool,
) -> Result<Seq<char>, FailureView> {
    let idx = crate::doc::index::index_of(root, files);
    let vs = crate::doc::validate::index_violations(idx);
    match doc_id {
        Some(id) => detail(idx, vs, crate::text::trim(id), on),
        None => Ok(dashboard(idx, vs.len(), show_all, on)),
    }
}

/// Builds the status output of a scanned repository.
pub fn status_view(
    repo_root: String,
    files: Vec<crate::doc::index::ScannedFile>,
    args: &StatusArgs,
    palette: Palette,
) -> (r: Result<String, CommandFailure>)
    ensures
        match r {
            Ok(t) => status_view_of(
                repo_root@,
                crate::doc::index::scans_view(files@),
                args.doc_id.deep_view(),
                args.all,
                palette@,
            ) == Ok::<Seq<char>, FailureView>(t@),
            Err(f) => status_view_of(
                repo_root@,
                crate::doc::index::scans_view(files@),
                args.doc_id.deep_view(),
                args.all,
                palette@,
            ) == Err::<Seq<char>, FailureView>(f@),
        },
{
    let index = crate::doc::index::build_index(repo_root, files);
    let violations = crate::doc::validate::validate_index(&index);
    match &args.doc_id {
        Some(id) => {
            let wanted = crate::text::trim_str(id.as_str());
            render_detail(&index, &violations, wanted.as_str(), palette)
        },
        None => Ok(render_dashboard(&index, &violations, args.all, palette)),
    }
}

proof fn lemma_count_tasks_prefix(docs: Seq<DocumentView>, d: DocumentView, exec: Seq<char>, s: Status, n: nat)
    requires
        n <= docs.len(),
    ensures
        count_tasks(docs.push(d), exec, s, n) == count_tasks(docs, exec, s, n),
    decreases n,
{
    if n > 0 {
        lemma_count_tasks_prefix(docs, d, exec, s, (n - 1) as nat);
        assert(docs.push(d)[n - 1] == docs[n - 1]);
    }
}

/// Adding a document changes the task count of an Exec Plan only when it is a
/// Task Spec of that Exec Plan in that status: a Task Spec of another Exec Plan
/// (or a document of another type) leaves every other plan's count unchanged.
pub proof fn lemma_count_tasks_add(docs: Seq<DocumentView>, d: DocumentView, exec: Seq<char>, s: Status)
    ensures
        count_tasks(docs.push(d), exec, s, docs.len() + 1) == count_tasks(docs, exec, s, docs.len())
            + if d.doc_type == DocType::TaskSpec && d.frontmatter.exec_plan == Some(exec) && d.status
            == s {
            1nat
        } else {
            0nat
        },
        d.frontmatter.exec_plan != Some(exec) ==> count_tasks(docs.push(d), exec, s, docs.len() + 1)
            == count_tasks(docs, exec, s, docs.len()),
{
    lemma_count_tasks_prefix(docs, d, exec, s, docs.len());
    assert(docs.push(d)[docs.len() as int] == d);
}

/// An Exec Plan that no Task Spec names as its `exec-plan` has no tasks in any
/// status.
pub proof fn lemma_unclaimed_exec_plan_counts_nothing(
    docs: Seq<DocumentView>,
    exec: Seq<char>,
    s: Status,
    n: nat,
)
    requires
        forall|i: int| 0 <= i < docs.len() ==> (#[trigger] docs[i]).frontmatter.exec_plan != Some(exec),
    ensures
        count_tasks(docs, exec, s, n) == 0,
    decreases n,
{
    if n > 0 && n <= docs.len() {
        lemma_unclaimed_exec_plan_counts_nothing(docs, exec, s, (n - 1) as nat);
        assert(docs[n - 1].frontmatter.exec_plan != Some(exec));
    }
}

} // verus!
