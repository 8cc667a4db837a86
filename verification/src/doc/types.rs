//! Managed document types and their mathematical views.
use crate::text::{append, concat2, concat3, decimal, digit_char, owned, push_char, str_eq, string_of, two_digits};
use vstd::prelude::*;

verus! {

/// Managed document types recognised by specmate.
#[derive(Debug, Clone, Copy, PartialEq, Eq, Structural, PartialOrd, Ord, Hash)]
pub enum DocType {
    /// Product requirements document.
    Prd,
    /// Design document for a module, subsystem, or cross-cutting principle.
    DesignDoc,
    /// Patch against an existing design document.
    DesignPatch,
    /// Execution plan document.
    ExecPlan,
    /// Task specification document.
    TaskSpec,
    /// Fixed-path `docs/specs/project.md`.
    ProjectSpec,
    /// Fixed-path `docs/specs/org.md`.
    OrgSpec,
    /// Guideline under `docs/guidelines/`.
    Guideline,
}

/// The stable display name of a document type.
pub open spec fn doc_type_name(t: DocType) -> Seq<char> {
    match t {
        DocType::Prd => "PRD"@,
        DocType::DesignDoc => "DesignDoc"@,
        DocType::DesignPatch => "DesignPatch"@,
        DocType::ExecPlan => "ExecPlan"@,
        DocType::TaskSpec => "TaskSpec"@,
        DocType::ProjectSpec => "ProjectSpec"@,
        DocType::OrgSpec => "OrgSpec"@,
        DocType::Guideline => "Guideline"@,
    }
}

impl DocType {
    /// Returns the stable display name for the document type.
    pub fn as_str(self) -> (r: &'static str)
        ensures
            r@ == doc_type_name(self),
    {
        match self {
            DocType::Prd => "PRD",
            DocType::DesignDoc => "DesignDoc",
            DocType::DesignPatch => "DesignPatch",
            DocType::ExecPlan => "ExecPlan",
            DocType::TaskSpec => "TaskSpec",
            DocType::ProjectSpec => "ProjectSpec",
            DocType::OrgSpec => "OrgSpec",
            DocType::Guideline => "Guideline",
        }
    }
}

/// Canonical lifecycle states used by managed documents.
#[derive(Debug, Clone, Copy, PartialEq, Eq, Structural, PartialOrd, Ord, Hash)]
pub enum Status {
    /// Draft state.
    Draft,
    /// Approved state.
    Approved,
    /// Candidate state.
    Candidate,
    /// Implemented state.
    Implemented,
    /// Closed historical state.
    Closed,
    /// Obsolete state.
    Obsolete,
    /// Obsolete merged state used by design patches.
    ObsoleteMerged,
    /// Fixed-path always-active state for non-lifecycle docs.
    Active,
}

/// The canonical lowercase frontmatter spelling of a status.
pub open spec fn status_name(s: Status) -> Seq<char> {
    match s {
        Status::Draft => "draft"@,
        Status::Approved => "approved"@,
        Status::Candidate => "candidate"@,
        Status::Implemented => "implemented"@,
        Status::Closed => "closed"@,
        Status::Obsolete => "obsolete"@,
        Status::ObsoleteMerged => "obsolete:merged"@,
        Status::Active => "active"@,
    }
}

impl Status {
    /// Returns the canonical lowercase string form used in frontmatter.
    pub fn as_str(self) -> (r: &'static str)
        ensures
            r@ == status_name(self),
    {
        match self {
            Status::Draft => "draft",
            Status::Approved => "approved",
            Status::Candidate => "candidate",
            Status::Implemented => "implemented",
            Status::Closed => "closed",
            Status::Obsolete => "obsolete",
            Status::ObsoleteMerged => "obsolete:merged",
            Status::Active => "active",
        }
    }
}

/// The decimal digit character for `d < 10`.
pub fn digit_exec(d: u64) -> (c: char)
    requires
        d < 10,
    ensures
        c == digit_char(d as nat),
{
    match d {
        0 => '0',
        1 => '1',
        2 => '2',
        3 => '3',
        4 => '4',
        5 => '5',
        6 => '6',
        7 => '7',
        8 => '8',
        _ => '9',
    }
}

/// The decimal digits of `n`.
pub fn decimal_chars(n: u64) -> (r: Vec<char>)
    ensures
        r@ == decimal(n as nat),
    decreases n,
{
    if n < 10 {
        let mut r: Vec<char> = Vec::new();
        r.push(digit_exec(n));
        assert(r@ =~= seq![digit_char(n as nat)]);
        r
    } else {
        let mut r = decimal_chars(n / 10);
        r.push(digit_exec(n % 10));
        r
    }
}

/// The decimal rendering of `n`.
pub fn decimal_string(n: u64) -> (r: String)
    ensures
        r@ == decimal(n as nat),
{
    let cs = decimal_chars(n);
    string_of(cs.as_slice())
}

/// Renders a local sequence number with at least two digits (`1` becomes `01`).
pub fn render_local_sequence(value: u32) -> (r: String)
    ensures
        r@ == two_digits(value as nat),
{
    if value < 10 {
        let mut r = String::new();
        push_char(&mut r, '0');
        push_char(&mut r, digit_exec(value as u64));
        assert(r@ =~= seq!['0', digit_char(value as nat)]);
        r
    } else {
        decimal_string(value as u64)
    }
}

/// Canonical ID for a managed document.
#[derive(Debug, PartialEq, Eq, PartialOrd, Ord, Hash)]
pub enum DocId {
    /// `prd-<slug>`
    Prd(String),
    /// `design-<slug>`
    DesignDoc(String),
    /// `design-<parent-slug>-patch-<nn>-<patch-slug>`
    DesignPatch { parent_slug: String, sequence: u32, patch_slug: String },
    /// `exec-<slug>`
    ExecPlan(String),
    /// `<exec-id>/task-<nn>`
    TaskSpec { exec_slug: String, sequence: u32 },
    /// `project`
    ProjectSpec,
    /// `org`
    OrgSpec,
    /// Relative guideline identifier such as `error-handling` or `obsolete/error-handling`.
    Guideline(String),
}

/// The mathematical value of a [`DocId`].
pub enum SpecDocId {
    Prd(Seq<char>),
    DesignDoc(Seq<char>),
    DesignPatch { parent_slug: Seq<char>, sequence: u32, patch_slug: Seq<char> },
    ExecPlan(Seq<char>),
    TaskSpec { exec_slug: Seq<char>, sequence: u32 },
    ProjectSpec,
    OrgSpec,
    Guideline(Seq<char>),
}

impl View for DocId {
    type V = SpecDocId;

    open spec fn view(&self) -> SpecDocId {
        match self {
            DocId::Prd(s) => SpecDocId::Prd(s@),
            DocId::DesignDoc(s) => SpecDocId::DesignDoc(s@),
            DocId::DesignPatch { parent_slug, sequence, patch_slug } => SpecDocId::DesignPatch {
                parent_slug: parent_slug@,
                sequence: *sequence,
                patch_slug: patch_slug@,
            },
            DocId::ExecPlan(s) => SpecDocId::ExecPlan(s@),
            DocId::TaskSpec { exec_slug, sequence } => SpecDocId::TaskSpec {
                exec_slug: exec_slug@,
                sequence: *sequence,
            },
            DocId::ProjectSpec => SpecDocId::ProjectSpec,
            DocId::OrgSpec => SpecDocId::OrgSpec,
            DocId::Guideline(s) => SpecDocId::Guideline(s@),
        }
    }
}

/// The canonical serialized identifier of a document id.
pub open spec fn id_string(id: SpecDocId) -> Seq<char> {
    match id {
        SpecDocId::Prd(s) => "prd-"@ + s,
        SpecDocId::DesignDoc(s) => "design-"@ + s,
        SpecDocId::DesignPatch { parent_slug, sequence, patch_slug } => "design-"@ + parent_slug
            + "-patch-"@ + two_digits(sequence as nat) + "-"@ + patch_slug,
        SpecDocId::ExecPlan(s) => "exec-"@ + s,
        SpecDocId::TaskSpec { exec_slug, sequence } => "exec-"@ + exec_slug + "/task-"@
            + two_digits(sequence as nat),
        SpecDocId::ProjectSpec => "project"@,
        SpecDocId::OrgSpec => "org"@,
        SpecDocId::Guideline(r) => r,
    }
}

/// The document type an id belongs to.
pub open spec fn id_type(id: SpecDocId) -> DocType {
    match id {
        SpecDocId::Prd(_) => DocType::Prd,
        SpecDocId::DesignDoc(_) => DocType::DesignDoc,
        SpecDocId::DesignPatch { .. } => DocType::DesignPatch,
        SpecDocId::ExecPlan(_) => DocType::ExecPlan,
        SpecDocId::TaskSpec { .. } => DocType::TaskSpec,
        SpecDocId::ProjectSpec => DocType::ProjectSpec,
        SpecDocId::OrgSpec => DocType::OrgSpec,
        SpecDocId::Guideline(_) => DocType::Guideline,
    }
}

/// The frontmatter `id` value expected for a document id.
pub open spec fn frontmatter_id_string(id: SpecDocId) -> Seq<char> {
    match id {
        SpecDocId::TaskSpec { sequence, .. } => "task-"@ + two_digits(sequence as nat),
        _ => id_string(id),
    }
}

/// The escaped single-token rendering of a document id.
pub open spec fn escaped_id_string(id: SpecDocId) -> Seq<char> {
    match id {
        SpecDocId::TaskSpec { exec_slug, sequence } => "exec-"@ + exec_slug + "--task-"@
            + two_digits(sequence as nat),
        _ => id_string(id),
    }
}

/// The exec slug an id is scoped to.
pub open spec fn id_exec_slug(id: SpecDocId) -> Option<Seq<char>> {
    match id {
        SpecDocId::TaskSpec { exec_slug, .. } => Some(exec_slug),
        SpecDocId::ExecPlan(slug) => Some(slug),
        _ => None,
    }
}

impl Clone for DocId {
    fn clone(&self) -> (r: Self)
        ensures
            r@ == self@,
    {
        match self {
            DocId::Prd(s) => DocId::Prd(s.clone()),
            DocId::DesignDoc(s) => DocId::DesignDoc(s.clone()),
            DocId::DesignPatch { parent_slug, sequence, patch_slug } => DocId::DesignPatch {
                parent_slug: parent_slug.clone(),
                sequence: *sequence,
                patch_slug: patch_slug.clone(),
            },
            DocId::ExecPlan(s) => DocId::ExecPlan(s.clone()),
            DocId::TaskSpec { exec_slug, sequence } => DocId::TaskSpec {
                exec_slug: exec_slug.clone(),
                sequence: *sequence,
            },
            DocId::ProjectSpec => DocId::ProjectSpec,
            DocId::OrgSpec => DocId::OrgSpec,
            DocId::Guideline(s) => DocId::Guideline(s.clone()),
        }
    }
}

impl DocId {
    /// Returns the canonical serialized identifier used by references and CLI lookup.
    pub fn as_string(&self) -> (r: String)
        ensures
            r@ == id_string(self@),
    {
        match self {
            DocId::Prd(slug) => concat2("prd-", slug.as_str()),
            DocId::DesignDoc(slug) => concat2("design-", slug.as_str()),
            DocId::DesignPatch { parent_slug, sequence, patch_slug } => {
                let mut r = concat3("design-", parent_slug.as_str(), "-patch-");
                let n = render_local_sequence(*sequence);
                append(&mut r, n.as_str());
                append(&mut r, "-");
                append(&mut r, patch_slug.as_str());
                r
            },
            DocId::ExecPlan(slug) => concat2("exec-", slug.as_str()),
            DocId::TaskSpec { exec_slug, sequence } => {
                let mut r = concat3("exec-", exec_slug.as_str(), "/task-");
                let n = render_local_sequence(*sequence);
                append(&mut r, n.as_str());
                r
            },
            DocId::ProjectSpec => owned("project"),
            DocId::OrgSpec => owned("org"),
            DocId::Guideline(relative) => relative.clone(),
        }
    }

    /// Returns the top-level document type for this identifier.
    pub fn doc_type(&self) -> (r: DocType)
        ensures
            r == id_type(self@),
    {
        match self {
            DocId::Prd(_) => DocType::Prd,
            DocId::DesignDoc(_) => DocType::DesignDoc,
            DocId::DesignPatch { .. } => DocType::DesignPatch,
            DocId::ExecPlan(_) => DocType::ExecPlan,
            DocId::TaskSpec { .. } => DocType::TaskSpec,
            DocId::ProjectSpec => DocType::ProjectSpec,
            DocId::OrgSpec => DocType::OrgSpec,
            DocId::Guideline(_) => DocType::Guideline,
        }
    }

    /// Returns the frontmatter `id` value for this document.
    pub fn frontmatter_id(&self) -> (r: String)
        ensures
            r@ == frontmatter_id_string(self@),
    {
        match self {
            DocId::TaskSpec { sequence, .. } => {
                let n = render_local_sequence(*sequence);
                concat2("task-", n.as_str())
            },
            _ => self.as_string(),
        }
    }

    /// Returns the escaped single-token task rendering when relevant.
    pub fn escaped_string(&self) -> (r: String)
        ensures
            r@ == escaped_id_string(self@),
    {
        match self {
            DocId::TaskSpec { exec_slug, sequence } => {
                let mut r = concat3("exec-", exec_slug.as_str(), "--task-");
                let n = render_local_sequence(*sequence);
                append(&mut r, n.as_str());
                r
            },
            _ => self.as_string(),
        }
    }

    /// Returns the containing exec slug for Task Specs and Exec Plans.
    pub fn exec_slug(&self) -> (r: Option<&str>)
        ensures
            match r {
                Some(s) => id_exec_slug(self@) == Some(s@),
                None => id_exec_slug(self@) is None,
            },
    {
        match self {
            DocId::TaskSpec { exec_slug, .. } => Some(exec_slug.as_str()),
            DocId::ExecPlan(slug) => Some(slug.as_str()),
            _ => None,
        }
    }

    /// Whether two ids are the same canonical id.
    pub fn same_as(&self, other: &DocId) -> (r: bool)
        ensures
            r == (self@ == other@),
    {
        match (self, other) {
            (DocId::Prd(a), DocId::Prd(b)) => str_eq(a.as_str(), b.as_str()),
            (DocId::DesignDoc(a), DocId::DesignDoc(b)) => str_eq(a.as_str(), b.as_str()),
            (
                DocId::DesignPatch { parent_slug: p1, sequence: s1, patch_slug: q1 },
                DocId::DesignPatch { parent_slug: p2, sequence: s2, patch_slug: q2 },
            ) => *s1 == *s2 && str_eq(p1.as_str(), p2.as_str()) && str_eq(q1.as_str(), q2.as_str()),
            (DocId::ExecPlan(a), DocId::ExecPlan(b)) => str_eq(a.as_str(), b.as_str()),
            (
                DocId::TaskSpec { exec_slug: e1, sequence: s1 },
                DocId::TaskSpec { exec_slug: e2, sequence: s2 },
            ) => *s1 == *s2 && str_eq(e1.as_str(), e2.as_str()),
            (DocId::ProjectSpec, DocId::ProjectSpec) => true,
            (DocId::OrgSpec, DocId::OrgSpec) => true,
            (DocId::Guideline(a), DocId::Guideline(b)) => str_eq(a.as_str(), b.as_str()),
            _ => false,
        }
    }
}


/// Clones an optional string.
pub fn clone_opt(o: &Option<String>) -> (r: Option<String>)
    ensures
        r.deep_view() == o.deep_view(),
{
    match o {
        Some(s) => Some(s.clone()),
        None => None,
    }
}

/// Clones a list of strings.
pub fn clone_strings(v: &Vec<String>) -> (r: Vec<String>)
    ensures
        r.deep_view() == v.deep_view(),
{
    let mut r: Vec<String> = Vec::new();
    let mut i: usize = 0;
    while i < v.len()
        invariant
            i <= v.len(),
            r@.len() == i,
            forall|j: int| 0 <= j < i ==> r@[j]@ == v@[j]@,
        decreases v.len() - i,
    {
        r.push(v[i].clone());
        i = i + 1;
    }
    assert(r.deep_view() =~= v.deep_view());
    r
}

/// Task-spec boundary rules.
#[derive(Debug, PartialEq, Eq, Default)]
pub struct Boundaries {
    /// Paths the agent may modify.
    pub allowed: Vec<String>,
    /// Paths the agent must never modify.
    pub forbidden_patterns: Vec<String>,
}

pub struct BoundariesView {
    pub allowed: Seq<Seq<char>>,
    pub forbidden_patterns: Seq<Seq<char>>,
}

impl View for Boundaries {
    type V = BoundariesView;

    open spec fn view(&self) -> BoundariesView {
        BoundariesView {
            allowed: self.allowed.deep_view(),
            forbidden_patterns: self.forbidden_patterns.deep_view(),
        }
    }
}

impl Clone for Boundaries {
    fn clone(&self) -> (r: Self)
        ensures
            r@ == self@,
    {
        Boundaries {
            allowed: clone_strings(&self.allowed),
            forbidden_patterns: clone_strings(&self.forbidden_patterns),
        }
    }
}

/// One completion criterion in a Task Spec.
#[derive(Debug, PartialEq, Eq)]
pub struct CompletionCriterion {
    /// Stable criterion ID such as `cc-001`.
    pub id: String,
    /// Human-readable scenario.
    pub scenario: String,
    /// Exact test name.
    pub test: String,
}

pub struct CriterionView {
    pub id: Seq<char>,
    pub scenario: Seq<char>,
    pub test: Seq<char>,
}

impl View for CompletionCriterion {
    type V = CriterionView;

    open spec fn view(&self) -> CriterionView {
        CriterionView { id: self.id@, scenario: self.scenario@, test: self.test@ }
    }
}

impl Clone for CompletionCriterion {
    fn clone(&self) -> (r: Self)
        ensures
            r@ == self@,
    {
        CompletionCriterion {
            id: self.id.clone(),
            scenario: self.scenario.clone(),
            test: self.test.clone(),
        }
    }
}

pub open spec fn criteria_view(v: Seq<CompletionCriterion>) -> Seq<CriterionView> {
    v.map_values(|c: CompletionCriterion| c@)
}

/// Clones a list of completion criteria.
pub fn clone_criteria(v: &Vec<CompletionCriterion>) -> (r: Vec<CompletionCriterion>)
    ensures
        criteria_view(r@) == criteria_view(v@),
{
    let mut r: Vec<CompletionCriterion> = Vec::new();
    let mut i: usize = 0;
    while i < v.len()
        invariant
            i <= v.len(),
            r@.len() == i,
            forall|j: int| 0 <= j < i ==> r@[j]@ == v@[j]@,
        decreases v.len() - i,
    {
        r.push(v[i].clone());
        i = i + 1;
    }
    assert(criteria_view(r@) =~= criteria_view(v@));
    r
}

/// Typed frontmatter fields shared across document types.
#[derive(Debug, PartialEq, Eq, Default)]
pub struct Frontmatter {
    /// Optional frontmatter `id`.
    pub id: Option<String>,
    /// Optional frontmatter `title`.
    pub title: Option<String>,
    /// Optional raw status string.
    pub status: Option<String>,
    /// Optional lifecycle created date.
    pub created: Option<String>,
    /// Optional lifecycle closed date.
    pub closed: Option<String>,
    /// Optional module name.
    pub module: Option<String>,
    /// Optional PRD reference.
    pub prd: Option<String>,
    /// Optional patch parent reference.
    pub parent: Option<String>,
    /// Optional merged-into reference.
    pub merged_into: Option<String>,
    /// Optional superseded-by reference.
    pub superseded_by: Option<String>,
    /// Optional legacy singular design-doc reference.
    pub design_doc: Option<String>,
    /// Optional plural design-docs reference.
    pub design_docs: Vec<String>,
    /// Optional exec-plan reference.
    pub exec_plan: Option<String>,
    /// Optional guideline paths.
    pub guidelines: Vec<String>,
    /// Optional boundaries section.
    pub boundaries: Option<Boundaries>,
    /// Optional completion criteria.
    pub completion_criteria: Vec<CompletionCriterion>,
}

pub struct FrontmatterView {
    pub id: Option<Seq<char>>,
    pub title: Option<Seq<char>>,
    pub status: Option<Seq<char>>,
    pub created: Option<Seq<char>>,
    pub closed: Option<Seq<char>>,
    pub module: Option<Seq<char>>,
    pub prd: Option<Seq<char>>,
    pub parent: Option<Seq<char>>,
    pub merged_into: Option<Seq<char>>,
    pub superseded_by: Option<Seq<char>>,
    pub design_doc: Option<Seq<char>>,
    pub design_docs: Seq<Seq<char>>,
    pub exec_plan: Option<Seq<char>>,
    pub guidelines: Seq<Seq<char>>,
    pub boundaries: Option<BoundariesView>,
    pub completion_criteria: Seq<CriterionView>,
}

impl View for Frontmatter {
    type V = FrontmatterView;

    open spec fn view(&self) -> FrontmatterView {
        FrontmatterView {
            id: self.id.deep_view(),
            title: self.title.deep_view(),
            status: self.status.deep_view(),
            created: self.created.deep_view(),
            closed: self.closed.deep_view(),
            module: self.module.deep_view(),
            prd: self.prd.deep_view(),
            parent: self.parent.deep_view(),
            merged_into: self.merged_into.deep_view(),
            superseded_by: self.superseded_by.deep_view(),
            design_doc: self.design_doc.deep_view(),
            design_docs: self.design_docs.deep_view(),
            exec_plan: self.exec_plan.deep_view(),
            guidelines: self.guidelines.deep_view(),
            boundaries: match self.boundaries {
                Some(b) => Some(b@),
                None => None,
            },
            completion_criteria: criteria_view(self.completion_criteria@),
        }
    }
}

impl Clone for Frontmatter {
    fn clone(&self) -> (r: Self)
        ensures
            r@ == self@,
    {
        Frontmatter {
            id: clone_opt(&self.id),
            title: clone_opt(&self.title),
            status: clone_opt(&self.status),
            created: clone_opt(&self.created),
            closed: clone_opt(&self.closed),
            module: clone_opt(&self.module),
            prd: clone_opt(&self.prd),
            parent: clone_opt(&self.parent),
            merged_into: clone_opt(&self.merged_into),
            superseded_by: clone_opt(&self.superseded_by),
            design_doc: clone_opt(&self.design_doc),
            design_docs: clone_strings(&self.design_docs),
            exec_plan: clone_opt(&self.exec_plan),
            guidelines: clone_strings(&self.guidelines),
            boundaries: match &self.boundaries {
                Some(b) => Some(b.clone()),
                None => None,
            },
            completion_criteria: clone_criteria(&self.completion_criteria),
        }
    }
}

/// Parsed, validated document.
#[derive(Debug, PartialEq, Eq)]
pub struct Document {
    /// Canonical ID.
    pub id: DocId,
    /// Document type.
    pub doc_type: DocType,
    /// Effective status. Guideline status is implicit `Active`.
    pub status: Status,
    /// Optional title.
    pub title: Option<String>,
    /// Absolute path.
    pub path: String,
    /// Parsed frontmatter.
    pub frontmatter: Frontmatter,
    /// The file contents as read.
    pub raw: String,
}

pub struct DocumentView {
    pub id: SpecDocId,
    pub doc_type: DocType,
    pub status: Status,
    pub title: Option<Seq<char>>,
    pub path: Seq<char>,
    pub frontmatter: FrontmatterView,
    pub raw: Seq<char>,
}

impl View for Document {
    type V = DocumentView;

    open spec fn view(&self) -> DocumentView {
        DocumentView {
            id: self.id@,
            doc_type: self.doc_type,
            status: self.status,
            title: self.title.deep_view(),
            path: self.path@,
            frontmatter: self.frontmatter@,
            raw: self.raw@,
        }
    }
}

impl Clone for Document {
    fn clone(&self) -> (r: Self)
        ensures
            r@ == self@,
    {
        Document {
            id: self.id.clone(),
            doc_type: self.doc_type,
            status: self.status,
            title: clone_opt(&self.title),
            path: self.path.clone(),
            frontmatter: self.frontmatter.clone(),
            raw: self.raw.clone(),
        }
    }
}

pub open spec fn docs_view(v: Seq<Document>) -> Seq<DocumentView> {
    v.map_values(|d: Document| d@)
}

/// Lexicographic order of character sequences (code point order).
pub open spec fn seq_lt(a: Seq<char>, b: Seq<char>) -> bool
    decreases a.len(),
{
    if a.len() == 0 {
        b.len() > 0
    } else if b.len() == 0 {
        false
    } else if a[0] != b[0] {
        a[0] < b[0]
    } else {
        seq_lt(a.drop_first(), b.drop_first())
    }
}

/// The rank of an id's variant in declaration order.
pub open spec fn id_rank(id: SpecDocId) -> int {
    match id {
        SpecDocId::Prd(_) => 0,
        SpecDocId::DesignDoc(_) => 1,
        SpecDocId::DesignPatch { .. } => 2,
        SpecDocId::ExecPlan(_) => 3,
        SpecDocId::TaskSpec { .. } => 4,
        SpecDocId::ProjectSpec => 5,
        SpecDocId::OrgSpec => 6,
        SpecDocId::Guideline(_) => 7,
    }
}

/// The canonical ordering of ids: variant first, then fields in declaration order.
pub open spec fn id_lt(a: SpecDocId, b: SpecDocId) -> bool {
    if id_rank(a) != id_rank(b) {
        id_rank(a) < id_rank(b)
    } else {
        match (a, b) {
            (SpecDocId::Prd(x), SpecDocId::Prd(y)) => seq_lt(x, y),
            (SpecDocId::DesignDoc(x), SpecDocId::DesignDoc(y)) => seq_lt(x, y),
            (
                SpecDocId::DesignPatch { parent_slug: p1, sequence: s1, patch_slug: q1 },
                SpecDocId::DesignPatch { parent_slug: p2, sequence: s2, patch_slug: q2 },
            ) => seq_lt(p1, p2) || (p1 == p2 && (s1 < s2 || (s1 == s2 && seq_lt(q1, q2)))),
            (SpecDocId::ExecPlan(x), SpecDocId::ExecPlan(y)) => seq_lt(x, y),
            (
                SpecDocId::TaskSpec { exec_slug: e1, sequence: s1 },
                SpecDocId::TaskSpec { exec_slug: e2, sequence: s2 },
            ) => seq_lt(e1, e2) || (e1 == e2 && s1 < s2),
            (SpecDocId::Guideline(x), SpecDocId::Guideline(y)) => seq_lt(x, y),
            _ => false,
        }
    }
}

proof fn lemma_seq_lt_irreflexive(a: Seq<char>)
    ensures
        !seq_lt(a, a),
    decreases a.len(),
{
    if a.len() > 0 {
        lemma_seq_lt_irreflexive(a.drop_first());
    }
}

proof fn lemma_seq_lt_total(a: Seq<char>, b: Seq<char>)
    requires
        a != b,
    ensures
        seq_lt(a, b) || seq_lt(b, a),
    decreases a.len(),
{
    if a.len() > 0 && b.len() > 0 && a[0] == b[0] {
        if a.drop_first() == b.drop_first() {
            assert(a =~= seq![a[0]] + a.drop_first());
            assert(b =~= seq![b[0]] + b.drop_first());
        }
        lemma_seq_lt_total(a.drop_first(), b.drop_first());
    } else if a.len() == 0 && b.len() == 0 {
        assert(a =~= b);
    }
}

proof fn lemma_seq_lt_transitive(a: Seq<char>, b: Seq<char>, c: Seq<char>)
    requires
        seq_lt(a, b),
        seq_lt(b, c),
    ensures
        seq_lt(a, c),
    decreases a.len(),
{
    if a.len() > 0 && b.len() > 0 && c.len() > 0 && a[0] == b[0] && b[0] == c[0] {
        lemma_seq_lt_transitive(a.drop_first(), b.drop_first(), c.drop_first());
    }
}

/// Canonical id order is irreflexive.
pub proof fn lemma_id_lt_irreflexive(a: SpecDocId)
    ensures
        !id_lt(a, a),
{
    match a {
        SpecDocId::Prd(x) => lemma_seq_lt_irreflexive(x),
        SpecDocId::DesignDoc(x) => lemma_seq_lt_irreflexive(x),
        SpecDocId::DesignPatch { parent_slug, patch_slug, .. } => {
            lemma_seq_lt_irreflexive(parent_slug);
            lemma_seq_lt_irreflexive(patch_slug);
        },
        SpecDocId::ExecPlan(x) => lemma_seq_lt_irreflexive(x),
        SpecDocId::TaskSpec { exec_slug, .. } => lemma_seq_lt_irreflexive(exec_slug),
        SpecDocId::Guideline(x) => lemma_seq_lt_irreflexive(x),
        _ => {},
    }
}

/// Canonical id order is total: of two different ids one orders first.
pub proof fn lemma_id_lt_total(a: SpecDocId, b: SpecDocId)
    requires
        a != b,
    ensures
        id_lt(a, b) || id_lt(b, a),
{
    if id_rank(a) == id_rank(b) {
        match (a, b) {
            (SpecDocId::Prd(x), SpecDocId::Prd(y)) => lemma_seq_lt_total(x, y),
            (SpecDocId::DesignDoc(x), SpecDocId::DesignDoc(y)) => lemma_seq_lt_total(x, y),
            (
                SpecDocId::DesignPatch { parent_slug: p1, sequence: s1, patch_slug: q1 },
                SpecDocId::DesignPatch { parent_slug: p2, sequence: s2, patch_slug: q2 },
            ) => {
                if p1 != p2 {
                    lemma_seq_lt_total(p1, p2);
                } else if s1 == s2 {
                    lemma_seq_lt_total(q1, q2);
                }
            },
            (SpecDocId::ExecPlan(x), SpecDocId::ExecPlan(y)) => lemma_seq_lt_total(x, y),
            (
                SpecDocId::TaskSpec { exec_slug: e1, sequence: s1 },
                SpecDocId::TaskSpec { exec_slug: e2, sequence: s2 },
            ) => {
                if e1 != e2 {
                    lemma_seq_lt_total(e1, e2);
                }
            },
            (SpecDocId::Guideline(x), SpecDocId::Guideline(y)) => lemma_seq_lt_total(x, y),
            _ => {},
        }
    }
}

/// Canonical id order is transitive.
pub proof fn lemma_id_lt_transitive(a: SpecDocId, b: SpecDocId, c: SpecDocId)
    requires
        id_lt(a, b),
        id_lt(b, c),
    ensures
        id_lt(a, c),
{
    if id_rank(a) == id_rank(b) && id_rank(b) == id_rank(c) {
        match (a, b, c) {
            (SpecDocId::Prd(x), SpecDocId::Prd(y), SpecDocId::Prd(z)) => lemma_seq_lt_transitive(
                x,
                y,
                z,
            ),
            (SpecDocId::DesignDoc(x), SpecDocId::DesignDoc(y), SpecDocId::DesignDoc(z)) =>
                lemma_seq_lt_transitive(x, y, z),
            (
                SpecDocId::DesignPatch { parent_slug: p1, patch_slug: q1, .. },
                SpecDocId::DesignPatch { parent_slug: p2, patch_slug: q2, .. },
                SpecDocId::DesignPatch { parent_slug: p3, patch_slug: q3, .. },
            ) => {
                if seq_lt(p1, p2) && seq_lt(p2, p3) {
                    lemma_seq_lt_transitive(p1, p2, p3);
                }
                if seq_lt(q1, q2) && seq_lt(q2, q3) {
                    lemma_seq_lt_transitive(q1, q2, q3);
                }
            },
            (SpecDocId::ExecPlan(x), SpecDocId::ExecPlan(y), SpecDocId::ExecPlan(z)) =>
                lemma_seq_lt_transitive(x, y, z),
            (
                SpecDocId::TaskSpec { exec_slug: e1, .. },
                SpecDocId::TaskSpec { exec_slug: e2, .. },
                SpecDocId::TaskSpec { exec_slug: e3, .. },
            ) => {
                if seq_lt(e1, e2) && seq_lt(e2, e3) {
                    lemma_seq_lt_transitive(e1, e2, e3);
                }
            },
            (SpecDocId::Guideline(x), SpecDocId::Guideline(y), SpecDocId::Guideline(z)) =>
                lemma_seq_lt_transitive(x, y, z),
            _ => {},
        }
    }
}

/// Executable lexicographic comparison.
pub fn chars_lt(a: &[char], b: &[char]) -> (r: bool)
    ensures
        r == seq_lt(a@, b@),
{
    let mut i: usize = 0;
    assert(a@.skip(0) =~= a@);
    assert(b@.skip(0) =~= b@);
    while i < a.len() && i < b.len() && a[i] == b[i]
        invariant
            i <= a.len(),
            i <= b.len(),
            seq_lt(a@, b@) == seq_lt(a@.skip(i as int), b@.skip(i as int)),
        decreases a.len() - i,
    {
        assert(a@.skip(i as int).drop_first() =~= a@.skip(i + 1));
        assert(b@.skip(i as int).drop_first() =~= b@.skip(i + 1));
        i = i + 1;
    }
    if i == a.len() {
        i < b.len()
    } else if i == b.len() {
        false
    } else {
        a[i] < b[i]
    }
}

pub fn str_lt(a: &str, b: &str) -> (r: bool)
    ensures
        r == seq_lt(a@, b@),
{
    let x = crate::text::chars_of(a);
    let y = crate::text::chars_of(b);
    chars_lt(x.as_slice(), y.as_slice())
}

impl DocId {
    fn rank(&self) -> (r: u8)
        ensures
            r as int == id_rank(self@),
    {
        match self {
            DocId::Prd(_) => 0,
            DocId::DesignDoc(_) => 1,
            DocId::DesignPatch { .. } => 2,
            DocId::ExecPlan(_) => 3,
            DocId::TaskSpec { .. } => 4,
            DocId::ProjectSpec => 5,
            DocId::OrgSpec => 6,
            DocId::Guideline(_) => 7,
        }
    }

    /// Whether `self` orders before `other` in canonical id order.
    pub fn precedes(&self, other: &DocId) -> (r: bool)
        ensures
            r == id_lt(self@, other@),
    {
        let a = self.rank();
        let b = other.rank();
        if a != b {
            return a < b;
        }
        match (self, other) {
            (DocId::Prd(x), DocId::Prd(y)) => str_lt(x.as_str(), y.as_str()),
            (DocId::DesignDoc(x), DocId::DesignDoc(y)) => str_lt(x.as_str(), y.as_str()),
            (
                DocId::DesignPatch { parent_slug: p1, sequence: s1, patch_slug: q1 },
                DocId::DesignPatch { parent_slug: p2, sequence: s2, patch_slug: q2 },
            ) => {
                str_lt(p1.as_str(), p2.as_str()) || (str_eq(p1.as_str(), p2.as_str()) && (*s1
                    < *s2 || (*s1 == *s2 && str_lt(q1.as_str(), q2.as_str()))))
            },
            (DocId::ExecPlan(x), DocId::ExecPlan(y)) => str_lt(x.as_str(), y.as_str()),
            (
                DocId::TaskSpec { exec_slug: e1, sequence: s1 },
                DocId::TaskSpec { exec_slug: e2, sequence: s2 },
            ) => str_lt(e1.as_str(), e2.as_str()) || (str_eq(e1.as_str(), e2.as_str()) && *s1
                < *s2),
            (DocId::Guideline(x), DocId::Guideline(y)) => str_lt(x.as_str(), y.as_str()),
            _ => false,
        }
    }
}

/// The position of the first document with id `id`.
pub open spec fn doc_position(docs: Seq<DocumentView>, id: SpecDocId) -> Option<int>
    decreases docs.len(),
{
    if docs.len() == 0 {
        None
    } else if docs[0].id == id {
        Some(0)
    } else {
        match doc_position(docs.drop_first(), id) {
            Some(i) => Some(i + 1),
            None => None,
        }
    }
}

/// The document with id `id`, if any.
pub open spec fn lookup(docs: Seq<DocumentView>, id: SpecDocId) -> Option<DocumentView> {
    match doc_position(docs, id) {
        Some(i) => Some(docs[i]),
        None => None,
    }
}

/// Inserts `d` before the first entry whose id orders after it.
pub open spec fn sorted_insert(docs: Seq<DocumentView>, d: DocumentView) -> Seq<DocumentView>
    decreases docs.len(),
{
    if docs.len() == 0 {
        seq![d]
    } else if id_lt(d.id, docs[0].id) {
        seq![d] + docs
    } else {
        seq![docs[0]] + sorted_insert(docs.drop_first(), d)
    }
}

/// The documents after inserting `d` keyed by its id: a document with the same
/// id is replaced in place, otherwise `d` goes to its canonical position.
pub open spec fn map_insert(docs: Seq<DocumentView>, d: DocumentView) -> Seq<DocumentView> {
    match doc_position(docs, d.id) {
        Some(i) => docs.update(i, d),
        None => sorted_insert(docs, d),
    }
}

/// Documents in strictly increasing canonical id order.
pub open spec fn ids_ascending(docs: Seq<DocumentView>) -> bool {
    forall|i: int, j: int| 0 <= i < j < docs.len() ==> id_lt(#[trigger] docs[i].id, #[trigger] docs[j].id)
}

/// No two documents share an id.
pub open spec fn unique_ids(docs: Seq<DocumentView>) -> bool {
    forall|i: int, j: int|
        0 <= i < docs.len() && 0 <= j < docs.len() && i != j ==> #[trigger] docs[i].id
            != #[trigger] docs[j].id
}

pub proof fn lemma_sorted_insert_split(docs: Seq<DocumentView>, d: DocumentView) -> (k: int)
    ensures
        0 <= k <= docs.len(),
        sorted_insert(docs, d) == docs.take(k) + seq![d] + docs.skip(k),
        forall|i: int| 0 <= i < k ==> !id_lt(d.id, #[trigger] docs[i].id),
        k < docs.len() ==> id_lt(d.id, docs[k].id),
    decreases docs.len(),
{
    if docs.len() == 0 {
        assert(sorted_insert(docs, d) =~= docs.take(0) + seq![d] + docs.skip(0));
        0
    } else if id_lt(d.id, docs[0].id) {
        assert(sorted_insert(docs, d) =~= docs.take(0) + seq![d] + docs.skip(0));
        0
    } else {
        let rest = docs.drop_first();
        let k = lemma_sorted_insert_split(rest, d);
        assert(sorted_insert(docs, d) =~= docs.take(k + 1) + seq![d] + docs.skip(k + 1));
        assert forall|i: int| 0 <= i < k + 1 implies !id_lt(d.id, #[trigger] docs[i].id) by {
            if i > 0 {
                assert(docs[i] == rest[i - 1]);
            }
        }
        if k + 1 < docs.len() {
            assert(docs[k + 1] == rest[k]);
        }
        k + 1
    }
}

/// Inserting a document whose id is not yet present keeps the documents in
/// strictly increasing id order.
pub proof fn lemma_sorted_insert_ascending(docs: Seq<DocumentView>, d: DocumentView)
    requires
        ids_ascending(docs),
        forall|j: int| 0 <= j < docs.len() ==> #[trigger] docs[j].id != d.id,
    ensures
        ids_ascending(sorted_insert(docs, d)),
        sorted_insert(docs, d).len() == docs.len() + 1,
{
    let k = lemma_sorted_insert_split(docs, d);
    let r = sorted_insert(docs, d);
    assert(r.len() == docs.len() + 1);
    assert forall|i: int, j: int| 0 <= i < j < r.len() implies id_lt(
        #[trigger] r[i].id,
        #[trigger] r[j].id,
    ) by {
        if j < k {
            assert(r[i] == docs[i] && r[j] == docs[j]);
        } else if j == k {
            assert(r[i] == docs[i] && r[j] == d);
            assert(docs[i].id != d.id);
            lemma_id_lt_total(docs[i].id, d.id);
        } else if i < k {
            assert(r[i] == docs[i] && r[j] == docs[j - 1]);
        } else if i == k {
            assert(r[i] == d && r[j] == docs[j - 1]);
            if j - 1 > k {
                lemma_id_lt_transitive(d.id, docs[k].id, docs[j - 1].id);
            }
        } else {
            assert(r[i] == docs[i - 1] && r[j] == docs[j - 1]);
        }
    }
}

/// Documents in strictly increasing id order never share an id.
pub proof fn lemma_ascending_ids_are_unique(docs: Seq<DocumentView>)
    requires
        ids_ascending(docs),
    ensures
        unique_ids(docs),
{
    assert forall|i: int, j: int|
        0 <= i < docs.len() && 0 <= j < docs.len() && i != j implies #[trigger] docs[i].id
        != #[trigger] docs[j].id by {
        if docs[i].id == docs[j].id {
            lemma_id_lt_irreflexive(docs[i].id);
            if i < j {
                assert(id_lt(docs[i].id, docs[j].id));
            } else {
                assert(id_lt(docs[j].id, docs[i].id));
            }
        }
    }
}

pub proof fn lemma_doc_position(docs: Seq<DocumentView>, id: SpecDocId)
    ensures
        match doc_position(docs, id) {
            Some(i) => 0 <= i < docs.len() && docs[i].id == id && forall|j: int|
                0 <= j < i ==> docs[j].id != id,
            None => forall|j: int| 0 <= j < docs.len() ==> docs[j].id != id,
        },
    decreases docs.len(),
{
    if docs.len() > 0 && docs[0].id != id {
        lemma_doc_position(docs.drop_first(), id);
        assert forall|j: int| 0 < j < docs.len() implies docs[j] == docs.drop_first()[j - 1] by {}
    }
}

/// Documents keyed by canonical id, kept in canonical id order.
#[derive(Debug)]
pub struct DocumentMap {
    entries: Vec<Document>,
}

impl View for DocumentMap {
    type V = Seq<DocumentView>;

    closed spec fn view(&self) -> Seq<DocumentView> {
        docs_view(self.entries@)
    }
}

impl Clone for DocumentMap {
    fn clone(&self) -> (r: Self)
        ensures
            r@ == self@,
    {
        proof {
            use_type_invariant(self);
        }
        let mut entries: Vec<Document> = Vec::new();
        let mut i: usize = 0;
        while i < self.entries.len()
            invariant
                i <= self.entries.len(),
                entries@.len() == i,
                forall|j: int| 0 <= j < i ==> entries@[j]@ == self.entries@[j]@,
            decreases self.entries.len() - i,
        {
            entries.push(self.entries[i].clone());
            i = i + 1;
        }
        assert(docs_view(entries@) =~= docs_view(self.entries@));
        DocumentMap { entries }
    }
}

impl DocumentMap {
    /// The documents are kept in strictly increasing canonical id order, so no
    /// id occurs twice.
    #[verifier::type_invariant]
    spec fn ids_in_order(self) -> bool {
        ids_ascending(docs_view(self.entries@))
    }

    /// An empty map.
    pub fn new() -> (r: Self)
        ensures
            r@ == Seq::<DocumentView>::empty(),
    {
        let entries: Vec<Document> = Vec::new();
        assert(docs_view(entries@) =~= Seq::<DocumentView>::empty());
        DocumentMap { entries }
    }

    /// The number of documents.
    pub fn len(&self) -> (r: usize)
        ensures
            r == self@.len(),
    {
        self.entries.len()
    }

    /// The documents in canonical id order.
    pub fn values(&self) -> (r: &Vec<Document>)
        ensures
            docs_view(r@) == self@,
            ids_ascending(self@),
            unique_ids(self@),
    {
        proof {
            use_type_invariant(self);
            lemma_ascending_ids_are_unique(self@);
        }
        &self.entries
    }

    /// The document with the given id.
    pub fn get(&self, id: &DocId) -> (r: Option<&Document>)
        ensures
            match r {
                Some(d) => lookup(self@, id@) == Some(d@),
                None => lookup(self@, id@) is None,
            },
    {
        proof { lemma_doc_position(self@, id@); }
        match self.position(id) {
            Some(i) => Some(&self.entries[i]),
            None => None,
        }
    }

    /// Whether a document with the given id is present.
    pub fn contains_key(&self, id: &DocId) -> (r: bool)
        ensures
            r == (lookup(self@, id@) is Some),
    {
        self.position(id).is_some()
    }

    /// The position of the document with the given id.
    pub fn position(&self, id: &DocId) -> (r: Option<usize>)
        ensures
            match r {
                Some(i) => doc_position(self@, id@) == Some(i as int),
                None => doc_position(self@, id@) is None,
            },
    {
        let ghost docs = self@;
        proof { lemma_doc_position(docs, id@); }
        let mut i: usize = 0;
        while i < self.entries.len()
            invariant
                i <= self.entries.len(),
                docs == self@,
                forall|j: int| 0 <= j < i ==> docs[j].id != id@,
            decreases self.entries.len() - i,
        {
            if self.entries[i].id.same_as(id) {
                assert(docs[i as int].id == id@);
                proof { lemma_doc_position(docs, id@); }
                return Some(i);
            }
            i = i + 1;
        }
        None
    }

    /// Inserts a document keyed by its id: a document with the same id is
    /// replaced, otherwise the new one takes its canonical position.
    pub fn insert(&mut self, document: Document)
        ensures
            final(self)@ == map_insert(old(self)@, document@),
            ids_ascending(final(self)@),
    {
        proof {
            use_type_invariant(&*self);
        }
        let ghost before = self@;
        let found = self.position(&document.id);
        let mut entries: Vec<Document> = Vec::new();
        std::mem::swap(&mut entries, &mut self.entries);
        assert(docs_view(entries@) == before);
        proof {
            lemma_doc_position(before, document@.id);
        }
        match found {
            Some(k) => {
                let ghost updated = before.update(k as int, document@);
                proof {
                    assert forall|a: int, b: int| 0 <= a < b < updated.len() implies id_lt(
                        #[trigger] updated[a].id,
                        #[trigger] updated[b].id,
                    ) by {
                        assert(updated[a].id == before[a].id && updated[b].id == before[b].id);
                    }
                }
                entries.set(k, document);
                assert(docs_view(entries@) =~= updated);
                self.entries = entries;
            },
            None => {
                let mut i: usize = 0;
                assert(before.skip(0) =~= before);
                assert(before.take(0) + sorted_insert(before, document@) =~= sorted_insert(
                    before,
                    document@,
                ));
                while i < entries.len() && !document.id.precedes(&entries[i].id)
                    invariant
                        i <= entries.len(),
                        docs_view(entries@) == before,
                        sorted_insert(before, document@) == before.take(i as int) + sorted_insert(
                            before.skip(i as int),
                            document@,
                        ),
                    decreases entries.len() - i,
                {
                    proof {
                        let rest = before.skip(i as int);
                        assert(rest[0] == before[i as int]);
                        assert(rest.drop_first() =~= before.skip(i + 1));
                        assert(before.take(i + 1) =~= before.take(i as int) + seq![before[i as int]]);
                    }
                    i = i + 1;
                }
                proof {
                    let rest = before.skip(i as int);
                    if i < before.len() {
                        assert(rest[0] == before[i as int]);
                    }
                    assert(sorted_insert(rest, document@) =~= seq![document@] + rest);
                    lemma_sorted_insert_ascending(before, document@);
                }
                entries.insert(i, document);
                assert(docs_view(entries@) =~= before.take(i as int) + (seq![document@]
                    + before.skip(i as int)));
                self.entries = entries;
            },
        }
    }

    /// Sets the status and path of the document at position `i`.
    pub fn relocate(&mut self, i: usize, status: Status, path: String)
        requires
            i < old(self)@.len(),
        ensures
            final(self)@ == old(self)@.update(
                i as int,
                DocumentView { status: status, path: path@, ..old(self)@[i as int] },
            ),
            ids_ascending(final(self)@),
    {
        proof {
            use_type_invariant(&*self);
        }
        let ghost before = self@;
        let ghost updated = before.update(
            i as int,
            DocumentView { status: status, path: path@, ..before[i as int] },
        );
        let mut entries: Vec<Document> = Vec::new();
        std::mem::swap(&mut entries, &mut self.entries);
        assert(docs_view(entries@) == before);
        let mut d = entries[i].clone();
        d.status = status;
        d.path = path;
        entries.set(i, d);
        proof {
            assert(docs_view(entries@) =~= updated);
            assert forall|a: int, b: int| 0 <= a < b < updated.len() implies id_lt(
                #[trigger] updated[a].id,
                #[trigger] updated[b].id,
            ) by {
                assert(updated[a].id == before[a].id && updated[b].id == before[b].id);
            }
        }
        self.entries = entries;
    }
}

/// Invalid markdown discovered in the managed document space.
#[derive(Debug, PartialEq, Eq)]
pub struct InvalidManagedEntry {
    /// Absolute path to the invalid file.
    pub path: String,
    /// Human-readable reason.
    pub reason: String,
}

pub struct InvalidEntryView {
    pub path: Seq<char>,
    pub reason: Seq<char>,
}

impl View for InvalidManagedEntry {
    type V = InvalidEntryView;

    open spec fn view(&self) -> InvalidEntryView {
        InvalidEntryView { path: self.path@, reason: self.reason@ }
    }
}

impl Clone for InvalidManagedEntry {
    fn clone(&self) -> (r: Self)
        ensures
            r@ == self@,
    {
        InvalidManagedEntry { path: self.path.clone(), reason: self.reason.clone() }
    }
}

pub open spec fn entries_view(v: Seq<InvalidManagedEntry>) -> Seq<InvalidEntryView> {
    v.map_values(|e: InvalidManagedEntry| e@)
}

/// Repository-wide index of managed documents.
#[derive(Debug)]
pub struct DocumentIndex {
    /// Repository root used to build the index.
    pub repo_root: String,
    /// Valid managed documents indexed by canonical ID.
    pub documents: DocumentMap,
    /// Invalid markdown found in managed locations.
    pub invalid_entries: Vec<InvalidManagedEntry>,
    /// Markdown ignored because it lives outside the managed document system.
    pub ignored_paths: Vec<String>,
}

pub struct IndexView {
    pub repo_root: Seq<char>,
    pub documents: Seq<DocumentView>,
    pub invalid_entries: Seq<InvalidEntryView>,
    pub ignored_paths: Seq<Seq<char>>,
}

impl View for DocumentIndex {
    type V = IndexView;

    open spec fn view(&self) -> IndexView {
        IndexView {
            repo_root: self.repo_root@,
            documents: self.documents@,
            invalid_entries: entries_view(self.invalid_entries@),
            ignored_paths: self.ignored_paths.deep_view(),
        }
    }
}

impl Clone for DocumentIndex {
    fn clone(&self) -> (r: Self)
        ensures
            r@ == self@,
    {
        let mut invalid: Vec<InvalidManagedEntry> = Vec::new();
        let mut i: usize = 0;
        while i < self.invalid_entries.len()
            invariant
                i <= self.invalid_entries.len(),
                invalid@.len() == i,
                forall|j: int| 0 <= j < i ==> invalid@[j]@ == self.invalid_entries@[j]@,
            decreases self.invalid_entries.len() - i,
        {
            invalid.push(self.invalid_entries[i].clone());
            i = i + 1;
        }
        assert(entries_view(invalid@) =~= entries_view(self.invalid_entries@));
        DocumentIndex {
            repo_root: self.repo_root.clone(),
            documents: self.documents.clone(),
            invalid_entries: invalid,
            ignored_paths: clone_strings(&self.ignored_paths),
        }
    }
}

/// Validation issue discovered after loading documents.
#[derive(Debug, PartialEq, Eq)]
pub struct ValidationViolation {
    /// Path associated with the violation.
    pub path: String,
    /// Human-readable explanation.
    pub message: String,
}

pub struct ViolationView {
    pub path: Seq<char>,
    pub message: Seq<char>,
}

impl View for ValidationViolation {
    type V = ViolationView;

    open spec fn view(&self) -> ViolationView {
        ViolationView { path: self.path@, message: self.message@ }
    }
}

pub open spec fn violations_view(v: Seq<ValidationViolation>) -> Seq<ViolationView> {
    v.map_values(|x: ValidationViolation| x@)
}

/// Stable kinds of direct-association summaries exposed by the document model.
#[derive(Debug, Clone, Copy, PartialEq, Eq, Structural)]
pub enum AssociationKind {
    /// Design Docs associated with a PRD.
    PrdDesignDocs,
    /// Design Patches associated with a parent Design Doc.
    DesignDocPatches,
    /// Exec Plans associated with a Design Doc or Design Patch.
    DesignDocExecPlans,
    /// Direct Task Specs associated with a Design Doc.
    DesignDocTasks,
    /// Task Specs associated with an Exec Plan.
    ExecPlanTasks,
}

/// Minimal associated-document facts for status views and transition gates.
#[derive(Debug, PartialEq, Eq)]
pub struct AssociatedDocument {
    /// Canonical ID of the associated document.
    pub id: DocId,
    /// Document type.
    pub doc_type: DocType,
    /// Current lifecycle status.
    pub status: Status,
}

pub struct AssociatedView {
    pub id: SpecDocId,
    pub doc_type: DocType,
    pub status: Status,
}

impl View for AssociatedDocument {
    type V = AssociatedView;

    open spec fn view(&self) -> AssociatedView {
        AssociatedView { id: self.id@, doc_type: self.doc_type, status: self.status }
    }
}

pub open spec fn associated_view(v: Seq<AssociatedDocument>) -> Seq<AssociatedView> {
    v.map_values(|a: AssociatedDocument| a@)
}

/// Aggregated facts about one direct association set.
#[derive(Debug, PartialEq, Eq)]
pub struct AssociationSummary {
    /// Association set kind.
    pub kind: AssociationKind,
    /// Canonical owner document.
    pub owner: DocId,
    /// Related documents in deterministic canonical-id order.
    pub related: Vec<AssociatedDocument>,
}

pub struct SummaryView {
    pub kind: AssociationKind,
    pub owner: SpecDocId,
    pub related: Seq<AssociatedView>,
}

impl View for AssociationSummary {
    type V = SummaryView;

    open spec fn view(&self) -> SummaryView {
        SummaryView { kind: self.kind, owner: self.owner@, related: associated_view(self.related@) }
    }
}

} // verus!
