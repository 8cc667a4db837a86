//! Lifecycle transitions: which moves are legal, which related documents block
//! them, and the index predicted after a move.
use crate::doc::lifecycle::{
    expected_dir, expected_directory, is_legal_transition, is_live_status, legal_transition, live,
};
use crate::doc::load::{invalid_field, invalid_field_error};
use crate::doc::parse::{parse_reference_id, reference_id};
use crate::doc::path::{file_name, file_name_of, join_path, join_path_str};
use crate::doc::types::{
    doc_position, doc_type_name, docs_view, id_string, lemma_doc_position, status_name, DocId,
    DocType, Document, DocumentIndex, DocumentView, IndexView, SpecDocId, Status,
};
use crate::doc::validate::{contains_text, has_doc};
use crate::error::{DocumentModelError, ModelErrorView};
use crate::text::{append, concat2, concat3, owned, str_eq};
use vstd::prelude::*;

verus! {

/// The kinds of related documents that can hold a transition back.
#[derive(Debug, Clone, Copy, PartialEq, Eq, Structural)]
pub enum Gate {
    /// A live Design Doc that names the PRD being retired.
    PrdObsolete,
    /// An Exec Plan, not closed, that lists the Design Doc being implemented.
    DesignImplemented,
    /// A live Exec Plan that lists the Design Doc being retired.
    DesignObsolete,
    /// A Task Spec, not closed, of the Exec Plan being closed.
    ExecClosed,
}

/// Whether an optional field holds exactly `value`.
pub fn field_is(field: &Option<String>, value: &str) -> (r: bool)
    ensures
        r == (field.deep_view() == Some(value@)),
{
    match field {
        Some(f) => str_eq(f.as_str(), value),
        None => false,
    }
}

/// Whether document `c` blocks a transition of the document whose id is `owner`.
pub open spec fn blocks(g: Gate, c: DocumentView, owner: Seq<char>) -> bool {
    match g {
        Gate::PrdObsolete => c.doc_type == DocType::DesignDoc && live(c.doc_type, c.status)
            && c.frontmatter.prd == Some(owner),
        Gate::DesignImplemented => c.doc_type == DocType::ExecPlan
            && c.frontmatter.design_docs.contains(owner) && c.status != Status::Closed,
        Gate::DesignObsolete => c.doc_type == DocType::ExecPlan && live(c.doc_type, c.status)
            && c.frontmatter.design_docs.contains(owner),
        Gate::ExecClosed => c.doc_type == DocType::TaskSpec && c.frontmatter.exec_plan == Some(
            owner,
        ) && c.status != Status::Closed,
    }
}

/// The first document at or after position `i` that blocks the transition.
pub open spec fn first_blocker(docs: Seq<DocumentView>, g: Gate, owner: Seq<char>, i: int) -> Option<
    DocumentView,
>
    decreases docs.len() - i,
{
    if i < 0 || i >= docs.len() {
        None
    } else if blocks(g, docs[i], owner) {
        Some(docs[i])
    } else {
        first_blocker(docs, g, owner, i + 1)
    }
}

fn blocks_exec(g: Gate, c: &Document, owner: &str) -> (r: bool)
    ensures
        r == blocks(g, c@, owner@),
{
    match g {
        Gate::PrdObsolete => c.doc_type == DocType::DesignDoc && is_live_status(
            c.doc_type,
            c.status,
        ) && field_is(&c.frontmatter.prd, owner),
        Gate::DesignImplemented => c.doc_type == DocType::ExecPlan && contains_text(
            &c.frontmatter.design_docs,
            owner,
        ) && c.status != Status::Closed,
        Gate::DesignObsolete => c.doc_type == DocType::ExecPlan && is_live_status(
            c.doc_type,
            c.status,
        ) && contains_text(&c.frontmatter.design_docs, owner),
        Gate::ExecClosed => c.doc_type == DocType::TaskSpec && field_is(
            &c.frontmatter.exec_plan,
            owner,
        ) && c.status != Status::Closed,
    }
}

/// The first document, in canonical order, that blocks the transition.
pub fn find_blocker<'a>(docs: &'a Vec<Document>, g: Gate, owner: &str) -> (r: Option<&'a Document>)
    ensures
        match r {
            Some(b) => first_blocker(docs_view(docs@), g, owner@, 0) == Some(b@),
            None => first_blocker(docs_view(docs@), g, owner@, 0) is None,
        },
{
    let ghost dv = docs_view(docs@);
    let mut i: usize = 0;
    while i < docs.len()
        invariant
            i <= docs.len(),
            dv == docs_view(docs@),
            first_blocker(dv, g, owner@, 0) == first_blocker(dv, g, owner@, i as int),
        decreases docs.len() - i,
    {
        assert(dv[i as int] == docs@[i as int]@);
        if blocks_exec(g, &docs[i], owner) {
            return Some(&docs[i]);
        }
        i = i + 1;
    }
    None
}

/// The error a blocking document causes.
pub open spec fn blocked_error(
    idx: IndexView,
    d: DocumentView,
    g: Gate,
    target: Seq<char>,
) -> Option<ModelErrorView> {
    match first_blocker(idx.documents, g, id_string(d.id), 0) {
        Some(b) => Some(
            invalid_field(
                d.path,
                "status"@,
                "cannot transition to "@ + target + " while "@ + id_string(b.id) + " is "@
                    + status_name(b.status),
            ),
        ),
        None => None,
    }
}

/// What related documents demand of a legal transition: `None` when nothing blocks it.
pub open spec fn gate_error(idx: IndexView, d: DocumentView, to: Status) -> Option<ModelErrorView> {
    if d.doc_type == DocType::Prd && to == Status::Obsolete {
        blocked_error(idx, d, Gate::PrdObsolete, "obsolete"@)
    } else if d.doc_type == DocType::DesignDoc && to == Status::Implemented {
        blocked_error(idx, d, Gate::DesignImplemented, "implemented"@)
    } else if d.doc_type == DocType::DesignDoc && to == Status::Obsolete {
        blocked_error(idx, d, Gate::DesignObsolete, "obsolete"@)
    } else if d.doc_type == DocType::DesignPatch && to == Status::ObsoleteMerged {
        let target = match d.frontmatter.merged_into {
            Some(m) => reference_id(m),
            None => None,
        };
        match target {
            Some(r) => match r {
                SpecDocId::DesignDoc(_) => if has_doc(idx, r) {
                    None
                } else {
                    Some(
                        invalid_field(
                            d.path,
                            "status"@,
                            "cannot transition to obsolete:merged because merged-into "@
                                + id_string(r) + " does not exist"@,
                        ),
                    )
                },
                _ => Some(
                    invalid_field(
                        d.path,
                        "status"@,
                        "cannot transition to obsolete:merged without a valid merged-into Design Doc"@,
                    ),
                ),
            },
            None => Some(
                invalid_field(
                    d.path,
                    "status"@,
                    "cannot transition to obsolete:merged without a valid merged-into Design Doc"@,
                ),
            ),
        }
    } else if d.doc_type == DocType::ExecPlan && to == Status::Closed {
        blocked_error(idx, d, Gate::ExecClosed, "closed"@)
    } else {
        None
    }
}

/// Why moving `d` to `to` is refused: an illegal edge, else a blocking document.
pub open spec fn transition_error(idx: IndexView, d: DocumentView, to: Status) -> Option<
    ModelErrorView,
> {
    if !legal_transition(d.doc_type, d.status, to) {
        Some(
            ModelErrorView::IllegalTransition {
                doc_type: doc_type_name(d.doc_type),
                from: status_name(d.status),
                to: status_name(to),
            },
        )
    } else {
        gate_error(idx, d, to)
    }
}

fn blocked(index: &DocumentIndex, document: &Document, g: Gate, target: &str) -> (r: Result<
    (),
    DocumentModelError,
>)
    ensures
        match r {
            Ok(()) => blocked_error(index@, document@, g, target@) is None,
            Err(e) => blocked_error(index@, document@, g, target@) == Some(e@),
        },
{
    let owner = document.id.as_string();
    match find_blocker(index.documents.values(), g, owner.as_str()) {
        Some(b) => {
            let id = b.id.as_string();
            let mut m = concat3("cannot transition to ", target, " while ");
            append(&mut m, id.as_str());
            append(&mut m, " is ");
            append(&mut m, b.status.as_str());
            Err(invalid_field_error(document.path.as_str(), "status", m))
        },
        None => Ok(()),
    }
}

fn validate_transition_gate(index: &DocumentIndex, document: &Document, to: Status) -> (r: Result<
    (),
    DocumentModelError,
>)
    ensures
        match r {
            Ok(()) => gate_error(index@, document@, to) is None,
            Err(e) => gate_error(index@, document@, to) == Some(e@),
        },
{
    let t = document.doc_type;
    if t == DocType::Prd && to == Status::Obsolete {
        blocked(index, document, Gate::PrdObsolete, "obsolete")
    } else if t == DocType::DesignDoc && to == Status::Implemented {
        blocked(index, document, Gate::DesignImplemented, "implemented")
    } else if t == DocType::DesignDoc && to == Status::Obsolete {
        blocked(index, document, Gate::DesignObsolete, "obsolete")
    } else if t == DocType::DesignPatch && to == Status::ObsoleteMerged {
        let target = match &document.frontmatter.merged_into {
            Some(m) => parse_reference_id(m.as_str()),
            None => None,
        };
        let path = document.path.as_str();
        match target {
            Some(r) => match &r {
                DocId::DesignDoc(_) => {
                    if index.documents.contains_key(&r) {
                        Ok(())
                    } else {
                        let id = r.as_string();
                        let mut m = concat2(
                            "cannot transition to obsolete:merged because merged-into ",
                            id.as_str(),
                        );
                        append(&mut m, " does not exist");
                        Err(invalid_field_error(path, "status", m))
                    }
                },
                _ => Err(
                    invalid_field_error(
                        path,
                        "status",
                        owned(
                            "cannot transition to obsolete:merged without a valid merged-into Design Doc",
                        ),
                    ),
                ),
            },
            None => Err(
                invalid_field_error(
                    path,
                    "status",
                    owned(
                        "cannot transition to obsolete:merged without a valid merged-into Design Doc",
                    ),
                ),
            ),
        }
    } else if t == DocType::ExecPlan && to == Status::Closed {
        blocked(index, document, Gate::ExecClosed, "closed")
    } else {
        Ok(())
    }
}

/// Validates whether a status transition is legal for a loaded document.
pub fn validate_transition(index: &DocumentIndex, document: &Document, to: Status) -> (r: Result<
    (),
    DocumentModelError,
>)
    ensures
        match r {
            Ok(()) => transition_error(index@, document@, to) is None,
            Err(e) => transition_error(index@, document@, to) == Some(e@),
        },
{
    if !is_legal_transition(document.doc_type, document.status, to) {
        return Err(
            DocumentModelError::IllegalTransition {
                doc_type: owned(document.doc_type.as_str()),
                from: owned(document.status.as_str()),
                to: owned(to.as_str()),
            },
        );
    }
    validate_transition_gate(index, document, to)
}

/// Where a document lives once it has moved to `to`: Exec Plans and Task Specs
/// stay put, other types move to the directory of their new status.
pub open spec fn expected_path(root: Seq<char>, d: DocumentView, to: Status) -> Result<
    Seq<char>,
    ModelErrorView,
> {
    match file_name(d.path) {
        None => Err(invalid_field(d.path, "path"@, "missing file name"@)),
        Some(name) => if d.doc_type == DocType::ExecPlan || d.doc_type == DocType::TaskSpec {
            Ok(d.path)
        } else {
            match expected_dir(d.doc_type, to) {
                None => Err(
                    invalid_field(
                        d.path,
                        "status"@,
                        "no directory mapping for "@ + doc_type_name(d.doc_type) + " "@
                            + status_name(to),
                    ),
                ),
                Some(dir) => Ok(join_path(join_path(root, dir), name)),
            }
        },
    }
}

fn expected_path_for_document(root: &str, document: &Document, to: Status) -> (r: Result<
    String,
    DocumentModelError,
>)
    ensures
        match r {
            Ok(p) => expected_path(root@, document@, to) == Ok::<Seq<char>, ModelErrorView>(p@),
            Err(e) => expected_path(root@, document@, to) == Err::<Seq<char>, ModelErrorView>(e@),
        },
{
    let path = document.path.as_str();
    let name = match file_name_of(path) {
        Some(n) => n,
        None => {
            return Err(invalid_field_error(path, "path", owned("missing file name")));
        },
    };
    if document.doc_type == DocType::ExecPlan || document.doc_type == DocType::TaskSpec {
        return Ok(owned(path));
    }
    match expected_directory(document.doc_type, to) {
        None => {
            let mut m = concat3("no directory mapping for ", document.doc_type.as_str(), " ");
            append(&mut m, to.as_str());
            Err(invalid_field_error(path, "status", m))
        },
        Some(dir) => {
            let base = join_path_str(root, dir);
            Ok(join_path_str(base.as_str(), name.as_str()))
        },
    }
}

/// The index predicted after moving `d` to `to`: the same index, with that
/// document's status and location updated.
pub open spec fn preview_of(idx: IndexView, d: DocumentView, to: Status) -> Result<
    IndexView,
    ModelErrorView,
> {
    match doc_position(idx.documents, d.id) {
        None => Err(
            invalid_field(
                d.path,
                "id"@,
                "document "@ + id_string(d.id) + " is not present in the current index"@,
            ),
        ),
        Some(i) => match expected_path(idx.repo_root, idx.documents[i], to) {
            Err(e) => Err(e),
            Ok(p) => Ok(
                IndexView {
                    documents: idx.documents.update(
                        i,
                        DocumentView { status: to, path: p, ..idx.documents[i] },
                    ),
                    ..idx
                },
            ),
        },
    }
}

/// Builds a predicted repository index for a proposed status transition.
pub fn preview_transition(index: &DocumentIndex, document: &Document, to: Status) -> (r: Result<
    DocumentIndex,
    DocumentModelError,
>)
    ensures
        match r {
            Ok(p) => preview_of(index@, document@, to) == Ok::<IndexView, ModelErrorView>(p@),
            Err(e) => preview_of(index@, document@, to) == Err::<IndexView, ModelErrorView>(e@),
        },
{
    let mut preview = index.clone();
    let i = match preview.documents.position(&document.id) {
        Some(i) => i,
        None => {
            let id = document.id.as_string();
            let mut m = concat2("document ", id.as_str());
            append(&mut m, " is not present in the current index");
            return Err(invalid_field_error(document.path.as_str(), "id", m));
        },
    };
    proof {
        lemma_doc_position(index@.documents, document@.id);
    }
    let ghost entry = index@.documents[i as int];
    let path = {
        let docs = preview.documents.values();
        assert(docs@[i as int]@ == entry);
        expected_path_for_document(preview.repo_root.as_str(), &docs[i], to)
    };
    match path {
        Err(e) => Err(e),
        Ok(p) => {
            preview.documents.relocate(i, to, p);
            Ok(preview)
        },
    }
}

/// A transition that validation accepts follows an edge of the document's lifecycle.
pub proof fn lemma_accepted_transition_is_legal(idx: IndexView, d: DocumentView, to: Status)
    requires
        transition_error(idx, d, to) is None,
    ensures
        legal_transition(d.doc_type, d.status, to),
{
}

/// A preview changes nothing but the moved document: the root, the invalid
/// entries, the ignored paths and every other document stay as they were, the
/// moved document keeps its id, type and contents and takes the new status, and
/// Exec Plans and Task Specs keep their location.
pub proof fn lemma_preview_changes_only_the_moved_document(
    idx: IndexView,
    d: DocumentView,
    to: Status,
)
    requires
        preview_of(idx, d, to) is Ok,
    ensures
        ({
            let p = preview_of(idx, d, to)->Ok_0;
            &&& p.repo_root == idx.repo_root
            &&& p.invalid_entries == idx.invalid_entries
            &&& p.ignored_paths == idx.ignored_paths
            &&& p.documents.len() == idx.documents.len()
            &&& exists|i: int|
                0 <= i < idx.documents.len() && #[trigger] idx.documents[i].id == d.id
                    && p.documents[i] == DocumentView {
                    status: to,
                    path: p.documents[i].path,
                    ..idx.documents[i]
                } && ((idx.documents[i].doc_type == DocType::ExecPlan
                    || idx.documents[i].doc_type == DocType::TaskSpec) ==> p.documents[i].path
                    == idx.documents[i].path) && forall|j: int|
                    0 <= j < idx.documents.len() && j != i ==> p.documents[j]
                        == idx.documents[j]
        }),
{
    lemma_doc_position(idx.documents, d.id);
    let i = doc_position(idx.documents, d.id)->0;
    let p = preview_of(idx, d, to)->Ok_0;
    assert(idx.documents[i].id == d.id);
    assert(p.documents[i] == DocumentView { status: to, path: p.documents[i].path, ..idx.documents[i] });
}

} // verus!
