//! Direct associations between managed documents.
use crate::doc::lifecycle::{is_terminal_status, terminal};
use crate::doc::transition::field_is;
use crate::doc::types::{
    associated_view, docs_view, AssociatedDocument, AssociatedView, AssociationKind,
    AssociationSummary, DocType, Document, DocumentIndex, DocumentView, IndexView, Status,
    SummaryView, id_lt, id_string, ids_ascending,
};
use crate::doc::index::{index_of, lemma_index_documents_ordered, ScanView};
use crate::doc::validate::contains_text;
use vstd::prelude::*;

verus! {

/// Whether `c` belongs to the association set of kind `kind` owned by the id `owner`.
pub open spec fn associated(kind: AssociationKind, c: DocumentView, owner: Seq<char>) -> bool {
    match kind {
        AssociationKind::PrdDesignDocs => c.doc_type == DocType::DesignDoc && c.frontmatter.prd
            == Some(owner),
        AssociationKind::DesignDocPatches => c.doc_type == DocType::DesignPatch
            && c.frontmatter.parent == Some(owner),
        AssociationKind::DesignDocExecPlans => c.doc_type == DocType::ExecPlan
            && c.frontmatter.design_docs.contains(owner),
        AssociationKind::DesignDocTasks => false,
        AssociationKind::ExecPlanTasks => c.doc_type == DocType::TaskSpec
            && c.frontmatter.exec_plan == Some(owner),
    }
}

pub open spec fn associated_fact(c: DocumentView) -> AssociatedView {
    AssociatedView { id: c.id, doc_type: c.doc_type, status: c.status }
}

/// The associated facts of the members among the first `n` documents, in order.
pub open spec fn related_upto(
    docs: Seq<DocumentView>,
    kind: AssociationKind,
    owner: Seq<char>,
    n: nat,
) -> Seq<AssociatedView>
    decreases n,
{
    if n == 0 || n > docs.len() {
        Seq::empty()
    } else {
        related_upto(docs, kind, owner, (n - 1) as nat) + if associated(kind, docs[n - 1], owner) {
            seq![associated_fact(docs[n - 1])]
        } else {
            Seq::empty()
        }
    }
}

pub open spec fn summary_of(idx: IndexView, d: DocumentView, kind: AssociationKind) -> SummaryView {
    SummaryView {
        kind,
        owner: d.id,
        related: related_upto(idx.documents, kind, id_string(d.id), idx.documents.len()),
    }
}

/// The association sets a document owns, by its type.
pub open spec fn summaries_of(idx: IndexView, d: DocumentView) -> Seq<SummaryView> {
    match d.doc_type {
        DocType::Prd => seq![summary_of(idx, d, AssociationKind::PrdDesignDocs)],
        DocType::DesignDoc => seq![
            summary_of(idx, d, AssociationKind::DesignDocPatches),
            summary_of(idx, d, AssociationKind::DesignDocExecPlans),
            summary_of(idx, d, AssociationKind::DesignDocTasks),
        ],
        DocType::ExecPlan => seq![summary_of(idx, d, AssociationKind::ExecPlanTasks)],
        _ => Seq::empty(),
    }
}

fn associated_exec(kind: AssociationKind, c: &Document, owner: &str) -> (r: bool)
    ensures
        r == associated(kind, c@, owner@),
{
    match kind {
        AssociationKind::PrdDesignDocs => c.doc_type == DocType::DesignDoc && field_is(
            &c.frontmatter.prd,
            owner,
        ),
        AssociationKind::DesignDocPatches => c.doc_type == DocType::DesignPatch && field_is(
            &c.frontmatter.parent,
            owner,
        ),
        AssociationKind::DesignDocExecPlans => c.doc_type == DocType::ExecPlan && contains_text(
            &c.frontmatter.design_docs,
            owner,
        ),
        AssociationKind::DesignDocTasks => false,
        AssociationKind::ExecPlanTasks => c.doc_type == DocType::TaskSpec && field_is(
            &c.frontmatter.exec_plan,
            owner,
        ),
    }
}

fn associated_document(document: &Document) -> (r: AssociatedDocument)
    ensures
        r@ == associated_fact(document@),
{
    AssociatedDocument { id: document.id.clone(), doc_type: document.doc_type, status: document.status }
}

fn summary(index: &DocumentIndex, document: &Document, kind: AssociationKind) -> (r:
    AssociationSummary)
    ensures
        r@ == summary_of(index@, document@, kind),
{
    let owner = document.id.as_string();
    let docs = index.documents.values();
    let ghost dv = docs_view(docs@);
    let mut related: Vec<AssociatedDocument> = Vec::new();
    let mut i: usize = 0;
    assert(associated_view(related@) =~= related_upto(dv, kind, owner@, 0));
    while i < docs.len()
        invariant
            i <= docs.len(),
            dv == docs_view(docs@),
            associated_view(related@) == related_upto(dv, kind, owner@, i as nat),
        decreases docs.len() - i,
    {
        assert(dv[i as int] == docs@[i as int]@);
        let ghost before = associated_view(related@);
        if associated_exec(kind, &docs[i], owner.as_str()) {
            related.push(associated_document(&docs[i]));
        }
        assert(associated_view(related@) =~= related_upto(dv, kind, owner@, (i + 1) as nat));
        i = i + 1;
    }
    AssociationSummary { kind, owner: document.id.clone(), related }
}

/// Builds direct-association summaries for the provided document.
pub fn association_summaries(index: &DocumentIndex, document: &Document) -> (r: Vec<
    AssociationSummary,
>)
    ensures
        r@.map_values(|s: AssociationSummary| s@) == summaries_of(index@, document@),
{
    let mut r: Vec<AssociationSummary> = Vec::new();
    match document.doc_type {
        DocType::Prd => {
            r.push(summary(index, document, AssociationKind::PrdDesignDocs));
        },
        DocType::DesignDoc => {
            r.push(summary(index, document, AssociationKind::DesignDocPatches));
            r.push(summary(index, document, AssociationKind::DesignDocExecPlans));
            r.push(summary(index, document, AssociationKind::DesignDocTasks));
        },
        DocType::ExecPlan => {
            r.push(summary(index, document, AssociationKind::ExecPlanTasks));
        },
        _ => {},
    }
    assert(r@.map_values(|s: AssociationSummary| s@) =~= summaries_of(index@, document@));
    r
}

impl AssociationSummary {
    /// Returns whether this association set is empty.
    pub fn is_empty(&self) -> (r: bool)
        ensures
            r == (self@.related.len() == 0),
    {
        self.related.len() == 0
    }

    /// Returns whether every related document is in the provided status.
    pub fn all_in_status(&self, status: Status) -> (r: bool)
        ensures
            r == (self@.related.len() > 0 && forall|i: int|
                0 <= i < self@.related.len() ==> #[trigger] self@.related[i].status == status),
    {
        if self.related.len() == 0 {
            return false;
        }
        let mut i: usize = 0;
        while i < self.related.len()
            invariant
                i <= self.related.len(),
                forall|j: int| 0 <= j < i ==> #[trigger] self@.related[j].status == status,
            decreases self.related.len() - i,
        {
            assert(self@.related[i as int] == self.related@[i as int]@);
            if self.related[i].status != status {
                assert(!(self@.related[i as int].status == status));
                return false;
            }
            i = i + 1;
        }
        true
    }

    /// Returns whether every related document is terminal for its own type.
    pub fn all_terminal(&self) -> (r: bool)
        ensures
            r == (self@.related.len() > 0 && forall|i: int|
                0 <= i < self@.related.len() ==> terminal(
                    #[trigger] self@.related[i].doc_type,
                    self@.related[i].status,
                )),
    {
        if self.related.len() == 0 {
            return false;
        }
        let mut i: usize = 0;
        while i < self.related.len()
            invariant
                i <= self.related.len(),
                forall|j: int|
                    0 <= j < i ==> terminal(#[trigger] self@.related[j].doc_type, self@.related[j].status),
            decreases self.related.len() - i,
        {
            assert(self@.related[i as int] == self.related@[i as int]@);
            if !is_terminal_status(self.related[i].doc_type, self.related[i].status) {
                assert(!terminal(self@.related[i as int].doc_type, self@.related[i as int].status));
                return false;
            }
            i = i + 1;
        }
        true
    }
}

proof fn lemma_related_upto_ordered(
    docs: Seq<DocumentView>,
    kind: AssociationKind,
    owner: Seq<char>,
    n: nat,
)
    requires
        ids_ascending(docs),
    ensures
        forall|a: int|
            0 <= a < related_upto(docs, kind, owner, n).len() ==> exists|k: int|
                0 <= k < n && k < docs.len() && (#[trigger] related_upto(docs, kind, owner, n)[a]).id
                    == docs[k].id,
        forall|a: int, b: int|
            0 <= a < b < related_upto(docs, kind, owner, n).len() ==> id_lt(
                (#[trigger] related_upto(docs, kind, owner, n)[a]).id,
                (#[trigger] related_upto(docs, kind, owner, n)[b]).id,
            ),
    decreases n,
{
    if n > 0 && n <= docs.len() {
        lemma_related_upto_ordered(docs, kind, owner, (n - 1) as nat);
        let prev = related_upto(docs, kind, owner, (n - 1) as nat);
        let cur = related_upto(docs, kind, owner, n);
        assert forall|a: int| 0 <= a < cur.len() implies exists|k: int|
            0 <= k < n && k < docs.len() && (#[trigger] cur[a]).id == docs[k].id by {
            if a < prev.len() {
                assert(cur[a] == prev[a]);
                let k = choose|k: int| 0 <= k < n - 1 && k < docs.len() && prev[a].id == docs[k].id;
                assert(cur[a].id == docs[k].id);
            } else {
                assert(cur[a].id == docs[n - 1].id);
            }
        }
        assert forall|a: int, b: int| 0 <= a < b < cur.len() implies id_lt(
            (#[trigger] cur[a]).id,
            (#[trigger] cur[b]).id,
        ) by {
            if b < prev.len() {
                assert(cur[a] == prev[a] && cur[b] == prev[b]);
            } else {
                assert(cur[a] == prev[a]);
                let k = choose|k: int| 0 <= k < n - 1 && k < docs.len() && prev[a].id == docs[k].id;
                assert(cur[b].id == docs[n - 1].id);
                assert(id_lt(docs[k].id, docs[n - 1].id));
            }
        }
    }
}

/// The related documents of every association set of a repository index come in
/// canonical id order.
pub proof fn lemma_related_in_id_order(
    repo_root: Seq<char>,
    files: Seq<ScanView>,
    d: DocumentView,
    kind: AssociationKind,
)
    ensures
        ({
            let related = summary_of(index_of(repo_root, files), d, kind).related;
            forall|a: int, b: int|
                0 <= a < b < related.len() ==> id_lt(
                    (#[trigger] related[a]).id,
                    (#[trigger] related[b]).id,
                )
        }),
{
    let idx = index_of(repo_root, files);
    lemma_index_documents_ordered(repo_root, files);
    lemma_related_upto_ordered(idx.documents, kind, id_string(d.id), idx.documents.len());
}

} // verus!
