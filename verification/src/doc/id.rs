//! Allocation of new document identities against a compliant repository.
use crate::doc::index::{index_of, scans_view, ScannedFile};
use crate::doc::load::{invalid_field, invalid_field_error};
use crate::doc::types::{doc_type_name, DocId, DocType, DocumentView, SpecDocId};
use crate::doc::validate::{build_compliant_index, compliance_error};
use crate::error::{DocumentModelError, ModelErrorView};
use crate::text::{append, concat3, str_eq};
use vstd::prelude::*;

verus! {

/// Whether `id` occupies `slug` for documents of type `t` (PRDs, Design Docs and Exec Plans).
pub open spec fn occupies(id: SpecDocId, t: DocType, slug: Seq<char>) -> bool {
    match id {
        SpecDocId::Prd(s) => t == DocType::Prd && s == slug,
        SpecDocId::DesignDoc(s) => t == DocType::DesignDoc && s == slug,
        SpecDocId::ExecPlan(s) => t == DocType::ExecPlan && s == slug,
        _ => false,
    }
}

pub open spec fn slug_taken(docs: Seq<DocumentView>, t: DocType, slug: Seq<char>) -> bool {
    exists|i: int| 0 <= i < docs.len() && occupies(#[trigger] docs[i].id, t, slug)
}

/// The message for a slug that is already in use.
pub open spec fn slug_in_use(slug: Seq<char>, t: DocType) -> Seq<char> {
    "slug `"@ + slug + "` is already in use for "@ + doc_type_name(t)
}

/// The outcome of reserving `slug` for a new document of type `t`.
pub open spec fn unique_slug_result(
    root: Seq<char>,
    files: Seq<crate::doc::index::ScanView>,
    t: DocType,
    slug: Seq<char>,
) -> Option<ModelErrorView> {
    let idx = index_of(root, files);
    match compliance_error(idx) {
        Some(e) => Some(e),
        None => if slug_taken(idx.documents, t, slug) {
            Some(invalid_field(idx.repo_root, "id"@, slug_in_use(slug, t)))
        } else {
            None
        },
    }
}

/// Ensures a proposed slug is not already occupied for the given document type.
pub fn ensure_unique_slug(
    repo_root: String,
    files: Vec<ScannedFile>,
    doc_type: DocType,
    slug: &str,
) -> (r: Result<(), DocumentModelError>)
    ensures
        match r {
            Ok(()) => unique_slug_result(repo_root@, scans_view(files@), doc_type, slug@) is None,
            Err(e) => unique_slug_result(repo_root@, scans_view(files@), doc_type, slug@) == Some(
                e@,
            ),
        },
{
    let ghost root = repo_root@;
    let ghost scans = scans_view(files@);
    let index = match build_compliant_index(repo_root, files) {
        Ok(index) => index,
        Err(e) => {
            return Err(e);
        },
    };
    let docs = index.documents.values();
    let mut i: usize = 0;
    while i < docs.len()
        invariant
            i <= docs.len(),
            index@ == index_of(root, scans),
            root == repo_root@,
            scans == scans_view(files@),
            compliance_error(index@) is None,
            crate::doc::types::docs_view(docs@) == index@.documents,
            forall|j: int| 0 <= j < i ==> !occupies(#[trigger] index@.documents[j].id, doc_type, slug@),
        decreases docs.len() - i,
    {
        assert(index@.documents[i as int] == docs@[i as int]@);
        let occupied = match &docs[i].id {
            DocId::Prd(s) => doc_type == DocType::Prd && str_eq(s.as_str(), slug),
            DocId::DesignDoc(s) => doc_type == DocType::DesignDoc && str_eq(s.as_str(), slug),
            DocId::ExecPlan(s) => doc_type == DocType::ExecPlan && str_eq(s.as_str(), slug),
            _ => false,
        };
        if occupied {
            assert(occupies(index@.documents[i as int].id, doc_type, slug@));
            let mut m = concat3("slug `", slug, "` is already in use for ");
            append(&mut m, doc_type.as_str());
            assert(slug_taken(index@.documents, doc_type, slug@));
            assert(m@ == slug_in_use(slug@, doc_type));
            return Err(invalid_field_error(index.repo_root.as_str(), "id", m));
        }
        i = i + 1;
    }
    Ok(())
}

/// The largest sequence among the ids of the first `n` documents that `seq_of` selects (0 if none).
pub open spec fn max_sequence(docs: Seq<DocumentView>, sel: spec_fn(SpecDocId) -> Option<u32>, n: nat) -> nat
    decreases n,
{
    if n == 0 || n > docs.len() {
        0
    } else {
        let rest = max_sequence(docs, sel, (n - 1) as nat);
        match sel(docs[n - 1].id) {
            Some(s) => if s > rest {
                s as nat
            } else {
                rest
            },
            None => rest,
        }
    }
}

/// The patch sequence of a Design Patch of the Design Doc `parent`.
pub open spec fn patch_of(parent: Seq<char>) -> spec_fn(SpecDocId) -> Option<u32> {
    |id: SpecDocId|
        match id {
            SpecDocId::DesignPatch { parent_slug, sequence, .. } => if parent_slug == parent {
                Some(sequence)
            } else {
                None
            },
            _ => None,
        }
}

/// The task sequence of a Task Spec of the Exec Plan `exec`.
pub open spec fn task_of(exec: Seq<char>) -> spec_fn(SpecDocId) -> Option<u32> {
    |id: SpecDocId|
        match id {
            SpecDocId::TaskSpec { exec_slug, sequence } => if exec_slug == exec {
                Some(sequence)
            } else {
                None
            },
            _ => None,
        }
}

proof fn lemma_max_sequence_bound(docs: Seq<DocumentView>, sel: spec_fn(SpecDocId) -> Option<u32>, n: nat)
    ensures
        max_sequence(docs, sel, n) <= u32::MAX,
    decreases n,
{
    if n > 0 && n <= docs.len() {
        lemma_max_sequence_bound(docs, sel, (n - 1) as nat);
    }
}

/// The next free sequence: one past the largest that `sel` selects in the compliant index.
pub open spec fn next_sequence_result(
    root: Seq<char>,
    files: Seq<crate::doc::index::ScanView>,
    sel: spec_fn(SpecDocId) -> Option<u32>,
) -> Result<nat, ModelErrorView> {
    let idx = index_of(root, files);
    match compliance_error(idx) {
        Some(e) => Err(e),
        None => Ok(max_sequence(idx.documents, sel, idx.documents.len()) + 1),
    }
}

/// Allocates the next patch sequence number for a parent design slug.
pub fn next_patch_number(repo_root: String, files: Vec<ScannedFile>, parent_slug: &str) -> (r: Result<
    u32,
    DocumentModelError,
>)
    requires
        ({
            let idx = index_of(repo_root@, scans_view(files@));
            compliance_error(idx) is None ==> max_sequence(idx.documents, patch_of(parent_slug@), idx.documents.len())
                < u32::MAX
        }),
    ensures
        match r {
            Ok(n) => next_sequence_result(repo_root@, scans_view(files@), patch_of(parent_slug@))
                == Ok::<nat, ModelErrorView>(n as nat),
            Err(e) => next_sequence_result(repo_root@, scans_view(files@), patch_of(parent_slug@))
                == Err::<nat, ModelErrorView>(e@),
        },
{
    let ghost root = repo_root@;
    let ghost scans = scans_view(files@);
    let ghost sel = patch_of(parent_slug@);
    let index = build_compliant_index(repo_root, files)?;
    let docs = index.documents.values();
    let ghost dv = index@.documents;
    let mut max: u32 = 0;
    let mut i: usize = 0;
    while i < docs.len()
        invariant
            i <= docs.len(),
            dv == crate::doc::types::docs_view(docs@),
            sel == patch_of(parent_slug@),
            max as nat == max_sequence(dv, sel, i as nat),
        decreases docs.len() - i,
    {
        assert(dv[i as int] == docs@[i as int]@);
        match &docs[i].id {
            DocId::DesignPatch { parent_slug: existing, sequence, .. } => {
                if str_eq(existing.as_str(), parent_slug) && *sequence > max {
                    max = *sequence;
                }
            },
            _ => {},
        }
        i = i + 1;
    }
    Ok(max + 1)
}

/// Allocates the next task sequence number for an exec plan slug.
pub fn next_task_sequence(repo_root: String, files: Vec<ScannedFile>, exec_slug: &str) -> (r: Result<
    u32,
    DocumentModelError,
>)
    requires
        ({
            let idx = index_of(repo_root@, scans_view(files@));
            compliance_error(idx) is None ==> max_sequence(idx.documents, task_of(exec_slug@), idx.documents.len())
                < u32::MAX
        }),
    ensures
        match r {
            Ok(n) => next_sequence_result(repo_root@, scans_view(files@), task_of(exec_slug@))
                == Ok::<nat, ModelErrorView>(n as nat),
            Err(e) => next_sequence_result(repo_root@, scans_view(files@), task_of(exec_slug@))
                == Err::<nat, ModelErrorView>(e@),
        },
{
    let ghost sel = task_of(exec_slug@);
    let index = build_compliant_index(repo_root, files)?;
    let docs = index.documents.values();
    let ghost dv = index@.documents;
    let mut max: u32 = 0;
    let mut i: usize = 0;
    while i < docs.len()
        invariant
            i <= docs.len(),
            dv == crate::doc::types::docs_view(docs@),
            sel == task_of(exec_slug@),
            max as nat == max_sequence(dv, sel, i as nat),
        decreases docs.len() - i,
    {
        assert(dv[i as int] == docs@[i as int]@);
        match &docs[i].id {
            DocId::TaskSpec { exec_slug: existing, sequence } => {
                if str_eq(existing.as_str(), exec_slug) && *sequence > max {
                    max = *sequence;
                }
            },
            _ => {},
        }
        i = i + 1;
    }
    Ok(max + 1)
}

proof fn lemma_max_sequence_covers(docs: Seq<DocumentView>, sel: spec_fn(SpecDocId) -> Option<u32>, n: nat)
    ensures
        forall|k: int|
            0 <= k < n && n <= docs.len() && (#[trigger] sel(docs[k].id)) is Some ==> sel(
                docs[k].id,
            )->0 <= max_sequence(docs, sel, n),
    decreases n,
{
    if n > 0 && n <= docs.len() {
        lemma_max_sequence_covers(docs, sel, (n - 1) as nat);
    }
}

/// A new patch number is larger than the number of every Design Patch of the same
/// parent Design Doc in the repository.
pub proof fn lemma_next_patch_number_is_fresh(
    root: Seq<char>,
    files: Seq<crate::doc::index::ScanView>,
    parent: Seq<char>,
)
    requires
        next_sequence_result(root, files, patch_of(parent)) is Ok,
    ensures
        ({
            let docs = index_of(root, files).documents;
            let n = next_sequence_result(root, files, patch_of(parent))->Ok_0;
            forall|k: int|
                0 <= k < docs.len() ==> ((#[trigger] docs[k].id) is DesignPatch && docs[k].id->parent_slug == parent
                    ==> docs[k].id->DesignPatch_sequence < n)
        }),
{
    let docs = index_of(root, files).documents;
    lemma_max_sequence_covers(docs, patch_of(parent), docs.len());
    assert forall|k: int|
        0 <= k < docs.len() && (#[trigger] docs[k].id) is DesignPatch && docs[k].id->parent_slug
            == parent implies docs[k].id->DesignPatch_sequence < next_sequence_result(
        root,
        files,
        patch_of(parent),
    )->Ok_0 by {
        if docs[k].id is DesignPatch {
            let _ = patch_of(parent)(docs[k].id);
        }
    }
}

/// A new task number is larger than the number of every Task Spec of the same
/// Exec Plan in the repository.
pub proof fn lemma_next_task_sequence_is_fresh(
    root: Seq<char>,
    files: Seq<crate::doc::index::ScanView>,
    exec: Seq<char>,
)
    requires
        next_sequence_result(root, files, task_of(exec)) is Ok,
    ensures
        ({
            let docs = index_of(root, files).documents;
            let n = next_sequence_result(root, files, task_of(exec))->Ok_0;
            forall|k: int|
                0 <= k < docs.len() ==> ((#[trigger] docs[k].id) is TaskSpec && docs[k].id->exec_slug == exec
                    ==> docs[k].id->TaskSpec_sequence < n)
        }),
{
    let docs = index_of(root, files).documents;
    lemma_max_sequence_covers(docs, task_of(exec), docs.len());
    assert forall|k: int|
        0 <= k < docs.len() && (#[trigger] docs[k].id) is TaskSpec && docs[k].id->exec_slug
            == exec implies docs[k].id->TaskSpec_sequence < next_sequence_result(
        root,
        files,
        task_of(exec),
    )->Ok_0 by {
        if docs[k].id is TaskSpec {
            let _ = task_of(exec)(docs[k].id);
        }
    }
}

} // verus!
