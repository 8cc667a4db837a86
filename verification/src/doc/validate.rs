//! Repository-level validation: rules that depend on several loaded documents.
use crate::doc::lifecycle::{is_live_status, live, terminal};
use crate::doc::parse::{
    guideline_reference, is_completion_criterion_id, is_criterion_id, parse_guideline_reference,
    parse_reference_id, reference_id,
};
use crate::doc::types::{
    id_string, lookup, status_name, violations_view, CompletionCriterion, DocId, DocType,
    Document, DocumentIndex, DocumentView, IndexView, SpecDocId, Status, ValidationViolation,
    ViolationView, criteria_view, docs_view,
};
use crate::doc::index::{build_index, index_of, scans_view, ScannedFile};
use crate::doc::types::decimal_string;
use crate::error::{DocumentModelError, ModelErrorView};
use crate::text::{append, concat2, concat3, decimal, owned, str_eq, trim, trim_str};
use vstd::prelude::*;

verus! {

pub open spec fn vio(path: Seq<char>, message: Seq<char>) -> Seq<ViolationView> {
    seq![ViolationView { path, message }]
}

pub open spec fn has_doc(idx: IndexView, id: SpecDocId) -> bool {
    lookup(idx.documents, id) is Some
}

/// A Design Patch's `parent` must name an existing Design Doc.
pub open spec fn parent_violations(idx: IndexView, d: DocumentView) -> Seq<ViolationView> {
    if d.doc_type != DocType::DesignPatch {
        Seq::empty()
    } else {
        match d.frontmatter.parent {
            None => Seq::empty(),
            Some(p) => match reference_id(p) {
                None => Seq::empty(),
                Some(r) => match r {
                    SpecDocId::DesignDoc(_) => if has_doc(idx, r) {
                        Seq::empty()
                    } else {
                        vio(d.path, "parent "@ + id_string(r) + " does not exist"@)
                    },
                    _ => vio(
                        d.path,
                        "parent must reference a Design Doc, found "@ + id_string(r),
                    ),
                },
            },
        }
    }
}

/// A Design Doc reference field (`merged-into`, `superseded-by`) must name an existing Design Doc.
pub open spec fn design_ref_violations(
    idx: IndexView,
    path: Seq<char>,
    field: Seq<char>,
    value: Option<Seq<char>>,
) -> Seq<ViolationView> {
    match value {
        None => Seq::empty(),
        Some(v) => match reference_id(v) {
            Some(r) => match r {
                SpecDocId::DesignDoc(_) => if has_doc(idx, r) {
                    Seq::empty()
                } else {
                    vio(path, field + " "@ + id_string(r) + " does not exist"@)
                },
                _ => vio(path, field + " must reference a Design Doc, found "@ + v),
            },
            None => vio(path, field + " must reference a Design Doc, found "@ + v),
        },
    }
}

/// A `prd` reference must name an existing PRD, which a live document may not see obsolete.
pub open spec fn prd_violations(idx: IndexView, d: DocumentView) -> Seq<ViolationView> {
    match d.frontmatter.prd {
        None => Seq::empty(),
        Some(p) => match reference_id(p) {
            Some(r) => match r {
                SpecDocId::Prd(_) => match lookup(idx.documents, r) {
                    Some(target) => if live(d.doc_type, d.status) && target.status
                        == Status::Obsolete {
                        vio(d.path, "prd "@ + id_string(r) + " is obsolete"@)
                    } else {
                        Seq::empty()
                    },
                    None => vio(d.path, "prd "@ + id_string(r) + " does not exist"@),
                },
                _ => vio(d.path, "prd must reference a PRD, found "@ + p),
            },
            None => vio(d.path, "prd must reference a PRD, found "@ + p),
        },
    }
}

/// An `exec-plan` reference must name an existing Exec Plan, which a live document may not see closed.
pub open spec fn exec_plan_violations(idx: IndexView, d: DocumentView) -> Seq<ViolationView> {
    match d.frontmatter.exec_plan {
        None => Seq::empty(),
        Some(e) => match reference_id(e) {
            Some(r) => match r {
                SpecDocId::ExecPlan(_) => match lookup(idx.documents, r) {
                    Some(target) => if live(d.doc_type, d.status) && target.status
                        == Status::Closed {
                        vio(d.path, "exec-plan "@ + id_string(r) + " has invalid status closed"@)
                    } else {
                        Seq::empty()
                    },
                    None => vio(d.path, "exec-plan "@ + id_string(r) + " does not exist"@),
                },
                _ => vio(d.path, "exec-plan must reference an Exec Plan, found "@ + e),
            },
            None => vio(d.path, "exec-plan must reference an Exec Plan, found "@ + e),
        },
    }
}

/// Each guideline path must resolve to a loaded Guideline.
pub open spec fn guideline_violation(idx: IndexView, path: Seq<char>, g: Seq<char>) -> Seq<
    ViolationView,
> {
    match guideline_reference(g) {
        Some(r) => if has_doc(idx, SpecDocId::Guideline(r)) {
            Seq::empty()
        } else {
            vio(path, "guideline "@ + trim(g) + " does not resolve to a Guideline"@)
        },
        None => vio(path, "guideline "@ + trim(g) + " does not resolve to a Guideline"@),
    }
}

pub open spec fn guideline_violations(idx: IndexView, path: Seq<char>, gs: Seq<Seq<char>>, n: nat) -> Seq<
    ViolationView,
>
    decreases n,
{
    if n == 0 || n > gs.len() {
        Seq::empty()
    } else {
        guideline_violations(idx, path, gs, (n - 1) as nat) + guideline_violation(
            idx,
            path,
            gs[n - 1],
        )
    }
}

/// The `i`-th `design-docs` entry of an Exec Plan: first occurrence, a Design Doc or
/// Design Patch reference, to an existing candidate or implemented document.
pub open spec fn design_entry_violation(idx: IndexView, path: Seq<char>, dd: Seq<Seq<char>>, i: int) -> Seq<
    ViolationView,
> {
    let raw = dd[i];
    if exists|j: int| 0 <= j < i && dd[j] == raw {
        vio(path, "duplicate design-docs reference "@ + raw)
    } else {
        match reference_id(raw) {
            Some(r) => if r is DesignDoc || r is DesignPatch {
                match lookup(idx.documents, r) {
                    Some(target) => if target.status == Status::Candidate || target.status
                        == Status::Implemented {
                        Seq::empty()
                    } else {
                        vio(
                            path,
                            "design-docs reference "@ + id_string(r) + " has invalid status "@
                                + status_name(target.status),
                        )
                    },
                    None => vio(path, "design-docs reference "@ + id_string(r) + " does not exist"@),
                }
            } else {
                vio(
                    path,
                    "design-docs entry "@ + raw + " must reference a Design Doc or Design Patch"@,
                )
            },
            None => vio(
                path,
                "design-docs entry "@ + raw + " must reference a Design Doc or Design Patch"@,
            ),
        }
    }
}

pub open spec fn design_entry_violations(idx: IndexView, path: Seq<char>, dd: Seq<Seq<char>>, n: nat) -> Seq<
    ViolationView,
>
    decreases n,
{
    if n == 0 || n > dd.len() {
        Seq::empty()
    } else {
        design_entry_violations(idx, path, dd, (n - 1) as nat) + design_entry_violation(
            idx,
            path,
            dd,
            n - 1,
        )
    }
}

/// A Design Patch listed in `design-docs` requires its parent Design Doc there too.
pub open spec fn patch_parent_violation(path: Seq<char>, dd: Seq<Seq<char>>, i: int) -> Seq<
    ViolationView,
> {
    match reference_id(dd[i]) {
        Some(r) => match r {
            SpecDocId::DesignPatch { parent_slug, .. } => {
                let parent = "design-"@ + parent_slug;
                if dd.contains(parent) {
                    Seq::empty()
                } else {
                    vio(
                        path,
                        "design patch "@ + dd[i] + " requires parent design "@ + parent
                            + " in design-docs"@,
                    )
                }
            },
            _ => Seq::empty(),
        },
        None => Seq::empty(),
    }
}

pub open spec fn patch_parent_violations(path: Seq<char>, dd: Seq<Seq<char>>, n: nat) -> Seq<
    ViolationView,
>
    decreases n,
{
    if n == 0 || n > dd.len() {
        Seq::empty()
    } else {
        patch_parent_violations(path, dd, (n - 1) as nat) + patch_parent_violation(path, dd, n - 1)
    }
}

/// The `design-docs` rules of an Exec Plan.
pub open spec fn exec_design_violations(idx: IndexView, d: DocumentView) -> Seq<ViolationView> {
    if d.doc_type != DocType::ExecPlan {
        Seq::empty()
    } else {
        let dd = d.frontmatter.design_docs;
        (if dd.len() == 0 {
            vio(d.path, "design-docs must contain at least one reference"@)
        } else {
            Seq::empty()
        }) + design_entry_violations(idx, d.path, dd, dd.len()) + patch_parent_violations(
            d.path,
            dd,
            dd.len(),
        )
    }
}

/// The cross-document reference rules of one document.
pub open spec fn relationship_violations(idx: IndexView, d: DocumentView) -> Seq<ViolationView> {
    prd_violations(idx, d) + exec_plan_violations(idx, d) + guideline_violations(
        idx,
        d.path,
        d.frontmatter.guidelines,
        d.frontmatter.guidelines.len(),
    ) + exec_design_violations(idx, d) + (if d.doc_type == DocType::TaskSpec
        && d.frontmatter.exec_plan is None {
        vio(d.path, "TaskSpec must belong to an Exec Plan"@)
    } else {
        Seq::empty()
    })
}

/// The `i`-th completion criterion of a Task Spec: `cc-NNN` ids, each used once.
pub open spec fn criterion_violation(path: Seq<char>, ids: Seq<Seq<char>>, i: int) -> Seq<
    ViolationView,
> {
    (if is_criterion_id(ids[i]) {
        Seq::empty()
    } else {
        vio(path, "completion criterion id "@ + ids[i] + " must use cc-NNN format"@)
    }) + (if exists|j: int| 0 <= j < i && ids[j] == ids[i] {
        vio(path, "duplicate completion criterion id "@ + ids[i])
    } else {
        Seq::empty()
    })
}

pub open spec fn criterion_violations(path: Seq<char>, ids: Seq<Seq<char>>, n: nat) -> Seq<
    ViolationView,
>
    decreases n,
{
    if n == 0 || n > ids.len() {
        Seq::empty()
    } else {
        criterion_violations(path, ids, (n - 1) as nat) + criterion_violation(path, ids, n - 1)
    }
}

pub open spec fn criterion_ids(d: DocumentView) -> Seq<Seq<char>> {
    d.frontmatter.completion_criteria.map_values(|c: crate::doc::types::CriterionView| c.id)
}

/// All repository-level violations of one document, in rule order.
pub open spec fn document_violations(idx: IndexView, d: DocumentView) -> Seq<ViolationView> {
    parent_violations(idx, d) + design_ref_violations(
        idx,
        d.path,
        "merged-into"@,
        d.frontmatter.merged_into,
    ) + design_ref_violations(idx, d.path, "superseded-by"@, d.frontmatter.superseded_by)
        + relationship_violations(idx, d) + (if d.doc_type == DocType::TaskSpec {
        criterion_violations(d.path, criterion_ids(d), criterion_ids(d).len())
    } else {
        Seq::empty()
    })
}

/// The violations of the first `n` documents of the index.
pub open spec fn violations_upto(idx: IndexView, n: nat) -> Seq<ViolationView>
    decreases n,
{
    if n == 0 || n > idx.documents.len() {
        Seq::empty()
    } else {
        violations_upto(idx, (n - 1) as nat) + document_violations(idx, idx.documents[n - 1])
    }
}

/// All repository-level violations, document by document in canonical id order.
pub open spec fn index_violations(idx: IndexView) -> Seq<ViolationView> {
    violations_upto(idx, idx.documents.len())
}

fn push_violation(out: &mut Vec<ValidationViolation>, path: &str, message: String)
    ensures
        violations_view(final(out)@) == violations_view(old(out)@) + vio(path@, message@),
{
    let ghost before = violations_view(out@);
    out.push(ValidationViolation { path: owned(path), message });
    assert(violations_view(out@) =~= before + vio(path@, message@));
}

fn check_parent(index: &DocumentIndex, document: &Document, out: &mut Vec<ValidationViolation>)
    ensures
        violations_view(final(out)@) == violations_view(old(out)@) + parent_violations(
            index@,
            document@,
        ),
{
    if document.doc_type != DocType::DesignPatch {
        assert(violations_view(out@) =~= violations_view(out@) + Seq::<ViolationView>::empty());
        return;
    }
    let parent = match &document.frontmatter.parent {
        Some(p) => p,
        None => {
            assert(violations_view(out@) =~= violations_view(out@) + Seq::<ViolationView>::empty());
            return;
        },
    };
    match parse_reference_id(parent.as_str()) {
        None => {
            assert(violations_view(out@) =~= violations_view(out@) + Seq::<ViolationView>::empty());
        },
        Some(r) => {
            let id = r.as_string();
            match &r {
                DocId::DesignDoc(_) => {
                    if !index.documents.contains_key(&r) {
                        push_violation(
                            out,
                            document.path.as_str(),
                            concat3("parent ", id.as_str(), " does not exist"),
                        );
                    } else {
                        assert(violations_view(out@) =~= violations_view(out@) + Seq::<
                            ViolationView,
                        >::empty());
                    }
                },
                _ => {
                    push_violation(
                        out,
                        document.path.as_str(),
                        concat2("parent must reference a Design Doc, found ", id.as_str()),
                    );
                },
            }
        },
    }
}

fn check_design_ref(
    index: &DocumentIndex,
    path: &str,
    field: &str,
    value: &Option<String>,
    out: &mut Vec<ValidationViolation>,
)
    ensures
        violations_view(final(out)@) == violations_view(old(out)@) + design_ref_violations(
            index@,
            path@,
            field@,
            value.deep_view(),
        ),
{
    let v = match value {
        Some(v) => v,
        None => {
            assert(violations_view(out@) =~= violations_view(out@) + Seq::<ViolationView>::empty());
            return;
        },
    };
    match parse_reference_id(v.as_str()) {
        Some(r) => {
            match &r {
                DocId::DesignDoc(_) => {
                    if !index.documents.contains_key(&r) {
                        let id = r.as_string();
                        let mut m = concat3(field, " ", id.as_str());
                        append(&mut m, " does not exist");
                        push_violation(out, path, m);
                    } else {
                        assert(violations_view(out@) =~= violations_view(out@) + Seq::<
                            ViolationView,
                        >::empty());
                    }
                },
                _ => {
                    let m = concat3(field, " must reference a Design Doc, found ", v.as_str());
                    push_violation(out, path, m);
                },
            }
        },
        None => {
            let m = concat3(field, " must reference a Design Doc, found ", v.as_str());
            push_violation(out, path, m);
        },
    }
}

fn check_prd(index: &DocumentIndex, document: &Document, out: &mut Vec<ValidationViolation>)
    ensures
        violations_view(final(out)@) == violations_view(old(out)@) + prd_violations(
            index@,
            document@,
        ),
{
    let p = match &document.frontmatter.prd {
        Some(p) => p,
        None => {
            assert(violations_view(out@) =~= violations_view(out@) + Seq::<ViolationView>::empty());
            return;
        },
    };
    let path = document.path.as_str();
    match parse_reference_id(p.as_str()) {
        Some(r) => {
            match &r {
                DocId::Prd(_) => {
                    let id = r.as_string();
                    match index.documents.get(&r) {
                        Some(target) => {
                            if is_live_status(document.doc_type, document.status) && target.status
                                == Status::Obsolete {
                                push_violation(out, path, concat3("prd ", id.as_str(), " is obsolete"));
                            } else {
                                assert(violations_view(out@) =~= violations_view(out@) + Seq::<
                                    ViolationView,
                                >::empty());
                            }
                        },
                        None => {
                            push_violation(out, path, concat3("prd ", id.as_str(), " does not exist"));
                        },
                    }
                },
                _ => {
                    push_violation(out, path, concat2("prd must reference a PRD, found ", p.as_str()));
                },
            }
        },
        None => {
            push_violation(out, path, concat2("prd must reference a PRD, found ", p.as_str()));
        },
    }
}

fn check_exec_plan(index: &DocumentIndex, document: &Document, out: &mut Vec<ValidationViolation>)
    ensures
        violations_view(final(out)@) == violations_view(old(out)@) + exec_plan_violations(
            index@,
            document@,
        ),
{
    let e = match &document.frontmatter.exec_plan {
        Some(e) => e,
        None => {
            assert(violations_view(out@) =~= violations_view(out@) + Seq::<ViolationView>::empty());
            return;
        },
    };
    let path = document.path.as_str();
    match parse_reference_id(e.as_str()) {
        Some(r) => {
            match &r {
                DocId::ExecPlan(_) => {
                    let id = r.as_string();
                    match index.documents.get(&r) {
                        Some(target) => {
                            if is_live_status(document.doc_type, document.status) && target.status
                                == Status::Closed {
                                push_violation(
                                    out,
                                    path,
                                    concat3("exec-plan ", id.as_str(), " has invalid status closed"),
                                );
                            } else {
                                assert(violations_view(out@) =~= violations_view(out@) + Seq::<
                                    ViolationView,
                                >::empty());
                            }
                        },
                        None => {
                            push_violation(
                                out,
                                path,
                                concat3("exec-plan ", id.as_str(), " does not exist"),
                            );
                        },
                    }
                },
                _ => {
                    push_violation(
                        out,
                        path,
                        concat2("exec-plan must reference an Exec Plan, found ", e.as_str()),
                    );
                },
            }
        },
        None => {
            push_violation(
                out,
                path,
                concat2("exec-plan must reference an Exec Plan, found ", e.as_str()),
            );
        },
    }
}

fn check_guidelines(index: &DocumentIndex, path: &str, gs: &Vec<String>, out: &mut Vec<ValidationViolation>)
    ensures
        violations_view(final(out)@) == violations_view(old(out)@) + guideline_violations(
            index@,
            path@,
            gs.deep_view(),
            gs.deep_view().len(),
        ),
{
    let ghost start = violations_view(out@);
    let mut i: usize = 0;
    assert(start =~= start + guideline_violations(index@, path@, gs.deep_view(), 0));
    while i < gs.len()
        invariant
            i <= gs.len(),
            violations_view(out@) == start + guideline_violations(
                index@,
                path@,
                gs.deep_view(),
                i as nat,
            ),
        decreases gs.len() - i,
    {
        let g = gs[i].as_str();
        let ghost before = violations_view(out@);
        let resolved = match parse_guideline_reference(g) {
            Some(r) => index.documents.contains_key(&DocId::Guideline(r)),
            None => false,
        };
        if !resolved {
            let t = trim_str(g);
            push_violation(out, path, concat3("guideline ", t.as_str(), " does not resolve to a Guideline"));
        }
        assert(violations_view(out@) =~= before + guideline_violation(index@, path@, gs.deep_view()[i as int]));
        i = i + 1;
    }
}

fn seen_before(list: &Vec<String>, i: usize) -> (r: bool)
    requires
        i < list.len(),
    ensures
        r == exists|j: int| 0 <= j < i && list.deep_view()[j] == list.deep_view()[i as int],
{
    let mut j: usize = 0;
    while j < i
        invariant
            j <= i < list.len(),
            forall|k: int| 0 <= k < j ==> list.deep_view()[k] != list.deep_view()[i as int],
        decreases i - j,
    {
        if str_eq(list[j].as_str(), list[i].as_str()) {
            assert(list.deep_view()[j as int] == list.deep_view()[i as int]);
            return true;
        }
        j = j + 1;
    }
    false
}

pub fn contains_text(list: &Vec<String>, wanted: &str) -> (r: bool)
    ensures
        r == list.deep_view().contains(wanted@),
{
    let mut i: usize = 0;
    while i < list.len()
        invariant
            i <= list.len(),
            forall|j: int| 0 <= j < i ==> list.deep_view()[j] != wanted@,
        decreases list.len() - i,
    {
        if str_eq(list[i].as_str(), wanted) {
            assert(list.deep_view()[i as int] == wanted@);
            return true;
        }
        i = i + 1;
    }
    false
}

fn check_design_entry(index: &DocumentIndex, path: &str, dd: &Vec<String>, i: usize, out: &mut Vec<ValidationViolation>)
    requires
        i < dd.len(),
    ensures
        violations_view(final(out)@) == violations_view(old(out)@) + design_entry_violation(
            index@,
            path@,
            dd.deep_view(),
            i as int,
        ),
{
    let raw = dd[i].as_str();
    if seen_before(dd, i) {
        push_violation(out, path, concat2("duplicate design-docs reference ", raw));
        return;
    }
    match parse_reference_id(raw) {
        Some(r) => {
            let is_design = match &r {
                DocId::DesignDoc(_) => true,
                DocId::DesignPatch { .. } => true,
                _ => false,
            };
            if is_design {
                let id = r.as_string();
                match index.documents.get(&r) {
                    Some(target) => {
                        if target.status == Status::Candidate || target.status == Status::Implemented {
                            assert(violations_view(out@) =~= violations_view(out@) + Seq::<
                                ViolationView,
                            >::empty());
                        } else {
                            let mut m = concat3("design-docs reference ", id.as_str(), " has invalid status ");
                            append(&mut m, target.status.as_str());
                            push_violation(out, path, m);
                        }
                    },
                    None => {
                        push_violation(out, path, concat3("design-docs reference ", id.as_str(), " does not exist"));
                    },
                }
            } else {
                push_violation(
                    out,
                    path,
                    concat3("design-docs entry ", raw, " must reference a Design Doc or Design Patch"),
                );
            }
        },
        None => {
            push_violation(
                out,
                path,
                concat3("design-docs entry ", raw, " must reference a Design Doc or Design Patch"),
            );
        },
    }
}

fn check_patch_parent(path: &str, dd: &Vec<String>, i: usize, out: &mut Vec<ValidationViolation>)
    requires
        i < dd.len(),
    ensures
        violations_view(final(out)@) == violations_view(old(out)@) + patch_parent_violation(
            path@,
            dd.deep_view(),
            i as int,
        ),
{
    let raw = dd[i].as_str();
    match parse_reference_id(raw) {
        Some(DocId::DesignPatch { parent_slug, .. }) => {
            let parent = concat2("design-", parent_slug.as_str());
            if !contains_text(dd, parent.as_str()) {
                let mut m = concat3("design patch ", raw, " requires parent design ");
                append(&mut m, parent.as_str());
                append(&mut m, " in design-docs");
                push_violation(out, path, m);
            } else {
                assert(violations_view(out@) =~= violations_view(out@) + Seq::<ViolationView>::empty());
            }
        },
        _ => {
            assert(violations_view(out@) =~= violations_view(out@) + Seq::<ViolationView>::empty());
        },
    }
}

fn check_exec_design_docs(index: &DocumentIndex, document: &Document, out: &mut Vec<ValidationViolation>)
    ensures
        violations_view(final(out)@) == violations_view(old(out)@) + exec_design_violations(
            index@,
            document@,
        ),
{
    let ghost start = violations_view(out@);
    if document.doc_type != DocType::ExecPlan {
        assert(start =~= start + Seq::<ViolationView>::empty());
        return;
    }
    let path = document.path.as_str();
    let dd = &document.frontmatter.design_docs;
    let ghost ddv = dd.deep_view();
    if dd.len() == 0 {
        push_violation(out, path, owned("design-docs must contain at least one reference"));
    } else {
        assert(start =~= start + Seq::<ViolationView>::empty());
    }
    let ghost mid = violations_view(out@);
    let mut i: usize = 0;
    assert(mid =~= mid + design_entry_violations(index@, path@, ddv, 0));
    while i < dd.len()
        invariant
            i <= dd.len(),
            ddv == dd.deep_view(),
            violations_view(out@) == mid + design_entry_violations(index@, path@, ddv, i as nat),
        decreases dd.len() - i,
    {
        let ghost before = violations_view(out@);
        check_design_entry(index, path, dd, i, out);
        assert(violations_view(out@) =~= mid + design_entry_violations(index@, path@, ddv, (i + 1) as nat));
        i = i + 1;
    }
    let ghost mid2 = violations_view(out@);
    let mut k: usize = 0;
    assert(mid2 =~= mid2 + patch_parent_violations(path@, ddv, 0));
    while k < dd.len()
        invariant
            k <= dd.len(),
            ddv == dd.deep_view(),
            violations_view(out@) == mid2 + patch_parent_violations(path@, ddv, k as nat),
        decreases dd.len() - k,
    {
        check_patch_parent(path, dd, k, out);
        assert(violations_view(out@) =~= mid2 + patch_parent_violations(path@, ddv, (k + 1) as nat));
        k = k + 1;
    }
    assert(violations_view(out@) =~= start + exec_design_violations(index@, document@));
}

fn check_criteria_ids(path: &str, cs: &Vec<CompletionCriterion>, out: &mut Vec<ValidationViolation>)
    ensures
        violations_view(final(out)@) == violations_view(old(out)@) + criterion_violations(
            path@,
            criteria_view(cs@).map_values(|c: crate::doc::types::CriterionView| c.id),
            cs@.len(),
        ),
{
    let ghost ids = criteria_view(cs@).map_values(|c: crate::doc::types::CriterionView| c.id);
    let ghost start = violations_view(out@);
    assert(start =~= start + criterion_violations(path@, ids, 0));
    let mut i: usize = 0;
    while i < cs.len()
        invariant
            i <= cs.len(),
            ids == criteria_view(cs@).map_values(|c: crate::doc::types::CriterionView| c.id),
            violations_view(out@) == start + criterion_violations(path@, ids, i as nat),
        decreases cs.len() - i,
    {
        let ghost before = violations_view(out@);
        let id = cs[i].id.as_str();
        assert(ids[i as int] == id@);
        if !is_completion_criterion_id(id) {
            let mut m = concat2("completion criterion id ", id);
            append(&mut m, " must use cc-NNN format");
            push_violation(out, path, m);
        }
        let ghost mid = violations_view(out@);
        let mut j: usize = 0;
        let mut dup = false;
        while j < i
            invariant
                j <= i < cs.len(),
                ids == criteria_view(cs@).map_values(|c: crate::doc::types::CriterionView| c.id),
                ids[i as int] == id@,
                dup == exists|k: int| 0 <= k < j && ids[k] == ids[i as int],
            decreases i - j,
        {
            assert(ids[j as int] == cs@[j as int].id@);
            if str_eq(cs[j].id.as_str(), id) {
                dup = true;
            }
            j = j + 1;
        }
        if dup {
            push_violation(out, path, concat2("duplicate completion criterion id ", id));
        }
        assert(violations_view(out@) =~= before + criterion_violation(path@, ids, i as int));
        i = i + 1;
    }
}

fn relationship_checks(index: &DocumentIndex, document: &Document, out: &mut Vec<ValidationViolation>)
    ensures
        violations_view(final(out)@) == violations_view(old(out)@) + relationship_violations(
            index@,
            document@,
        ),
{
    let ghost s0 = violations_view(out@);
    let path = document.path.as_str();
    check_prd(index, document, out);
    let ghost s1 = violations_view(out@);
    check_exec_plan(index, document, out);
    let ghost s2 = violations_view(out@);
    check_guidelines(index, path, &document.frontmatter.guidelines, out);
    let ghost s3 = violations_view(out@);
    check_exec_design_docs(index, document, out);
    let ghost s4 = violations_view(out@);
    if document.doc_type == DocType::TaskSpec && document.frontmatter.exec_plan.is_none() {
        push_violation(out, path, owned("TaskSpec must belong to an Exec Plan"));
    }
    let ghost tail = if document.doc_type == DocType::TaskSpec && document.frontmatter.exec_plan is None {
        vio(path@, "TaskSpec must belong to an Exec Plan"@)
    } else {
        Seq::<ViolationView>::empty()
    };
    assert(violations_view(out@) =~= s4 + tail);
    assert(violations_view(out@) =~= s0 + relationship_violations(index@, document@));
}

/// Appends the repository-level violations of one document.
pub fn document_checks(index: &DocumentIndex, document: &Document, out: &mut Vec<ValidationViolation>)
    ensures
        violations_view(final(out)@) == violations_view(old(out)@) + document_violations(
            index@,
            document@,
        ),
{
    let ghost s0 = violations_view(out@);
    let path = document.path.as_str();
    check_parent(index, document, out);
    check_design_ref(index, path, "merged-into", &document.frontmatter.merged_into, out);
    check_design_ref(index, path, "superseded-by", &document.frontmatter.superseded_by, out);
    relationship_checks(index, document, out);
    let ghost s4 = violations_view(out@);
    if document.doc_type == DocType::TaskSpec {
        check_criteria_ids(path, &document.frontmatter.completion_criteria, out);
    }
    let ghost tail = if document.doc_type == DocType::TaskSpec {
        criterion_violations(path@, criterion_ids(document@), criterion_ids(document@).len())
    } else {
        Seq::<ViolationView>::empty()
    };
    assert(criterion_ids(document@) =~= criteria_view(document.frontmatter.completion_criteria@).map_values(
        |c: crate::doc::types::CriterionView| c.id,
    ));
    assert(violations_view(out@) =~= s4 + tail);
    assert(violations_view(out@) =~= s0 + document_violations(index@, document@));
}

/// Performs repository-level validation that depends on multiple loaded documents.
pub fn validate_index(index: &DocumentIndex) -> (r: Vec<ValidationViolation>)
    ensures
        violations_view(r@) == index_violations(index@),
{
    let mut out: Vec<ValidationViolation> = Vec::new();
    let docs = index.documents.values();
    let ghost dv = docs_view(docs@);
    assert(violations_view(out@) =~= violations_upto(index@, 0));
    let mut i: usize = 0;
    while i < docs.len()
        invariant
            i <= docs.len(),
            dv == docs_view(docs@),
            dv == index@.documents,
            violations_view(out@) == violations_upto(index@, i as nat),
        decreases docs.len() - i,
    {
        document_checks(index, &docs[i], &mut out);
        assert(docs[i as int]@ == dv[i as int]);
        i = i + 1;
    }
    out
}

/// Performs repository-level validation for a predicted post-transition index.
pub fn validate_preview(index: &DocumentIndex) -> (r: Vec<ValidationViolation>)
    ensures
        violations_view(r@) == index_violations(index@),
{
    validate_index(index)
}

/// The message that reports a non-empty list of problems by its count and first entry.
pub open spec fn count_message(
    n: nat,
    singular: Seq<char>,
    plural: Seq<char>,
    first_path: Seq<char>,
    first_detail: Seq<char>,
) -> Seq<char> {
    "found "@ + decimal(n) + " "@ + (if n == 1 {
        singular
    } else {
        plural
    }) + "; first violation: "@ + first_path + " ("@ + first_detail + ")"@
}

/// Why a loaded index is not compliant: its first invalid entry, else its first
/// repository-level violation; `None` when it is compliant.
pub open spec fn compliance_error(idx: IndexView) -> Option<ModelErrorView> {
    let entries = idx.invalid_entries;
    let vs = index_violations(idx);
    if entries.len() > 0 {
        Some(
            ModelErrorView::InvalidRepositoryState {
                path: idx.repo_root,
                message: count_message(
                    entries.len(),
                    "invalid managed entry"@,
                    "invalid managed entries"@,
                    entries[0].path,
                    entries[0].reason,
                ),
            },
        )
    } else if vs.len() > 0 {
        Some(
            ModelErrorView::InvalidRepositoryState {
                path: idx.repo_root,
                message: count_message(
                    vs.len(),
                    "repository-level validation violation"@,
                    "repository-level validation violations"@,
                    vs[0].path,
                    vs[0].message,
                ),
            },
        )
    } else {
        None
    }
}

fn render_count_message(
    n: usize,
    singular: &str,
    plural: &str,
    first_path: &str,
    first_detail: &str,
) -> (r: String)
    ensures
        r@ == count_message(n as nat, singular@, plural@, first_path@, first_detail@),
{
    let count = decimal_string(n as u64);
    let mut m = concat3("found ", count.as_str(), " ");
    if n == 1 {
        append(&mut m, singular);
    } else {
        append(&mut m, plural);
    }
    append(&mut m, "; first violation: ");
    append(&mut m, first_path);
    append(&mut m, " (");
    append(&mut m, first_detail);
    append(&mut m, ")");
    m
}

/// Fails if the loaded repository index contains invalid entries or validation violations.
pub fn ensure_index_compliant(index: &DocumentIndex) -> (r: Result<(), DocumentModelError>)
    ensures
        match r {
            Ok(()) => compliance_error(index@) is None,
            Err(e) => compliance_error(index@) == Some(e@),
        },
{
    let n = index.invalid_entries.len();
    if n > 0 {
        let first = &index.invalid_entries[0];
        let message = render_count_message(
            n,
            "invalid managed entry",
            "invalid managed entries",
            first.path.as_str(),
            first.reason.as_str(),
        );
        return Err(
            DocumentModelError::InvalidRepositoryState { path: index.repo_root.clone(), message },
        );
    }
    let violations = validate_index(index);
    let m = violations.len();
    if m > 0 {
        let first = &violations[0];
        let message = render_count_message(
            m,
            "repository-level validation violation",
            "repository-level validation violations",
            first.path.as_str(),
            first.message.as_str(),
        );
        return Err(
            DocumentModelError::InvalidRepositoryState { path: index.repo_root.clone(), message },
        );
    }
    Ok(())
}

/// Builds a repository index and fails if the managed document system is not compliant.
pub fn build_compliant_index(repo_root: String, files: Vec<ScannedFile>) -> (r: Result<
    DocumentIndex,
    DocumentModelError,
>)
    ensures
        match r {
            Ok(idx) => idx@ == index_of(repo_root@, scans_view(files@)) && compliance_error(idx@) is None,
            Err(e) => compliance_error(index_of(repo_root@, scans_view(files@))) == Some(e@),
        },
{
    let index = build_index(repo_root, files);
    match ensure_index_compliant(&index) {
        Ok(()) => Ok(index),
        Err(e) => Err(e),
    }
}

/// A repository is compliant exactly when it has no invalid managed entry and
/// no repository-level validation violation.
pub proof fn lemma_compliant_iff_clean(idx: IndexView)
    ensures
        compliance_error(idx) is None <==> (idx.invalid_entries.len() == 0
            && index_violations(idx).len() == 0),
{
}

/// A `prd` reference to a PRD that exists raises a violation exactly when the
/// referring document is still live and the PRD is obsolete: a document that
/// has reached a terminal status (an implemented Design Doc, a closed Exec Plan)
/// may keep pointing at a retired PRD.
pub proof fn lemma_obsolete_prd_only_troubles_live_documents(
    idx: IndexView,
    d: DocumentView,
    p: Seq<char>,
    target: DocumentView,
)
    requires
        d.frontmatter.prd == Some(p),
        reference_id(p) matches Some(r) && r is Prd && lookup(idx.documents, r) == Some(target),
    ensures
        prd_violations(idx, d).len() == 0 <==> (terminal(d.doc_type, d.status) || target.status
            != Status::Obsolete),
        terminal(d.doc_type, d.status) ==> prd_violations(idx, d).len() == 0,
{
}

} // verus!
