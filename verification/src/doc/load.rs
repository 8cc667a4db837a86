//! Loading one managed document: id from the filename, frontmatter rules,
//! status and directory placement.
use crate::doc::lifecycle::{expected_dir, expected_directory, status_for, status_from_str};
use crate::doc::parse::{is_criterion_id, is_date, is_completion_criterion_id, is_slug, local_sequence, parse_local_sequence, valid_date, valid_slug};

use crate::doc::types::{doc_type_name, frontmatter_id_string, id_exec_slug, id_string, status_name, CriterionView, DocId, DocType, Frontmatter, FrontmatterView, SpecDocId, Status};
use crate::error::{DocumentModelError, ModelErrorView};
use crate::text::{append, chars_of, concat2, concat3, ends_with, is_blank, owned, slice_prefix, split_once, split_once_str, starts_with, str_eq, string_of, strip_prefix, trim, trim_str};
use vstd::prelude::*;

verus! {

pub open spec fn missing_field(path: Seq<char>, field: Seq<char>) -> ModelErrorView {
    ModelErrorView::MissingField { path, field }
}

pub open spec fn invalid_field(path: Seq<char>, field: Seq<char>, message: Seq<char>) -> ModelErrorView {
    ModelErrorView::InvalidField { path, field, message }
}

/// A required field: present, and non-empty after trimming; its trimmed value.
pub open spec fn required(path: Seq<char>, field: Seq<char>, value: Option<Seq<char>>) -> Result<
    Seq<char>,
    ModelErrorView,
> {
    match value {
        None => Err(missing_field(path, field)),
        Some(v) => if trim(v).len() == 0 {
            Err(invalid_field(path, field, "must be non-empty"@))
        } else {
            Ok(trim(v))
        },
    }
}

/// A required field that must hold a `YYYY-MM-DD` date.
pub open spec fn date_field_error(path: Seq<char>, field: Seq<char>, value: Option<Seq<char>>) -> Option<
    ModelErrorView,
> {
    match required(path, field, value) {
        Err(e) => Some(e),
        Ok(v) => if is_date(v) {
            None
        } else {
            Some(invalid_field(path, field, v + " must use valid YYYY-MM-DD form"@))
        },
    }
}

pub fn missing_field_error(path: &str, field: &str) -> (e: DocumentModelError)
    ensures
        e@ == missing_field(path@, field@),
{
    DocumentModelError::MissingField { path: owned(path), field: owned(field) }
}

pub fn invalid_field_error(path: &str, field: &str, message: String) -> (e: DocumentModelError)
    ensures
        e@ == invalid_field(path@, field@, message@),
{
    DocumentModelError::InvalidField { path: owned(path), field: owned(field), message }
}

/// Requires `value` to be present and non-empty; returns it trimmed.
pub fn require_field(path: &str, field: &str, value: &Option<String>) -> (r: Result<
    String,
    DocumentModelError,
>)
    ensures
        match r {
            Ok(v) => required(path@, field@, value.deep_view()) == Ok::<Seq<char>, ModelErrorView>(v@),
            Err(e) => required(path@, field@, value.deep_view()) == Err::<Seq<char>, ModelErrorView>(e@),
        },
{
    match value {
        None => Err(missing_field_error(path, field)),
        Some(v) => {
            let t = trim_str(v.as_str());
            if t.as_str().is_empty() {
                Err(invalid_field_error(path, field, owned("must be non-empty")))
            } else {
                Ok(t)
            }
        },
    }
}

/// Requires `value` to be a present `YYYY-MM-DD` date.
pub fn validate_date_field(path: &str, field: &str, value: &Option<String>) -> (r: Result<
    (),
    DocumentModelError,
>)
    ensures
        match r {
            Ok(_) => date_field_error(path@, field@, value.deep_view()) is None,
            Err(e) => date_field_error(path@, field@, value.deep_view()) == Some(e@),
        },
{
    let v = require_field(path, field, value)?;
    if !valid_date(v.as_str()) {
        let message = concat2(v.as_str(), " must use valid YYYY-MM-DD form");
        return Err(invalid_field_error(path, field, message));
    }
    Ok(())
}

/// The forbidden patterns every candidate Task Spec must declare.
pub open spec fn required_forbidden() -> Seq<Seq<char>> {
    seq!["docs/prd/**"@, "docs/design/**"@, "docs/guidelines/**"@, "docs/specs/**"@, "docs/exec-plans/**"@]
}

/// The first of `required` that `declared` does not contain.
pub open spec fn first_missing(required: Seq<Seq<char>>, declared: Seq<Seq<char>>) -> Option<Seq<char>>
    decreases required.len(),
{
    if required.len() == 0 {
        None
    } else if declared.contains(required[0]) {
        first_missing(required.drop_first(), declared)
    } else {
        Some(required[0])
    }
}

/// The error of the first completion criterion that is incomplete or badly numbered.
pub open spec fn criteria_error(path: Seq<char>, cs: Seq<CriterionView>) -> Option<ModelErrorView>
    decreases cs.len(),
{
    if cs.len() == 0 {
        None
    } else if trim(cs[0].id).len() == 0 || trim(cs[0].scenario).len() == 0 || trim(
        cs[0].test,
    ).len() == 0 {
        Some(
            invalid_field(
                path,
                "completion_criteria"@,
                "each criterion must include non-empty id, scenario, and test"@,
            ),
        )
    } else if !is_criterion_id(cs[0].id) {
        Some(
            invalid_field(
                path,
                "completion_criteria.id"@,
                trim(cs[0].id) + " must use cc-NNN format"@,
            ),
        )
    } else {
        criteria_error(path, cs.drop_first())
    }
}

/// The rules on a candidate Task Spec's boundaries and completion criteria.
pub open spec fn candidate_task_error(path: Seq<char>, fm: FrontmatterView) -> Option<ModelErrorView> {
    match fm.boundaries {
        None => Some(missing_field(path, "boundaries"@)),
        Some(b) => if b.allowed.len() == 0 {
            Some(
                invalid_field(path, "boundaries.allowed"@, "must contain at least one pattern"@),
            )
        } else if first_missing(required_forbidden(), b.forbidden_patterns) is Some {
            Some(
                invalid_field(
                    path,
                    "boundaries.forbidden_patterns"@,
                    "must include "@ + first_missing(
                        required_forbidden(),
                        b.forbidden_patterns,
                    ).unwrap(),
                ),
            )
        } else if fm.completion_criteria.len() == 0 {
            Some(
                invalid_field(
                    path,
                    "completion_criteria"@,
                    "must contain at least one criterion"@,
                ),
            )
        } else {
            criteria_error(path, fm.completion_criteria)
        },
    }
}

pub open spec fn is_exec_or_task(t: DocType) -> bool {
    t == DocType::ExecPlan || t == DocType::TaskSpec
}

/// The type-specific identity rules: id, title and created date.
pub open spec fn identity_error(path: Seq<char>, t: DocType, id: SpecDocId, fm: FrontmatterView) -> Option<
    ModelErrorView,
> {
    if t == DocType::Guideline {
        match required(path, "title"@, fm.title) {
            Err(e) => Some(e),
            Ok(_) => if fm.id is Some {
                Some(invalid_field(path, "id"@, "Guidelines do not declare id"@))
            } else if fm.status is Some {
                Some(invalid_field(path, "status"@, "Guidelines do not declare status"@))
            } else {
                None
            },
        }
    } else {
        match required(path, "id"@, fm.id) {
            Err(e) => Some(e),
            Ok(found) => if found != frontmatter_id_string(id) {
                Some(
                    ModelErrorView::IdMismatch {
                        path,
                        expected: frontmatter_id_string(id),
                        found,
                    },
                )
            } else if t == DocType::ProjectSpec || t == DocType::OrgSpec {
                None
            } else {
                match required(path, "title"@, fm.title) {
                    Err(e) => Some(e),
                    Ok(_) => date_field_error(path, "created"@, fm.created),
                }
            },
        }
    }
}

/// The frontmatter rules of the document model, checked in order; the first violated one.
pub open spec fn frontmatter_error(path: Seq<char>, t: DocType, id: SpecDocId, fm: FrontmatterView) -> Option<
    ModelErrorView,
> {
    if identity_error(path, t, id, fm) is Some {
        identity_error(path, t, id, fm)
    } else if is_exec_or_task(t) && fm.closed is Some && date_field_error(
        path,
        "closed"@,
        fm.closed,
    ) is Some {
        date_field_error(path, "closed"@, fm.closed)
    } else if !is_exec_or_task(t) && fm.closed is Some {
        Some(invalid_field(path, "closed"@, "closed is only allowed on ExecPlan and TaskSpec"@))
    } else if t == DocType::DesignPatch && required(path, "parent"@, fm.parent) is Err {
        Some(required(path, "parent"@, fm.parent)->Err_0)
    } else if t == DocType::ExecPlan && fm.design_docs.len() > 0 && fm.design_doc is Some {
        Some(
            invalid_field(
                path,
                "design-docs"@,
                "ExecPlan must not declare both design-doc and design-docs"@,
            ),
        )
    } else if t == DocType::TaskSpec && fm.exec_plan is None {
        Some(missing_field(path, "exec-plan"@))
    } else if t == DocType::TaskSpec && fm.design_doc is Some {
        Some(
            invalid_field(
                path,
                "design-doc"@,
                "TaskSpec must not declare design-doc in the new model"@,
            ),
        )
    } else if t == DocType::TaskSpec && fm.status == Some("candidate"@) && candidate_task_error(
        path,
        fm,
    ) is Some {
        candidate_task_error(path, fm)
    } else if is_exec_or_task(t) && fm.status == Some("closed"@) && fm.closed is None {
        Some(missing_field(path, "closed"@))
    } else if is_exec_or_task(t) && fm.status != Some("closed"@) && fm.closed is Some {
        Some(invalid_field(path, "closed"@, "must be absent unless status is closed"@))
    } else if t == DocType::DesignPatch && fm.status == Some("obsolete:merged"@) && required(
        path,
        "merged-into"@,
        fm.merged_into,
    ) is Err {
        Some(required(path, "merged-into"@, fm.merged_into)->Err_0)
    } else {
        None
    }
}

fn opt_equals(value: &Option<String>, lit: &str) -> (r: bool)
    ensures
        r == (value.deep_view() == Some(lit@)),
{
    match value {
        Some(v) => str_eq(v.as_str(), lit),
        None => false,
    }
}

fn contains_string(list: &Vec<String>, wanted: &str) -> (r: bool)
    ensures
        r == list.deep_view().contains(wanted@),
{
    let mut i: usize = 0;
    while i < list.len()
        invariant
            i <= list.len(),
            forall|j: int| 0 <= j < i ==> list.deep_view()[j] != wanted@,
        decreases list.len() - i,
    {
        if str_eq(list[i].as_str(), wanted) {
            assert(list.deep_view()[i as int] == wanted@);
            return true;
        }
        i = i + 1;
    }
    false
}

fn check_criteria(path: &str, cs: &Vec<crate::doc::types::CompletionCriterion>) -> (r: Result<
    (),
    DocumentModelError,
>)
    ensures
        match r {
            Ok(_) => criteria_error(path@, crate::doc::types::criteria_view(cs@)) is None,
            Err(e) => criteria_error(path@, crate::doc::types::criteria_view(cs@)) == Some(e@),
        },
{
    let ghost all = crate::doc::types::criteria_view(cs@);
    let mut i: usize = 0;
    assert(all.skip(0) =~= all);
    while i < cs.len()
        invariant
            i <= cs.len(),
            all == crate::doc::types::criteria_view(cs@),
            criteria_error(path@, all) == criteria_error(path@, all.skip(i as int)),
        decreases cs.len() - i,
    {
        let c = &cs[i];
        let ghost rest = all.skip(i as int);
        assert(rest[0] == c@);
        if is_blank(c.id.as_str()) || is_blank(c.scenario.as_str()) || is_blank(c.test.as_str()) {
            return Err(
                invalid_field_error(
                    path,
                    "completion_criteria",
                    owned("each criterion must include non-empty id, scenario, and test"),
                ),
            );
        }
        if !is_completion_criterion_id(c.id.as_str()) {
            let t = trim_str(c.id.as_str());
            return Err(
                invalid_field_error(
                    path,
                    "completion_criteria.id",
                    concat2(t.as_str(), " must use cc-NNN format"),
                ),
            );
        }
        assert(rest.drop_first() =~= all.skip(i + 1));
        i = i + 1;
    }
    Ok(())
}

fn check_candidate_task(path: &str, fm: &Frontmatter) -> (r: Result<(), DocumentModelError>)
    ensures
        match r {
            Ok(_) => candidate_task_error(path@, fm@) is None,
            Err(e) => candidate_task_error(path@, fm@) == Some(e@),
        },
{
    let boundaries = match &fm.boundaries {
        Some(b) => b,
        None => return Err(missing_field_error(path, "boundaries")),
    };
    if boundaries.allowed.len() == 0 {
        return Err(
            invalid_field_error(
                path,
                "boundaries.allowed",
                owned("must contain at least one pattern"),
            ),
        );
    }
    let required_list: [&str; 5] = [
        "docs/prd/**",
        "docs/design/**",
        "docs/guidelines/**",
        "docs/specs/**",
        "docs/exec-plans/**",
    ];
    let ghost req = required_forbidden();
    let ghost declared = boundaries.forbidden_patterns.deep_view();
    assert(req.skip(0) =~= req);
    let mut k: usize = 0;
    while k < 5
        invariant
            k <= 5,
            req == required_forbidden(),
            declared == boundaries.forbidden_patterns.deep_view(),
            fm@.boundaries == Some(boundaries@),
            boundaries@.allowed.len() > 0,
            forall|j: int| 0 <= j < 5 ==> (#[trigger] required_list@[j])@ == req[j],
            first_missing(req, declared) == first_missing(req.skip(k as int), declared),
        decreases 5 - k,
    {
        let item = required_list[k];
        let ghost rest = req.skip(k as int);
        assert(rest[0] == req[k as int]);
        if !contains_string(&boundaries.forbidden_patterns, item) {
            assert(rest.len() > 0);
            assert(!declared.contains(rest[0]));
            assert(first_missing(rest, declared) == Some(rest[0]));
            return Err(
                invalid_field_error(
                    path,
                    "boundaries.forbidden_patterns",
                    concat2("must include ", item),
                ),
            );
        }
        assert(rest.drop_first() =~= req.skip(k + 1));
        k = k + 1;
    }
    assert(req.skip(5).len() == 0);
    if fm.completion_criteria.len() == 0 {
        return Err(
            invalid_field_error(
                path,
                "completion_criteria",
                owned("must contain at least one criterion"),
            ),
        );
    }
    check_criteria(path, &fm.completion_criteria)
}

fn check_identity(path: &str, doc_type: DocType, id: &DocId, fm: &Frontmatter) -> (r: Result<
    (),
    DocumentModelError,
>)
    ensures
        match r {
            Ok(_) => identity_error(path@, doc_type, id@, fm@) is None,
            Err(e) => identity_error(path@, doc_type, id@, fm@) == Some(e@),
        },
{
    if doc_type == DocType::Guideline {
        require_field(path, "title", &fm.title)?;
        if fm.id.is_some() {
            return Err(invalid_field_error(path, "id", owned("Guidelines do not declare id")));
        }
        if fm.status.is_some() {
            return Err(
                invalid_field_error(path, "status", owned("Guidelines do not declare status")),
            );
        }
        return Ok(());
    }
    let found = require_field(path, "id", &fm.id)?;
    let expected = id.frontmatter_id();
    if !str_eq(found.as_str(), expected.as_str()) {
        return Err(DocumentModelError::IdMismatch { path: owned(path), expected, found });
    }
    if doc_type == DocType::ProjectSpec || doc_type == DocType::OrgSpec {
        return Ok(());
    }
    require_field(path, "title", &fm.title)?;
    validate_date_field(path, "created", &fm.created)
}

/// Checks the frontmatter rules of a document of type `doc_type` with id `canonical_id`.
pub fn validate_frontmatter(path: &str, doc_type: DocType, canonical_id: &DocId, fm: &Frontmatter) -> (r: Result<
    (),
    DocumentModelError,
>)
    ensures
        match r {
            Ok(_) => frontmatter_error(path@, doc_type, canonical_id@, fm@) is None,
            Err(e) => frontmatter_error(path@, doc_type, canonical_id@, fm@) == Some(e@),
        },
{
    check_identity(path, doc_type, canonical_id, fm)?;
    let exec_or_task = doc_type == DocType::ExecPlan || doc_type == DocType::TaskSpec;
    if exec_or_task && fm.closed.is_some() {
        validate_date_field(path, "closed", &fm.closed)?;
    }
    if !exec_or_task && fm.closed.is_some() {
        return Err(
            invalid_field_error(
                path,
                "closed",
                owned("closed is only allowed on ExecPlan and TaskSpec"),
            ),
        );
    }
    if doc_type == DocType::DesignPatch {
        require_field(path, "parent", &fm.parent)?;
    }
    if doc_type == DocType::ExecPlan && fm.design_docs.len() > 0 && fm.design_doc.is_some() {
        return Err(
            invalid_field_error(
                path,
                "design-docs",
                owned("ExecPlan must not declare both design-doc and design-docs"),
            ),
        );
    }
    if doc_type == DocType::TaskSpec && fm.exec_plan.is_none() {
        return Err(missing_field_error(path, "exec-plan"));
    }
    if doc_type == DocType::TaskSpec && fm.design_doc.is_some() {
        return Err(
            invalid_field_error(
                path,
                "design-doc",
                owned("TaskSpec must not declare design-doc in the new model"),
            ),
        );
    }
    if doc_type == DocType::TaskSpec && opt_equals(&fm.status, "candidate") {
        check_candidate_task(path, fm)?;
    }
    let closed_status = opt_equals(&fm.status, "closed");
    if exec_or_task && closed_status && fm.closed.is_none() {
        return Err(missing_field_error(path, "closed"));
    }
    if exec_or_task && !closed_status && fm.closed.is_some() {
        return Err(
            invalid_field_error(path, "closed", owned("must be absent unless status is closed")),
        );
    }
    if doc_type == DocType::DesignPatch && opt_equals(&fm.status, "obsolete:merged") {
        require_field(path, "merged-into", &fm.merged_into)?;
    }
    Ok(())
}

/// The status a document declares, checked against its type's lifecycle.
pub open spec fn status_result(path: Seq<char>, t: DocType, fm: FrontmatterView) -> Result<
    Status,
    ModelErrorView,
> {
    if t == DocType::Guideline {
        Ok(Status::Active)
    } else {
        match required(path, "status"@, fm.status) {
            Err(e) => Err(e),
            Ok(raw) => match status_for(t, raw) {
                Some(s) => Ok(s),
                None => Err(
                    ModelErrorView::InvalidStatus { path, doc_type: doc_type_name(t), status: raw },
                ),
            },
        }
    }
}

/// Reads the status a document declares for its type.
pub fn parse_status(path: &str, doc_type: DocType, fm: &Frontmatter) -> (r: Result<
    Status,
    DocumentModelError,
>)
    ensures
        match r {
            Ok(s) => status_result(path@, doc_type, fm@) == Ok::<Status, ModelErrorView>(s),
            Err(e) => status_result(path@, doc_type, fm@) == Err::<Status, ModelErrorView>(e@),
        },
{
    if doc_type == DocType::Guideline {
        return Ok(Status::Active);
    }
    let raw = require_field(path, "status", &fm.status)?;
    match status_from_str(doc_type, raw.as_str()) {
        Some(s) => Ok(s),
        None => Err(
            DocumentModelError::InvalidStatus {
                path: owned(path),
                doc_type: owned(doc_type.as_str()),
                status: raw,
            },
        ),
    }
}

/// The directory rule: exec plans and tasks live in their exec directory,
/// other documents in the directory of their status.
pub open spec fn directory_error(parent: Seq<char>, path: Seq<char>, t: DocType, id: SpecDocId, status: Status) -> Option<
    ModelErrorView,
> {
    if t == DocType::ExecPlan {
        let expected = "docs/exec-plans/"@ + id_string(id);
        if parent != expected {
            Some(
                invalid_field(
                    path,
                    "path"@,
                    "expected directory "@ + expected + ", found "@ + parent,
                ),
            )
        } else {
            None
        }
    } else if t == DocType::TaskSpec {
        match id_exec_slug(id) {
            None => Some(invalid_field(path, "path"@, "task id is missing exec slug"@)),
            Some(slug) => {
                let expected = "docs/exec-plans/exec-"@ + slug;
                if parent != expected {
                    Some(
                        invalid_field(
                            path,
                            "path"@,
                            "expected directory "@ + expected + ", found "@ + parent,
                        ),
                    )
                } else {
                    None
                }
            },
        }
    } else {
        match expected_dir(t, status) {
            None => Some(
                invalid_field(
                    path,
                    "status"@,
                    "no directory mapping for "@ + doc_type_name(t) + " "@ + status_name(status),
                ),
            ),
            Some(expected) => if parent != expected {
                Some(
                    invalid_field(
                        path,
                        "path"@,
                        "expected directory "@ + expected + ", found "@ + parent,
                    ),
                )
            } else {
                None
            },
        }
    }
}

fn directory_mismatch(path: &str, expected: &str, actual: &str) -> (e: DocumentModelError)
    ensures
        e@ == invalid_field(path@, "path"@, "expected directory "@ + expected@ + ", found "@ + actual@),
{
    let mut message = concat3("expected directory ", expected, ", found ");
    append(&mut message, actual);
    invalid_field_error(path, "path", message)
}

/// Checks that a document sits in the directory its type and status call for.
pub fn validate_directory(parent: &str, path: &str, doc_type: DocType, canonical_id: &DocId, status: Status) -> (r: Result<
    (),
    DocumentModelError,
>)
    ensures
        match r {
            Ok(_) => directory_error(parent@, path@, doc_type, canonical_id@, status) is None,
            Err(e) => directory_error(parent@, path@, doc_type, canonical_id@, status) == Some(e@),
        },
{
    if doc_type == DocType::ExecPlan {
        let id = canonical_id.as_string();
        let expected = concat2("docs/exec-plans/", id.as_str());
        if !str_eq(parent, expected.as_str()) {
            return Err(directory_mismatch(path, expected.as_str(), parent));
        }
        return Ok(());
    }
    if doc_type == DocType::TaskSpec {
        let slug = match canonical_id.exec_slug() {
            Some(s) => s,
            None => return Err(
                invalid_field_error(path, "path", owned("task id is missing exec slug")),
            ),
        };
        let expected = concat2("docs/exec-plans/exec-", slug);
        if !str_eq(parent, expected.as_str()) {
            return Err(directory_mismatch(path, expected.as_str(), parent));
        }
        return Ok(());
    }
    match expected_directory(doc_type, status) {
        None => {
            let mut message = concat3("no directory mapping for ", doc_type.as_str(), " ");
            append(&mut message, status.as_str());
            Err(invalid_field_error(path, "status", message))
        },
        Some(expected) => {
            if !str_eq(parent, expected) {
                return Err(directory_mismatch(path, expected, parent));
            }
            Ok(())
        },
    }
}

pub open spec fn invalid_filename(path: Seq<char>, doc_type: Seq<char>) -> ModelErrorView {
    ModelErrorView::InvalidFilename { path, doc_type }
}

/// The file stem of a markdown file name (the name without its `.md` extension).
pub open spec fn md_stem(name: Seq<char>) -> Seq<char> {
    if ends_with(name, ".md"@) && name.len() > 3 {
        name.take(name.len() - 3)
    } else {
        name
    }
}

/// The id a PRD filename stem declares.
pub open spec fn prd_id(path: Seq<char>, stem: Seq<char>) -> Result<SpecDocId, ModelErrorView> {
    if starts_with(stem, "prd-"@) && is_slug(stem.skip(4)) {
        Ok(SpecDocId::Prd(stem.skip(4)))
    } else {
        Err(invalid_filename(path, "PRD"@))
    }
}

/// The id a design filename stem declares: a Design Doc, or a Design Patch when it holds `-patch-`.
pub open spec fn design_id(path: Seq<char>, stem: Seq<char>) -> Result<SpecDocId, ModelErrorView> {
    if !starts_with(stem, "design-"@) {
        Err(invalid_filename(path, "DesignDoc/DesignPatch"@))
    } else {
        let rem = stem.skip(7);
        match split_once(rem, "-patch-"@) {
            Some((parent_slug, rest)) => match split_once(rest, "-"@) {
                None => Err(invalid_filename(path, "DesignPatch"@)),
                Some((sequence_raw, patch_slug)) => match local_sequence(sequence_raw) {
                    None => Err(invalid_filename(path, "DesignPatch"@)),
                    Some(sequence) => if !is_slug(parent_slug) || !is_slug(patch_slug) {
                        Err(invalid_filename(path, "DesignPatch"@))
                    } else {
                        Ok(SpecDocId::DesignPatch { parent_slug, sequence, patch_slug })
                    },
                },
            },
            None => if !is_slug(rem) {
                Err(invalid_filename(path, "DesignDoc"@))
            } else {
                Ok(SpecDocId::DesignDoc(rem))
            },
        }
    }
}

/// The id a task filename stem `task-<nn>-<slug>` declares within exec plan `exec_slug`.
pub open spec fn task_id(path: Seq<char>, stem: Seq<char>, exec_slug: Seq<char>) -> Result<
    SpecDocId,
    ModelErrorView,
> {
    if !starts_with(stem, "task-"@) {
        Err(invalid_filename(path, "TaskSpec"@))
    } else {
        match split_once(stem.skip(5), "-"@) {
            None => Err(invalid_filename(path, "TaskSpec"@)),
            Some((sequence_raw, task_slug)) => match local_sequence(sequence_raw) {
                None => Err(invalid_filename(path, "TaskSpec"@)),
                Some(sequence) => if !is_slug(task_slug) {
                    Err(invalid_filename(path, "TaskSpec"@))
                } else {
                    Ok(SpecDocId::TaskSpec { exec_slug, sequence })
                },
            },
        }
    }
}

fn filename_error(path: &str, doc_type: &str) -> (e: DocumentModelError)
    ensures
        e@ == invalid_filename(path@, doc_type@),
{
    DocumentModelError::InvalidFilename { path: owned(path), doc_type: owned(doc_type) }
}

/// The stem of a markdown file name.
pub fn file_stem(name: &str) -> (r: String)
    ensures
        r@ == md_stem(name@),
{
    let x = chars_of(name);
    if crate::text::has_suffix(name, ".md") && x.len() > 3 {
        proof { reveal_strlit(".md"); }
        let head = slice_prefix(x.as_slice(), x.len() - 3);
        string_of(head.as_slice())
    } else {
        owned(name)
    }
}

/// Reads the id of a PRD from its filename stem.
pub fn parse_prd_id(path: &str, stem: &str) -> (r: Result<DocId, DocumentModelError>)
    ensures
        match r {
            Ok(id) => prd_id(path@, stem@) == Ok::<SpecDocId, ModelErrorView>(id@),
            Err(e) => prd_id(path@, stem@) == Err::<SpecDocId, ModelErrorView>(e@),
        },
{
    proof { reveal_strlit("prd-"); }
    match strip_prefix(stem, "prd-") {
        Some(slug) => if valid_slug(slug.as_str()) {
            Ok(DocId::Prd(slug))
        } else {
            Err(filename_error(path, "PRD"))
        },
        None => Err(filename_error(path, "PRD")),
    }
}

/// Reads the id of a Design Doc or Design Patch from its filename stem.
pub fn parse_design_id(path: &str, stem: &str) -> (r: Result<DocId, DocumentModelError>)
    ensures
        match r {
            Ok(id) => design_id(path@, stem@) == Ok::<SpecDocId, ModelErrorView>(id@),
            Err(e) => design_id(path@, stem@) == Err::<SpecDocId, ModelErrorView>(e@),
        },
{
    proof { reveal_strlit("design-"); }
    let rem = match strip_prefix(stem, "design-") {
        Some(r) => r,
        None => return Err(filename_error(path, "DesignDoc/DesignPatch")),
    };
    if let Some((parent_slug, rest)) = split_once_str(rem.as_str(), "-patch-") {
        let (sequence_raw, patch_slug) = match split_once_str(rest.as_str(), "-") {
            Some(pair) => pair,
            None => return Err(filename_error(path, "DesignPatch")),
        };
        let sequence = match parse_local_sequence(sequence_raw.as_str()) {
            Some(n) => n,
            None => return Err(filename_error(path, "DesignPatch")),
        };
        if !valid_slug(parent_slug.as_str()) || !valid_slug(patch_slug.as_str()) {
            return Err(filename_error(path, "DesignPatch"));
        }
        return Ok(DocId::DesignPatch { parent_slug, sequence, patch_slug });
    }
    if !valid_slug(rem.as_str()) {
        return Err(filename_error(path, "DesignDoc"));
    }
    Ok(DocId::DesignDoc(rem))
}

/// Reads the id of a Task Spec from its filename stem.
pub fn parse_task_id(path: &str, stem: &str, exec_slug: &str) -> (r: Result<
    DocId,
    DocumentModelError,
>)
    ensures
        match r {
            Ok(id) => task_id(path@, stem@, exec_slug@) == Ok::<SpecDocId, ModelErrorView>(id@),
            Err(e) => task_id(path@, stem@, exec_slug@) == Err::<SpecDocId, ModelErrorView>(e@),
        },
{
    proof { reveal_strlit("task-"); }
    let rem = match strip_prefix(stem, "task-") {
        Some(r) => r,
        None => return Err(filename_error(path, "TaskSpec")),
    };
    let (sequence_raw, task_slug) = match split_once_str(rem.as_str(), "-") {
        Some(pair) => pair,
        None => return Err(filename_error(path, "TaskSpec")),
    };
    let sequence = match parse_local_sequence(sequence_raw.as_str()) {
        Some(n) => n,
        None => return Err(filename_error(path, "TaskSpec")),
    };
    if !valid_slug(task_slug.as_str()) {
        return Err(filename_error(path, "TaskSpec"));
    }
    Ok(DocId::TaskSpec { exec_slug: owned(exec_slug), sequence })
}

} // verus!
