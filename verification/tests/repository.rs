//! Repository-level scenarios, run against in-memory repositories: each file is
//! given by its repository-relative path and contents, and a scan hands the
//! library what reading those files would give.

use serde_yaml::{Mapping, Value};
use specmate::check::boundaries::run_boundaries;
use specmate::check::{run_all, run_named, CheckName};
use specmate::cmd::check::check_output;
use specmate::cmd::move_::{move_target, plan_move, render_plan, MoveArgs};
use specmate::cmd::status::{status_view, ColorWhen, Palette, StatusArgs};
use specmate::cmd::{candidate_roots, locate_repo_root, marker_paths, render_failure};
use specmate::doc::frontmatter::{
    extract_frontmatter_block, RawBoundaries, RawCompletionCriterion, RawFrontmatter,
};
use specmate::doc::index::{FileContent, ScannedFile};
use specmate::doc::{
    association_summaries, build_compliant_index, build_index, ensure_index_compliant,
    ensure_unique_slug, expected_directory, next_patch_number, next_task_sequence,
    preview_transition, validate_index, validate_preview, validate_transition, AssociationKind,
    DocId, DocType, DocumentIndex, Status,
};

const ROOT: &str = "/work/repo";
const TODAY: &str = "2026-03-26";

#[derive(Default)]
struct Repo {
    files: Vec<(String, String)>,
    dirs: Vec<String>,
}

fn scalar(value: &Value, field: &str) -> Result<Option<String>, String> {
    match value {
        Value::Null => Ok(None),
        Value::String(s) => Ok(Some(s.clone())),
        Value::Number(n) => Ok(Some(n.to_string())),
        Value::Bool(b) => Ok(Some(b.to_string())),
        _ => Err(format!("{field}: invalid type, expected a string")),
    }
}

fn string_list(value: &Value, field: &str) -> Result<Option<Vec<String>>, String> {
    match value {
        Value::Null => Ok(None),
        Value::Sequence(items) => {
            let mut out = Vec::new();
            for item in items {
                match scalar(item, field)? {
                    Some(s) => out.push(s),
                    None => return Err(format!("{field}: invalid type, expected a string")),
                }
            }
            Ok(Some(out))
        }
        _ => Err(format!("{field}: invalid type, expected a sequence")),
    }
}

fn entry(map: &Mapping, key: &str) -> Value {
    map.get(key).cloned().unwrap_or(Value::Null)
}

fn raw_frontmatter(block: &str) -> Result<RawFrontmatter, String> {
    let value: Value = serde_yaml::from_str(block).map_err(|error| error.to_string())?;
    let map = match value {
        Value::Mapping(map) => map,
        Value::Null => Mapping::new(),
        _ => return Err("invalid type, expected struct RawFrontmatter".to_string()),
    };
    let boundaries = match entry(&map, "boundaries") {
        Value::Null => None,
        Value::Mapping(b) => Some(RawBoundaries {
            allowed: string_list(&entry(&b, "allowed"), "allowed")?,
            forbidden_patterns: string_list(
                &entry(&b, "forbidden_patterns"),
                "forbidden_patterns",
            )?,
        }),
        _ => return Err("boundaries: invalid type, expected a map".to_string()),
    };
    let completion_criteria = match entry(&map, "completion_criteria") {
        Value::Null => None,
        Value::Sequence(items) => {
            let mut out = Vec::new();
            for item in items {
                match item {
                    Value::Mapping(c) => out.push(RawCompletionCriterion {
                        id: scalar(&entry(&c, "id"), "id")?,
                        scenario: scalar(&entry(&c, "scenario"), "scenario")?,
                        test: scalar(&entry(&c, "test"), "test")?,
                    }),
                    _ => return Err("completion_criteria: invalid type".to_string()),
                }
            }
            Some(out)
        }
        _ => return Err("completion_criteria: invalid type".to_string()),
    };
    Ok(RawFrontmatter {
        id: scalar(&entry(&map, "id"), "id")?,
        title: scalar(&entry(&map, "title"), "title")?,
        status: scalar(&entry(&map, "status"), "status")?,
        created: scalar(&entry(&map, "created"), "created")?,
        closed: scalar(&entry(&map, "closed"), "closed")?,
        module: scalar(&entry(&map, "module"), "module")?,
        prd: scalar(&entry(&map, "prd"), "prd")?,
        parent: scalar(&entry(&map, "parent"), "parent")?,
        merged_into: scalar(&entry(&map, "merged-into"), "merged-into")?,
        superseded_by: scalar(&entry(&map, "superseded-by"), "superseded-by")?,
        design_doc: scalar(&entry(&map, "design-doc"), "design-doc")?,
        design_docs: string_list(&entry(&map, "design-docs"), "design-docs")?,
        exec_plan: scalar(&entry(&map, "exec-plan"), "exec-plan")?,
        guidelines: string_list(&entry(&map, "guidelines"), "guidelines")?,
        boundaries,
        completion_criteria,
    })
}

fn absolute(relative: &str) -> String {
    format!("{ROOT}/{relative}")
}

impl Repo {
    fn new() -> Self {
        Repo::default()
    }

    fn write(&mut self, relative: &str, contents: &str) {
        match self.files.iter_mut().find(|(path, _)| path == relative) {
            Some(file) => file.1 = contents.to_string(),
            None => self.files.push((relative.to_string(), contents.to_string())),
        }
    }

    fn mkdir(&mut self, relative: &str) {
        self.dirs.push(absolute(relative));
    }

    fn read_abs(&self, path: &str) -> Option<String> {
        self.files
            .iter()
            .find(|(relative, _)| absolute(relative) == path)
            .map(|(_, contents)| contents.clone())
    }

    fn exists_abs(&self, path: &str) -> bool {
        self.read_abs(path).is_some()
    }

    fn is_dir_abs(&self, path: &str) -> bool {
        let prefix = format!("{path}/");
        self.dirs.iter().any(|d| d == path || d.starts_with(&prefix))
            || self
                .files
                .iter()
                .any(|(relative, _)| absolute(relative).starts_with(&prefix))
    }

    fn scan(&self) -> Vec<ScannedFile> {
        self.files
            .iter()
            .filter(|(relative, _)| relative.ends_with(".md"))
            .map(|(relative, raw)| {
                let yaml = match extract_frontmatter_block(relative, raw) {
                    Ok(block) => raw_frontmatter(&block),
                    Err(error) => Err(error.message()),
                };
                ScannedFile {
                    absolute: absolute(relative),
                    relative: relative.split('/').map(ToOwned::to_owned).collect(),
                    content: FileContent::Read {
                        raw: raw.clone(),
                        yaml,
                    },
                }
            })
            .collect()
    }

    fn index(&self) -> DocumentIndex {
        build_index(ROOT.to_string(), self.scan())
    }
}

fn valid_repo() -> Repo {
    let mut repo = Repo::new();
    repo.write(
        "docs/specs/project.md",
        "---\nid: project\nstatus: active\n---\n\n# Project\n",
    );
    repo.write(
        "docs/specs/org.md",
        "---\nid: org\nstatus: active\n---\n\n# Org\n",
    );
    repo.write(
        "docs/guidelines/reliability.md",
        "---\ntitle: \"Reliability\"\n---\n\n# Reliability\n",
    );
    repo.write(
        "docs/prd/approved/prd-user-auth.md",
        "---\nid: prd-user-auth\ntitle: \"User Auth\"\nstatus: approved\ncreated: 2026-03-25\n---\n\n# PRD\n",
    );
    repo.write(
        "docs/design/candidate/design-auth-system.md",
        "---\nid: design-auth-system\ntitle: \"Auth System\"\nstatus: candidate\ncreated: 2026-03-25\nprd: prd-user-auth\n---\n\n# Design\n",
    );
    repo.write(
        "docs/exec-plans/exec-auth-rollout/plan.md",
        "---\nid: exec-auth-rollout\ntitle: \"Auth rollout\"\nstatus: candidate\ncreated: 2026-03-25\ndesign-docs:\n  - design-auth-system\n---\n\n# Exec\n",
    );
    repo.write(
        "docs/exec-plans/exec-auth-rollout/task-01-implement-login.md",
        "---\nid: task-01\ntitle: \"Implement login\"\nstatus: candidate\ncreated: 2026-03-25\nexec-plan: exec-auth-rollout\nguidelines:\n  - docs/guidelines/reliability.md\nboundaries:\n  allowed:\n    - src/**/*.rs\n  forbidden_patterns:\n    - docs/prd/**\n    - docs/design/**\n    - docs/guidelines/**\n    - docs/specs/**\n    - docs/exec-plans/**\ncompletion_criteria:\n  - id: cc-001\n    scenario: login compiles\n    test: test_login\n---\n\n# Task\n",
    );
    repo
}

fn closed_task_repo() -> Repo {
    let mut repo = valid_repo();
    repo.write(
        "docs/exec-plans/exec-auth-rollout/task-01-implement-login.md",
        "---\nid: task-01\ntitle: \"Implement login\"\nstatus: closed\ncreated: 2026-03-25\nclosed: 2026-03-26\nexec-plan: exec-auth-rollout\nguidelines:\n  - docs/guidelines/reliability.md\nboundaries:\n  allowed:\n    - src/**/*.rs\n  forbidden_patterns:\n    - docs/prd/**\n    - docs/design/**\n    - docs/guidelines/**\n    - docs/specs/**\n    - docs/exec-plans/**\ncompletion_criteria:\n  - id: cc-001\n    scenario: login compiles\n    test: test_login\n---\n\n# Task\n",
    );
    repo
}

// ---------------------------------------------------------------------------
// The document model.
// ---------------------------------------------------------------------------

#[test]
fn build_index_loads_valid_documents() {
    let index = valid_repo().index();

    assert!(
        index.invalid_entries.is_empty(),
        "{:#?}",
        index.invalid_entries
    );
    assert_eq!(index.documents.len(), 7);
    assert!(index.documents.contains_key(&DocId::ProjectSpec));
    assert!(index.documents.contains_key(&DocId::OrgSpec));
    assert!(index
        .documents
        .contains_key(&DocId::Guideline("reliability".to_string())));
    assert!(index
        .documents
        .contains_key(&DocId::Prd("user-auth".to_string())));
    assert!(index
        .documents
        .contains_key(&DocId::DesignDoc("auth-system".to_string())));
    assert!(index
        .documents
        .contains_key(&DocId::ExecPlan("auth-rollout".to_string())));
    assert!(index.documents.contains_key(&DocId::TaskSpec {
        exec_slug: "auth-rollout".to_string(),
        sequence: 1,
    }));
}

#[test]
fn build_compliant_index_accepts_valid_repository() {
    let repo = valid_repo();

    let index = build_compliant_index(ROOT.to_string(), repo.scan())
        .unwrap_or_else(|error| panic!("repository should be compliant: {}", error.message()));

    assert_eq!(index.documents.len(), 7);
}

#[test]
fn build_index_ignores_unmanaged_markdown() {
    let mut repo = valid_repo();
    repo.write("notes.md", "# Scratch\n");

    let index = repo.index();

    assert!(index
        .ignored_paths
        .iter()
        .any(|path| path.ends_with("notes.md")));
}

#[test]
fn build_index_rejects_unsupported_managed_location() {
    let mut repo = valid_repo();
    repo.write(
        "docs/exec-plans/task-01-orphan.md",
        "---\nid: task-01\ntitle: \"Orphan\"\nstatus: draft\ncreated: 2026-03-25\nexec-plan: exec-auth-rollout\n---\n",
    );

    let index = repo.index();

    assert!(index.invalid_entries.iter().any(|entry| {
        entry.path.ends_with("docs/exec-plans/task-01-orphan.md")
            && entry.reason.contains("unsupported markdown location")
    }));
}

#[test]
fn build_index_rejects_patch_missing_parent() {
    let mut repo = valid_repo();
    repo.write(
        "docs/design/candidate/design-auth-system-patch-01-cleanup.md",
        "---\nid: design-auth-system-patch-01-cleanup\ntitle: \"Cleanup\"\nstatus: candidate\ncreated: 2026-03-25\n---\n\n# Patch\n",
    );

    let index = repo.index();

    assert!(index.invalid_entries.iter().any(|entry| {
        entry
            .path
            .ends_with("docs/design/candidate/design-auth-system-patch-01-cleanup.md")
            && entry.reason.contains("missing field `parent`")
    }));
}

#[test]
fn build_index_rejects_task_with_legacy_design_doc_field() {
    let mut repo = valid_repo();
    repo.write(
        "docs/exec-plans/exec-auth-rollout/task-02-bad-link.md",
        "---\nid: task-02\ntitle: \"Bad link\"\nstatus: draft\ncreated: 2026-03-25\nexec-plan: exec-auth-rollout\ndesign-doc: design-auth-system\n---\n\n# Task\n",
    );

    let index = repo.index();

    assert!(index.invalid_entries.iter().any(|entry| {
        entry
            .path
            .ends_with("docs/exec-plans/exec-auth-rollout/task-02-bad-link.md")
            && entry.reason.contains("must not declare design-doc")
    }));
}

#[test]
fn validate_index_requires_patch_parent_when_exec_references_patch() {
    let mut repo = valid_repo();
    repo.write(
        "docs/design/candidate/design-auth-system-patch-01-cleanup.md",
        "---\nid: design-auth-system-patch-01-cleanup\ntitle: \"Cleanup\"\nstatus: candidate\ncreated: 2026-03-25\nparent: design-auth-system\n---\n\n# Patch\n",
    );
    repo.write(
        "docs/exec-plans/exec-auth-rollout/plan.md",
        "---\nid: exec-auth-rollout\ntitle: \"Auth rollout\"\nstatus: candidate\ncreated: 2026-03-25\ndesign-docs:\n  - design-auth-system-patch-01-cleanup\n---\n\n# Exec\n",
    );

    let index = repo.index();
    let violations = validate_index(&index);

    assert!(violations.iter().any(|violation| {
        violation
            .message
            .contains("requires parent design design-auth-system in design-docs")
    }));
}

#[test]
fn validate_index_requires_guideline_paths_to_resolve() {
    let mut repo = valid_repo();
    repo.write(
        "docs/exec-plans/exec-auth-rollout/task-02-bad-guideline.md",
        "---\nid: task-02\ntitle: \"Bad guideline\"\nstatus: draft\ncreated: 2026-03-25\nexec-plan: exec-auth-rollout\nguidelines:\n  - docs/guidelines/missing.md\n---\n\n# Task\n",
    );

    let index = repo.index();
    let violations = validate_index(&index);

    assert!(violations.iter().any(|violation| {
        violation
            .message
            .contains("guideline docs/guidelines/missing.md does not resolve to a Guideline")
    }));
}

#[test]
fn expected_directory_covers_new_directory_mappings() {
    let cases = [
        (DocType::Prd, Status::Draft, Some("docs/prd/draft")),
        (DocType::Prd, Status::Approved, Some("docs/prd/approved")),
        (DocType::Prd, Status::Obsolete, Some("docs/prd/obsolete")),
        (DocType::DesignDoc, Status::Draft, Some("docs/design/draft")),
        (
            DocType::DesignDoc,
            Status::Candidate,
            Some("docs/design/candidate"),
        ),
        (
            DocType::DesignDoc,
            Status::Implemented,
            Some("docs/design/implemented"),
        ),
        (
            DocType::DesignDoc,
            Status::Obsolete,
            Some("docs/design/obsolete"),
        ),
        (
            DocType::DesignPatch,
            Status::Draft,
            Some("docs/design/draft"),
        ),
        (
            DocType::DesignPatch,
            Status::Candidate,
            Some("docs/design/candidate"),
        ),
        (
            DocType::DesignPatch,
            Status::Implemented,
            Some("docs/design/implemented"),
        ),
        (
            DocType::DesignPatch,
            Status::Obsolete,
            Some("docs/design/obsolete"),
        ),
        (
            DocType::DesignPatch,
            Status::ObsoleteMerged,
            Some("docs/design/obsolete"),
        ),
        (DocType::ProjectSpec, Status::Active, Some("docs/specs")),
        (DocType::OrgSpec, Status::Active, Some("docs/specs")),
        (DocType::Guideline, Status::Active, Some("docs/guidelines")),
        (DocType::ExecPlan, Status::Draft, None),
        (DocType::ExecPlan, Status::Candidate, None),
        (DocType::ExecPlan, Status::Closed, None),
        (DocType::TaskSpec, Status::Draft, None),
        (DocType::TaskSpec, Status::Candidate, None),
        (DocType::TaskSpec, Status::Closed, None),
    ];

    for (doc_type, status, expected) in cases {
        assert_eq!(expected_directory(doc_type, status), expected);
    }
}

#[test]
fn validate_transition_uses_new_lifecycles() {
    let mut repo = valid_repo();
    repo.write(
        "docs/prd/draft/prd-billing.md",
        "---\nid: prd-billing\ntitle: \"Billing\"\nstatus: draft\ncreated: 2026-03-25\n---\n\n# PRD\n",
    );
    repo.write(
        "docs/design/draft/design-billing.md",
        "---\nid: design-billing\ntitle: \"Billing\"\nstatus: draft\ncreated: 2026-03-25\nprd: prd-billing\n---\n\n# Design\n",
    );
    repo.write(
        "docs/design/candidate/design-auth-system-patch-01-cleanup.md",
        "---\nid: design-auth-system-patch-01-cleanup\ntitle: \"Cleanup\"\nstatus: candidate\ncreated: 2026-03-25\nparent: design-auth-system\n---\n\n# Patch\n",
    );
    repo.write(
        "docs/exec-plans/exec-billing/plan.md",
        "---\nid: exec-billing\ntitle: \"Billing\"\nstatus: draft\ncreated: 2026-03-25\ndesign-docs:\n  - design-billing\n---\n\n# Exec\n",
    );
    repo.write(
        "docs/exec-plans/exec-billing/task-01-add-invoice.md",
        "---\nid: task-01\ntitle: \"Add invoice\"\nstatus: draft\ncreated: 2026-03-25\nexec-plan: exec-billing\n---\n\n# Task\n",
    );

    let index = repo.index();
    let draft_prd = index
        .documents
        .get(&DocId::Prd("billing".to_string()))
        .expect("draft prd should exist");
    let draft_design = index
        .documents
        .get(&DocId::DesignDoc("billing".to_string()))
        .expect("draft design should exist");
    let patch = index
        .documents
        .get(&DocId::DesignPatch {
            parent_slug: "auth-system".to_string(),
            sequence: 1,
            patch_slug: "cleanup".to_string(),
        })
        .expect("patch should exist");
    let draft_exec = index
        .documents
        .get(&DocId::ExecPlan("billing".to_string()))
        .expect("draft exec should exist");
    let draft_task = index
        .documents
        .get(&DocId::TaskSpec {
            exec_slug: "billing".to_string(),
            sequence: 1,
        })
        .expect("draft task should exist");

    assert!(validate_transition(&index, draft_prd, Status::Approved).is_ok());
    assert!(validate_transition(&index, draft_design, Status::Candidate).is_ok());
    assert!(validate_transition(&index, patch, Status::Implemented).is_ok());
    assert!(validate_transition(&index, draft_exec, Status::Candidate).is_ok());
    assert!(validate_transition(&index, draft_task, Status::Candidate).is_ok());
    assert!(validate_transition(&index, draft_task, Status::Closed).is_ok());
}

#[test]
fn validate_transition_blocks_design_implementation_until_exec_is_closed() {
    let index = valid_repo().index();
    let design = index
        .documents
        .get(&DocId::DesignDoc("auth-system".to_string()))
        .expect("design should exist");

    assert!(validate_transition(&index, design, Status::Implemented).is_err());
}

#[test]
fn validate_transition_blocks_exec_close_until_tasks_are_closed() {
    let index = valid_repo().index();
    let exec = index
        .documents
        .get(&DocId::ExecPlan("auth-rollout".to_string()))
        .expect("exec should exist");

    assert!(validate_transition(&index, exec, Status::Closed).is_err());
}

#[test]
fn validate_transition_allows_exec_close_when_tasks_are_closed() {
    let index = closed_task_repo().index();
    let exec = index
        .documents
        .get(&DocId::ExecPlan("auth-rollout".to_string()))
        .expect("exec should exist");

    assert!(validate_transition(&index, exec, Status::Closed).is_ok());
}

#[test]
fn next_patch_number_is_scoped_to_parent_design() {
    let mut repo = valid_repo();
    repo.write(
        "docs/design/candidate/design-auth-system-patch-01-cleanup.md",
        "---\nid: design-auth-system-patch-01-cleanup\ntitle: \"Cleanup\"\nstatus: candidate\ncreated: 2026-03-25\nparent: design-auth-system\n---\n\n# Patch\n",
    );
    repo.write(
        "docs/design/implemented/design-payments.md",
        "---\nid: design-payments\ntitle: \"Payments\"\nstatus: implemented\ncreated: 2026-03-25\n---\n\n# Design\n",
    );
    repo.write(
        "docs/design/candidate/design-payments-patch-02-reconcile.md",
        "---\nid: design-payments-patch-02-reconcile\ntitle: \"Reconcile\"\nstatus: candidate\ncreated: 2026-03-25\nparent: design-payments\n---\n\n# Patch\n",
    );

    let next = next_patch_number(ROOT.to_string(), repo.scan(), "auth-system")
        .unwrap_or_else(|error| panic!("next patch should resolve: {}", error.message()));

    assert_eq!(next, 2);
}

#[test]
fn next_task_sequence_is_scoped_to_exec_plan() {
    let mut repo = valid_repo();
    repo.write(
        "docs/design/candidate/design-payments.md",
        "---\nid: design-payments\ntitle: \"Payments\"\nstatus: candidate\ncreated: 2026-03-25\n---\n\n# Design\n",
    );
    repo.write(
        "docs/exec-plans/exec-payments/plan.md",
        "---\nid: exec-payments\ntitle: \"Payments\"\nstatus: candidate\ncreated: 2026-03-25\ndesign-docs:\n  - design-payments\n---\n\n# Exec\n",
    );
    repo.write(
        "docs/exec-plans/exec-payments/task-03-reconcile-ledger.md",
        "---\nid: task-03\ntitle: \"Reconcile ledger\"\nstatus: draft\ncreated: 2026-03-25\nexec-plan: exec-payments\n---\n\n# Task\n",
    );

    let next = next_task_sequence(ROOT.to_string(), repo.scan(), "auth-rollout")
        .unwrap_or_else(|error| panic!("next task sequence should resolve: {}", error.message()));

    assert_eq!(next, 2);
}

#[test]
fn ensure_unique_slug_rejects_existing_slug() {
    let repo = valid_repo();

    let error = ensure_unique_slug(ROOT.to_string(), repo.scan(), DocType::DesignDoc, "auth-system")
        .expect_err("slug should already exist");

    assert!(error
        .message()
        .contains("slug `auth-system` is already in use"));
}

#[test]
fn ensure_index_compliant_rejects_repository_level_violations() {
    let mut repo = valid_repo();
    repo.write(
        "docs/design/obsolete/design-retired-auth.md",
        "---\nid: design-retired-auth\ntitle: \"Retired Auth\"\nstatus: obsolete\ncreated: 2026-03-25\nsuperseded-by: design-missing\n---\n\n# Design\n",
    );

    let index = repo.index();
    let error = ensure_index_compliant(&index).expect_err("index should be invalid");

    assert!(error
        .message()
        .contains("repository-level validation violation"));
}

#[test]
fn preview_transition_rejects_documents_missing_from_index() {
    let index = valid_repo().index();
    let existing = index
        .documents
        .get(&DocId::ExecPlan("auth-rollout".to_string()))
        .expect("exec should exist")
        .clone();
    let missing = specmate::doc::Document {
        id: DocId::ExecPlan("missing".to_string()),
        path: absolute("docs/exec-plans/exec-missing/plan.md"),
        ..existing
    };

    let error =
        preview_transition(&index, &missing, Status::Closed).expect_err("preview should fail");

    assert!(error
        .message()
        .contains("document exec-missing is not present"));
}

#[test]
fn validate_preview_reports_post_transition_violations() {
    let index = valid_repo().index();
    let exec = index
        .documents
        .get(&DocId::ExecPlan("auth-rollout".to_string()))
        .expect("exec should exist");
    let preview = preview_transition(&index, exec, Status::Closed)
        .unwrap_or_else(|error| panic!("preview should build: {}", error.message()));
    let violations = validate_preview(&preview);

    assert!(violations.iter().any(|violation| {
        violation
            .message
            .contains("exec-plan exec-auth-rollout has invalid status closed")
    }));
}

#[test]
fn association_summaries_reflect_related_documents() {
    let mut repo = valid_repo();
    repo.write(
        "docs/design/candidate/design-auth-system-patch-01-cleanup.md",
        "---\nid: design-auth-system-patch-01-cleanup\ntitle: \"Cleanup\"\nstatus: candidate\ncreated: 2026-03-25\nparent: design-auth-system\n---\n\n# Patch\n",
    );

    let index = repo.index();
    let prd = index
        .documents
        .get(&DocId::Prd("user-auth".to_string()))
        .expect("prd should exist");
    let design = index
        .documents
        .get(&DocId::DesignDoc("auth-system".to_string()))
        .expect("design should exist");
    let exec = index
        .documents
        .get(&DocId::ExecPlan("auth-rollout".to_string()))
        .expect("exec should exist");

    let prd_summary = association_summaries(&index, prd)
        .into_iter()
        .find(|summary| summary.kind == AssociationKind::PrdDesignDocs)
        .expect("prd summary should exist");
    assert_eq!(prd_summary.related.len(), 1);

    let design_summaries = association_summaries(&index, design);
    let patch_summary = design_summaries
        .iter()
        .find(|summary| summary.kind == AssociationKind::DesignDocPatches)
        .expect("patch summary should exist");
    assert_eq!(patch_summary.related.len(), 1);
    let exec_summary = design_summaries
        .iter()
        .find(|summary| summary.kind == AssociationKind::DesignDocExecPlans)
        .expect("exec summary should exist");
    assert_eq!(exec_summary.related.len(), 1);

    let task_summary = association_summaries(&index, exec)
        .into_iter()
        .find(|summary| summary.kind == AssociationKind::ExecPlanTasks)
        .expect("task summary should exist");
    assert_eq!(task_summary.related.len(), 1);
    assert!(task_summary.all_in_status(Status::Candidate));
}

// ---------------------------------------------------------------------------
// `specmate check`.
// ---------------------------------------------------------------------------

fn create_compliant_repo() -> Repo {
    let mut repo = Repo::new();
    repo.write(
        "docs/specs/project.md",
        "---\nid: project\nstatus: active\n---\n\n# Project\n",
    );
    repo.write(
        "docs/specs/org.md",
        "---\nid: org\nstatus: active\n---\n\n# Org\n",
    );
    repo.write(
        "docs/guidelines/specmate.md",
        "---\ntitle: \"Specmate\"\n---\n\n# Guideline\n",
    );
    repo.write(
        "docs/prd/approved/prd-core-checks.md",
        "---\nid: prd-core-checks\ntitle: \"Core Checks\"\nstatus: approved\ncreated: 2026-03-25\n---\n\n# PRD\n",
    );
    repo.write(
        "docs/design/implemented/design-check-engine.md",
        "---\nid: design-check-engine\ntitle: \"Check Engine\"\nstatus: implemented\ncreated: 2026-03-25\nprd: prd-core-checks\n---\n\n# Design\n",
    );
    repo.write(
        "docs/exec-plans/exec-build-check-engine/plan.md",
        "---\nid: exec-build-check-engine\ntitle: \"Build Check Engine\"\nstatus: candidate\ncreated: 2026-03-25\ndesign-docs:\n  - design-check-engine\n---\n\n# Exec Plan\n",
    );
    repo.write(
        "docs/exec-plans/exec-build-check-engine/task-01-implement-check-engine.md",
        "---\nid: task-01\ntitle: \"Implement check engine\"\nstatus: candidate\ncreated: 2026-03-25\nexec-plan: exec-build-check-engine\nboundaries:\n  allowed:\n    - \"src/lib.rs\"\n  forbidden_patterns:\n    - \"docs/prd/**\"\n    - \"docs/design/**\"\n    - \"docs/guidelines/**\"\n    - \"docs/specs/**\"\n    - \"docs/exec-plans/**\"\ncompletion_criteria:\n  - id: \"cc-001\"\n    scenario: \"task passes\"\n    test: \"test_task\"\n---\n\n# Task\n",
    );
    repo.write("src/lib.rs", "pub fn check_engine() {}\n");
    repo.write("src/main.rs", "fn main() {}\n");
    repo.write("tests/sample.rs", "#[test]\nfn sample() {}\n");
    repo
}

/// Runs one named check, or all of them, as `specmate check` does.
fn run_check(repo: &Repo, name: Option<CheckName>) -> (Result<(), ()>, String, String) {
    let reports = match name {
        None => run_all(ROOT.to_string(), repo.scan()),
        Some(name) => vec![run_named(ROOT.to_string(), repo.scan(), name)],
    };
    let output = check_output(Ok(reports));
    let result = if output.failed { Err(()) } else { Ok(()) };
    (result, output.stdout, output.stderr)
}

/// Runs the boundaries check of a task against the given changed paths.
fn run_boundaries_check(
    repo: &Repo,
    task_id: &str,
    changed: &[&str],
) -> (Result<(), ()>, String, String) {
    let changed = Ok(changed.iter().map(|p| p.to_string()).collect());
    let output = check_output(
        run_boundaries(ROOT.to_string(), repo.scan(), task_id, changed).map(|r| vec![r]),
    );
    let result = if output.failed { Err(()) } else { Ok(()) };
    (result, output.stdout, output.stderr)
}

#[test]
fn test_check_names_reports_invalid_managed_filenames() {
    let mut repo = create_compliant_repo();
    repo.write(
        "docs/prd/approved/prd-01-invalid.md",
        "---\nid: prd-01\ntitle: \"Bad\"\nstatus: approved\n---\n\n# Bad\n",
    );

    let (result, stdout, _) = run_check(&repo, Some(CheckName::Names));

    assert!(result.is_err(), "names check should fail");
    assert!(stdout.contains("[fail] check names"));
    assert!(stdout.contains("docs/prd/approved/prd-01-invalid.md"));
}

#[test]
fn test_check_frontmatter_reports_invalid_frontmatter() {
    let mut repo = create_compliant_repo();
    repo.write(
        "docs/exec-plans/exec-build-check-engine/task-02-bad-frontmatter.md",
        "---\nid: task-02\ntitle: \"Bad frontmatter\"\nstatus: candidate\ncreated: 2026-03-25\nexec-plan: exec-build-check-engine\nboundaries:\n  allowed:\n    - src/other.rs\ncompletion_criteria:\n  - id: cc-001\n    scenario: broken\n    test: test_broken\n---\n\n# Task\n",
    );

    let (result, stdout, _) = run_check(&repo, Some(CheckName::Frontmatter));

    assert!(result.is_err(), "frontmatter check should fail");
    assert!(stdout.contains("[fail] check frontmatter"));
    assert!(stdout.contains("must include"));
    assert!(stdout.contains("docs/"));
}

#[test]
fn test_check_status_reports_directory_mismatches() {
    let mut repo = create_compliant_repo();
    repo.write(
        "docs/design/draft/design-misplaced.md",
        "---\nid: design-misplaced\ntitle: \"Misplaced\"\nstatus: candidate\ncreated: 2026-03-25\n---\n\n# Design\n",
    );

    let (result, stdout, _) = run_check(&repo, Some(CheckName::Status));

    assert!(result.is_err(), "status check should fail");
    assert!(stdout.contains("[fail] check status"));
    assert!(stdout.contains("expected docs/design/candidate"));
}

#[test]
fn test_check_refs_reports_stale_references() {
    let mut repo = create_compliant_repo();
    repo.write(
        "docs/prd/obsolete/prd-stale.md",
        "---\nid: prd-stale\ntitle: \"Obsolete\"\nstatus: obsolete\ncreated: 2026-03-25\n---\n\n# PRD\n",
    );
    repo.write(
        "docs/design/candidate/design-stale.md",
        "---\nid: design-stale\ntitle: \"Stale\"\nstatus: candidate\ncreated: 2026-03-25\nprd: prd-stale\n---\n\n# Design\n",
    );

    let (result, stdout, _) = run_check(&repo, Some(CheckName::Refs));

    assert!(result.is_err(), "refs check should fail");
    assert!(stdout.contains("[fail] check refs"));
    assert!(stdout.contains("prd prd-stale is obsolete"));
}

#[test]
fn test_check_conflicts_reports_overlapping_boundaries() {
    let mut repo = create_compliant_repo();
    repo.write(
        "docs/exec-plans/exec-build-check-engine/task-02-overlap.md",
        "---\nid: task-02\ntitle: \"Overlap\"\nstatus: candidate\ncreated: 2026-03-25\nexec-plan: exec-build-check-engine\nboundaries:\n  allowed:\n    - \"src/**/*.rs\"\n  forbidden_patterns:\n    - \"docs/prd/**\"\n    - \"docs/design/**\"\n    - \"docs/guidelines/**\"\n    - \"docs/specs/**\"\n    - \"docs/exec-plans/**\"\ncompletion_criteria:\n  - id: \"cc-001\"\n    scenario: \"overlap\"\n    test: \"test_overlap\"\n---\n\n# Task\n",
    );

    let (result, stdout, _) = run_check(&repo, Some(CheckName::Conflicts));

    assert!(result.is_err(), "conflicts check should fail");
    assert!(stdout.contains("[fail] check conflicts"));
    assert!(stdout.contains("exec-build-check-engine/task-01"));
    assert!(stdout.contains("exec-build-check-engine/task-02"));
}

#[test]
fn test_check_conflicts_reports_pattern_overlap_without_existing_files() {
    let mut repo = create_compliant_repo();
    repo.write(
        "docs/exec-plans/exec-build-check-engine/task-02-future-overlap.md",
        "---\nid: task-02\ntitle: \"Future overlap\"\nstatus: candidate\ncreated: 2026-03-25\nexec-plan: exec-build-check-engine\nboundaries:\n  allowed:\n    - \"src/**/*.rs\"\n  forbidden_patterns:\n    - \"docs/prd/**\"\n    - \"docs/design/**\"\n    - \"docs/guidelines/**\"\n    - \"docs/specs/**\"\n    - \"docs/exec-plans/**\"\ncompletion_criteria:\n  - id: \"cc-001\"\n    scenario: \"future\"\n    test: \"test_future\"\n---\n\n# Task\n",
    );

    let (result, stdout, _) = run_check(&repo, Some(CheckName::Conflicts));

    assert!(result.is_err(), "conflicts check should fail");
    assert!(stdout.contains("[fail] check conflicts"));
    assert!(
        stdout.contains("'src/lib.rs' overlaps 'src/**/*.rs'")
            || stdout.contains("'src/**/*.rs' overlaps 'src/lib.rs'")
    );
}

#[test]
fn test_check_aggregates_index_check_results() {
    let mut repo = create_compliant_repo();
    repo.write(
        "docs/design/draft/design-misplaced.md",
        "---\nid: design-misplaced\ntitle: \"Misplaced\"\nstatus: candidate\ncreated: 2026-03-25\n---\n\n# Design\n",
    );

    let (result, stdout, _) = run_check(&repo, None);

    assert!(result.is_err(), "aggregate check should fail");
    assert!(stdout.contains("[pass] check names"));
    assert!(stdout.contains("[fail] check status"));
    assert!(stdout.contains("1 check failed."));
}

#[test]
fn test_check_refs_distinguishes_steady_state_validity_from_transition_gates() {
    let valid = create_compliant_repo();

    let (valid_result, valid_stdout, _) = run_check(&valid, Some(CheckName::Refs));

    assert!(
        valid_result.is_ok(),
        "steady-state valid repo should pass refs"
    );
    assert!(valid_stdout.contains("[pass] check refs"));

    let mut invalid = create_compliant_repo();
    invalid.write(
        "docs/design/obsolete/design-retired.md",
        "---\nid: design-retired\ntitle: \"Retired\"\nstatus: obsolete\ncreated: 2026-03-25\nprd: prd-core-checks\n---\n\n# Design\n",
    );
    invalid.write(
        "docs/exec-plans/exec-retired/plan.md",
        "---\nid: exec-retired\ntitle: \"Retired\"\nstatus: candidate\ncreated: 2026-03-25\ndesign-docs:\n  - design-retired\n---\n\n# Exec\n",
    );

    let (invalid_result, invalid_stdout, _) = run_check(&invalid, Some(CheckName::Refs));

    assert!(
        invalid_result.is_err(),
        "live ref to obsolete design should fail"
    );
    assert!(invalid_stdout.contains("[fail] check refs"));
    assert!(
        invalid_stdout.contains("design-docs reference design-retired has invalid status obsolete")
    );
}

#[test]
fn test_check_command_dispatches_to_requested_mode() {
    let repo = create_compliant_repo();

    let (result, stdout, stderr) = run_check(&repo, None);
    assert!(result.is_ok(), "aggregate check failed: {stderr}");
    assert!(stdout.contains("[pass] check names"));
    assert!(stdout.contains("[pass] check refs"));

    let (result, stdout, stderr) = run_check(&repo, Some(CheckName::Names));
    assert!(result.is_ok(), "named check failed: {stderr}");
    assert!(stdout.contains("[pass] check names"));

    let (result, stdout, stderr) = run_boundaries_check(&repo, "task-0001", &["src/lib.rs"]);
    assert!(result.is_ok(), "boundaries check failed: {stderr}");
    assert!(stdout.contains("check boundaries task-0001"));
}

#[test]
fn test_check_boundaries_passes_for_allowed_changes() {
    let repo = create_compliant_repo();

    let (result, stdout, stderr) = run_boundaries_check(&repo, "task-0001", &["src/lib.rs"]);

    assert!(result.is_ok(), "boundaries should pass: {stderr}");
    assert!(stdout.contains("[pass] check boundaries task-0001"));
}

#[test]
fn test_check_boundaries_reports_files_outside_allowed_patterns() {
    let repo = create_compliant_repo();

    let (result, stdout, _) = run_boundaries_check(&repo, "task-0001", &["src/main.rs"]);

    assert!(result.is_err(), "boundaries should fail");
    assert!(stdout.contains("src/main.rs"));
    assert!(stdout.contains("Allowed: src/lib.rs"));
}

#[test]
fn test_check_boundaries_reports_forbidden_pattern_matches() {
    let mut repo = create_compliant_repo();
    repo.write(
        "specs/active/task-0001-implement-check-engine.md",
        "---\nid: task-0001\ntitle: \"Implement check engine\"\nstatus: active\nexec-plan: exec-001\nguidelines:\n  - docs/guidelines/specmate.md\nboundaries:\n  allowed:\n    - \"**/*.md\"\n  forbidden_patterns:\n    - \"specs/**\"\ncompletion_criteria:\n  - id: \"cc-001\"\n    scenario: \"task passes\"\n    test: \"test_task\"\n---\n\n# Task\n",
    );
    // Written after the last commit, so git reports it as changed.
    repo.write(
        "specs/project.md",
        "---\nid: project\nstatus: active\n---\n\n# Changed\n",
    );

    let (result, stdout, _) = run_boundaries_check(&repo, "task-0001", &["specs/project.md"]);

    assert!(result.is_err(), "boundaries should fail");
    assert!(stdout.contains("specs/project.md"));
    assert!(stdout.contains("forbidden"));
}

#[test]
fn test_check_boundaries_rejects_missing_or_invalid_task_id() {
    let repo = create_compliant_repo();

    let (result, stdout, stderr) = run_boundaries_check(&repo, "task-9999", &[]);

    assert!(result.is_err(), "boundaries should fail");
    assert!(stdout.is_empty(), "unexpected stdout: {stdout}");
    assert!(stderr.contains("[fail] check"));
    assert!(stderr.contains("task spec task-9999 does not exist"));
}

#[test]
fn test_check_boundaries_ignores_unrelated_invalid_managed_docs() {
    let mut repo = create_compliant_repo();
    repo.write(
        "docs/prd/approved/prd-01-invalid.md",
        "---\nid: prd-01\ntitle: \"Bad\"\nstatus: approved\n---\n\n# Bad\n",
    );

    let (result, stdout, stderr) = run_boundaries_check(&repo, "task-0001", &["src/lib.rs"]);

    assert!(result.is_ok(), "boundaries should still pass: {stderr}");
    assert!(stdout.contains("[pass] check boundaries task-0001"));
}

#[test]
fn check_boundaries_reports_the_git_error_it_is_handed() {
    let repo = create_compliant_repo();
    let output = check_output(
        run_boundaries(
            ROOT.to_string(),
            repo.scan(),
            "exec-build-check-engine/task-01",
            Err("opening git repository at /work/repo".to_string()),
        )
        .map(|r| vec![r]),
    );

    assert!(output.failed);
    assert!(output.stdout.is_empty());
    assert!(output.stderr.contains("opening git repository at /work/repo"));
}

#[test]
fn check_boundaries_rejects_an_invalid_glob() {
    let mut repo = create_compliant_repo();
    repo.write(
        "docs/exec-plans/exec-build-check-engine/task-01-implement-check-engine.md",
        "---\nid: task-01\ntitle: \"Implement check engine\"\nstatus: candidate\ncreated: 2026-03-25\nexec-plan: exec-build-check-engine\nboundaries:\n  allowed:\n    - \"src/[lib.rs\"\n  forbidden_patterns:\n    - \"docs/prd/**\"\n    - \"docs/design/**\"\n    - \"docs/guidelines/**\"\n    - \"docs/specs/**\"\n    - \"docs/exec-plans/**\"\ncompletion_criteria:\n  - id: \"cc-001\"\n    scenario: \"task passes\"\n    test: \"test_task\"\n---\n\n# Task\n",
    );

    let (result, stdout, stderr) =
        run_boundaries_check(&repo, "exec-build-check-engine/task-01", &["src/lib.rs"]);

    assert!(result.is_err(), "an invalid glob should fail the check");
    assert!(stdout.is_empty(), "unexpected stdout: {stdout}");
    assert!(stderr.contains("boundaries.allowed"), "{stderr}");
}

#[test]
fn check_boundaries_matches_nested_paths_through_double_star() {
    let mut repo = create_compliant_repo();
    repo.write(
        "docs/exec-plans/exec-build-check-engine/task-01-implement-check-engine.md",
        "---\nid: task-01\ntitle: \"Implement check engine\"\nstatus: candidate\ncreated: 2026-03-25\nexec-plan: exec-build-check-engine\nboundaries:\n  allowed:\n    - \"src/**/*.rs\"\n  forbidden_patterns:\n    - \"docs/prd/**\"\n    - \"docs/design/**\"\n    - \"docs/guidelines/**\"\n    - \"docs/specs/**\"\n    - \"docs/exec-plans/**\"\ncompletion_criteria:\n  - id: \"cc-001\"\n    scenario: \"task passes\"\n    test: \"test_task\"\n---\n\n# Task\n",
    );

    let (result, stdout, stderr) = run_boundaries_check(
        &repo,
        "exec-build-check-engine/task-01",
        &["src/check/deep/engine.rs"],
    );
    assert!(result.is_ok(), "nested path should be allowed: {stderr}");
    assert!(stdout.contains("[pass] check boundaries"));

    let (result, stdout, _) = run_boundaries_check(
        &repo,
        "exec-build-check-engine/task-01",
        &["src/check/notes.txt"],
    );
    assert!(result.is_err(), "a non-matching path should fail");
    assert!(stdout.contains("src/check/notes.txt"));
}

// ---------------------------------------------------------------------------
// `specmate move`.
// ---------------------------------------------------------------------------

fn write_repo_basics(repo: &mut Repo) {
    for relative in [
        "docs/specs",
        "docs/guidelines",
        "docs/prd/draft",
        "docs/prd/approved",
        "docs/prd/obsolete",
        "docs/design/draft",
        "docs/design/candidate",
        "docs/design/implemented",
        "docs/design/obsolete",
        "docs/exec-plans/exec-auth-rollout",
        "src",
    ] {
        repo.mkdir(relative);
    }
    repo.write(
        "docs/specs/project.md",
        "---\nid: project\nstatus: active\n---\n\n# Project\n",
    );
    repo.write(
        "docs/specs/org.md",
        "---\nid: org\nstatus: active\n---\n\n# Org\n",
    );
    repo.write(
        "docs/guidelines/specmate.md",
        "---\ntitle: \"Specmate\"\n---\n\n# Guideline\n",
    );
    repo.write(
        "docs/prd/approved/prd-auth.md",
        "---\nid: prd-auth\ntitle: \"Auth\"\nstatus: approved\ncreated: 2026-03-25\n---\n\n# PRD\n",
    );
}

fn write_design_repo(repo: &mut Repo) -> String {
    write_repo_basics(repo);
    repo.write(
        "docs/design/candidate/design-auth-system.md",
        "---\nid: design-auth-system\ntitle: \"Auth System\"\nstatus: candidate\ncreated: 2026-03-25\nprd: prd-auth\n---\n\n# Design\n",
    );
    absolute("docs/design/candidate/design-auth-system.md")
}

fn write_exec_repo(repo: &mut Repo) -> String {
    write_design_repo(repo);
    repo.write(
        "docs/exec-plans/exec-auth-rollout/plan.md",
        "---\nid: exec-auth-rollout\ntitle: \"Auth rollout\"\nstatus: candidate\ncreated: 2026-03-25\ndesign-docs:\n  - design-auth-system\n---\n\n# Exec Plan\n",
    );
    absolute("docs/exec-plans/exec-auth-rollout/plan.md")
}

fn write_task_repo(repo: &mut Repo) -> String {
    write_exec_repo(repo);
    repo.write(
        "docs/exec-plans/exec-auth-rollout/task-01-implement-login.md",
        "---\nid: task-01\ntitle: \"Implement login\"\nstatus: candidate\ncreated: 2026-03-25\nexec-plan: exec-auth-rollout\nboundaries:\n  allowed:\n    - \"src/lib.rs\"\n  forbidden_patterns:\n    - \"docs/prd/**\"\n    - \"docs/design/**\"\n    - \"docs/guidelines/**\"\n    - \"docs/specs/**\"\n    - \"docs/exec-plans/**\"\ncompletion_criteria:\n  - id: \"cc-001\"\n    scenario: \"task passes\"\n    test: \"test_task\"\n---\n\n# Task\n",
    );
    repo.write("src/lib.rs", "pub fn login() {}\n");
    absolute("docs/exec-plans/exec-auth-rollout/task-01-implement-login.md")
}

fn write_patch_repo(repo: &mut Repo, with_merged_into: bool) -> String {
    write_repo_basics(repo);
    repo.write(
        "docs/design/implemented/design-auth-system.md",
        "---\nid: design-auth-system\ntitle: \"Auth System\"\nstatus: implemented\ncreated: 2026-03-25\nprd: prd-auth\n---\n\n# Design\n",
    );
    let merged_into = if with_merged_into {
        "merged-into: design-auth-system\n"
    } else {
        ""
    };
    repo.write(
        "docs/design/implemented/design-auth-system-patch-01-fix-links.md",
        &format!(
            "---\nid: design-auth-system-patch-01-fix-links\ntitle: \"Fix links\"\nstatus: implemented\ncreated: 2026-03-25\nparent: design-auth-system\n{merged_into}---\n\n# Patch\n"
        ),
    );
    absolute("docs/design/implemented/design-auth-system-patch-01-fix-links.md")
}

fn move_args(doc_id: &str, to_status: &str, dry_run: bool) -> MoveArgs {
    MoveArgs {
        doc_id: doc_id.to_string(),
        to_status: to_status.to_string(),
        dry_run,
    }
}

/// Runs `specmate move` from the directory `start`, applying the plan to the
/// in-memory repository unless it is a dry run.
fn run_move_from(repo: &mut Repo, start: &str, args: MoveArgs) -> (Result<(), ()>, String, String) {
    let candidates = candidate_roots(start);
    let has_marker: Vec<bool> = marker_paths(&candidates)
        .iter()
        .map(|marker| repo.exists_abs(marker))
        .collect();
    let root = match locate_repo_root(&candidates, &has_marker, start, "move") {
        Ok(root) => root,
        Err(failure) => return (Err(()), String::new(), render_failure("move", start, &failure)),
    };
    let target = match move_target(root.clone(), repo.scan(), &args) {
        Ok(target) => target,
        Err(failure) => return (Err(()), String::new(), render_failure("move", &root, &failure)),
    };
    let dir_is_dir = repo.is_dir_abs(&target.destination_dir);
    let dest_exists = repo.exists_abs(&target.destination_path);
    let plan = match plan_move(target, dir_is_dir, dest_exists, TODAY) {
        Ok(plan) => plan,
        Err(failure) => return (Err(()), String::new(), render_failure("move", &root, &failure)),
    };
    if !args.dry_run {
        let prefix = format!("{ROOT}/");
        repo.files
            .retain(|(relative, _)| absolute(relative) != plan.source_path);
        let relative = plan
            .destination_path
            .strip_prefix(&prefix)
            .expect("destination inside the repository")
            .to_string();
        repo.write(&relative, &plan.updated_contents);
    }
    (Ok(()), render_plan(&plan, args.dry_run), String::new())
}

fn run_move(repo: &mut Repo, args: MoveArgs) -> (Result<(), ()>, String, String) {
    run_move_from(repo, ROOT, args)
}

#[test]
fn test_move_dry_run_reports_in_place_task_close_without_writing() {
    let mut repo = Repo::new();
    let source = write_task_repo(&mut repo);
    let before = repo.read_abs(&source);

    let (result, stdout, stderr) =
        run_move(&mut repo, move_args("exec-auth-rollout/task-01", "closed", true));

    assert!(result.is_ok(), "dry-run failed: {stderr}");
    assert!(stdout.contains("Planned operations (no files will be written):"));
    assert!(stdout.contains("[user] UPDATE"));
    assert!(!stdout.contains("[user] MOVE"));
    assert!(stdout
        .trim_end()
        .ends_with("Run without --dry-run to apply."));
    assert!(stderr.is_empty(), "unexpected stderr: {stderr}");
    assert_eq!(repo.read_abs(&source), before, "dry-run should not modify source");
}

#[test]
fn test_move_applies_status_update_and_relocates_design_doc() {
    let mut repo = Repo::new();
    let source = write_design_repo(&mut repo);
    let destination = absolute("docs/design/implemented/design-auth-system.md");

    let (result, stdout, stderr) =
        run_move(&mut repo, move_args("design-auth-system", "implemented", false));

    assert!(result.is_ok(), "move failed: {stderr}");
    assert!(stderr.is_empty(), "unexpected stderr: {stderr}");
    assert!(stdout.contains("[user] UPDATE"));
    assert!(stdout.contains("[user] MOVE"));
    assert!(!repo.exists_abs(&source), "source should be removed after move");
    let updated = repo
        .read_abs(&destination)
        .expect("destination should exist after move");
    assert!(updated.contains("status: implemented"));
}

#[test]
fn test_move_updates_task_in_place_and_adds_closed_date() {
    let mut repo = Repo::new();
    let task = write_task_repo(&mut repo);

    let (result, stdout, stderr) =
        run_move(&mut repo, move_args("exec-auth-rollout/task-01", "closed", false));

    assert!(result.is_ok(), "move failed: {stderr}");
    assert!(stderr.is_empty(), "unexpected stderr: {stderr}");
    assert!(stdout.contains("[user] UPDATE"));
    assert!(!stdout.contains("[user] MOVE"));
    let updated = repo.read_abs(&task).expect("task should still exist");
    assert!(updated.contains("status: closed"));
    assert!(updated.contains("closed: "));
    assert!(updated.contains("status: closed\nclosed: 2026-03-26\n"));
}

#[test]
fn test_move_rejects_invalid_targets_and_illegal_transitions() {
    let mut repo = Repo::new();
    let task = write_task_repo(&mut repo);

    let (result, stdout, stderr) =
        run_move(&mut repo, move_args("exec-auth-rollout/task-01", "candidate", false));
    assert!(result.is_err(), "same-status move should fail");
    assert!(stdout.is_empty(), "unexpected stdout: {stdout}");
    assert!(stderr.contains("[fail] move"));
    assert!(stderr.contains("already candidate"));

    let (result, stdout, stderr) = run_move(&mut repo, move_args("project", "active", false));
    assert!(result.is_err(), "project move should fail");
    assert!(stdout.is_empty(), "unexpected stdout: {stdout}");
    assert!(stderr.contains("does not support status transitions"));

    let (result, stdout, stderr) = run_move(
        &mut repo,
        move_args("exec-auth-rollout/task-01", "implemented", false),
    );
    assert!(result.is_err(), "invalid target status should fail");
    assert!(stdout.is_empty(), "unexpected stdout: {stdout}");
    assert!(stderr.contains("status implemented is not valid"));

    let (result, stdout, stderr) =
        run_move(&mut repo, move_args("exec-auth-rollout/task-01", "draft", false));
    assert!(
        result.is_ok(),
        "candidate -> draft should be legal: {stderr}"
    );
    assert!(stdout.contains("[user] UPDATE"));
    let updated = repo.read_abs(&task).expect("task should still exist");
    assert!(updated.contains("status: draft"));
}

#[test]
fn test_move_fails_before_writing_on_preflight_or_preview_validation_errors() {
    let mut invalid_repo = Repo::new();
    write_task_repo(&mut invalid_repo);
    invalid_repo.write(
        "docs/design/draft/design-bad-patch-patch-01-missing-parent.md",
        "---\nid: design-bad-patch-patch-01-missing-parent\ntitle: \"Bad patch\"\nstatus: draft\ncreated: 2026-03-25\n---\n\n# Broken\n",
    );
    let (result, stdout, stderr) = run_move(
        &mut invalid_repo,
        move_args("exec-auth-rollout/task-01", "closed", false),
    );
    assert!(result.is_err(), "invalid repository should fail");
    assert!(stdout.is_empty(), "unexpected stdout: {stdout}");
    assert!(stderr.contains("repository document state is invalid"));

    let mut preview_repo = Repo::new();
    write_design_repo(&mut preview_repo);
    preview_repo.write(
        "docs/exec-plans/exec-auth-rollout/plan.md",
        "---\nid: exec-auth-rollout\ntitle: \"Auth rollout\"\nstatus: candidate\ncreated: 2026-03-25\ndesign-docs:\n  - design-auth-system\n---\n\n# Exec Plan\n",
    );
    let source = absolute("docs/design/candidate/design-auth-system.md");
    let before = preview_repo.read_abs(&source);
    let (result, stdout, stderr) = run_move(
        &mut preview_repo,
        move_args("design-auth-system", "implemented", false),
    );
    assert!(result.is_err(), "blocked move should fail");
    assert!(stdout.is_empty(), "unexpected stdout: {stdout}");
    assert!(stderr.contains("cannot transition to implemented"));
    assert_eq!(
        preview_repo.read_abs(&source),
        before,
        "failed move must not modify source"
    );

    let mut merged_repo = Repo::new();
    let patch = write_patch_repo(&mut merged_repo, false);
    let before = merged_repo.read_abs(&patch);
    let (result, stdout, stderr) = run_move(
        &mut merged_repo,
        move_args(
            "design-auth-system-patch-01-fix-links",
            "obsolete:merged",
            false,
        ),
    );
    assert!(result.is_err(), "missing merged-into should fail");
    assert!(stdout.is_empty(), "unexpected stdout: {stdout}");
    assert!(stderr.contains("merged-into"));
    assert_eq!(
        merged_repo.read_abs(&patch),
        before,
        "failed move must not modify patch"
    );
}

#[test]
fn test_move_applies_design_patch_merge_transition() {
    let mut repo = Repo::new();
    let source = write_patch_repo(&mut repo, true);
    let destination = absolute("docs/design/obsolete/design-auth-system-patch-01-fix-links.md");

    let (result, stdout, stderr) = run_move(
        &mut repo,
        move_args(
            "design-auth-system-patch-01-fix-links",
            "obsolete:merged",
            false,
        ),
    );

    assert!(result.is_ok(), "move failed: {stderr}");
    assert!(stderr.is_empty(), "unexpected stderr: {stderr}");
    assert!(stdout.contains("[user] UPDATE"));
    assert!(stdout.contains("[user] MOVE"));
    assert!(!repo.exists_abs(&source), "source patch should be removed");
    let updated = repo
        .read_abs(&destination)
        .expect("destination should exist after move");
    assert!(updated.contains("status: obsolete:merged"));
    assert!(updated.contains("merged-into: design-auth-system"));
}

#[test]
fn test_move_locates_repo_root_from_a_subdirectory() {
    let mut repo = Repo::new();
    write_task_repo(&mut repo);
    let nested = absolute("src");

    let (result, stdout, stderr) = run_move_from(
        &mut repo,
        &nested,
        move_args("exec-auth-rollout/task-01", "closed", true),
    );

    assert!(
        result.is_ok(),
        "move from subdirectory should work: {stderr}"
    );
    assert!(stdout.contains("[user] UPDATE"));
}

#[test]
fn move_outside_any_repository_reports_the_start_directory() {
    let mut repo = Repo::new();
    write_task_repo(&mut repo);

    let (result, stdout, stderr) = run_move_from(
        &mut repo,
        "/elsewhere/project",
        move_args("exec-auth-rollout/task-01", "closed", true),
    );

    assert!(result.is_err());
    assert!(stdout.is_empty());
    assert!(stderr.contains("could not locate a specmate repository root from /elsewhere/project"));
    assert!(stderr.contains("Run specmate move from a specmate repository"));
}

#[test]
fn move_rejects_a_destination_that_already_exists() {
    let mut repo = Repo::new();
    write_design_repo(&mut repo);
    let target = move_target(
        ROOT.to_string(),
        repo.scan(),
        &move_args("design-auth-system", "implemented", false),
    )
    .unwrap_or_else(|failure| panic!("{}", render_failure("move", ROOT, &failure)));
    assert_eq!(
        target.destination_path,
        absolute("docs/design/implemented/design-auth-system.md")
    );

    let failure = plan_move(target, true, true, TODAY).expect_err("an occupied destination");
    let stderr = render_failure("move", ROOT, &failure);

    assert!(stderr.contains("destination path docs/design/implemented/design-auth-system.md already exists"));
    assert!(stderr.contains("Remove or rename the existing target file"));
}

#[test]
fn move_rejects_a_missing_destination_directory() {
    let mut repo = Repo::new();
    write_design_repo(&mut repo);
    let target = move_target(
        ROOT.to_string(),
        repo.scan(),
        &move_args("design-auth-system", "implemented", false),
    )
    .unwrap_or_else(|failure| panic!("{}", render_failure("move", ROOT, &failure)));

    let failure = plan_move(target, false, false, TODAY).expect_err("a missing directory");
    let stderr = render_failure("move", ROOT, &failure);

    assert!(stderr.contains("destination directory docs/design/implemented does not exist"));
}

// ---------------------------------------------------------------------------
// `specmate status`.
// ---------------------------------------------------------------------------

fn create_status_repo() -> Repo {
    let mut repo = Repo::new();
    repo.write(
        "docs/specs/project.md",
        "---\nid: project\nstatus: active\n---\n\n# Project\n",
    );
    repo.write(
        "docs/specs/org.md",
        "---\nid: org\nstatus: active\n---\n\n# Org\n",
    );
    repo.write(
        "docs/guidelines/specmate.md",
        "---\ntitle: \"Specmate\"\n---\n\n# Guideline\n",
    );
    repo.write(
        "docs/prd/approved/prd-core-platform.md",
        "---\nid: prd-core-platform\ntitle: \"Core Platform\"\nstatus: approved\ncreated: 2026-03-25\n---\n\n# PRD\n",
    );
    repo.write(
        "docs/design/implemented/design-core-platform.md",
        "---\nid: design-core-platform\ntitle: \"Core Platform\"\nstatus: implemented\ncreated: 2026-03-25\nprd: prd-core-platform\n---\n\n# Design\n",
    );
    repo.write(
        "docs/design/candidate/design-status-command.md",
        "---\nid: design-status-command\ntitle: \"Status Command\"\nstatus: candidate\ncreated: 2026-03-25\nprd: prd-core-platform\n---\n\n# Design\n",
    );
    repo.write(
        "docs/design/candidate/design-future-roadmap.md",
        "---\nid: design-future-roadmap\ntitle: \"Future Roadmap\"\nstatus: candidate\ncreated: 2026-03-25\n---\n\n# Design\n",
    );
    repo.write(
        "docs/design/obsolete/design-core-platform-patch-01-fix-links.md",
        "---\nid: design-core-platform-patch-01-fix-links\ntitle: \"Fix Links\"\nstatus: obsolete\ncreated: 2026-03-25\nparent: design-core-platform\n---\n\n# Patch\n",
    );
    repo.write(
        "docs/exec-plans/exec-core-rollout/plan.md",
        "---\nid: exec-core-rollout\ntitle: \"Core Rollout\"\nstatus: closed\ncreated: 2026-03-25\nclosed: 2026-03-25\ndesign-docs:\n  - design-core-platform\n---\n\n# Exec Plan\n",
    );
    repo.write(
        "docs/exec-plans/exec-status-rollout/plan.md",
        "---\nid: exec-status-rollout\ntitle: \"Status Rollout\"\nstatus: candidate\ncreated: 2026-03-25\ndesign-docs:\n  - design-status-command\n---\n\n# Exec Plan\n",
    );
    repo.write(
        "docs/exec-plans/exec-status-follow-up/plan.md",
        "---\nid: exec-status-follow-up\ntitle: \"Status Follow Up\"\nstatus: candidate\ncreated: 2026-03-25\ndesign-docs:\n  - design-status-command\n---\n\n# Exec Plan\n",
    );
    repo.write(
        "docs/exec-plans/exec-core-rollout/task-01-complete-core-rollout.md",
        "---\nid: task-01\ntitle: \"Complete core rollout\"\nstatus: closed\ncreated: 2026-03-25\nclosed: 2026-03-25\nexec-plan: exec-core-rollout\nboundaries:\n  allowed:\n    - \"src/core.rs\"\n  forbidden_patterns:\n    - \"docs/prd/**\"\n    - \"docs/design/**\"\n    - \"docs/guidelines/**\"\n    - \"docs/specs/**\"\n    - \"docs/exec-plans/**\"\ncompletion_criteria:\n  - id: \"cc-001\"\n    scenario: \"done\"\n    test: \"test_done\"\n---\n\n# Task\n",
    );
    repo.write(
        "docs/exec-plans/exec-status-rollout/task-01-implement-status-dashboard.md",
        "---\nid: task-01\ntitle: \"Implement status dashboard\"\nstatus: candidate\ncreated: 2026-03-25\nexec-plan: exec-status-rollout\nboundaries:\n  allowed:\n    - \"src/status_dashboard.rs\"\n  forbidden_patterns:\n    - \"docs/prd/**\"\n    - \"docs/design/**\"\n    - \"docs/guidelines/**\"\n    - \"docs/specs/**\"\n    - \"docs/exec-plans/**\"\ncompletion_criteria:\n  - id: \"cc-001\"\n    scenario: \"dashboard\"\n    test: \"test_dashboard\"\n---\n\n# Task\n",
    );
    repo.write(
        "docs/exec-plans/exec-status-follow-up/task-01-implement-status-follow-up.md",
        "---\nid: task-01\ntitle: \"Implement status follow up\"\nstatus: candidate\ncreated: 2026-03-25\nexec-plan: exec-status-follow-up\nboundaries:\n  allowed:\n    - \"src/status_follow_up.rs\"\n  forbidden_patterns:\n    - \"docs/prd/**\"\n    - \"docs/design/**\"\n    - \"docs/guidelines/**\"\n    - \"docs/specs/**\"\n    - \"docs/exec-plans/**\"\ncompletion_criteria:\n  - id: \"cc-001\"\n    scenario: \"follow up\"\n    test: \"test_follow_up\"\n---\n\n# Task\n",
    );
    repo.write("src/lib.rs", "pub fn status() {}\n");
    repo
}

fn run_status(
    repo: &Repo,
    doc_id: Option<&str>,
    all: bool,
    color: ColorWhen,
) -> (Result<(), ()>, String, String) {
    let args = StatusArgs {
        doc_id: doc_id.map(ToOwned::to_owned),
        all,
        color,
    };
    match status_view(ROOT.to_string(), repo.scan(), &args, Palette::new(color, false)) {
        Ok(text) => (Ok(()), text, String::new()),
        Err(failure) => (Err(()), String::new(), render_failure("status", ROOT, &failure)),
    }
}

#[test]
fn test_status_dashboard_reports_repository_overview() {
    let mut repo = create_status_repo();
    repo.write(
        "docs/design/draft/design-draft-experiment.md",
        "---\nid: design-draft-experiment\ntitle: \"Draft Experiment\"\nstatus: draft\ncreated: 2026-03-25\n---\n\n# Design\n",
    );
    repo.write(
        "docs/design/candidate/design-status-command-patch-01-tighten-copy.md",
        "---\nid: design-status-command-patch-01-tighten-copy\ntitle: \"Tighten Copy\"\nstatus: candidate\ncreated: 2026-03-25\nparent: design-status-command\n---\n\n# Patch\n",
    );

    let (result, stdout, stderr) = run_status(&repo, None, false, ColorWhen::Never);

    assert!(result.is_ok(), "status failed: {stderr}");
    assert!(stderr.is_empty(), "unexpected stderr: {stderr}");
    assert!(stdout.contains("Repository Health"));
    assert!(stdout.contains("Design Overview"));
    assert!(stdout.contains("Execution Overview"));
    assert!(stdout.contains("Status Totals"));
    assert!(stdout.contains("design-draft-experiment  Draft Experiment  draft"));
    assert!(stdout.contains("design-status-command  Status Command  candidate"));
    assert!(stdout.contains("design-status-command-patch-01-tighten-copy  Tighten Copy  candidate"));
    assert!(stdout.contains("design-core-platform  Core Platform  implemented"));
    assert!(stdout.contains("exec-status-rollout  Status Rollout"));
    assert!(stdout.contains("exec-status-follow-up  Status Follow Up"));
    assert!(stdout.contains("exec-status-rollout/task-01  Implement status dashboard"));
    assert!(!stdout.contains("All Documents"));
}

#[test]
fn test_status_dashboard_surfaces_invalid_repository_issues() {
    let mut repo = create_status_repo();
    repo.write(
        "docs/design/draft/not-a-design.md",
        "---\nid: design-bad\ntitle: \"Bad\"\nstatus: draft\ncreated: 2026-03-25\n---\n\n# Broken\n",
    );
    repo.write(
        "docs/exec-plans/exec-broken/plan.md",
        "---\nid: exec-broken\ntitle: \"Broken\"\nstatus: candidate\ncreated: 2026-03-25\ndesign-docs:\n  - design-missing\n---\n\n# Exec\n",
    );

    let (result, stdout, stderr) = run_status(&repo, None, false, ColorWhen::Never);

    assert!(result.is_ok(), "status failed: {stderr}");
    assert!(stdout.contains("invalid managed entries: 1"));
    assert!(stdout.contains("repository validation violations: 1"));
}

#[test]
fn test_status_detail_for_design_doc_reports_relationships() {
    let repo = create_status_repo();

    let (result, stdout, stderr) =
        run_status(&repo, Some("design-status-command"), false, ColorWhen::Never);

    assert!(result.is_ok(), "status failed: {stderr}");
    assert!(stdout.contains("Overview"));
    assert!(stdout.contains("id: design-status-command"));
    assert!(stdout.contains("type: DesignDoc"));
    assert!(stdout.contains("status: candidate"));
    assert!(stdout.contains("Upstream References"));
    assert!(stdout.contains("prd: prd-core-platform"));
    assert!(stdout.contains("Downstream Associations"));
    assert!(stdout.contains(
        "exec plans: exec-status-follow-up (candidate), exec-status-rollout (candidate)"
    ));
    assert!(stdout.contains("Related Repository Warnings"));
}

#[test]
fn test_status_detail_for_task_spec_reports_exec_lineage() {
    let repo = create_status_repo();

    let (result, stdout, stderr) = run_status(
        &repo,
        Some("exec-status-rollout/task-01"),
        false,
        ColorWhen::Never,
    );

    assert!(result.is_ok(), "status failed: {stderr}");
    assert!(stdout.contains("id: exec-status-rollout/task-01"));
    assert!(stdout.contains("type: TaskSpec"));
    assert!(stdout.contains("exec-plan: exec-status-rollout"));
    assert!(stdout.contains("Related Repository Warnings"));
}

#[test]
fn test_status_detail_surfaces_related_reference_warnings() {
    let mut repo = create_status_repo();
    repo.write(
        "docs/design/candidate/design-broken-link.md",
        "---\nid: design-broken-link\ntitle: \"Broken Link\"\nstatus: candidate\ncreated: 2026-03-25\nprd: prd-missing\n---\n\n# Design\n",
    );

    let (result, stdout, stderr) =
        run_status(&repo, Some("design-broken-link"), false, ColorWhen::Never);

    assert!(result.is_ok(), "status failed: {stderr}");
    assert!(stdout.contains("prd: prd-missing"));
    assert!(stdout.contains("Related Repository Warnings"));
    assert!(stdout.contains("prd prd-missing does not exist"));
}

#[test]
fn test_status_rejects_unknown_or_unsupported_lookup_targets() {
    let repo = create_status_repo();

    let (result, stdout, stderr) =
        run_status(&repo, Some("design-missing"), false, ColorWhen::Never);
    assert!(result.is_err(), "unknown id should fail");
    assert!(stdout.is_empty(), "unexpected stdout: {stdout}");
    assert!(stderr.contains("[fail] status"));
    assert!(stderr.contains("managed document design-missing does not exist"));

    let (result, stdout, stderr) = run_status(&repo, Some("specmate"), false, ColorWhen::Never);
    assert!(result.is_err(), "guideline-like slug should fail");
    assert!(stdout.is_empty(), "unexpected stdout: {stdout}");
    assert!(stderr.contains("guideline lookup target specmate is not supported"));
}

#[test]
fn test_status_all_lists_historical_and_inactive_documents() {
    let mut repo = create_status_repo();
    repo.write(
        "docs/design/draft/design-draft-experiment.md",
        "---\nid: design-draft-experiment\ntitle: \"Draft Experiment\"\nstatus: draft\ncreated: 2026-03-25\n---\n\n# Design\n",
    );
    repo.write(
        "docs/design/obsolete/design-old-direction.md",
        "---\nid: design-old-direction\ntitle: \"Old Direction\"\nstatus: obsolete\ncreated: 2026-03-25\n---\n\n# Design\n",
    );

    let (result, stdout, stderr) = run_status(&repo, None, true, ColorWhen::Never);

    assert!(result.is_ok(), "status failed: {stderr}");
    assert!(stdout.contains("All Documents"));
    assert!(stdout.contains("design-draft-experiment  DesignDoc  draft"));
    assert!(stdout.contains("design-old-direction  DesignDoc  obsolete"));
    assert!(stdout.contains("exec-core-rollout  ExecPlan  closed"));
    assert!(stdout.contains("exec-core-rollout/task-01  TaskSpec  closed"));
}

#[test]
fn test_status_color_always_adds_ansi_without_changing_text_content() {
    let repo = create_status_repo();

    let (dashboard_result, dashboard_stdout, dashboard_stderr) =
        run_status(&repo, None, false, ColorWhen::Always);
    assert!(
        dashboard_result.is_ok(),
        "status failed: {dashboard_stderr}"
    );
    assert!(dashboard_stdout.contains("\u{1b}[36mdraft\u{1b}[0m"));
    assert!(dashboard_stdout.contains("\u{1b}[33mcandidate\u{1b}[0m"));
    assert!(dashboard_stdout.contains("\u{1b}[32mimplemented\u{1b}[0m"));

    let (result, stdout, stderr) = run_status(
        &repo,
        Some("design-status-command"),
        false,
        ColorWhen::Always,
    );

    assert!(result.is_ok(), "status failed: {stderr}");
    assert!(stdout.contains("\u{1b}["));
    assert!(stdout.contains("Overview"));
    assert!(stdout.contains("status: "));
    assert!(stdout.contains("candidate"));
    assert!(stdout.contains("\u{1b}[1mdesign-status-command\u{1b}[0m"));
}

// ---------------------------------------------------------------------------
// Laws of the document model, on concrete repositories.
// ---------------------------------------------------------------------------

#[test]
fn index_documents_come_in_canonical_id_order_without_repeats() {
    let mut repo = create_status_repo();
    repo.write(
        "docs/design/candidate/design-auth-system.md",
        "---\nid: design-auth-system\ntitle: \"Auth\"\nstatus: candidate\ncreated: 2026-03-25\n---\n\n# Design\n",
    );
    repo.write(
        "docs/design/draft/design-auth-system.md",
        "---\nid: design-auth-system\ntitle: \"Auth again\"\nstatus: draft\ncreated: 2026-03-25\n---\n\n# Design\n",
    );

    let index = repo.index();
    let ids: Vec<DocId> = index
        .documents
        .values()
        .iter()
        .map(|d| d.id.clone())
        .collect();

    for pair in ids.windows(2) {
        assert!(pair[0] < pair[1], "{:?} should order before {:?}", pair[0], pair[1]);
    }
    assert!(index
        .invalid_entries
        .iter()
        .any(|entry| entry.reason.contains("duplicate canonical id design-auth-system")));
}

#[test]
fn association_members_come_in_canonical_id_order() {
    let repo = create_status_repo();
    let index = repo.index();
    let design = index
        .documents
        .get(&DocId::DesignDoc("status-command".to_string()))
        .expect("design should exist");

    let summaries = association_summaries(&index, design);
    let execs = summaries
        .iter()
        .find(|s| s.kind == AssociationKind::DesignDocExecPlans)
        .expect("exec plan summary");

    let ids: Vec<String> = execs.related.iter().map(|r| r.id.as_string()).collect();
    assert_eq!(ids, vec!["exec-status-follow-up", "exec-status-rollout"]);
}

#[test]
fn preview_changes_only_the_moved_document() {
    let index = closed_task_repo().index();
    let exec = index
        .documents
        .get(&DocId::ExecPlan("auth-rollout".to_string()))
        .expect("exec should exist");

    let preview = preview_transition(&index, exec, Status::Closed)
        .unwrap_or_else(|error| panic!("preview should build: {}", error.message()));

    assert_eq!(preview.repo_root, index.repo_root);
    assert_eq!(preview.documents.len(), index.documents.len());
    for (before, after) in index
        .documents
        .values()
        .iter()
        .zip(preview.documents.values().iter())
    {
        if before.id == exec.id {
            assert_eq!(after.status, Status::Closed);
            assert_eq!(after.path, before.path, "exec plans stay in place");
            assert_eq!(after.raw, before.raw);
        } else {
            assert_eq!(after, before);
        }
    }
}

#[test]
fn next_numbers_exceed_every_existing_one() {
    let mut repo = valid_repo();
    repo.write(
        "docs/exec-plans/exec-auth-rollout/task-07-harden-login.md",
        "---\nid: task-07\ntitle: \"Harden login\"\nstatus: draft\ncreated: 2026-03-25\nexec-plan: exec-auth-rollout\n---\n\n# Task\n",
    );

    let next = next_task_sequence(ROOT.to_string(), repo.scan(), "auth-rollout")
        .unwrap_or_else(|error| panic!("{}", error.message()));
    assert_eq!(next, 8);

    let fresh = next_task_sequence(ROOT.to_string(), repo.scan(), "unknown-plan")
        .unwrap_or_else(|error| panic!("{}", error.message()));
    assert_eq!(fresh, 1);
}

#[test]
fn allocation_refuses_a_non_compliant_repository() {
    let mut repo = valid_repo();
    repo.write("docs/prd/approved/prd-Bad.md", "---\nid: prd-Bad\n---\n");

    let error = next_patch_number(ROOT.to_string(), repo.scan(), "auth-system")
        .expect_err("an invalid repository should refuse allocation");
    assert!(error.message().contains("invalid managed entr"), "{}", error.message());
}

#[test]
fn legacy_task_id_names_the_one_task_spec_with_that_number() {
    let repo = create_compliant_repo();

    let (result, stdout, stderr) = run_boundaries_check(&repo, "task-01", &["src/main.rs"]);

    assert!(result.is_err(), "boundaries should fail");
    assert!(stderr.is_empty(), "unexpected stderr: {stderr}");
    assert!(stdout.contains("[fail] check boundaries task-01"));
    assert!(stdout.contains("src/main.rs"));
    assert!(stdout.contains("is not in boundaries.allowed for task-01"));
}

#[test]
fn legacy_task_id_refuses_a_number_shared_by_several_task_specs() {
    let repo = create_status_repo();

    let (result, stdout, stderr) = run_boundaries_check(&repo, "task-0001", &["src/lib.rs"]);

    assert!(result.is_err(), "boundaries should fail");
    assert!(stdout.is_empty(), "unexpected stdout: {stdout}");
    assert!(stderr.contains("task spec task-0001 names more than one Task Spec"));
}

#[test]
fn legacy_task_file_must_be_active_to_count() {
    let mut repo = create_compliant_repo();
    repo.write(
        "specs/done/task-0001-old.md",
        "---\nid: task-0001\nstatus: completed\nboundaries:\n  allowed:\n    - \"**/*.md\"\n---\n",
    );

    // The completed legacy file is passed over: the Task Spec numbered 1 decides.
    let (result, stdout, stderr) = run_boundaries_check(&repo, "task-0001", &["notes.md"]);

    assert!(result.is_err(), "boundaries should fail: {stderr}");
    assert!(stdout.contains("Allowed: src/lib.rs"));
}

#[test]
fn every_scanned_file_lands_in_exactly_one_bucket() {
    let mut repo = create_compliant_repo();
    repo.write("notes.md", "# Scratch\n");
    repo.write(
        "docs/prd/approved/prd-01-invalid.md",
        "---\nid: prd-01\ntitle: \"Bad\"\nstatus: approved\n---\n\n# Bad\n",
    );
    let scanned = repo.scan().len();
    let index = repo.index();

    assert_eq!(
        index.documents.len() + index.invalid_entries.len() + index.ignored_paths.len(),
        scanned
    );
    assert_eq!(index.ignored_paths.len(), 1);
    assert_eq!(index.invalid_entries.len(), 1);
}

#[test]
fn inserting_a_document_with_a_known_id_replaces_it() {
    let mut index = create_compliant_repo().index();
    let before = index.documents.len();
    let mut document = index.documents.values()[0].clone();
    document.title = Some("Replaced".to_string());
    let id = document.id.clone();

    index.documents.insert(document);

    assert_eq!(index.documents.len(), before);
    let stored = index.documents.get(&id).expect("document should stay");
    assert_eq!(stored.title.as_deref(), Some("Replaced"));
}

/// Removes every color sequence `ESC [ <digits> m`, reading from the left.
fn strip_color_sequences(text: &str) -> String {
    let chars: Vec<char> = text.chars().collect();
    let mut out = String::new();
    let mut i = 0;
    while i < chars.len() {
        if chars[i] == '\u{1b}' && i + 2 < chars.len() && chars[i + 1] == '[' && chars[i + 2].is_ascii_digit() {
            let mut j = i + 2;
            while j < chars.len() && chars[j].is_ascii_digit() {
                j += 1;
            }
            if j < chars.len() && chars[j] == 'm' {
                i = j + 1;
                continue;
            }
        }
        out.push(chars[i]);
        i += 1;
    }
    out
}

#[test]
fn coloring_only_adds_color_sequences_even_around_lone_escapes() {
    let mut repo = create_status_repo();
    repo.write(
        "docs/design/draft/design-escape-title.md",
        "---\nid: design-escape-title\ntitle: \"Odd \\ex title\"\nstatus: draft\ncreated: 2026-03-25\n---\n\n# Design\n",
    );
    repo.write(
        "docs/design/draft/design-open-escape.md",
        "---\nid: design-open-escape\ntitle: \"Ends \\e[3\"\nstatus: draft\ncreated: 2026-03-25\n---\n\n# Design\n",
    );

    for (doc_id, all) in [
        (None, false),
        (None, true),
        (Some("design-escape-title"), false),
        (Some("design-open-escape"), false),
    ] {
        let (colored_result, colored, _) = run_status(&repo, doc_id, all, ColorWhen::Always);
        let (plain_result, plain, _) = run_status(&repo, doc_id, all, ColorWhen::Never);
        assert!(colored_result.is_ok() && plain_result.is_ok());
        assert!(colored != plain);
        assert!(plain.contains('\u{1b}'));
        assert_eq!(strip_color_sequences(&colored), plain);
    }
}
