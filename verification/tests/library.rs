//! Unit scenarios for the library's rules, formulas and laws on concrete values.

use specmate::check::pattern::patterns_overlap;
use specmate::check::{dedup_violations, CheckViolation};
use specmate::cmd::init::{
    build_plan, find_existing_marker, init_preflight, planned_file_paths, render_dry_run,
    required_directories_list, resolve_lang, Action, Config, ConfigRead, Lang, Ownership,
    TemplateSet,
};
use specmate::cmd::move_::{parse_target_status, rewrite_status};
use specmate::cmd::{render_failure, CommandFailure};
use specmate::doc::lifecycle::{is_legal_transition, is_terminal_status, status_from_str};
use specmate::doc::parse::{date_from_epoch_days, parse_reference_id, valid_date};
use specmate::doc::{DocId, DocType, Status};
use specmate::error::DocumentModelError;

const TYPES: [DocType; 8] = [
    DocType::Prd,
    DocType::DesignDoc,
    DocType::DesignPatch,
    DocType::ExecPlan,
    DocType::TaskSpec,
    DocType::ProjectSpec,
    DocType::OrgSpec,
    DocType::Guideline,
];

const STATUSES: [Status; 8] = [
    Status::Draft,
    Status::Approved,
    Status::Candidate,
    Status::Implemented,
    Status::Closed,
    Status::Obsolete,
    Status::ObsoleteMerged,
    Status::Active,
];

#[test]
fn no_lifecycle_moves_a_document_to_its_own_status() {
    for t in TYPES {
        for s in STATUSES {
            assert!(!is_legal_transition(t, s, s), "{t:?} {s:?}");
        }
    }
}

#[test]
fn fixed_documents_never_change_status() {
    for t in [DocType::ProjectSpec, DocType::OrgSpec, DocType::Guideline] {
        for from in STATUSES {
            for to in STATUSES {
                assert!(!is_legal_transition(t, from, to));
            }
        }
    }
}

#[test]
fn terminal_statuses_only_lead_to_terminal_statuses() {
    for t in TYPES {
        for from in STATUSES {
            for to in STATUSES {
                if is_legal_transition(t, from, to) && is_terminal_status(t, from) {
                    assert!(is_terminal_status(t, to), "{t:?} {from:?} -> {to:?}");
                }
            }
        }
    }
    assert!(is_legal_transition(
        DocType::DesignDoc,
        Status::Implemented,
        Status::Obsolete
    ));
}

#[test]
fn statuses_of_lifecycle_edges_read_back_from_their_names() {
    for t in TYPES {
        for from in STATUSES {
            for to in STATUSES {
                if is_legal_transition(t, from, to) {
                    assert_eq!(status_from_str(t, from.as_str()), Some(from));
                    assert_eq!(status_from_str(t, to.as_str()), Some(to));
                }
            }
        }
    }
    assert_eq!(status_from_str(DocType::Prd, "candidate"), None);
    assert_eq!(
        status_from_str(DocType::DesignPatch, "obsolete:merged"),
        Some(Status::ObsoleteMerged)
    );
}

#[test]
fn boundary_overlap_does_not_depend_on_argument_order() {
    let cases = [
        ("src/**/*.rs", "src/lib.rs", true),
        ("docs/prd/**", "docs/prd/approved/x.md", true),
        ("docs/*", "src/*", false),
        ("src/[a-c]*.rs", "src/d*.rs", false),
        ("src/[!a]?.rs", "src/b1.rs", true),
        ("**", "anything/at/all", true),
        ("src/[", "src/a", false),
    ];
    for (left, right, expected) in cases {
        assert_eq!(patterns_overlap(left, right), expected, "{left} {right}");
        assert_eq!(patterns_overlap(right, left), expected, "{right} {left}");
    }
}

fn violation(path: &str, message: &str) -> CheckViolation {
    CheckViolation {
        path: path.to_string(),
        message: message.to_string(),
        fix: "fix it".to_string(),
    }
}

#[test]
fn dedup_keeps_the_first_of_each_violation() {
    let input = vec![
        violation("a", "one"),
        violation("b", "two"),
        violation("a", "one"),
        violation("c", "three"),
        violation("b", "two"),
    ];

    let out = dedup_violations(input);

    let keys: Vec<(String, String)> = out
        .iter()
        .map(|v| (v.path.clone(), v.message.clone()))
        .collect();
    assert_eq!(
        keys,
        vec![
            ("a".to_string(), "one".to_string()),
            ("b".to_string(), "two".to_string()),
            ("c".to_string(), "three".to_string()),
        ]
    );
}

#[test]
fn epoch_days_become_calendar_dates() {
    let cases = [
        (0, "1970-01-01"),
        (31, "1970-02-01"),
        (59, "1970-03-01"),
        (1095, "1972-12-31"),
        (11016, "2000-02-29"),
        (19723, "2024-01-01"),
        (19782, "2024-02-29"),
        (19783, "2024-03-01"),
        (20538, "2026-03-26"),
    ];
    for (days, expected) in cases {
        let date = date_from_epoch_days(days);
        assert_eq!(date, expected);
        assert!(valid_date(&date));
    }
}

#[test]
fn dates_are_checked_against_the_calendar() {
    assert!(valid_date("2024-02-29"));
    assert!(!valid_date("2023-02-29"));
    assert!(!valid_date("2023-13-01"));
    assert!(!valid_date("2023-1-01"));
    assert!(valid_date("2000-02-29"));
    assert!(!valid_date("1900-02-29"));
}

#[test]
fn reference_ids_follow_the_canonical_grammar() {
    assert_eq!(
        parse_reference_id("prd-user-auth"),
        Some(DocId::Prd("user-auth".to_string()))
    );
    assert_eq!(
        parse_reference_id("  design-auth-system  "),
        Some(DocId::DesignDoc("auth-system".to_string()))
    );
    assert_eq!(
        parse_reference_id("design-auth-system-patch-01-fix-links"),
        Some(DocId::DesignPatch {
            parent_slug: "auth-system".to_string(),
            sequence: 1,
            patch_slug: "fix-links".to_string(),
        })
    );
    assert_eq!(
        parse_reference_id("exec-auth-rollout/task-12"),
        Some(DocId::TaskSpec {
            exec_slug: "auth-rollout".to_string(),
            sequence: 12,
        })
    );
    assert_eq!(parse_reference_id("project"), Some(DocId::ProjectSpec));
    assert_eq!(parse_reference_id("org"), Some(DocId::OrgSpec));
    assert_eq!(parse_reference_id("prd-Bad"), None);
    assert_eq!(parse_reference_id("unknown"), None);
}

#[test]
fn canonical_ids_print_in_their_documented_form() {
    let task = DocId::TaskSpec {
        exec_slug: "auth-rollout".to_string(),
        sequence: 3,
    };
    assert_eq!(task.as_string(), "exec-auth-rollout/task-03");
    assert_eq!(task.escaped_string(), "exec-auth-rollout--task-03");
    assert_eq!(task.frontmatter_id(), "task-03");
    let patch = DocId::DesignPatch {
        parent_slug: "auth".to_string(),
        sequence: 2,
        patch_slug: "fix".to_string(),
    };
    assert_eq!(patch.as_string(), "design-auth-patch-02-fix");
    assert_eq!(parse_reference_id(&patch.as_string()), Some(patch));
}

#[test]
fn rewrite_replaces_the_status_line_and_keeps_the_rest() {
    let raw = "---\nid: prd-auth\nstatus: draft\ncreated: 2026-03-25\n---\n\n# PRD\n";

    let updated = rewrite_status(raw, Status::Approved, "2026-03-26").expect("rewrite");

    assert_eq!(
        updated,
        "---\nid: prd-auth\nstatus: approved\ncreated: 2026-03-25\n---\n\n# PRD\n"
    );
}

#[test]
fn rewrite_to_closed_records_the_closing_date() {
    let raw = "---\nid: task-01\nstatus: candidate\n---\nbody";

    let updated = rewrite_status(raw, Status::Closed, "2026-03-26").expect("rewrite");

    assert_eq!(
        updated,
        "---\nid: task-01\nstatus: closed\nclosed: 2026-03-26\n---\nbody"
    );
}

#[test]
fn rewrite_refuses_documents_without_a_usable_frontmatter() {
    assert_eq!(
        rewrite_status("# no frontmatter\n", Status::Closed, "2026-03-26"),
        Err("document is missing a leading frontmatter block".to_string())
    );
    assert_eq!(
        rewrite_status("---\nstatus: draft\n", Status::Closed, "2026-03-26"),
        Err("document frontmatter is missing its closing delimiter".to_string())
    );
    assert_eq!(
        rewrite_status("---\nid: x\n---\n", Status::Closed, "2026-03-26"),
        Err("document frontmatter does not contain a status field".to_string())
    );
}

#[test]
fn failures_render_with_path_message_and_fix() {
    let failure = CommandFailure::new(
        Some("/work/repo/docs/prd/draft/prd-x.md".to_string()),
        "prd-x is already draft".to_string(),
        "Choose a different target status.",
    );

    let text = render_failure("move", "/work/repo", &failure);

    assert_eq!(
        text,
        "[fail] move\n       docs/prd/draft/prd-x.md\n       prd-x is already draft\n       -> Choose a different target status.\n"
    );
}

#[test]
fn model_errors_render_their_messages() {
    let cases = [
        (
            DocumentModelError::MissingField {
                path: "docs/a.md".to_string(),
                field: "parent".to_string(),
            },
            "missing field `parent`",
        ),
        (
            DocumentModelError::IllegalTransition {
                doc_type: "Prd".to_string(),
                from: "obsolete".to_string(),
                to: "draft".to_string(),
            },
            "obsolete",
        ),
        (
            DocumentModelError::InvalidRepositoryState {
                path: "/work/repo".to_string(),
                message: "1 invalid managed entry".to_string(),
            },
            "1 invalid managed entry",
        ),
        (
            DocumentModelError::MissingFrontmatter {
                path: "docs/a.md".to_string(),
            },
            "docs/a.md",
        ),
    ];
    for (error, expected) in cases {
        let message = error.message();
        assert!(message.contains(expected), "{message}");
    }
}

fn templates(lang: &str) -> TemplateSet {
    TemplateSet {
        agents: format!("agents {lang}"),
        specs_readme: format!("specs readme {lang}"),
        project: format!("project {lang}"),
        org: format!("org {lang}"),
        prd_readme: format!("prd readme {lang}"),
        design_docs_readme: format!("design readme {lang}"),
        exec_plans_readme: format!("exec readme {lang}"),
    }
}

fn plan(dirs_exist: bool, files_exist: bool, merge: bool) -> Vec<specmate::cmd::init::Operation> {
    let dir_exists = vec![dirs_exist; required_directories_list().len()];
    let file_exists = vec![files_exist; planned_file_paths().len()];
    build_plan(&dir_exists, &file_exists, merge, &templates("en"), "lang: en\n")
}

#[test]
fn test_init_creates_full_directory_structure() {
    let operations = plan(false, false, false);

    let directories: Vec<&str> = operations
        .iter()
        .filter(|op| op.ownership == Ownership::Dir)
        .map(|op| op.path.as_str())
        .collect();
    for dir in required_directories_list() {
        assert!(directories.contains(&dir.as_str()), "{dir}");
    }
    for path in planned_file_paths() {
        assert!(operations
            .iter()
            .any(|op| op.path == path && op.action == Action::Create));
    }
}

#[test]
fn test_init_default_lang_is_en() {
    assert_eq!(resolve_lang(None, Config::default()), Lang::En);
    assert_eq!(resolve_lang(Some(Lang::Zh), Config::default()), Lang::Zh);
    assert_eq!(resolve_lang(None, Config { lang: Lang::Zh }), Lang::Zh);
}

#[test]
fn test_init_existing_repo_warns_and_exits() {
    let mut exists = vec![false; 6];
    exists[0] = true;
    let marker = find_existing_marker(&exists);
    assert_eq!(marker.as_deref(), Some(".specmate/config.yaml"));

    let refused = init_preflight(marker.clone(), false).expect_err("init should refuse");
    assert!(refused.contains("[fail] .specmate/config.yaml"));
    assert!(refused.contains("already exists"));
    assert!(init_preflight(marker, true).is_ok());
    assert!(init_preflight(find_existing_marker(&vec![false; 6]), false).is_ok());
}

#[test]
fn test_init_dry_run_groups_output_by_ownership() {
    let text = render_dry_run(&plan(false, false, false));

    assert!(text.starts_with("Planned operations (no files will be written):"));
    assert!(text.contains("[specmate]"));
    assert!(text.contains("[user]"));
    assert!(text.contains("[dir]"));
}

#[test]
fn test_init_merge_overwrites_readmes() {
    let operations = plan(true, true, true);

    for op in &operations {
        if op.ownership == Ownership::Specmate {
            assert_eq!(op.action, Action::Overwrite, "{}", op.path);
            assert!(op.content.is_some());
        }
    }
}

#[test]
fn test_init_merge_preserves_user_files() {
    let operations = plan(true, true, true);

    for op in &operations {
        if op.ownership == Ownership::User {
            assert_eq!(op.action, Action::Skip, "{}", op.path);
            assert!(op.content.is_none());
        }
    }
}

#[test]
fn test_init_merge_creates_missing_structure() {
    let operations = plan(false, false, true);

    assert!(operations
        .iter()
        .filter(|op| op.ownership == Ownership::Dir)
        .all(|op| op.action == Action::Create));
    assert!(operations
        .iter()
        .filter(|op| op.ownership != Ownership::Dir)
        .all(|op| op.action == Action::Create));
    assert!(plan(true, true, true)
        .iter()
        .all(|op| op.ownership != Ownership::Dir));
}

#[test]
fn test_init_generates_valid_config() {
    let operations = plan(false, false, false);

    let config = operations
        .iter()
        .find(|op| op.path == ".specmate/config.yaml")
        .expect("config should be planned");
    assert_eq!(config.content.as_deref(), Some("lang: en\n"));
}

#[test]
fn test_init_generates_agents_md() {
    let operations = plan(false, false, false);

    let agents = operations
        .iter()
        .find(|op| op.path == "AGENTS.md")
        .expect("AGENTS.md should be planned");
    assert_eq!(agents.ownership, Ownership::User);
    assert_eq!(agents.content.as_deref(), Some("agents en"));
}

#[test]
fn test_init_generates_spec_templates() {
    let operations = plan(false, false, false);

    let project = operations
        .iter()
        .find(|op| op.path == "docs/specs/project.md")
        .expect("project.md should be planned");
    let org = operations
        .iter()
        .find(|op| op.path == "docs/specs/org.md")
        .expect("org.md should be planned");
    assert_eq!(project.content.as_deref(), Some("project en"));
    assert_eq!(org.content.as_deref(), Some("org en"));
}

#[test]
fn config_falls_back_to_english_with_a_warning() {
    let (config, warning) =
        Config::load_with_warnings(".specmate/config.yaml", ConfigRead::Unreadable);
    assert_eq!(config, Config::default());
    assert!(warning.starts_with("[warn] .specmate/config.yaml"));
    assert!(warning.contains("Using default lang en"));

    let (config, warning) = Config::load_with_warnings(
        ".specmate/config.yaml",
        ConfigRead::Read(Ok(Config { lang: Lang::Zh })),
    );
    assert_eq!(config.lang, Lang::Zh);
    assert!(warning.is_empty());

    let (config, warning) =
        Config::load_with_warnings(".specmate/config.yaml", ConfigRead::Missing);
    assert_eq!(config.lang, Lang::En);
    assert!(warning.is_empty());
}

#[test]
fn readable_ids_read_back_from_their_canonical_text() {
    let ids = vec![
        DocId::Prd("user-auth".to_string()),
        DocId::DesignDoc("auth-system".to_string()),
        DocId::DesignPatch {
            parent_slug: "auth-system".to_string(),
            sequence: 12,
            patch_slug: "fix-links".to_string(),
        },
        DocId::DesignPatch {
            parent_slug: "a".to_string(),
            sequence: 123,
            patch_slug: "b2".to_string(),
        },
        DocId::ExecPlan("auth-rollout".to_string()),
        DocId::TaskSpec {
            exec_slug: "auth-rollout".to_string(),
            sequence: 7,
        },
        DocId::ProjectSpec,
        DocId::OrgSpec,
    ];
    for id in ids {
        let text = id.as_string();
        assert_eq!(parse_reference_id(&text), Some(id), "{text}");
    }
}

#[test]
fn ids_outside_the_readable_ones_do_not_read_back() {
    let patch_like = DocId::DesignDoc("a-patch-b".to_string());
    assert_ne!(parse_reference_id(&patch_like.as_string()), Some(patch_like));
    let zero = DocId::TaskSpec {
        exec_slug: "x".to_string(),
        sequence: 0,
    };
    assert_eq!(parse_reference_id(&zero.as_string()), None);
}

#[test]
fn rewritten_crlf_documents_read_back_with_the_new_status() {
    let raw = "---\r\nid: prd-auth\r\nstatus: draft\r\n---\r\n# PRD\r\n";

    let updated = rewrite_status(raw, Status::Approved, "2026-03-26").expect("rewrite");

    assert_eq!(updated, "---\nid: prd-auth\nstatus: approved\n---\n# PRD\n");
    let again = rewrite_status(&updated, Status::Obsolete, "2026-03-26").expect("rewrite");
    assert_eq!(again, "---\nid: prd-auth\nstatus: obsolete\n---\n# PRD\n");
}

#[test]
fn move_targets_only_statuses_of_a_move_lifecycle() {
    assert_eq!(parse_target_status(DocType::ProjectSpec, "active"), None);
    assert_eq!(parse_target_status(DocType::OrgSpec, "active"), None);
    assert_eq!(parse_target_status(DocType::Guideline, "active"), None);
    assert_eq!(parse_target_status(DocType::TaskSpec, "closed"), Some(Status::Closed));
    assert_eq!(parse_target_status(DocType::TaskSpec, " draft "), Some(Status::Draft));
    assert_eq!(parse_target_status(DocType::TaskSpec, "implemented"), None);
    assert_eq!(
        parse_target_status(DocType::DesignPatch, "obsolete:merged"),
        Some(Status::ObsoleteMerged)
    );
}

#[test]
fn epoch_days_in_range_give_valid_dates() {
    for days in [0u32, 59, 365, 20_538, 2_930_000] {
        let date = date_from_epoch_days(days);
        assert!(valid_date(&date), "{days} gave {date}");
    }
}
