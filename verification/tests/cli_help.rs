use clap::{Arg, ArgAction, Command};
use specmate::cmd::cli;

fn root_command() -> Command {
    Command::new("specmate")
        .about(cli::about())
        .subcommand_required(true)
        .subcommand(
            Command::new("check")
                .about(cli::check_about())
                .after_help(cli::check_after_help())
                .subcommand(
                    Command::new("names")
                        .about("Validate managed document filenames and managed locations"),
                )
                .subcommand(
                    Command::new("frontmatter")
                        .about("Validate frontmatter fields and frontmatter-level rules"),
                )
                .subcommand(
                    Command::new("status")
                        .about("Validate document directory placement against status"),
                )
                .subcommand(Command::new("refs").about("Validate cross-document references"))
                .subcommand(Command::new("conflicts").about("Validate task boundary overlap"))
                .subcommand(
                    Command::new("boundaries")
                        .about("Validate changed files against a Task Spec boundary")
                        .arg(
                            Arg::new("task_id")
                                .required(true)
                                .help("Task Spec id such as `exec-auth-add-oauth/task-01`"),
                        ),
                ),
        )
        .subcommand(
            Command::new("init")
                .about(cli::init_about())
                .after_help(cli::init_after_help())
                .arg(
                    Arg::new("lang")
                        .long("lang")
                        .value_parser(["en", "zh"])
                        .help("Language for generated document content"),
                )
                .arg(
                    Arg::new("dry_run")
                        .long("dry-run")
                        .action(ArgAction::SetTrue)
                        .help("Print planned operations without writing any files"),
                )
                .arg(
                    Arg::new("merge")
                        .long("merge")
                        .action(ArgAction::SetTrue)
                        .help("Merge into existing repo"),
                ),
        )
        .subcommand(
            Command::new("move")
                .about(cli::move_about())
                .after_help(cli::move_after_help())
                .arg(
                    Arg::new("doc_id")
                        .required(true)
                        .help("Managed document id such as `exec-auth-add-oauth/task-01`"),
                )
                .arg(
                    Arg::new("to_status")
                        .required(true)
                        .help("Target status valid for the resolved document type"),
                )
                .arg(
                    Arg::new("dry_run")
                        .long("dry-run")
                        .action(ArgAction::SetTrue)
                        .help("Show the planned file changes without writing files"),
                ),
        )
        .subcommand(
            Command::new("status")
                .about(cli::status_about())
                .after_help(cli::status_after_help())
                .arg(Arg::new("doc_id").help(
                    "Optional managed document id such as `exec-auth-add-oauth/task-01` or `design-auth-system`",
                ))
                .arg(
                    Arg::new("all")
                        .long("all")
                        .action(ArgAction::SetTrue)
                        .help("Expand the dashboard to list all lifecycle-managed documents"),
                )
                .arg(
                    Arg::new("color")
                        .long("color")
                        .value_parser(["auto", "always", "never"])
                        .default_value("auto")
                        .help("Control ANSI color output"),
                ),
        )
}

fn subcommand_help(name: &str) -> String {
    let mut command = root_command();
    let sub = command
        .find_subcommand_mut(name)
        .expect("subcommand should exist");
    let mut help = Vec::new();
    sub.write_long_help(&mut help).expect("help should render");
    String::from_utf8(help).expect("help should be utf-8")
}

#[test]
fn test_check_command_is_listed_in_root_help() {
    let mut command = root_command();
    let mut help = Vec::new();
    command
        .write_long_help(&mut help)
        .expect("help should render");
    let help = String::from_utf8(help).expect("help should be utf-8");

    assert!(
        help.contains("check"),
        "root help should mention check: {help}"
    );
}

#[test]
fn test_check_help_describes_aggregate_and_named_modes() {
    let help = subcommand_help("check");

    assert!(help.contains("specmate check"));
    assert!(help.contains("boundaries"));
    assert!(help.contains("names"));
}

#[test]
fn test_move_help_describes_command_surface() {
    let help = subcommand_help("move");

    assert!(help.contains("specmate move"));
    assert!(help.contains("--dry-run"));
    assert!(help.contains("exec-auth-add-oauth/task-01 closed"));
}

#[test]
fn test_status_help_describes_command_surface() {
    let help = subcommand_help("status");

    assert!(help.contains("specmate status"));
    assert!(help.contains("--all"));
    assert!(help.contains("design-auth-system") || help.contains("design-auth"));
    assert!(help.contains("[doc_id]") || help.contains("[DOC_ID]"));
}

#[test]
fn test_check_boundaries_requires_task_id() {
    let error = root_command()
        .try_get_matches_from(["specmate", "check", "boundaries"])
        .expect_err("parse should fail without task id");

    assert_eq!(error.kind(), clap::error::ErrorKind::MissingRequiredArgument);
}

#[test]
fn root_help_lists_every_subcommand() {
    let mut command = root_command();
    let mut help = Vec::new();
    command
        .write_long_help(&mut help)
        .expect("help should render");
    let help = String::from_utf8(help).expect("help should be utf-8");

    for name in ["check", "init", "move", "status"] {
        assert!(help.contains(name), "root help should mention {name}: {help}");
    }
    assert!(help.contains("CLI companion for document-driven AI coding"));
}

#[test]
fn test_status_requires_no_extra_arguments() {
    let error = root_command()
        .try_get_matches_from(["specmate", "status", "design-auth", "extra"])
        .expect_err("parse should fail with extra argument");

    assert_eq!(error.kind(), clap::error::ErrorKind::UnknownArgument);
}
