//! `specmate init`: the operations that set up the managed document structure.
use crate::check::{padded_to};
use crate::text::{append, concat2, concat3, owned, pieces_view};
use vstd::prelude::*;

verus! {

/// Arguments for `specmate init`.
#[derive(Debug)]
pub struct InitArgs {
    /// Language for generated document content.
    pub lang: Option<Lang>,
    /// Print planned operations without writing any files.
    pub dry_run: bool,
    /// Merge into an existing repo: overwrite specmate-owned files, skip user-owned
    /// files, create missing structure.
    pub merge: bool,
}

/// Supported content languages for generated documents.
#[derive(Debug, Clone, Copy, PartialEq, Eq, Structural)]
pub enum Lang {
    En,
    Zh,
}

impl Lang {
    /// The configuration spelling of the language.
    pub fn as_str(self) -> (r: &'static str)
        ensures
            r@ == lang_name(self),
    {
        proof {
            reveal_strlit("en");
            reveal_strlit("zh");
        }
        match self {
            Lang::En => "en",
            Lang::Zh => "zh",
        }
    }
}

pub open spec fn lang_name(l: Lang) -> Seq<char> {
    match l {
        Lang::En => "en"@,
        Lang::Zh => "zh"@,
    }
}

impl Default for Lang {
    fn default() -> (r: Self)
        ensures
            r == Lang::En,
    {
        Lang::En
    }
}

/// specmate project configuration, stored in `.specmate/config.yaml`.
#[derive(Debug, Clone, Copy, PartialEq, Eq, Structural)]
pub struct Config {
    /// Language for generated document content.
    pub lang: Lang,
}

impl Default for Config {
    fn default() -> (r: Self)
        ensures
            r == (Config { lang: Lang::En }),
    {
        Config { lang: Lang::En }
    }
}

/// What reading `.specmate/config.yaml` gave.
#[derive(Debug)]
pub enum ConfigRead {
    /// The file does not exist.
    Missing,
    /// The file exists but could not be read.
    Unreadable,
    /// The file was read; its YAML parsed into a configuration, or not.
    Read(Result<Config, String>),
}

/// The configuration that a read gives, and the warning to print (empty when none).
pub open spec fn config_outcome(path: Seq<char>, read: ConfigRead) -> (Config, Seq<char>) {
    match read {
        ConfigRead::Missing => (Config { lang: Lang::En }, Seq::empty()),
        ConfigRead::Unreadable => (Config { lang: Lang::En }, config_warning(path, "reading "@ + path)),
        ConfigRead::Read(Ok(c)) => (c, Seq::empty()),
        ConfigRead::Read(Err(_)) => (Config { lang: Lang::En }, config_warning(path, "parsing "@ + path)),
    }
}

/// The warning for a configuration that could not be used.
pub open spec fn config_warning(path: Seq<char>, error: Seq<char>) -> Seq<char> {
    "[warn] "@ + path + "\n       could not read config: "@ + error + "\n       -> Using default lang en\n"@
}

impl Config {
    /// The configuration at `path`, given what reading it gave: a missing file gives
    /// the default silently; a file that cannot be read or parsed gives the default
    /// and a warning.
    pub fn load_with_warnings(path: &str, read: ConfigRead) -> (r: (Config, String))
        ensures
            (r.0, r.1@) == config_outcome(path@, read),
    {
        match read {
            ConfigRead::Missing => (Config::default(), String::new()),
            ConfigRead::Unreadable => {
                let error = concat2("reading ", path);
                (Config::default(), warning_text(path, error.as_str()))
            },
            ConfigRead::Read(Ok(c)) => (c, String::new()),
            ConfigRead::Read(Err(_)) => {
                let error = concat2("parsing ", path);
                (Config::default(), warning_text(path, error.as_str()))
            },
        }
    }
}

fn warning_text(path: &str, error: &str) -> (r: String)
    ensures
        r@ == config_warning(path@, error@),
{
    let mut r = concat3("[warn] ", path, "\n       could not read config: ");
    append(&mut r, error);
    append(&mut r, "\n       -> Using default lang en\n");
    r
}

/// Who owns a planned path.
#[derive(Debug, Clone, Copy, PartialEq, Eq, Structural)]
pub enum Ownership {
    Dir,
    Specmate,
    User,
}

pub open spec fn ownership_tag(o: Ownership) -> Seq<char> {
    match o {
        Ownership::Dir => "[dir]"@,
        Ownership::Specmate => "[specmate]"@,
        Ownership::User => "[user]"@,
    }
}

impl Ownership {
    pub fn tag(self) -> (r: &'static str)
        ensures
            r@ == ownership_tag(self),
    {
        proof {
            reveal_strlit("[dir]");
            reveal_strlit("[specmate]");
            reveal_strlit("[user]");
        }
        match self {
            Ownership::Dir => "[dir]",
            Ownership::Specmate => "[specmate]",
            Ownership::User => "[user]",
        }
    }
}

/// What happens to a planned path.
#[derive(Debug, Clone, Copy, PartialEq, Eq, Structural)]
pub enum Action {
    Create,
    Overwrite,
    Skip,
}

pub open spec fn action_label(a: Action) -> Seq<char> {
    match a {
        Action::Create => "CREATE"@,
        Action::Overwrite => "OVERWRITE"@,
        Action::Skip => "SKIP"@,
    }
}

impl Action {
    pub fn label(self) -> (r: &'static str)
        ensures
            r@ == action_label(self),
    {
        proof {
            reveal_strlit("CREATE");
            reveal_strlit("OVERWRITE");
            reveal_strlit("SKIP");
        }
        match self {
            Action::Create => "CREATE",
            Action::Overwrite => "OVERWRITE",
            Action::Skip => "SKIP",
        }
    }
}

/// One planned operation of `specmate init`.
#[derive(Debug)]
pub struct Operation {
    pub ownership: Ownership,
    pub action: Action,
    pub path: String,
    pub content: Option<String>,
    pub note: Option<String>,
}

pub struct OperationView {
    pub ownership: Ownership,
    pub action: Action,
    pub path: Seq<char>,
    pub content: Option<Seq<char>>,
    pub note: Option<Seq<char>>,
}

impl View for Operation {
    type V = OperationView;

    open spec fn view(&self) -> OperationView {
        OperationView {
            ownership: self.ownership,
            action: self.action,
            path: self.path@,
            content: self.content.deep_view(),
            note: self.note.deep_view(),
        }
    }
}

pub open spec fn operations_view(v: Seq<Operation>) -> Seq<OperationView> {
    v.map_values(|o: Operation| o@)
}

/// The operation that creates a missing directory.
pub open spec fn directory_op(path: Seq<char>) -> OperationView {
    OperationView {
        ownership: Ownership::Dir,
        action: Action::Create,
        path,
        content: None,
        note: Some("missing directory"@),
    }
}

impl Operation {
    /// The operation that creates a missing directory.
    pub fn directory(path: &str) -> (r: Self)
        ensures
            r@ == directory_op(path@),
    {
        Operation {
            ownership: Ownership::Dir,
            action: Action::Create,
            path: owned(path),
            content: None,
            note: Some(owned("missing directory")),
        }
    }

    /// A file operation.
    pub fn file(ownership: Ownership, action: Action, path: &str, content: Option<String>, note: Option<String>) -> (r:
        Self)
        ensures
            r@ == (OperationView {
                ownership,
                action,
                path: path@,
                content: content.deep_view(),
                note: note.deep_view(),
            }),
    {
        Operation { ownership, action, path: owned(path), content, note }
    }
}

/// The generated contents of the files `specmate init` writes, in one language.
#[derive(Debug)]
pub struct TemplateSet {
    pub agents: String,
    pub specs_readme: String,
    pub project: String,
    pub org: String,
    pub prd_readme: String,
    pub design_docs_readme: String,
    pub exec_plans_readme: String,
}

/// The paths whose presence marks an existing specmate repository.
pub open spec fn standard_paths() -> Seq<Seq<char>> {
    seq![
        ".specmate/config.yaml"@,
        "docs/specs"@,
        "docs/guidelines"@,
        "docs/prd"@,
        "docs/design"@,
        "docs/exec-plans"@,
    ]
}

/// The directories of the managed document structure.
pub open spec fn required_directories() -> Seq<Seq<char>> {
    seq![
        ".specmate"@,
        "docs"@,
        "docs/specs"@,
        "docs/guidelines"@,
        "docs/guidelines/obsolete"@,
        "docs/prd"@,
        "docs/prd/draft"@,
        "docs/prd/approved"@,
        "docs/prd/obsolete"@,
        "docs/design"@,
        "docs/design/draft"@,
        "docs/design/candidate"@,
        "docs/design/implemented"@,
        "docs/design/obsolete"@,
        "docs/exec-plans"@,
    ]
}

/// The paths whose presence marks an existing specmate repository.
pub fn standard_paths_list() -> (r: Vec<String>)
    ensures
        pieces_view(r@) == standard_paths(),
{
    let mut r: Vec<String> = Vec::new();
    r.push(owned(".specmate/config.yaml"));
    r.push(owned("docs/specs"));
    r.push(owned("docs/guidelines"));
    r.push(owned("docs/prd"));
    r.push(owned("docs/design"));
    r.push(owned("docs/exec-plans"));
    assert(pieces_view(r@) =~= standard_paths());
    r
}

/// The directories of the managed document structure.
pub fn required_directories_list() -> (r: Vec<String>)
    ensures
        pieces_view(r@) == required_directories(),
{
    let mut r: Vec<String> = Vec::new();
    r.push(owned(".specmate"));
    r.push(owned("docs"));
    r.push(owned("docs/specs"));
    r.push(owned("docs/guidelines"));
    r.push(owned("docs/guidelines/obsolete"));
    r.push(owned("docs/prd"));
    r.push(owned("docs/prd/draft"));
    r.push(owned("docs/prd/approved"));
    r.push(owned("docs/prd/obsolete"));
    r.push(owned("docs/design"));
    r.push(owned("docs/design/draft"));
    r.push(owned("docs/design/candidate"));
    r.push(owned("docs/design/implemented"));
    r.push(owned("docs/design/obsolete"));
    r.push(owned("docs/exec-plans"));
    assert(pieces_view(r@) =~= required_directories());
    r
}

/// The files `specmate init` writes, with their owners, in plan order.
pub open spec fn planned_files() -> Seq<(Ownership, Seq<char>)> {
    seq![
        (Ownership::User, "AGENTS.md"@),
        (Ownership::User, ".specmate/config.yaml"@),
        (Ownership::Specmate, "docs/specs/README.md"@),
        (Ownership::User, "docs/specs/project.md"@),
        (Ownership::User, "docs/specs/org.md"@),
        (Ownership::Specmate, "docs/prd/README.md"@),
        (Ownership::Specmate, "docs/design/README.md"@),
        (Ownership::Specmate, "docs/exec-plans/README.md"@),
    ]
}

/// The paths of the planned files, for the caller to check on disk.
pub fn planned_file_paths() -> (r: Vec<String>)
    ensures
        pieces_view(r@) == planned_files().map_values(|f: (Ownership, Seq<char>)| f.1),
{
    let mut r: Vec<String> = Vec::new();
    r.push(owned("AGENTS.md"));
    r.push(owned(".specmate/config.yaml"));
    r.push(owned("docs/specs/README.md"));
    r.push(owned("docs/specs/project.md"));
    r.push(owned("docs/specs/org.md"));
    r.push(owned("docs/prd/README.md"));
    r.push(owned("docs/design/README.md"));
    r.push(owned("docs/exec-plans/README.md"));
    assert(pieces_view(r@) =~= planned_files().map_values(|f: (Ownership, Seq<char>)| f.1));
    r
}

/// The file contents in plan order.
pub open spec fn planned_contents(t: TemplateSet, config: Seq<char>) -> Seq<Seq<char>> {
    seq![
        t.agents@,
        config,
        t.specs_readme@,
        t.project@,
        t.org@,
        t.prd_readme@,
        t.design_docs_readme@,
        t.exec_plans_readme@,
    ]
}

/// The operation for one planned file, given whether it exists, or none.
pub open spec fn file_op(o: Ownership, path: Seq<char>, content: Seq<char>, merge: bool, exists: bool) -> Option<
    OperationView,
> {
    let action = if !exists {
        Some(Action::Create)
    } else if o == Ownership::Specmate && merge {
        Some(Action::Overwrite)
    } else if o == Ownership::User || !merge {
        Some(Action::Skip)
    } else {
        None
    };
    match action {
        Some(a) => Some(
            OperationView {
                ownership: o,
                action: a,
                path,
                content: if a == Action::Skip {
                    None
                } else {
                    Some(content)
                },
                note: if a == Action::Skip {
                    Some("already exists"@)
                } else {
                    None
                },
            },
        ),
        None => None,
    }
}

/// The operations for the first `n` required directories that are missing.
pub open spec fn dir_ops(exists: Seq<bool>, n: nat) -> Seq<OperationView>
    decreases n,
{
    if n == 0 || n > required_directories().len() || n > exists.len() {
        Seq::empty()
    } else {
        dir_ops(exists, (n - 1) as nat) + if exists[n - 1] {
            Seq::empty()
        } else {
            seq![directory_op(required_directories()[n - 1])]
        }
    }
}

/// The operations for the first `n` planned files.
pub open spec fn file_ops(contents: Seq<Seq<char>>, merge: bool, exists: Seq<bool>, n: nat) -> Seq<OperationView>
    decreases n,
{
    if n == 0 || n > planned_files().len() || n > exists.len() || n > contents.len() {
        Seq::empty()
    } else {
        file_ops(contents, merge, exists, (n - 1) as nat) + match file_op(
            planned_files()[n - 1].0,
            planned_files()[n - 1].1,
            contents[n - 1],
            merge,
            exists[n - 1],
        ) {
            Some(op) => seq![op],
            None => Seq::empty(),
        }
    }
}

/// The plan of `specmate init`: the missing directories, then the file operations.
pub open spec fn init_plan(
    dir_exists: Seq<bool>,
    file_exists: Seq<bool>,
    merge: bool,
    t: TemplateSet,
    config: Seq<char>,
) -> Seq<OperationView> {
    dir_ops(dir_exists, required_directories().len()) + file_ops(
        planned_contents(t, config),
        merge,
        file_exists,
        planned_files().len(),
    )
}

proof fn lemma_dir_ops_create(exists: Seq<bool>, n: nat)
    ensures
        forall|i: int|
            0 <= i < dir_ops(exists, n).len() ==> (#[trigger] dir_ops(exists, n)[i]).action
                == Action::Create,
    decreases n,
{
    if n > 0 && n <= required_directories().len() && n <= exists.len() {
        lemma_dir_ops_create(exists, (n - 1) as nat);
        let prev = dir_ops(exists, (n - 1) as nat);
        assert forall|i: int| 0 <= i < dir_ops(exists, n).len() implies (#[trigger] dir_ops(
            exists,
            n,
        )[i]).action == Action::Create by {
            if i < prev.len() {
                assert(dir_ops(exists, n)[i] == prev[i]);
            }
        }
    }
}

proof fn lemma_file_ops_overwrite(contents: Seq<Seq<char>>, merge: bool, exists: Seq<bool>, n: nat)
    ensures
        forall|i: int|
            0 <= i < file_ops(contents, merge, exists, n).len() && (#[trigger] file_ops(
                contents,
                merge,
                exists,
                n,
            )[i]).action == Action::Overwrite ==> merge && file_ops(contents, merge, exists, n)[i].ownership
                == Ownership::Specmate,
    decreases n,
{
    if n > 0 && n <= planned_files().len() && n <= exists.len() && n <= contents.len() {
        lemma_file_ops_overwrite(contents, merge, exists, (n - 1) as nat);
        let prev = file_ops(contents, merge, exists, (n - 1) as nat);
        let ops = file_ops(contents, merge, exists, n);
        assert forall|i: int|
            0 <= i < ops.len() && (#[trigger] ops[i]).action == Action::Overwrite implies merge
            && ops[i].ownership == Ownership::Specmate by {
            if i < prev.len() {
                assert(ops[i] == prev[i]);
            }
        }
    }
}

/// `specmate init` overwrites a file only when it belongs to specmate and
/// `--merge` was given: user-owned files are never overwritten.
pub proof fn lemma_init_overwrites_only_specmate_files_on_merge(
    dir_exists: Seq<bool>,
    file_exists: Seq<bool>,
    merge: bool,
    t: TemplateSet,
    config: Seq<char>,
)
    ensures
        forall|i: int|
            0 <= i < init_plan(dir_exists, file_exists, merge, t, config).len() && (#[trigger] init_plan(
                dir_exists,
                file_exists,
                merge,
                t,
                config,
            )[i]).action == Action::Overwrite ==> merge && init_plan(
                dir_exists,
                file_exists,
                merge,
                t,
                config,
            )[i].ownership == Ownership::Specmate,
{
    let dirs = dir_ops(dir_exists, required_directories().len());
    let files = file_ops(planned_contents(t, config), merge, file_exists, planned_files().len());
    lemma_dir_ops_create(dir_exists, required_directories().len());
    lemma_file_ops_overwrite(planned_contents(t, config), merge, file_exists, planned_files().len());
    let plan = init_plan(dir_exists, file_exists, merge, t, config);
    assert(plan == dirs + files);
    assert forall|i: int|
        0 <= i < plan.len() && (#[trigger] plan[i]).action == Action::Overwrite implies merge
        && plan[i].ownership == Ownership::Specmate by {
        if i < dirs.len() {
            assert(plan[i] == dirs[i]);
        } else {
            assert(plan[i] == files[i - dirs.len()]);
        }
    }
}

/// Adds the operation for one planned file.
pub fn push_file_operation(
    ownership: Ownership,
    path: &str,
    content: String,
    merge: bool,
    exists: bool,
    operations: &mut Vec<Operation>,
)
    ensures
        operations_view(final(operations)@) == operations_view(old(operations)@) + (match file_op(
            ownership,
            path@,
            content@,
            merge,
            exists,
        ) {
            Some(op) => seq![op],
            None => Seq::empty(),
        }),
{
    let ghost before = operations_view(operations@);
    let action = if !exists {
        Action::Create
    } else if ownership == Ownership::Specmate && merge {
        Action::Overwrite
    } else if ownership == Ownership::User || !merge {
        Action::Skip
    } else {
        assert(operations_view(operations@) =~= before + Seq::<OperationView>::empty());
        return;
    };
    let skip = action == Action::Skip;
    let note = if skip {
        Some(owned("already exists"))
    } else {
        None
    };
    let content = if skip {
        None
    } else {
        Some(content)
    };
    operations.push(Operation::file(ownership, action, path, content, note));
    assert(operations_view(operations@) =~= before.push(operations@.last()@));
}

/// Adds the operation for a required directory when it is missing.
pub fn push_directory_if_missing(path: &str, exists: bool, operations: &mut Vec<Operation>)
    ensures
        operations_view(final(operations)@) == operations_view(old(operations)@) + (if exists {
            Seq::empty()
        } else {
            seq![directory_op(path@)]
        }),
{
    let ghost before = operations_view(operations@);
    if !exists {
        operations.push(Operation::directory(path));
    }
    assert(operations_view(operations@) =~= before + if exists {
        Seq::empty()
    } else {
        seq![directory_op(path@)]
    });
}

/// Builds the operations of `specmate init` from what exists on disk: `dir_exists[i]`
/// for the `i`-th required directory and `file_exists[i]` for the `i`-th planned file.
pub fn build_plan(
    dir_exists: &Vec<bool>,
    file_exists: &Vec<bool>,
    merge: bool,
    templates: &TemplateSet,
    config_content: &str,
) -> (r: Vec<Operation>)
    requires
        dir_exists@.len() == required_directories().len(),
        file_exists@.len() == planned_files().len(),
    ensures
        operations_view(r@) == init_plan(dir_exists@, file_exists@, merge, *templates, config_content@),
{
    let dirs = required_directories_list();
    let mut operations: Vec<Operation> = Vec::new();
    let mut i: usize = 0;
    assert(operations_view(operations@) =~= dir_ops(dir_exists@, 0));
    while i < dirs.len()
        invariant
            i <= dirs.len(),
            pieces_view(dirs@) == required_directories(),
            dir_exists@.len() == required_directories().len(),
            operations_view(operations@) == dir_ops(dir_exists@, i as nat),
        decreases dirs.len() - i,
    {
        assert(pieces_view(dirs@)[i as int] == dirs@[i as int]@);
        push_directory_if_missing(dirs[i].as_str(), dir_exists[i], &mut operations);
        i = i + 1;
    }
    let ghost head = operations_view(operations@);
    let paths = planned_file_paths();
    let mut contents: Vec<String> = Vec::new();
    contents.push(templates.agents.clone());
    contents.push(owned(config_content));
    contents.push(templates.specs_readme.clone());
    contents.push(templates.project.clone());
    contents.push(templates.org.clone());
    contents.push(templates.prd_readme.clone());
    contents.push(templates.design_docs_readme.clone());
    contents.push(templates.exec_plans_readme.clone());
    let ghost cs = planned_contents(*templates, config_content@);
    assert(pieces_view(contents@) =~= cs);
    let mut owners: Vec<Ownership> = Vec::new();
    owners.push(Ownership::User);
    owners.push(Ownership::User);
    owners.push(Ownership::Specmate);
    owners.push(Ownership::User);
    owners.push(Ownership::User);
    owners.push(Ownership::Specmate);
    owners.push(Ownership::Specmate);
    owners.push(Ownership::Specmate);
    assert(owners@ =~= planned_files().map_values(|f: (Ownership, Seq<char>)| f.0));
    let mut k: usize = 0;
    assert(pieces_view(paths@).len() == paths@.len());
    assert(head =~= head + file_ops(cs, merge, file_exists@, 0));
    while k < paths.len()
        invariant
            k <= paths.len(),
            paths@.len() == planned_files().len(),
            contents@.len() == planned_files().len(),
            owners@.len() == planned_files().len(),
            file_exists@.len() == planned_files().len(),
            pieces_view(paths@) == planned_files().map_values(|f: (Ownership, Seq<char>)| f.1),
            owners@ == planned_files().map_values(|f: (Ownership, Seq<char>)| f.0),
            pieces_view(contents@) == cs,
            operations_view(operations@) == head + file_ops(cs, merge, file_exists@, k as nat),
        decreases paths.len() - k,
    {
        assert(pieces_view(paths@)[k as int] == paths@[k as int]@);
        assert(pieces_view(contents@)[k as int] == contents@[k as int]@);
        assert(owners@[k as int] == planned_files()[k as int].0);
        assert(paths@[k as int]@ == planned_files()[k as int].1);
        push_file_operation(owners[k], paths[k].as_str(), contents[k].clone(), merge, file_exists[k], &mut operations);
        k = k + 1;
        assert(operations_view(operations@) =~= head + file_ops(cs, merge, file_exists@, k as nat));
    }
    operations
}

/// The display line of one operation.
pub open spec fn operation_line(op: OperationView) -> Seq<char> {
    let path = if op.ownership == Ownership::Dir {
        op.path + "/"@
    } else {
        op.path
    };
    "  "@ + padded_to(ownership_tag(op.ownership), 10) + " "@ + padded_to(action_label(op.action), 10)
        + " "@ + path + match op.note {
        Some(note) => "  ("@ + note + ")"@,
        None => Seq::empty(),
    }
}

/// Formats one operation for display.
pub fn format_operation(operation: &Operation) -> (r: String)
    ensures
        r@ == operation_line(operation@),
{
    let mut out = owned("  ");
    crate::check::push_padded_to(&mut out, operation.ownership.tag(), 10);
    append(&mut out, " ");
    crate::check::push_padded_to(&mut out, operation.action.label(), 10);
    append(&mut out, " ");
    append(&mut out, operation.path.as_str());
    if operation.ownership == Ownership::Dir {
        append(&mut out, "/");
    }
    match &operation.note {
        Some(note) => {
            append(&mut out, "  (");
            append(&mut out, note.as_str());
            append(&mut out, ")");
        },
        None => {},
    }
    assert(out@ =~= operation_line(operation@));
    out
}

/// The lines of the first `n` operations.
pub open spec fn operation_lines(ops: Seq<OperationView>, n: nat) -> Seq<char>
    decreases n,
{
    if n == 0 || n > ops.len() {
        Seq::empty()
    } else {
        operation_lines(ops, (n - 1) as nat) + operation_line(ops[n - 1]) + "\n"@
    }
}

/// The report of applied operations.
pub fn render_applied(operations: &Vec<Operation>) -> (r: String)
    ensures
        r@ == operation_lines(operations_view(operations@), operations@.len()),
{
    let ghost ops = operations_view(operations@);
    let mut out = String::new();
    let mut i: usize = 0;
    while i < operations.len()
        invariant
            i <= operations.len(),
            ops == operations_view(operations@),
            out@ == operation_lines(ops, i as nat),
        decreases operations.len() - i,
    {
        assert(ops[i as int] == operations@[i as int]@);
        let line = format_operation(&operations[i]);
        append(&mut out, line.as_str());
        append(&mut out, "\n");
        i = i + 1;
    }
    out
}

/// The report of a dry run.
pub open spec fn dry_run_text(ops: Seq<OperationView>) -> Seq<char> {
    "Planned operations (no files will be written):\n\n"@ + operation_lines(ops, ops.len())
        + "\nRun without --dry-run to apply.\n"@
}

pub fn render_dry_run(operations: &Vec<Operation>) -> (r: String)
    ensures
        r@ == dry_run_text(operations_view(operations@)),
{
    let mut out = owned("Planned operations (no files will be written):\n\n");
    let body = render_applied(operations);
    append(&mut out, body.as_str());
    append(&mut out, "\nRun without --dry-run to apply.\n");
    out
}

/// The first standard path that exists, if any.
pub open spec fn existing_marker(exists: Seq<bool>, n: nat) -> Option<Seq<char>>
    decreases standard_paths().len() - n,
{
    if n >= standard_paths().len() || n >= exists.len() {
        None
    } else if exists[n as int] {
        Some(standard_paths()[n as int])
    } else {
        existing_marker(exists, n + 1)
    }
}

/// Finds the first standard path that exists, given `exists[i]` for the `i`-th.
pub fn find_existing_marker(exists: &Vec<bool>) -> (r: Option<String>)
    ensures
        match r {
            Some(m) => existing_marker(exists@, 0) == Some(m@),
            None => existing_marker(exists@, 0) is None,
        },
{
    let paths = standard_paths_list();
    let mut i: usize = 0;
    while i < paths.len() && i < exists.len()
        invariant
            i <= paths.len(),
            pieces_view(paths@) == standard_paths(),
            existing_marker(exists@, 0) == existing_marker(exists@, i as nat),
        decreases paths.len() - i,
    {
        if exists[i] {
            assert(pieces_view(paths@)[i as int] == paths@[i as int]@);
            return Some(paths[i].clone());
        }
        i = i + 1;
    }
    None
}

/// The error for a repository that already has a specmate structure.
pub open spec fn existing_repo_text(marker: Seq<char>) -> Seq<char> {
    "[fail] "@ + marker + "\n       specmate-managed structure already exists in this repo\n"@
        + "       -> Re-run with: specmate init --merge\n"@
}

pub fn write_existing_repo_error(marker: &str) -> (r: String)
    ensures
        r@ == existing_repo_text(marker@),
{
    let mut out = concat3("[fail] ", marker, "\n       specmate-managed structure already exists in this repo\n");
    append(&mut out, "       -> Re-run with: specmate init --merge\n");
    out
}

/// The language of generated content: the one asked for, else the configured one.
pub fn resolve_lang(explicit: Option<Lang>, configured: Config) -> (r: Lang)
    ensures
        r == match explicit {
            Some(l) => l,
            None => configured.lang,
        },
{
    match explicit {
        Some(l) => l,
        None => configured.lang,
    }
}

/// Whether `specmate init` may proceed: refused, with its error text, when a
/// standard path already exists and `--merge` was not given.
pub fn init_preflight(marker: Option<String>, merge: bool) -> (r: Result<(), String>)
    ensures
        (marker is Some && !merge) ==> (r is Err && r->Err_0@ == existing_repo_text(
            marker->0@,
        )),
        !(marker is Some && !merge) ==> r is Ok,
{
    match marker {
        Some(m) => if merge {
            Ok(())
        } else {
            Err(write_existing_repo_error(m.as_str()))
        },
        None => Ok(()),
    }
}

} // verus!
