//! Lifecycles of managed documents: directory mapping, terminal states,
//! legal transitions and the parsing of status strings.
use crate::doc::types::{status_name, DocType, Status};
use crate::text::str_eq;
use vstd::prelude::*;

verus! {

/// The repository-relative directory of a `(DocType, Status)` pair, where directory = status applies.
pub open spec fn expected_dir(t: DocType, s: Status) -> Option<Seq<char>> {
    match (t, s) {
        (DocType::Prd, Status::Draft) => Some("docs/prd/draft"@),
        (DocType::Prd, Status::Approved) => Some("docs/prd/approved"@),
        (DocType::Prd, Status::Obsolete) => Some("docs/prd/obsolete"@),
        (DocType::DesignDoc, Status::Draft) | (DocType::DesignPatch, Status::Draft) => Some(
            "docs/design/draft"@,
        ),
        (DocType::DesignDoc, Status::Candidate) | (DocType::DesignPatch, Status::Candidate) =>
            Some("docs/design/candidate"@),
        (DocType::DesignDoc, Status::Implemented) | (DocType::DesignPatch, Status::Implemented) =>
            Some("docs/design/implemented"@),
        (DocType::DesignDoc, Status::Obsolete)
        | (DocType::DesignPatch, Status::Obsolete)
        | (DocType::DesignPatch, Status::ObsoleteMerged) => Some("docs/design/obsolete"@),
        (DocType::ProjectSpec, Status::Active) | (DocType::OrgSpec, Status::Active) => Some(
            "docs/specs"@,
        ),
        (DocType::Guideline, Status::Active) => Some("docs/guidelines"@),
        _ => None,
    }
}

/// Resolves the expected relative directory for a `(DocType, Status)` pair when directory=status applies.
pub fn expected_directory(doc_type: DocType, status: Status) -> (r: Option<&'static str>)
    ensures
        match r {
            Some(d) => expected_dir(doc_type, status) == Some(d@),
            None => expected_dir(doc_type, status) is None,
        },
{
    match (doc_type, status) {
        (DocType::Prd, Status::Draft) => Some("docs/prd/draft"),
        (DocType::Prd, Status::Approved) => Some("docs/prd/approved"),
        (DocType::Prd, Status::Obsolete) => Some("docs/prd/obsolete"),
        (DocType::DesignDoc, Status::Draft) | (DocType::DesignPatch, Status::Draft) => Some(
            "docs/design/draft",
        ),
        (DocType::DesignDoc, Status::Candidate) | (DocType::DesignPatch, Status::Candidate) =>
            Some("docs/design/candidate"),
        (DocType::DesignDoc, Status::Implemented) | (DocType::DesignPatch, Status::Implemented) =>
            Some("docs/design/implemented"),
        (DocType::DesignDoc, Status::Obsolete)
        | (DocType::DesignPatch, Status::Obsolete)
        | (DocType::DesignPatch, Status::ObsoleteMerged) => Some("docs/design/obsolete"),
        (DocType::ProjectSpec, Status::Active) | (DocType::OrgSpec, Status::Active) => Some(
            "docs/specs",
        ),
        (DocType::Guideline, Status::Active) => Some("docs/guidelines"),
        _ => None,
    }
}

/// The terminal states of each document type.
pub open spec fn terminal(t: DocType, s: Status) -> bool {
    match t {
        DocType::Prd => s == Status::Obsolete,
        DocType::DesignDoc => s == Status::Implemented || s == Status::Obsolete,
        DocType::DesignPatch => s == Status::Implemented || s == Status::Obsolete || s
            == Status::ObsoleteMerged,
        DocType::ExecPlan | DocType::TaskSpec => s == Status::Closed,
        DocType::ProjectSpec | DocType::OrgSpec | DocType::Guideline => s == Status::Active,
    }
}

/// Returns whether a status is terminal for the given managed document type.
pub fn is_terminal_status(doc_type: DocType, status: Status) -> (r: bool)
    ensures
        r == terminal(doc_type, status),
{
    match doc_type {
        DocType::Prd => status == Status::Obsolete,
        DocType::DesignDoc => status == Status::Implemented || status == Status::Obsolete,
        DocType::DesignPatch => status == Status::Implemented || status == Status::Obsolete
            || status == Status::ObsoleteMerged,
        DocType::ExecPlan | DocType::TaskSpec => status == Status::Closed,
        DocType::ProjectSpec | DocType::OrgSpec | DocType::Guideline => status == Status::Active,
    }
}

/// A status is live exactly when it is not terminal.
pub open spec fn live(t: DocType, s: Status) -> bool {
    !terminal(t, s)
}

/// Returns whether a status is considered live for association-aware validation.
pub fn is_live_status(doc_type: DocType, status: Status) -> (r: bool)
    ensures
        r == live(doc_type, status),
        r == !terminal(doc_type, status),
{
    !is_terminal_status(doc_type, status)
}

/// The lifecycle edges of each document type.
pub open spec fn legal_transition(t: DocType, from: Status, to: Status) -> bool {
    match t {
        DocType::Prd => (from == Status::Draft && to == Status::Approved) || (from
            == Status::Approved && to == Status::Obsolete) || (from == Status::Draft && to
            == Status::Obsolete),
        DocType::DesignDoc => (from == Status::Draft && to == Status::Candidate) || (from
            == Status::Candidate && to == Status::Implemented) || (from == Status::Candidate && to
            == Status::Obsolete) || (from == Status::Implemented && to == Status::Obsolete),
        DocType::DesignPatch => (from == Status::Draft && to == Status::Candidate) || (from
            == Status::Draft && to == Status::Obsolete) || (from == Status::Candidate && to
            == Status::Implemented) || (from == Status::Candidate && to == Status::Obsolete) || (
        from == Status::Implemented && to == Status::ObsoleteMerged),
        DocType::ExecPlan | DocType::TaskSpec => (from == Status::Draft && to == Status::Closed)
            || (from == Status::Draft && to == Status::Candidate) || (from == Status::Candidate
            && to == Status::Draft) || (from == Status::Candidate && to == Status::Closed),
        DocType::ProjectSpec | DocType::OrgSpec | DocType::Guideline => false,
    }
}

/// Whether the lifecycle of `doc_type` has an edge from `from` to `to`.
pub fn is_legal_transition(doc_type: DocType, from: Status, to: Status) -> (r: bool)
    ensures
        r == legal_transition(doc_type, from, to),
{
    match doc_type {
        DocType::Prd => (from == Status::Draft && to == Status::Approved) || (from
            == Status::Approved && to == Status::Obsolete) || (from == Status::Draft && to
            == Status::Obsolete),
        DocType::DesignDoc => (from == Status::Draft && to == Status::Candidate) || (from
            == Status::Candidate && to == Status::Implemented) || (from == Status::Candidate && to
            == Status::Obsolete) || (from == Status::Implemented && to == Status::Obsolete),
        DocType::DesignPatch => (from == Status::Draft && to == Status::Candidate) || (from
            == Status::Draft && to == Status::Obsolete) || (from == Status::Candidate && to
            == Status::Implemented) || (from == Status::Candidate && to == Status::Obsolete) || (
        from == Status::Implemented && to == Status::ObsoleteMerged),
        DocType::ExecPlan | DocType::TaskSpec => (from == Status::Draft && to == Status::Closed)
            || (from == Status::Draft && to == Status::Candidate) || (from == Status::Candidate
            && to == Status::Draft) || (from == Status::Candidate && to == Status::Closed),
        DocType::ProjectSpec | DocType::OrgSpec | DocType::Guideline => false,
    }
}

/// The status that a move may target for a document type: a status of the
/// type's move lifecycle. Project specs, org specs and guidelines have none.
pub open spec fn target_status_for(t: DocType, raw: Seq<char>) -> Option<Status> {
    if t == DocType::ProjectSpec || t == DocType::OrgSpec || t == DocType::Guideline {
        None
    } else {
        status_for(t, raw)
    }
}

/// The status that a frontmatter status string denotes for a document type.
pub open spec fn status_for(t: DocType, raw: Seq<char>) -> Option<Status> {
    if t == DocType::Prd && raw == "draft"@ {
        Some(Status::Draft)
    } else if t == DocType::Prd && raw == "approved"@ {
        Some(Status::Approved)
    } else if t == DocType::Prd && raw == "obsolete"@ {
        Some(Status::Obsolete)
    } else if (t == DocType::DesignDoc || t == DocType::DesignPatch) && raw == "draft"@ {
        Some(Status::Draft)
    } else if (t == DocType::DesignDoc || t == DocType::DesignPatch) && raw == "candidate"@ {
        Some(Status::Candidate)
    } else if (t == DocType::DesignDoc || t == DocType::DesignPatch) && raw == "implemented"@ {
        Some(Status::Implemented)
    } else if (t == DocType::DesignDoc || t == DocType::DesignPatch) && raw == "obsolete"@ {
        Some(Status::Obsolete)
    } else if t == DocType::DesignPatch && raw == "obsolete:merged"@ {
        Some(Status::ObsoleteMerged)
    } else if (t == DocType::ExecPlan || t == DocType::TaskSpec) && raw == "draft"@ {
        Some(Status::Draft)
    } else if (t == DocType::ExecPlan || t == DocType::TaskSpec) && raw == "candidate"@ {
        Some(Status::Candidate)
    } else if (t == DocType::ExecPlan || t == DocType::TaskSpec) && raw == "closed"@ {
        Some(Status::Closed)
    } else if (t == DocType::ProjectSpec || t == DocType::OrgSpec) && raw == "active"@ {
        Some(Status::Active)
    } else {
        None
    }
}

/// The status that a status string denotes for a document type, if it belongs to its lifecycle.
pub fn status_from_str(doc_type: DocType, raw: &str) -> (r: Option<Status>)
    ensures
        r == status_for(doc_type, raw@),
{
    let is_prd = doc_type == DocType::Prd;
    let is_design = doc_type == DocType::DesignDoc || doc_type == DocType::DesignPatch;
    let is_exec = doc_type == DocType::ExecPlan || doc_type == DocType::TaskSpec;
    let is_fixed = doc_type == DocType::ProjectSpec || doc_type == DocType::OrgSpec;
    let draft = str_eq(raw, "draft");
    let approved = str_eq(raw, "approved");
    let obsolete = str_eq(raw, "obsolete");
    let candidate = str_eq(raw, "candidate");
    let implemented = str_eq(raw, "implemented");
    let merged = str_eq(raw, "obsolete:merged");
    let closed = str_eq(raw, "closed");
    let active = str_eq(raw, "active");
    if is_prd && draft {
        Some(Status::Draft)
    } else if is_prd && approved {
        Some(Status::Approved)
    } else if is_prd && obsolete {
        Some(Status::Obsolete)
    } else if is_design && draft {
        Some(Status::Draft)
    } else if is_design && candidate {
        Some(Status::Candidate)
    } else if is_design && implemented {
        Some(Status::Implemented)
    } else if is_design && obsolete {
        Some(Status::Obsolete)
    } else if doc_type == DocType::DesignPatch && merged {
        Some(Status::ObsoleteMerged)
    } else if is_exec && draft {
        Some(Status::Draft)
    } else if is_exec && candidate {
        Some(Status::Candidate)
    } else if is_exec && closed {
        Some(Status::Closed)
    } else if is_fixed && active {
        Some(Status::Active)
    } else {
        None
    }
}

/// No lifecycle has an edge from a status to itself.
pub proof fn lemma_no_self_transition(t: DocType, s: Status)
    ensures
        !legal_transition(t, s, s),
{
}

/// Project specs, org specs and guidelines never change status.
pub proof fn lemma_fixed_documents_never_transition(t: DocType, from: Status, to: Status)
    requires
        t == DocType::ProjectSpec || t == DocType::OrgSpec || t == DocType::Guideline,
    ensures
        !legal_transition(t, from, to),
{
}

/// A document that has reached a terminal status only ever moves on to another
/// terminal status.
pub proof fn lemma_terminal_is_never_left_for_live(t: DocType, from: Status, to: Status)
    requires
        legal_transition(t, from, to),
        terminal(t, from),
    ensures
        terminal(t, to),
{
}

/// Every legal move of a document that lives in status directories leads to a
/// status that has a directory.
pub proof fn lemma_legal_target_has_directory(t: DocType, from: Status, to: Status)
    requires
        legal_transition(t, from, to),
        t != DocType::ExecPlan,
        t != DocType::TaskSpec,
    ensures
        expected_dir(t, to) is Some,
{
}

/// A status string is only ever read as the status it names.
pub proof fn lemma_status_for_names_its_result(t: DocType, raw: Seq<char>)
    requires
        status_for(t, raw) is Some,
    ensures
        status_name(status_for(t, raw)->0) == raw,
{
}

/// Both ends of every lifecycle edge read back from their own names.
pub proof fn lemma_transition_statuses_read_back(t: DocType, from: Status, to: Status)
    requires
        legal_transition(t, from, to),
    ensures
        status_for(t, status_name(from)) == Some(from),
        status_for(t, status_name(to)) == Some(to),
{
    reveal_strlit("draft");
    reveal_strlit("approved");
    reveal_strlit("candidate");
    reveal_strlit("implemented");
    reveal_strlit("closed");
    reveal_strlit("obsolete");
    reveal_strlit("obsolete:merged");
    reveal_strlit("active");
    let names = seq![
        "draft"@,
        "approved"@,
        "candidate"@,
        "implemented"@,
        "closed"@,
        "obsolete"@,
        "obsolete:merged"@,
        "active"@,
    ];
    assert forall|i: int, j: int| 0 <= i < j < 8 implies names[i] != names[j] by {
        if names[i].len() == names[j].len() {
            assert(names[i][0] != names[j][0]);
        }
    }
    assert(status_name(from) == names[status_index(from)]);
    assert(status_name(to) == names[status_index(to)]);
}

spec fn status_index(s: Status) -> int {
    match s {
        Status::Draft => 0,
        Status::Approved => 1,
        Status::Candidate => 2,
        Status::Implemented => 3,
        Status::Closed => 4,
        Status::Obsolete => 5,
        Status::ObsoleteMerged => 6,
        Status::Active => 7,
    }
}

/// Whether `to` can be reached from `from` in at most `k` legal moves.
pub open spec fn reachable_within(t: DocType, from: Status, to: Status, k: nat) -> bool
    decreases k,
{
    from == to || (k > 0 && exists|m: Status|
        #[trigger] legal_transition(t, from, m) && reachable_within(t, m, to, (k - 1) as nat))
}

proof fn lemma_status_names_distinct()
    ensures
        forall|a: Status, b: Status| #[trigger] status_name(a) == #[trigger] status_name(b) ==> a == b,
{
    reveal_strlit("draft");
    reveal_strlit("approved");
    reveal_strlit("candidate");
    reveal_strlit("implemented");
    reveal_strlit("closed");
    reveal_strlit("obsolete");
    reveal_strlit("obsolete:merged");
    reveal_strlit("active");
    assert forall|a: Status, b: Status| #[trigger] status_name(a) == #[trigger] status_name(b) implies a
        == b by {
        if a != b {
            assert(status_name(a).len() != status_name(b).len() || status_name(a)[0] != status_name(
                b,
            )[0] || status_name(a)[1] != status_name(b)[1] || status_name(a).len() > 8);
        }
    }
}

/// A document past draft that is still live can always be retired: from every
/// live status of a document type's lifecycle other than draft, some legal move
/// leads to a terminal status. An approved PRD can be made obsolete, a candidate
/// design implemented, a candidate Exec Plan or Task Spec closed.
pub proof fn lemma_live_documents_can_be_retired(t: DocType, s: Status)
    requires
        status_for(t, status_name(s)) == Some(s),
        live(t, s),
        s != Status::Draft,
    ensures
        exists|to: Status| terminal(t, to) && #[trigger] legal_transition(t, s, to),
{
    lemma_status_names_distinct();
    lemma_lifecycle_members(t, s);
    match t {
        DocType::Prd => assert(legal_transition(t, s, Status::Obsolete)),
        DocType::DesignDoc | DocType::DesignPatch => assert(legal_transition(
            t,
            s,
            Status::Implemented,
        )),
        DocType::ExecPlan | DocType::TaskSpec => assert(legal_transition(t, s, Status::Closed)),
        _ => {},
    }
}

/// The statuses that the frontmatter of each document type may hold.
proof fn lemma_lifecycle_members(t: DocType, s: Status)
    requires
        status_for(t, status_name(s)) == Some(s),
    ensures
        t == DocType::Prd ==> (s == Status::Draft || s == Status::Approved || s == Status::Obsolete),
        t == DocType::DesignDoc ==> (s == Status::Draft || s == Status::Candidate || s
            == Status::Implemented || s == Status::Obsolete),
        t == DocType::DesignPatch ==> (s == Status::Draft || s == Status::Candidate || s
            == Status::Implemented || s == Status::Obsolete || s == Status::ObsoleteMerged),
        t == DocType::ExecPlan || t == DocType::TaskSpec ==> (s == Status::Draft || s
            == Status::Candidate || s == Status::Closed),
        t == DocType::Guideline ==> false,
        t == DocType::ProjectSpec || t == DocType::OrgSpec ==> s == Status::Active,
{
    reveal_strlit("draft");
    reveal_strlit("approved");
    reveal_strlit("candidate");
    reveal_strlit("implemented");
    reveal_strlit("closed");
    reveal_strlit("obsolete");
    reveal_strlit("obsolete:merged");
    reveal_strlit("active");
}

/// Every status of a document type's move lifecycle can be reached from draft in
/// at most three legal moves.
pub proof fn lemma_lifecycle_reachable_from_draft(t: DocType, s: Status)
    requires
        status_for(t, status_name(s)) == Some(s),
        t != DocType::ProjectSpec,
        t != DocType::OrgSpec,
    ensures
        status_for(t, status_name(Status::Draft)) == Some(Status::Draft),
        reachable_within(t, Status::Draft, s, 3),
{
    lemma_lifecycle_members(t, s);
    reveal_strlit("draft");
    let d = Status::Draft;
    let c = Status::Candidate;
    let i = Status::Implemented;
    assert(reachable_within(t, s, s, 0));
    assert(reachable_within(t, s, s, 1));
    assert(reachable_within(t, s, s, 2));
    match t {
        DocType::Prd => {
            if s == Status::Approved || s == Status::Obsolete {
                assert(legal_transition(t, d, s));
                assert(reachable_within(t, d, s, 3));
            }
        },
        DocType::DesignDoc | DocType::DesignPatch => {
            if s == c {
                assert(legal_transition(t, d, c));
                assert(reachable_within(t, d, s, 3));
            } else if s == i || s == Status::Obsolete {
                assert(legal_transition(t, c, s));
                assert(reachable_within(t, c, s, 2));
                assert(legal_transition(t, d, c));
                assert(reachable_within(t, d, s, 3));
            } else if s == Status::ObsoleteMerged {
                assert(legal_transition(t, i, s));
                assert(reachable_within(t, i, s, 1));
                assert(legal_transition(t, c, i));
                assert(reachable_within(t, c, s, 2));
                assert(legal_transition(t, d, c));
                assert(reachable_within(t, d, s, 3));
            }
        },
        DocType::ExecPlan | DocType::TaskSpec => {
            if s != d {
                assert(legal_transition(t, d, s));
                assert(reachable_within(t, d, s, 3));
            }
        },
        _ => {},
    }
}

} // verus!
