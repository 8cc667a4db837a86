//! `specmate move`: moving a managed document to a new lifecycle status.

use crate::cmd::{display_path, display_path_str, failure, parent_dir, parent_of, CommandFailure, FailureView};
use crate::doc::index::{index_of, scans_view, ScanView, ScannedFile};
use crate::doc::lifecycle::{status_from_str, target_status_for};

use crate::doc::transition::{preview_of, preview_transition, transition_error, validate_transition};
use crate::doc::types::{doc_position, doc_type_name, docs_view, id_string, lemma_doc_position, lookup, status_name, DocType, Document, DocumentIndex, DocumentView, SpecDocId, Status};
use crate::doc::lifecycle::legal_transition;
use crate::doc::validate::{build_compliant_index, compliance_error, index_violations, validate_preview};
use crate::error::error_text;
use crate::text::{append, chars_of, concat2, concat3, ends_with, has_prefix, has_suffix, join, join_strings, owned, pieces_view, slice_prefix, split_char, split_str, starts_with, str_eq, string_of, trim, trim_start, trim_start_str, trim_str};
use vstd::prelude::*;

verus! {

/// Arguments for `specmate move`.
#[derive(Debug)]
pub struct MoveArgs {
    /// Managed document id such as `exec-auth-add-oauth/task-01` or `design-auth-system`.
    pub doc_id: String,
    /// Target status valid for the resolved document type.
    pub to_status: String,
    /// Show the planned file changes without writing files.
    pub dry_run: bool,
}

/// The first document whose canonical id is `id`.
pub open spec fn doc_by_id(docs: Seq<DocumentView>, id: Seq<char>, i: int) -> Option<DocumentView>
    decreases docs.len() - i,
{
    if i < 0 || i >= docs.len() {
        None
    } else if id_string(docs[i].id) == id {
        Some(docs[i])
    } else {
        doc_by_id(docs, id, i + 1)
    }
}

/// Finds the document whose canonical id is the trimmed `raw`.
pub fn resolve_document<'a>(index: &'a DocumentIndex, raw: &str) -> (r: Option<&'a Document>)
    ensures
        match r {
            Some(d) => doc_by_id(index@.documents, trim(raw@), 0) == Some(d@),
            None => doc_by_id(index@.documents, trim(raw@), 0) is None,
        },
{
    let wanted = trim_str(raw);
    let docs = index.documents.values();
    let ghost dv = docs_view(docs@);
    let mut i: usize = 0;
    while i < docs.len()
        invariant
            i <= docs.len(),
            dv == docs_view(docs@),
            dv == index@.documents,
            wanted@ == trim(raw@),
            doc_by_id(dv, wanted@, 0) == doc_by_id(dv, wanted@, i as int),
        decreases docs.len() - i,
    {
        assert(dv[i as int] == docs@[i as int]@);
        let id = docs[i].id.as_string();
        if str_eq(id.as_str(), wanted.as_str()) {
            return Some(&docs[i]);
        }
        i = i + 1;
    }
    None
}

/// The target status named by `raw` (trimmed) in the lifecycle of `doc_type`.
pub fn parse_target_status(doc_type: DocType, raw: &str) -> (r: Option<Status>)
    ensures
        r == target_status_for(doc_type, trim(raw@)),
{
    if doc_type == DocType::ProjectSpec || doc_type == DocType::OrgSpec || doc_type == DocType::Guideline {
        return None;
    }
    let t = trim_str(raw);
    status_from_str(doc_type, t.as_str())
}

/// The lines of a text, as `str::lines` gives them.
pub open spec fn text_lines(raw: Seq<char>) -> Seq<Seq<char>> {
    let pieces = split_char(raw, '\n');
    let n = pieces.len();
    Seq::new((n - 1) as nat, |i: int| strip_cr(pieces[i])) + if pieces[n - 1].len() == 0 {
        Seq::empty()
    } else {
        seq![pieces[n - 1]]
    }
}

/// A line without the `\r` of a `\r\n` ending.
pub open spec fn strip_cr(l: Seq<char>) -> Seq<char> {
    if l.len() > 0 && l.last() == '\r' {
        l.drop_last()
    } else {
        l
    }
}

/// The first line from `k` on, before `end`, that holds the `status:` field.
pub open spec fn status_line(lines: Seq<Seq<char>>, k: int, end: int) -> Option<int>
    decreases end - k,
{
    if k < 1 || k >= end || end > lines.len() {
        None
    } else if starts_with(trim_start(lines[k]), "status:"@) {
        Some(k)
    } else {
        status_line(lines, k + 1, end)
    }
}

/// The first line from `k` on that closes the frontmatter block.
pub open spec fn closing_line(lines: Seq<Seq<char>>, k: int) -> Option<int>
    decreases lines.len() - k,
{
    if k < 1 || k >= lines.len() {
        None
    } else if lines[k] == "---"@ {
        Some(k)
    } else {
        closing_line(lines, k + 1)
    }
}

/// The document text with its frontmatter status set to `to`; a move to `closed`
/// also records the closing date right after the status line.
pub open spec fn rewritten(raw: Seq<char>, to: Status, today: Seq<char>) -> Result<Seq<char>, Seq<char>> {
    let lines = text_lines(raw);
    if lines.len() == 0 || lines[0] != "---"@ {
        Err("document is missing a leading frontmatter block"@)
    } else {
        match closing_line(lines, 1) {
            None => Err("document frontmatter is missing its closing delimiter"@),
            Some(end) => match status_line(lines, 1, end) {
                None => Err("document frontmatter does not contain a status field"@),
                Some(s) => {
                    let replaced = lines.update(s, "status: "@ + status_name(to));
                    let updated = if to == Status::Closed {
                        replaced.insert(s + 1, "closed: "@ + today)
                    } else {
                        replaced
                    };
                    Ok(join(updated, "\n"@) + if ends_with(raw, "\n"@) {
                        "\n"@
                    } else {
                        Seq::empty()
                    })
                },
            },
        }
    }
}

/// A line that still ends with a carriage return.
pub open spec fn ends_cr(l: Seq<char>) -> bool {
    l.len() > 0 && l.last() == '\r'
}

/// Whether a line holds the `status:` field.
pub open spec fn is_status_line(l: Seq<char>) -> bool {
    starts_with(trim_start(l), "status:"@)
}

proof fn lemma_closing_line(lines: Seq<Seq<char>>, k: int)
    ensures
        match closing_line(lines, k) {
            Some(e) => 1 <= k <= e < lines.len() && lines[e] == "---"@ && forall|j: int|
                k <= j < e ==> lines[j] != "---"@,
            None => true,
        },
    decreases lines.len() - k,
{
    if 1 <= k < lines.len() && lines[k] != "---"@ {
        lemma_closing_line(lines, k + 1);
    }
}

proof fn lemma_closing_line_is(lines: Seq<Seq<char>>, k: int, e: int)
    requires
        1 <= k <= e < lines.len(),
        lines[e] == "---"@,
        forall|j: int| k <= j < e ==> lines[j] != "---"@,
    ensures
        closing_line(lines, k) == Some(e),
    decreases e - k,
{
    if k < e {
        lemma_closing_line_is(lines, k + 1, e);
    }
}

proof fn lemma_status_line(lines: Seq<Seq<char>>, k: int, end: int)
    ensures
        match status_line(lines, k, end) {
            Some(s) => 1 <= k <= s < end <= lines.len() && is_status_line(lines[s]) && forall|j: int|
                k <= j < s ==> !is_status_line(lines[j]),
            None => true,
        },
    decreases end - k,
{
    if 1 <= k < end && end <= lines.len() && !is_status_line(lines[k]) {
        lemma_status_line(lines, k + 1, end);
    }
}

proof fn lemma_status_line_is(lines: Seq<Seq<char>>, k: int, end: int, s: int)
    requires
        1 <= k <= s < end <= lines.len(),
        is_status_line(lines[s]),
        forall|j: int| k <= j < s ==> !is_status_line(lines[j]),
    ensures
        status_line(lines, k, end) == Some(s),
    decreases s - k,
{
    if k < s {
        lemma_status_line_is(lines, k + 1, end, s);
    }
}

/// The lines of a text hold no line feed, and its last line is empty only when
/// the text ends with one.
proof fn lemma_text_lines_shape(raw: Seq<char>)
    ensures
        forall|k: int|
            0 <= k < text_lines(raw).len() ==> !(#[trigger] text_lines(raw)[k]).contains('\n'),
        text_lines(raw).len() > 0 && !ends_with(raw, "\n"@) ==> text_lines(raw).last().len() > 0,
{
    reveal_strlit("\n");
    let pieces = split_char(raw, '\n');
    crate::text::lemma_split_char_pieces(raw, '\n');
    crate::text::lemma_split_char_last(raw, '\n');
    let lines = text_lines(raw);
    let n = pieces.len();
    assert forall|k: int| 0 <= k < lines.len() implies !(#[trigger] lines[k]).contains('\n') by {
        if k < n - 1 {
            assert(lines[k] == strip_cr(pieces[k]));
            assert(!pieces[k].contains('\n'));
            if strip_cr(pieces[k]).contains('\n') {
                let j = choose|j: int|
                    0 <= j < strip_cr(pieces[k]).len() && strip_cr(pieces[k])[j] == '\n';
                assert(pieces[k][j] == '\n');
            }
        } else {
            assert(lines[k] == pieces[n - 1]);
            assert(!pieces[n - 1].contains('\n'));
        }
    }
    if lines.len() > 0 && !ends_with(raw, "\n"@) {
        if raw.len() > 0 {
            assert(raw.skip(raw.len() - 1) =~= seq![raw.last()]);
        }
        if pieces[n - 1].len() == 0 {
            assert(lines.len() == n - 1);
            assert(raw.len() == 0 || raw.last() == '\n');
            assert(raw.len() > 0);
            assert(raw.skip(raw.len() - 1) =~= "\n"@);
        }
    }
}

/// Joining lines with line feeds, and ending the text with one or not, gives
/// text whose lines are those lines again.
proof fn lemma_text_lines_join(u: Seq<Seq<char>>, newline: bool)
    requires
        u.len() >= 1,
        forall|k: int| 0 <= k < u.len() ==> !(#[trigger] u[k]).contains('\n'),
        forall|k: int| 0 <= k < u.len() && (newline || k < u.len() - 1) ==> !ends_cr(#[trigger] u[k]),
        !newline ==> u.last().len() > 0,
    ensures
        text_lines(
            join(u, "\n"@) + if newline {
                "\n"@
            } else {
                Seq::empty()
            },
        ) == u,
{
    reveal_strlit("\n");
    assert("\n"@ =~= seq!['\n']);
    if newline {
        let v = u.push(Seq::<char>::empty());
        assert(v.drop_last() =~= u);
        assert(join(v, seq!['\n']) == join(u, seq!['\n']) + seq!['\n'] + Seq::<char>::empty());
        assert(join(u, seq!['\n']) + seq!['\n'] + Seq::<char>::empty() =~= join(u, "\n"@) + "\n"@);
        assert forall|k: int| 0 <= k < v.len() implies !(#[trigger] v[k]).contains('\n') by {
            if k < u.len() {
                assert(v[k] == u[k]);
            } else {
                assert(v[k] =~= Seq::<char>::empty());
            }
        }
        crate::text::lemma_split_join(v, '\n');
        let text = join(u, "\n"@) + "\n"@;
        assert(split_char(text, '\n') == v);
        assert forall|i: int| 0 <= i < u.len() implies strip_cr(#[trigger] v[i]) == u[i] by {
            assert(v[i] == u[i]);
        }
        assert(text_lines(text) =~= u);
    } else {
        crate::text::lemma_split_join(u, '\n');
        let text = join(u, "\n"@) + Seq::<char>::empty();
        assert(text =~= join(u, seq!['\n']));
        assert(split_char(text, '\n') == u);
        assert forall|i: int| 0 <= i < u.len() - 1 implies strip_cr(#[trigger] u[i]) == u[i] by {}
        assert(text_lines(text) =~= u);
    }
}

proof fn lemma_status_name_plain(to: Status)
    ensures
        status_name(to).len() > 0,
        !status_name(to).contains('\n'),
        !ends_cr(status_name(to)),
{
    reveal_strlit("draft");
    reveal_strlit("approved");
    reveal_strlit("candidate");
    reveal_strlit("implemented");
    reveal_strlit("closed");
    reveal_strlit("obsolete");
    reveal_strlit("obsolete:merged");
    reveal_strlit("active");
    let n = status_name(to);
    assert forall|j: int| 0 <= j < n.len() implies n[j] != '\n' by {}
}

/// Reading a rewritten document back finds the new status. Its lines are the
/// lines of the document with the status line replaced by `status: <to>` (followed, on
/// a move to `closed`, by `closed: <today>`); its frontmatter block opens and
/// closes as before, and its first status line is the replaced one. This holds
/// of every document whose lines, once their line endings are removed, end in
/// no carriage return, for a date that holds no line break.
pub proof fn lemma_rewrite_reads_back(raw: Seq<char>, to: Status, today: Seq<char>)
    requires
        rewritten(raw, to, today) is Ok,
        forall|k: int|
            0 <= k < text_lines(raw).len() && (ends_with(raw, "\n"@) || k < text_lines(raw).len()
                - 1) ==> !ends_cr(#[trigger] text_lines(raw)[k]),
        !today.contains('\n'),
        !ends_cr(today),
    ensures
        ({
            let before = text_lines(raw);
            let after = text_lines(rewritten(raw, to, today)->Ok_0);
            let s = status_line(before, 1, closing_line(before, 1)->0)->0;
            &&& after[0] == "---"@
            &&& closing_line(after, 1) is Some
            &&& status_line(after, 1, closing_line(after, 1)->0) == Some(s)
            &&& after[s] == "status: "@ + status_name(to)
            &&& (to == Status::Closed ==> after[s + 1] == "closed: "@ + today)
            &&& forall|k: int| 0 <= k < s ==> after[k] == before[k]
        }),
{
    reveal_strlit("---");
    reveal_strlit("status: ");
    reveal_strlit("status:");
    reveal_strlit("closed: ");
    let lines = text_lines(raw);
    lemma_closing_line(lines, 1);
    let end = closing_line(lines, 1)->0;
    lemma_status_line(lines, 1, end);
    let s = status_line(lines, 1, end)->0;
    lemma_text_lines_shape(raw);
    let new_status = "status: "@ + status_name(to);
    let closed_line = "closed: "@ + today;
    let replaced = lines.update(s, new_status);
    let u = if to == Status::Closed {
        replaced.insert(s + 1, closed_line)
    } else {
        replaced
    };
    let newline = ends_with(raw, "\n"@);
    assert(rewritten(raw, to, today)->Ok_0 == join(u, "\n"@) + if newline {
        "\n"@
    } else {
        Seq::empty()
    });
    assert(new_status.len() >= 8 && new_status[0] == 's');
    assert(closed_line.len() >= 8);
    lemma_status_name_plain(to);
    assert(!new_status.contains('\n')) by {
        if new_status.contains('\n') {
            let j = choose|j: int| 0 <= j < new_status.len() && new_status[j] == '\n';
            if j >= 8 {
                assert(status_name(to)[j - 8] == '\n');
            }
        }
    }
    assert(!ends_cr(new_status)) by {
        assert(new_status.last() == status_name(to).last());
    }
    assert(!closed_line.contains('\n')) by {
        if closed_line.contains('\n') {
            let j = choose|j: int| 0 <= j < closed_line.len() && closed_line[j] == '\n';
            if j >= 8 {
                assert(today[j - 8] == '\n');
            }
        }
    }
    assert(!ends_cr(closed_line)) by {
        if today.len() > 0 {
            assert(closed_line.last() == today.last());
        }
    }
    let end2 = if to == Status::Closed {
        end + 1
    } else {
        end
    };
    assert(u.len() >= 1);
    assert forall|k: int| 0 <= k < u.len() implies {
        &&& !(#[trigger] u[k]).contains('\n')
        &&& (newline || k < u.len() - 1) ==> !ends_cr(u[k])
        &&& (k == 0 ==> u[k] == "---"@)
        &&& (1 <= k < end2 ==> u[k] != "---"@)
        &&& (k == end2 ==> u[k] == "---"@)
        &&& (1 <= k < s ==> !is_status_line(u[k]))
        &&& (k < s ==> u[k] == lines[k])
    } by {
        if k < s {
            assert(u[k] == lines[k]);
        } else if k == s {
            assert(u[k] == new_status);
        } else if to == Status::Closed && k == s + 1 {
            assert(u[k] == closed_line);
        } else if to == Status::Closed {
            assert(u[k] == lines[k - 1]);
        } else {
            assert(u[k] == lines[k]);
        }
    }
    assert(!newline ==> u.last().len() > 0) by {
        if !newline {
            assert(u.last() == lines.last());
        }
    }
    lemma_text_lines_join(u, newline);
    assert(trim_start(new_status) == new_status);
    assert(new_status.take(7) =~= "status:"@);
    lemma_closing_line_is(u, 1, end2);
    lemma_status_line_is(u, 1, end2, s);
}

fn lines_of(raw: &str) -> (r: Vec<String>)
    ensures
        pieces_view(r@) == text_lines(raw@),
{
    let pieces = split_str(raw, '\n');
    let ghost pv = pieces_view(pieces@);
    proof {
        crate::text::lemma_split_char_nonempty(raw@, '\n');
    }
    let n = pieces.len();
    let mut out: Vec<String> = Vec::new();
    let mut i: usize = 0;
    while i + 1 < n
        invariant
            n == pieces@.len(),
            n >= 1,
            i <= n - 1,
            pv == pieces_view(pieces@),
            pieces_view(out@) == Seq::new(i as nat, |k: int| strip_cr(pv[k])),
        decreases n - i,
    {
        let piece = pieces[i].as_str();
        assert(pv[i as int] == piece@);
        let cs = chars_of(piece);
        let line = if cs.len() > 0 && cs[cs.len() - 1] == '\r' {
            string_of(slice_prefix(cs.as_slice(), cs.len() - 1).as_slice())
        } else {
            owned(piece)
        };
        assert(line@ == strip_cr(piece@)) by {
            if cs.len() > 0 && cs@[cs@.len() - 1] == '\r' {
                assert(cs@.take(cs@.len() - 1) =~= piece@.drop_last());
            }
        }
        let ghost before = pieces_view(out@);
        out.push(line);
        assert(pieces_view(out@) =~= before.push(line@));
        i = i + 1;
        assert(pieces_view(out@) =~= Seq::new(i as nat, |k: int| strip_cr(pv[k])));
    }
    let last = pieces[n - 1].as_str();
    assert(pv[n - 1] == last@);
    let ghost head = pieces_view(out@);
    if !last.is_empty() {
        out.push(owned(last));
    }
    assert(pieces_view(out@) =~= text_lines(raw@));
    out
}

/// Rewrites the frontmatter status of a document, adding its closing date on a
/// move to `closed`.
pub fn rewrite_status(raw: &str, to: Status, today: &str) -> (r: Result<String, String>)
    ensures
        match r {
            Ok(t) => rewritten(raw@, to, today@) == Ok::<Seq<char>, Seq<char>>(t@),
            Err(m) => rewritten(raw@, to, today@) == Err::<Seq<char>, Seq<char>>(m@),
        },
{
    let mut lines = lines_of(raw);
    let ghost ls = pieces_view(lines@);
    proof {
        reveal_strlit("---");
    }
    if lines.len() == 0 || !str_eq(lines[0].as_str(), "---") {
        proof {
            if lines@.len() > 0 {
                assert(ls[0] == lines@[0]@);
            }
        }
        return Err(owned("document is missing a leading frontmatter block"));
    }
    assert(ls[0] == lines@[0]@);
    let mut end: usize = 1;
    while end < lines.len() && !str_eq(lines[end].as_str(), "---")
        invariant
            1 <= end <= lines@.len(),
            ls == pieces_view(lines@),
            closing_line(ls, 1) == closing_line(ls, end as int),
        decreases lines.len() - end,
    {
        assert(ls[end as int] == lines@[end as int]@);
        end = end + 1;
    }
    if end == lines.len() {
        return Err(owned("document frontmatter is missing its closing delimiter"));
    }
    assert(ls[end as int] == lines@[end as int]@);
    assert(closing_line(ls, 1) == Some(end as int));
    let mut s: usize = 1;
    let mut found = false;
    while s < end && !found
        invariant
            1 <= s <= end,
            end < lines@.len(),
            ls == pieces_view(lines@),
            !found ==> status_line(ls, 1, end as int) == status_line(ls, s as int, end as int),
            found ==> s < end && status_line(ls, 1, end as int) == Some(s as int),
        decreases end - s + (if found {
            0int
        } else {
            1int
        }),
    {
        assert(ls[s as int] == lines@[s as int]@);
        let t = trim_start_str(lines[s].as_str());
        if has_prefix(t.as_str(), "status:") {
            found = true;
        } else {
            s = s + 1;
        }
    }
    if !found {
        return Err(owned("document frontmatter does not contain a status field"));
    }
    let replacement = concat2("status: ", to.as_str());
    lines.set(s, replacement);
    let ghost replaced = ls.update(s as int, "status: "@ + status_name(to));
    assert(pieces_view(lines@) =~= replaced);
    if to == Status::Closed {
        lines.insert(s + 1, concat2("closed: ", today));
        assert(pieces_view(lines@) =~= replaced.insert(s + 1, "closed: "@ + today@));
    }
    let mut updated = join_strings(&lines, "\n");
    if has_suffix(raw, "\n") {
        append(&mut updated, "\n");
    }
    Ok(updated)
}

/// What a move will do, once the repository has been checked.
#[derive(Debug)]
pub struct MoveTarget {
    pub repo_root: String,
    pub source_path: String,
    pub destination_path: String,
    pub destination_dir: String,
    pub from_status: Status,
    pub to_status: Status,
    pub raw: String,
}

pub struct TargetView {
    pub repo_root: Seq<char>,
    pub source_path: Seq<char>,
    pub destination_path: Seq<char>,
    pub destination_dir: Seq<char>,
    pub from_status: Status,
    pub to_status: Status,
    pub raw: Seq<char>,
}

impl View for MoveTarget {
    type V = TargetView;

    open spec fn view(&self) -> TargetView {
        TargetView {
            repo_root: self.repo_root@,
            source_path: self.source_path@,
            destination_path: self.destination_path@,
            destination_dir: self.destination_dir@,
            from_status: self.from_status,
            to_status: self.to_status,
            raw: self.raw@,
        }
    }
}

/// The checked move of the document named `doc_id` to the status named `to_raw`,
/// or the first reason to refuse it.
pub open spec fn move_target_of(
    root: Seq<char>,
    files: Seq<ScanView>,
    doc_id: Seq<char>,
    to_raw: Seq<char>,
) -> Result<TargetView, FailureView> {
    let idx = index_of(root, files);
    match compliance_error(idx) {
        Some(e) => Err(
            failure(
                Some(root),
                "repository document state is invalid: "@ + error_text(e),
                "Repair the reported repository violations and re-run specmate move."@,
            ),
        ),
        None => match doc_by_id(idx.documents, trim(doc_id), 0) {
            None => Err(
                failure(
                    Some(root),
                    "managed document "@ + trim(doc_id) + " does not exist"@,
                    "Use a canonical managed document id such as task-0001 or design-004."@,
                ),
            ),
            Some(d) => if d.doc_type == DocType::ProjectSpec || d.doc_type == DocType::OrgSpec
                || d.doc_type == DocType::Guideline {
                Err(
                    failure(
                        Some(d.path),
                        id_string(d.id) + " does not support status transitions"@,
                        "Choose a PRD, Design Doc, Design Patch, Exec Plan, or Task Spec."@,
                    ),
                )
            } else {
                match target_status_for(d.doc_type, trim(to_raw)) {
                    None => Err(
                        failure(
                            Some(d.path),
                            "status "@ + trim(to_raw) + " is not valid for "@ + doc_type_name(
                                d.doc_type,
                            ),
                            "Choose a target status from the lifecycle for this document type."@,
                        ),
                    ),
                    Some(to) => if d.status == to {
                        Err(
                            failure(
                                Some(d.path),
                                id_string(d.id) + " is already "@ + status_name(d.status),
                                "Choose a different target status."@,
                            ),
                        )
                    } else {
                        match transition_error(idx, d, to) {
                            Some(e) => Err(
                                failure(
                                    Some(d.path),
                                    error_text(e),
                                    "Fix the blocking transition rule or choose a different target status."@,
                                ),
                            ),
                            None => match preview_of(idx, d, to) {
                                Err(e) => Err(
                                    failure(
                                        Some(d.path),
                                        "failed to build post-move preview: "@ + error_text(e),
                                        "Repair the document state and re-run specmate move."@,
                                    ),
                                ),
                                Ok(p) => {
                                    let vs = index_violations(p);
                                    if vs.len() > 0 {
                                        Err(
                                            failure(
                                                Some(vs[0].path),
                                                "post-move repository would be invalid: "@
                                                    + vs[0].message,
                                                "Repair the blocking references or choose a different target status."@,
                                            ),
                                        )
                                    } else {
                                        match lookup(p.documents, d.id) {
                                            None => Err(
                                                failure(
                                                    Some(d.path),
                                                    "document "@ + id_string(d.id)
                                                        + " is missing from the post-move preview"@,
                                                    "Repair the repository state and re-run specmate move."@,
                                                ),
                                            ),
                                            Some(e) => match parent_dir(e.path) {
                                                None => Err(
                                                    failure(
                                                        Some(e.path),
                                                        "destination "@ + e.path
                                                            + " has no parent directory"@,
                                                        "Repair the repository layout and re-run specmate move."@,
                                                    ),
                                                ),
                                                Some(dir) => Ok(
                                                    TargetView {
                                                        repo_root: idx.repo_root,
                                                        source_path: d.path,
                                                        destination_path: e.path,
                                                        destination_dir: dir,
                                                        from_status: d.status,
                                                        to_status: to,
                                                        raw: d.raw,
                                                    },
                                                ),
                                            },
                                        }
                                    }
                                },
                            },
                        }
                    },
                }
            },
        },
    }
}

proof fn lemma_same_ids_same_position(a: Seq<DocumentView>, b: Seq<DocumentView>, id: SpecDocId)
    requires
        a.len() == b.len(),
        forall|j: int| 0 <= j < a.len() ==> (#[trigger] a[j]).id == b[j].id,
    ensures
        doc_position(a, id) == doc_position(b, id),
    decreases a.len(),
{
    if a.len() > 0 && a[0].id != id {
        assert forall|j: int| 0 <= j < a.drop_first().len() implies (#[trigger] a.drop_first()[j]).id
            == b.drop_first()[j].id by {
            assert(a.drop_first()[j] == a[j + 1] && b.drop_first()[j] == b[j + 1]);
        }
        lemma_same_ids_same_position(a.drop_first(), b.drop_first(), id);
    }
}

/// A move that gets planned starts from a compliant repository, follows an edge
/// of the document's lifecycle, and leads to a predicted repository that is
/// compliant too, in which the document has the new status and the planned
/// destination.
pub proof fn lemma_planned_move_keeps_repository_compliant(
    root: Seq<char>,
    files: Seq<ScanView>,
    doc_id: Seq<char>,
    to_raw: Seq<char>,
)
    requires
        move_target_of(root, files, doc_id, to_raw) is Ok,
    ensures
        ({
            let idx = index_of(root, files);
            let t = move_target_of(root, files, doc_id, to_raw)->Ok_0;
            let d = doc_by_id(idx.documents, trim(doc_id), 0)->0;
            let p = preview_of(idx, d, t.to_status)->Ok_0;
            &&& compliance_error(idx) is None
            &&& doc_by_id(idx.documents, trim(doc_id), 0) is Some
            &&& id_string(d.id) == trim(doc_id)
            &&& d.path == t.source_path
            &&& d.status == t.from_status
            &&& legal_transition(d.doc_type, t.from_status, t.to_status)
            &&& preview_of(idx, d, t.to_status) is Ok
            &&& compliance_error(p) is None
            &&& lookup(p.documents, d.id) matches Some(e) && e.status == t.to_status && e.path
                == t.destination_path
        }),
{
    let idx = index_of(root, files);
    let t = move_target_of(root, files, doc_id, to_raw)->Ok_0;
    lemma_doc_by_id_found(idx.documents, trim(doc_id), 0);
    let d = doc_by_id(idx.documents, trim(doc_id), 0)->0;
    let to = t.to_status;
    crate::doc::transition::lemma_accepted_transition_is_legal(idx, d, to);
    crate::doc::transition::lemma_preview_changes_only_the_moved_document(idx, d, to);
    let p = preview_of(idx, d, to)->Ok_0;
    assert(compliance_error(p) is None);
    lemma_doc_position(idx.documents, d.id);
    let i = doc_position(idx.documents, d.id)->0;
    assert forall|j: int| 0 <= j < p.documents.len() implies (#[trigger] p.documents[j]).id
        == idx.documents[j].id by {
        if j != i {
        }
    }
    lemma_same_ids_same_position(p.documents, idx.documents, d.id);
}

proof fn lemma_doc_by_id_found(docs: Seq<DocumentView>, id: Seq<char>, i: int)
    requires
        doc_by_id(docs, id, i) is Some,
    ensures
        id_string((doc_by_id(docs, id, i)->0).id) == id,
    decreases docs.len() - i,
{
    if 0 <= i < docs.len() && id_string(docs[i].id) != id {
        lemma_doc_by_id_found(docs, id, i + 1);
    }
}

fn fail_at(path: &str, message: String, fix: &str) -> (r: CommandFailure)
    ensures
        r@ == failure(Some(path@), message@, fix@),
{
    CommandFailure::new(Some(owned(path)), message, fix)
}

/// Checks the repository and the requested move, and works out where the document goes.
pub fn move_target(repo_root: String, files: Vec<ScannedFile>, args: &MoveArgs) -> (r: Result<
    MoveTarget,
    CommandFailure,
>)
    ensures
        match r {
            Ok(t) => move_target_of(repo_root@, scans_view(files@), args.doc_id@, args.to_status@)
                == Ok::<TargetView, FailureView>(t@),
            Err(f) => move_target_of(repo_root@, scans_view(files@), args.doc_id@, args.to_status@)
                == Err::<TargetView, FailureView>(f@),
        },
{
    let root = repo_root.clone();
    let index = match build_compliant_index(repo_root, files) {
        Ok(index) => index,
        Err(e) => {
            let m = e.message();
            return Err(
                fail_at(
                    root.as_str(),
                    concat2("repository document state is invalid: ", m.as_str()),
                    "Repair the reported repository violations and re-run specmate move.",
                ),
            );
        },
    };
    let document = match resolve_document(&index, args.doc_id.as_str()) {
        Some(d) => d,
        None => {
            let wanted = trim_str(args.doc_id.as_str());
            let mut m = concat3("managed document ", wanted.as_str(), " does not exist");
            return Err(
                fail_at(
                    root.as_str(),
                    m,
                    "Use a canonical managed document id such as task-0001 or design-004.",
                ),
            );
        },
    };
    let path = document.path.as_str();
    let id = document.id.as_string();
    let t = document.doc_type;
    if t == DocType::ProjectSpec || t == DocType::OrgSpec || t == DocType::Guideline {
        return Err(
            fail_at(
                path,
                concat2(id.as_str(), " does not support status transitions"),
                "Choose a PRD, Design Doc, Design Patch, Exec Plan, or Task Spec.",
            ),
        );
    }
    let to = match parse_target_status(t, args.to_status.as_str()) {
        Some(to) => to,
        None => {
            let wanted = trim_str(args.to_status.as_str());
            let mut m = concat3("status ", wanted.as_str(), " is not valid for ");
            append(&mut m, t.as_str());
            return Err(
                fail_at(path, m, "Choose a target status from the lifecycle for this document type."),
            );
        },
    };
    if document.status == to {
        return Err(
            fail_at(
                path,
                concat3(id.as_str(), " is already ", document.status.as_str()),
                "Choose a different target status.",
            ),
        );
    }
    match validate_transition(&index, document, to) {
        Ok(()) => {},
        Err(e) => {
            return Err(
                fail_at(
                    path,
                    e.message(),
                    "Fix the blocking transition rule or choose a different target status.",
                ),
            );
        },
    }
    let preview = match preview_transition(&index, document, to) {
        Ok(p) => p,
        Err(e) => {
            let m = e.message();
            return Err(
                fail_at(
                    path,
                    concat2("failed to build post-move preview: ", m.as_str()),
                    "Repair the document state and re-run specmate move.",
                ),
            );
        },
    };
    let violations = validate_preview(&preview);
    if violations.len() > 0 {
        let v = &violations[0];
        return Err(
            fail_at(
                v.path.as_str(),
                concat2("post-move repository would be invalid: ", v.message.as_str()),
                "Repair the blocking references or choose a different target status.",
            ),
        );
    }
    let destination = match preview.documents.get(&document.id) {
        Some(entry) => entry.path.clone(),
        None => {
            return Err(
                fail_at(
                    path,
                    concat3("document ", id.as_str(), " is missing from the post-move preview"),
                    "Repair the repository state and re-run specmate move.",
                ),
            );
        },
    };
    let dir = match parent_of(destination.as_str()) {
        Some(dir) => dir,
        None => {
            return Err(
                fail_at(
                    destination.as_str(),
                    concat3("destination ", destination.as_str(), " has no parent directory"),
                    "Repair the repository layout and re-run specmate move.",
                ),
            );
        },
    };
    Ok(
        MoveTarget {
            repo_root: index.repo_root.clone(),
            source_path: owned(path),
            destination_path: destination,
            destination_dir: dir,
            from_status: document.status,
            to_status: to,
            raw: document.raw.clone(),
        },
    )
}

/// The file changes of a move.
#[derive(Debug)]
pub struct MovePlan {
    pub repo_root: String,
    pub source_path: String,
    pub destination_path: String,
    pub from_status: Status,
    pub to_status: Status,
    pub updated_contents: String,
}

pub struct PlanView {
    pub repo_root: Seq<char>,
    pub source_path: Seq<char>,
    pub destination_path: Seq<char>,
    pub from_status: Status,
    pub to_status: Status,
    pub updated_contents: Seq<char>,
}

impl View for MovePlan {
    type V = PlanView;

    open spec fn view(&self) -> PlanView {
        PlanView {
            repo_root: self.repo_root@,
            source_path: self.source_path@,
            destination_path: self.destination_path@,
            from_status: self.from_status,
            to_status: self.to_status,
            updated_contents: self.updated_contents@,
        }
    }
}

/// The plan of a checked move, given whether its destination directory exists,
/// whether a file is already at its destination, and the date of today.
pub open spec fn move_plan_of(t: TargetView, dir_is_dir: bool, dest_exists: bool, today: Seq<char>) -> Result<
    PlanView,
    FailureView,
> {
    if !dir_is_dir {
        Err(
            failure(
                Some(t.destination_dir),
                "destination directory "@ + display_path(t.repo_root, t.destination_dir)
                    + " does not exist"@,
                "Create the managed destination directory or repair the repository layout."@,
            ),
        )
    } else if t.destination_path != t.source_path && dest_exists {
        Err(
            failure(
                Some(t.destination_path),
                "destination path "@ + display_path(t.repo_root, t.destination_path)
                    + " already exists"@,
                "Remove or rename the existing target file and re-run specmate move."@,
            ),
        )
    } else {
        match rewritten(t.raw, t.to_status, today) {
            Err(m) => Err(
                failure(
                    Some(t.source_path),
                    m,
                    "Repair the document frontmatter and re-run specmate move."@,
                ),
            ),
            Ok(text) => Ok(
                PlanView {
                    repo_root: t.repo_root,
                    source_path: t.source_path,
                    destination_path: t.destination_path,
                    from_status: t.from_status,
                    to_status: t.to_status,
                    updated_contents: text,
                },
            ),
        }
    }
}

/// Completes the plan of a checked move with what the filesystem holds at its destination.
pub fn plan_move(target: MoveTarget, dir_is_dir: bool, dest_exists: bool, today: &str) -> (r: Result<
    MovePlan,
    CommandFailure,
>)
    requires
        crate::doc::parse::is_date(today@),
    ensures
        match r {
            Ok(p) => move_plan_of(target@, dir_is_dir, dest_exists, today@) == Ok::<
                PlanView,
                FailureView,
            >(p@),
            Err(f) => move_plan_of(target@, dir_is_dir, dest_exists, today@) == Err::<
                PlanView,
                FailureView,
            >(f@),
        },
{
    let root = target.repo_root.as_str();
    if !dir_is_dir {
        let shown = display_path_str(root, target.destination_dir.as_str());
        return Err(
            fail_at(
                target.destination_dir.as_str(),
                concat3("destination directory ", shown.as_str(), " does not exist"),
                "Create the managed destination directory or repair the repository layout.",
            ),
        );
    }
    if !str_eq(target.destination_path.as_str(), target.source_path.as_str()) && dest_exists {
        let shown = display_path_str(root, target.destination_path.as_str());
        return Err(
            fail_at(
                target.destination_path.as_str(),
                concat3("destination path ", shown.as_str(), " already exists"),
                "Remove or rename the existing target file and re-run specmate move.",
            ),
        );
    }
    match rewrite_status(target.raw.as_str(), target.to_status, today) {
        Err(m) => Err(
            fail_at(
                target.source_path.as_str(),
                m,
                "Repair the document frontmatter and re-run specmate move.",
            ),
        ),
        Ok(text) => Ok(
            MovePlan {
                repo_root: target.repo_root.clone(),
                source_path: target.source_path.clone(),
                destination_path: target.destination_path.clone(),
                from_status: target.from_status,
                to_status: target.to_status,
                updated_contents: text,
            },
        ),
    }
}

/// The report of a planned or applied move.
pub open spec fn plan_text(p: PlanView, dry_run: bool) -> Seq<char> {
    (if dry_run {
        "Planned operations (no files will be written):\n"@
    } else {
        Seq::empty()
    }) + "  [user] UPDATE    "@ + display_path(p.repo_root, p.source_path) + "  (status: "@
        + status_name(p.from_status) + " -> "@ + status_name(p.to_status) + ")\n"@ + (
    if p.source_path != p.destination_path {
        "  [user] MOVE      "@ + display_path(p.repo_root, p.source_path) + " -> "@ + display_path(
            p.repo_root,
            p.destination_path,
        ) + "\n"@
    } else {
        Seq::empty()
    }) + if dry_run {
        "Run without --dry-run to apply.\n"@
    } else {
        Seq::empty()
    }
}

/// Renders the operations of a move.
pub fn render_plan(plan: &MovePlan, dry_run: bool) -> (r: String)
    ensures
        r@ == plan_text(plan@, dry_run),
{
    let root = plan.repo_root.as_str();
    let mut out = String::new();
    if dry_run {
        append(&mut out, "Planned operations (no files will be written):\n");
    }
    let source = display_path_str(root, plan.source_path.as_str());
    append(&mut out, "  [user] UPDATE    ");
    append(&mut out, source.as_str());
    append(&mut out, "  (status: ");
    append(&mut out, plan.from_status.as_str());
    append(&mut out, " -> ");
    append(&mut out, plan.to_status.as_str());
    append(&mut out, ")\n");
    if !str_eq(plan.source_path.as_str(), plan.destination_path.as_str()) {
        let destination = display_path_str(root, plan.destination_path.as_str());
        append(&mut out, "  [user] MOVE      ");
        append(&mut out, source.as_str());
        append(&mut out, " -> ");
        append(&mut out, destination.as_str());
        append(&mut out, "\n");
    }
    if dry_run {
        append(&mut out, "Run without --dry-run to apply.\n");
    }
    proof {
        reveal_strlit("");
    }
    assert(out@ =~= plan_text(plan@, dry_run));
    out
}

} // verus!
