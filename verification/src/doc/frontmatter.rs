//! The frontmatter block of a managed markdown document.
//!
//! The block is delimited by `---` lines; its YAML body is decoded by the caller
//! into a [`RawFrontmatter`], which [`frontmatter_from_raw`] turns into the typed
//! [`Frontmatter`] of the document model.
use crate::doc::types::{
    Boundaries, BoundariesView, CompletionCriterion, CriterionView, Frontmatter, FrontmatterView,
    clone_opt, criteria_view,
};
use crate::error::DocumentModelError;
use crate::text::{
    append, chars_of, owned, pieces_view, push_char, slice_prefix, split_char, split_str,
    str_eq, string_of, trim_end_char,
};
use vstd::prelude::*;

verus! {

/// The frontmatter fields as they are spelled in YAML, each optional.
#[derive(Debug, Default)]
pub struct RawFrontmatter {
    pub id: Option<String>,
    pub title: Option<String>,
    pub status: Option<String>,
    pub created: Option<String>,
    pub closed: Option<String>,
    pub module: Option<String>,
    pub prd: Option<String>,
    pub parent: Option<String>,
    /// `merged-into`
    pub merged_into: Option<String>,
    /// `superseded-by`
    pub superseded_by: Option<String>,
    /// `design-doc`
    pub design_doc: Option<String>,
    /// `design-docs`
    pub design_docs: Option<Vec<String>>,
    /// `exec-plan`
    pub exec_plan: Option<String>,
    pub guidelines: Option<Vec<String>>,
    pub boundaries: Option<RawBoundaries>,
    pub completion_criteria: Option<Vec<RawCompletionCriterion>>,
}

/// The `boundaries` section as spelled in YAML.
#[derive(Debug, Default)]
pub struct RawBoundaries {
    pub allowed: Option<Vec<String>>,
    pub forbidden_patterns: Option<Vec<String>>,
}

/// One `completion_criteria` entry as spelled in YAML.
#[derive(Debug, Default)]
pub struct RawCompletionCriterion {
    pub id: Option<String>,
    pub scenario: Option<String>,
    pub test: Option<String>,
}

pub open spec fn opt_list(v: Option<Vec<String>>) -> Option<Seq<Seq<char>>> {
    match v {
        Some(l) => Some(l.deep_view()),
        None => None,
    }
}

pub open spec fn list_or_empty(v: Option<Seq<Seq<char>>>) -> Seq<Seq<char>> {
    match v {
        Some(l) => l,
        None => Seq::empty(),
    }
}

pub open spec fn text_or_empty(v: Option<Seq<char>>) -> Seq<char> {
    match v {
        Some(t) => t,
        None => Seq::empty(),
    }
}

/// The criterion that a raw entry becomes: absent fields are empty.
pub open spec fn criterion_from_raw(c: RawCompletionCriterion) -> CriterionView {
    CriterionView {
        id: text_or_empty(c.id.deep_view()),
        scenario: text_or_empty(c.scenario.deep_view()),
        test: text_or_empty(c.test.deep_view()),
    }
}

/// The typed frontmatter of a raw one: absent lists are empty, absent boundary
/// lists are empty, absent criterion fields are empty.
pub open spec fn frontmatter_spec(raw: RawFrontmatter) -> FrontmatterView {
    FrontmatterView {
        id: raw.id.deep_view(),
        title: raw.title.deep_view(),
        status: raw.status.deep_view(),
        created: raw.created.deep_view(),
        closed: raw.closed.deep_view(),
        module: raw.module.deep_view(),
        prd: raw.prd.deep_view(),
        parent: raw.parent.deep_view(),
        merged_into: raw.merged_into.deep_view(),
        superseded_by: raw.superseded_by.deep_view(),
        design_doc: raw.design_doc.deep_view(),
        design_docs: list_or_empty(opt_list(raw.design_docs)),
        exec_plan: raw.exec_plan.deep_view(),
        guidelines: list_or_empty(opt_list(raw.guidelines)),
        boundaries: match raw.boundaries {
            Some(b) => Some(
                BoundariesView {
                    allowed: list_or_empty(opt_list(b.allowed)),
                    forbidden_patterns: list_or_empty(opt_list(b.forbidden_patterns)),
                },
            ),
            None => None,
        },
        completion_criteria: match raw.completion_criteria {
            Some(l) => l@.map_values(|c: RawCompletionCriterion| criterion_from_raw(c)),
            None => Seq::empty(),
        },
    }
}

fn list_or_default(v: Option<Vec<String>>) -> (r: Vec<String>)
    ensures
        r.deep_view() == list_or_empty(opt_list(v)),
{
    match v {
        Some(l) => l,
        None => {
            let r: Vec<String> = Vec::new();
            assert(r.deep_view() =~= Seq::<Seq<char>>::empty());
            r
        },
    }
}

fn text_or_default(v: Option<String>) -> (r: String)
    ensures
        r@ == text_or_empty(v.deep_view()),
{
    match v {
        Some(t) => t,
        None => String::new(),
    }
}

/// Turns the decoded YAML fields into the typed frontmatter of the document model.
pub fn frontmatter_from_raw(raw: RawFrontmatter) -> (r: Frontmatter)
    ensures
        r@ == frontmatter_spec(raw),
{
    let ghost spec = frontmatter_spec(raw);
    let boundaries = match raw.boundaries {
        Some(b) => Some(
            Boundaries {
                allowed: list_or_default(b.allowed),
                forbidden_patterns: list_or_default(b.forbidden_patterns),
            },
        ),
        None => None,
    };
    let mut criteria: Vec<CompletionCriterion> = Vec::new();
    match &raw.completion_criteria {
        Some(list) => {
            let mut i: usize = 0;
            while i < list.len()
                invariant
                    i <= list.len(),
                    criteria@.len() == i,
                    forall|j: int|
                        0 <= j < i ==> #[trigger] criteria@[j]@ == criterion_from_raw(list@[j]),
                decreases list.len() - i,
            {
                let c = &list[i];
                criteria.push(
                    CompletionCriterion {
                        id: text_or_default(clone_opt(&c.id)),
                        scenario: text_or_default(clone_opt(&c.scenario)),
                        test: text_or_default(clone_opt(&c.test)),
                    },
                );
                i = i + 1;
            }
            assert(criteria_view(criteria@) =~= list@.map_values(
                |c: RawCompletionCriterion| criterion_from_raw(c),
            ));
        },
        None => {
            assert(criteria_view(criteria@) =~= Seq::<CriterionView>::empty());
        },
    }
    let design_docs = list_or_default(raw.design_docs);
    let guidelines = list_or_default(raw.guidelines);
    let r = Frontmatter {
        id: raw.id,
        title: raw.title,
        status: raw.status,
        created: raw.created,
        closed: raw.closed,
        module: raw.module,
        prd: raw.prd,
        parent: raw.parent,
        merged_into: raw.merged_into,
        superseded_by: raw.superseded_by,
        design_doc: raw.design_doc,
        design_docs,
        exec_plan: raw.exec_plan,
        guidelines,
        boundaries,
        completion_criteria: criteria,
    };
    assert(r@ =~= spec);
    r
}


/// The lines of a document: split at `\n`, with trailing `\r`s removed.
pub open spec fn document_lines(raw: Seq<char>) -> Seq<Seq<char>> {
    split_char(raw, '\n').map_values(|l: Seq<char>| trim_end_char(l, '\r'))
}

/// Joins lines with `\n`, skipping the separator while nothing has been collected.
pub open spec fn collect_block(lines: Seq<Seq<char>>) -> Seq<char>
    decreases lines.len(),
{
    if lines.len() == 0 {
        Seq::empty()
    } else {
        let acc = collect_block(lines.drop_last());
        if acc.len() == 0 {
            lines.last()
        } else {
            acc + "\n"@ + lines.last()
        }
    }
}

/// `k` is the line that closes the frontmatter block opened on line 0.
pub open spec fn closes_block(lines: Seq<Seq<char>>, k: int) -> bool {
    &&& 1 <= k < lines.len()
    &&& lines[k] == "---"@
    &&& forall|j: int| 1 <= j < k ==> lines[j] != "---"@
}

/// The body of the leading `---` frontmatter block, if the document has a closed one.
pub open spec fn frontmatter_block(raw: Seq<char>) -> Option<Seq<char>> {
    let lines = document_lines(raw);
    if lines.len() == 0 || lines[0] != "---"@ {
        None
    } else if exists|k: int| closes_block(lines, k) {
        let k = choose|k: int| closes_block(lines, k);
        Some(collect_block(lines.subrange(1, k)))
    } else {
        None
    }
}

/// Removes every trailing `c`.
pub fn trim_end_char_str(s: &str, c: char) -> (r: String)
    ensures
        r@ == trim_end_char(s@, c),
{
    let x = chars_of(s);
    let mut n: usize = x.len();
    assert(x@.take(n as int) =~= x@);
    while n > 0 && x[n - 1] == c
        invariant
            n <= x.len(),
            trim_end_char(x@, c) == trim_end_char(x@.take(n as int), c),
        decreases n,
    {
        assert(x@.take(n as int).drop_last() =~= x@.take(n - 1));
        n = n - 1;
    }
    let head = slice_prefix(x.as_slice(), n);
    string_of(head.as_slice())
}

proof fn lemma_closes_unique(lines: Seq<Seq<char>>, a: int, b: int)
    requires
        closes_block(lines, a),
        closes_block(lines, b),
    ensures
        a == b,
{
    if a < b {
        assert(lines[a] != "---"@);
    } else if b < a {
        assert(lines[b] != "---"@);
    }
}

/// Extracts the body of the leading `---` frontmatter block of a markdown document.
pub fn extract_frontmatter_block(path: &str, raw: &str) -> (r: Result<String, DocumentModelError>)
    ensures
        match r {
            Ok(block) => frontmatter_block(raw@) == Some(block@),
            Err(e) => frontmatter_block(raw@) is None && e@ == (
            crate::error::ModelErrorView::MissingFrontmatter { path: path@ }),
        },
{
    let pieces = split_str(raw, '\n');
    let ghost lines = document_lines(raw@);
    let mut trimmed: Vec<String> = Vec::new();
    let mut i: usize = 0;
    while i < pieces.len()
        invariant
            i <= pieces.len(),
            pieces_view(pieces@) == split_char(raw@, '\n'),
            lines == document_lines(raw@),
            trimmed@.len() == i,
            forall|j: int| 0 <= j < i ==> #[trigger] trimmed@[j]@ == lines[j],
        decreases pieces.len() - i,
    {
        trimmed.push(trim_end_char_str(pieces[i].as_str(), '\r'));
        i = i + 1;
    }
    assert(lines.len() == trimmed@.len());
    if trimmed.len() == 0 || !str_eq(trimmed[0].as_str(), "---") {
        return Err(DocumentModelError::MissingFrontmatter { path: owned(path) });
    }
    let mut block = String::new();
    let mut k: usize = 1;
    while k < trimmed.len()
        invariant
            1 <= k <= trimmed.len(),
            lines.len() == trimmed@.len(),
            lines[0] == "---"@,
            lines == document_lines(raw@),
            forall|j: int| 0 <= j < trimmed@.len() ==> #[trigger] trimmed@[j]@ == lines[j],
            forall|j: int| 1 <= j < k ==> lines[j] != "---"@,
            block@ == collect_block(lines.subrange(1, k as int)),
        decreases trimmed.len() - k,
    {
        if str_eq(trimmed[k].as_str(), "---") {
            proof {
                assert(closes_block(lines, k as int));
                let c = choose|c: int| closes_block(lines, c);
                lemma_closes_unique(lines, c, k as int);

            }
            return Ok(block);
        }
        let ghost acc = block@;
        if !block.as_str().is_empty() {
            push_char(&mut block, '\n');
        }
        append(&mut block, trimmed[k].as_str());
        proof {
            let ls = lines.subrange(1, k + 1);
            assert(ls.drop_last() =~= lines.subrange(1, k as int));
            assert(ls.last() == lines[k as int]);
            if acc.len() != 0 {
                assert(acc.push('\n') =~= acc + "\n"@) by {
                    reveal_strlit("\n");
                }
            }
        }
        k = k + 1;
    }
    proof {
        assert forall|c: int| !closes_block(lines, c) by {
            if closes_block(lines, c) {
                assert(lines[c] != "---"@);
            }
        }
    }
    Err(DocumentModelError::MissingFrontmatter { path: owned(path) })
}

} // verus!
