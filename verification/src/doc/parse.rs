//! Lexical rules of the document model: slugs, sequence numbers, dates,
//! completion-criterion ids and reference ids.
use crate::doc::types::{id_string, DocId, SpecDocId};
use crate::text::{all_digits, join, lemma_decimal, lemma_split_join, lemma_two_digits, append, decimal, two_digits, chars_of, digit_value, digits_value, ends_with, is_digit, is_lower, owned, pieces_view, split_char, split_once, split_once_str, split_str, starts_with, str_eq, strip_prefix, strip_suffix, trim, trim_str, contains_seq, occurs_at};
use vstd::prelude::*;

verus! {

/// One `-`-separated part of a slug: a lowercase letter, then lowercase letters or digits.
pub open spec fn slug_part(p: Seq<char>) -> bool {
    &&& p.len() > 0
    &&& is_lower(p[0])
    &&& forall|i: int| 1 <= i < p.len() ==> is_lower(#[trigger] p[i]) || is_digit(p[i])
}

/// Lowercase kebab-case: every `-`-separated part is a [`slug_part`].
pub open spec fn is_slug(v: Seq<char>) -> bool {
    let parts = split_char(v, '-');
    parts.len() > 0 && forall|i: int| 0 <= i < parts.len() ==> slug_part(#[trigger] parts[i])
}

/// A character a slug may hold.
pub open spec fn slug_char(c: char) -> bool {
    is_lower(c) || is_digit(c) || c == '-'
}

/// A slug is made of slug characters; it starts with a lowercase letter and ends
/// with a lowercase letter or a digit.
pub proof fn lemma_slug_chars(s: Seq<char>)
    requires
        is_slug(s),
    ensures
        s.len() > 0,
        is_lower(s[0]),
        is_lower(s.last()) || is_digit(s.last()),
        forall|k: int| 0 <= k < s.len() ==> slug_char(#[trigger] s[k]),
    decreases s.len(),
{
    let parts = split_char(s, '-');
    crate::text::lemma_index_of_char(s, '-');
    assert(slug_part(parts[0]));
    match crate::text::index_of_char(s, '-') {
        None => {
            assert(parts[0] == s);
        },
        Some(i) => {
            let head = s.take(i);
            let rest = s.skip(i + 1);
            assert(parts[0] == head);
            let rest_parts = split_char(rest, '-');
            crate::text::lemma_split_char_nonempty(rest, '-');
            assert forall|k: int| 0 <= k < rest_parts.len() implies slug_part(
                #[trigger] rest_parts[k],
            ) by {
                assert(rest_parts[k] == parts[k + 1]);
            }
            lemma_slug_chars(rest);
            assert(s.last() == rest.last());
            assert forall|k: int| 0 <= k < s.len() implies slug_char(#[trigger] s[k]) by {
                if k < i {
                    assert(s[k] == head[k]);
                } else if k > i {
                    assert(s[k] == rest[k - i - 1]);
                }
            }
        },
    }
}

fn valid_part(p: &str) -> (r: bool)
    ensures
        r == slug_part(p@),
{
    let x = chars_of(p);
    if x.len() == 0 {
        return false;
    }
    if !('a' <= x[0] && x[0] <= 'z') {
        return false;
    }
    let mut i: usize = 1;
    while i < x.len()
        invariant
            1 <= i <= x.len(),
            x@ == p@,
            forall|j: int| 1 <= j < i ==> is_lower(#[trigger] x@[j]) || is_digit(x@[j]),
        decreases x.len() - i,
    {
        let c = x[i];
        if !(('a' <= c && c <= 'z') || ('0' <= c && c <= '9')) {
            return false;
        }
        i = i + 1;
    }
    true
}

/// Whether `value` is a valid slug.
pub fn valid_slug(value: &str) -> (r: bool)
    ensures
        r == is_slug(value@),
{
    let parts = split_str(value, '-');
    let ghost ps = split_char(value@, '-');
    if parts.len() == 0 {
        return false;
    }
    let mut i: usize = 0;
    while i < parts.len()
        invariant
            i <= parts.len(),
            pieces_view(parts@) == ps,
            ps == split_char(value@, '-'),
            forall|j: int| 0 <= j < i ==> slug_part(#[trigger] ps[j]),
        decreases parts.len() - i,
    {
        if !valid_part(parts[i].as_str()) {
            assert(!slug_part(ps[i as int]));
            return false;
        }
        i = i + 1;
    }
    true
}

/// A positive decimal sequence number written with at least two digits that fits in `u32`.
pub open spec fn local_sequence(v: Seq<char>) -> Option<u32> {
    if v.len() >= 2 && all_digits(v) && digits_value(v) <= u32::MAX && digits_value(v) > 0 {
        Some(digits_value(v) as u32)
    } else {
        None
    }
}

proof fn lemma_digits_value_prefix(s: Seq<char>, i: int)
    requires
        0 <= i <= s.len(),
    ensures
        digits_value(s.take(i)) <= digits_value(s),
    decreases s.len() - i,
{
    if i < s.len() {
        lemma_digits_value_prefix(s, i + 1);
        assert(s.take(i + 1).drop_last() =~= s.take(i));
    } else {
        assert(s.take(i) =~= s);
    }
}

/// The value of a run of decimal digits, when it fits in `u32`.
pub fn parse_digits_u32(x: &[char]) -> (r: Option<u32>)
    requires
        all_digits(x@),
    ensures
        match r {
            Some(n) => digits_value(x@) <= u32::MAX && n == digits_value(x@),
            None => digits_value(x@) > u32::MAX,
        },
{
    let mut value: u64 = 0;
    let mut i: usize = 0;
    while i < x.len()
        invariant
            i <= x.len(),
            all_digits(x@),
            value == digits_value(x@.take(i as int)),
            value <= u32::MAX,
        decreases x.len() - i,
    {
        let d = (x[i] as u32 - '0' as u32) as u64;
        assert(x@.take(i + 1).drop_last() =~= x@.take(i as int));
        assert(digit_value(x@[i as int]) == d);
        let next = value * 10 + d;
        if next > 0xFFFF_FFFF {
            proof {
                lemma_digits_value_prefix(x@, i + 1);
            }
            return None;
        }
        value = next;
        i = i + 1;
    }
    assert(x@.take(x@.len() as int) =~= x@);
    Some(value as u32)
}

fn all_digits_exec(x: &[char]) -> (r: bool)
    ensures
        r == all_digits(x@),
{
    let mut i: usize = 0;
    while i < x.len()
        invariant
            i <= x.len(),
            forall|j: int| 0 <= j < i ==> is_digit(#[trigger] x@[j]),
        decreases x.len() - i,
    {
        if !('0' <= x[i] && x[i] <= '9') {
            return false;
        }
        i = i + 1;
    }
    true
}

/// Parses a positive local sequence number such as `01`.
pub fn parse_local_sequence(value: &str) -> (r: Option<u32>)
    ensures
        r == local_sequence(value@),
{
    let x = chars_of(value);
    if x.len() < 2 || !all_digits_exec(x.as_slice()) {
        return None;
    }
    match parse_digits_u32(x.as_slice()) {
        Some(n) => if n > 0 {
            Some(n)
        } else {
            None
        },
        None => None,
    }
}

/// `cc-NNN` after trimming whitespace.
pub open spec fn is_criterion_id(v: Seq<char>) -> bool {
    let parts = split_char(trim(v), '-');
    &&& parts.len() == 2
    &&& parts[0] == "cc"@
    &&& parts[1].len() == 3
    &&& all_digits(parts[1])
}

/// Whether `value` uses the `cc-NNN` completion-criterion id format.
pub fn is_completion_criterion_id(value: &str) -> (r: bool)
    ensures
        r == is_criterion_id(value@),
{
    let t = trim_str(value);
    let parts = split_str(t.as_str(), '-');
    if parts.len() != 2 {
        return false;
    }
    if !str_eq(parts[0].as_str(), "cc") {
        return false;
    }
    let digits = chars_of(parts[1].as_str());
    digits.len() == 3 && all_digits_exec(digits.as_slice())
}

/// Whether `year` is a leap year of the Gregorian calendar.
pub open spec fn leap_year(year: nat) -> bool {
    (year % 4 == 0 && year % 100 != 0) || year % 400 == 0
}

pub fn is_leap_year(year: u32) -> (r: bool)
    ensures
        r == leap_year(year as nat),
{
    (year % 4 == 0 && year % 100 != 0) || year % 400 == 0
}

/// The number of days in `month` of `year`.
pub open spec fn days_in_month(month: nat, year: nat) -> nat {
    if month == 1 || month == 3 || month == 5 || month == 7 || month == 8 || month == 10
        || month == 12 {
        31
    } else if month == 4 || month == 6 || month == 9 || month == 11 {
        30
    } else if leap_year(year) {
        29
    } else {
        28
    }
}

/// A calendar date in `YYYY-MM-DD` form.
pub open spec fn is_date(v: Seq<char>) -> bool {
    let parts = split_char(v, '-');
    &&& parts.len() == 3
    &&& parts[0].len() == 4
    &&& parts[1].len() == 2
    &&& parts[2].len() == 2
    &&& all_digits(parts[0])
    &&& all_digits(parts[1])
    &&& all_digits(parts[2])
    &&& 1 <= digits_value(parts[1]) <= 12
    &&& 1 <= digits_value(parts[2]) <= days_in_month(
        digits_value(parts[1]),
        digits_value(parts[0]),
    )
}

pub open spec fn pow10(n: nat) -> nat
    decreases n,
{
    if n == 0 {
        1
    } else {
        10 * pow10((n - 1) as nat)
    }
}

proof fn lemma_digits_bound(s: Seq<char>)
    requires
        all_digits(s),
    ensures
        digits_value(s) < pow10(s.len()),
    decreases s.len(),
{
    if s.len() > 0 {
        let t = s.drop_last();
        assert(all_digits(t)) by {
            assert forall|i: int| 0 <= i < t.len() implies is_digit(t[i]) by {
                assert(t[i] == s[i]);
            }
        }
        lemma_digits_bound(t);
        let d = digit_value(s.last());
        assert(is_digit(s[s.len() - 1]));
        assert(d <= 9);
        let p = pow10(t.len());
        let v = digits_value(t);
        assert(v * 10 + d < 10 * p) by (nonlinear_arith)
            requires
                v < p,
                d <= 9,
        ;
    }
}

/// Whether `value` is a valid `YYYY-MM-DD` date.
pub fn valid_date(value: &str) -> (r: bool)
    ensures
        r == is_date(value@),
{
    let parts = split_str(value, '-');
    let ghost ps = split_char(value@, '-');
    assert(pieces_view(parts@) == ps);
    if parts.len() != 3 {
        return false;
    }
    let y = chars_of(parts[0].as_str());
    let m = chars_of(parts[1].as_str());
    let d = chars_of(parts[2].as_str());
    assert(y@ == ps[0] && m@ == ps[1] && d@ == ps[2]);
    if y.len() != 4 || m.len() != 2 || d.len() != 2 {
        return false;
    }
    if !all_digits_exec(y.as_slice()) || !all_digits_exec(m.as_slice()) || !all_digits_exec(
        d.as_slice(),
    ) {
        return false;
    }
    proof {
        lemma_digits_bound(y@);
        lemma_digits_bound(m@);
        lemma_digits_bound(d@);
        assert(pow10(0) == 1);
        assert(pow10(1) == 10);
        assert(pow10(2) == 100);
        assert(pow10(3) == 1000);
        assert(pow10(4) == 10000);
    }
    let year = match parse_digits_u32(y.as_slice()) {
        Some(v) => v,
        None => return false,
    };
    let month = match parse_digits_u32(m.as_slice()) {
        Some(v) => v,
        None => return false,
    };
    let day = match parse_digits_u32(d.as_slice()) {
        Some(v) => v,
        None => return false,
    };
    if !(1 <= month && month <= 12) || day == 0 {
        return false;
    }
    let days: u32 = if month == 1 || month == 3 || month == 5 || month == 7 || month == 8 || month
        == 10 || month == 12 {
        31
    } else if month == 4 || month == 6 || month == 9 || month == 11 {
        30
    } else if is_leap_year(year) {
        29
    } else {
        28
    };
    day <= days
}

/// The id that a reference string names, following the canonical id grammar.
pub open spec fn reference_id(raw: Seq<char>) -> Option<SpecDocId> {
    let r = trim(raw);
    if r == "project"@ {
        Some(SpecDocId::ProjectSpec)
    } else if r == "org"@ {
        Some(SpecDocId::OrgSpec)
    } else if starts_with(r, "exec-"@) && split_once(r.skip(5), "/task-"@) is Some {
        let (exec_slug, task_part) = split_once(r.skip(5), "/task-"@).unwrap();
        match local_sequence(task_part) {
            Some(sequence) => Some(SpecDocId::TaskSpec { exec_slug, sequence }),
            None => None,
        }
    } else if starts_with(r, "exec-"@) && is_slug(r.skip(5)) {
        Some(SpecDocId::ExecPlan(r.skip(5)))
    } else if starts_with(r, "prd-"@) {
        if is_slug(r.skip(4)) {
            Some(SpecDocId::Prd(r.skip(4)))
        } else {
            None
        }
    } else if starts_with(r, "design-"@) {
        let rem = r.skip(7);
        match split_once(rem, "-patch-"@) {
            Some((parent_slug, rest)) => match split_once(rest, "-"@) {
                Some((sequence_raw, patch_slug)) => match local_sequence(sequence_raw) {
                    Some(sequence) => if is_slug(parent_slug) && is_slug(patch_slug) {
                        Some(SpecDocId::DesignPatch { parent_slug, sequence, patch_slug })
                    } else {
                        None
                    },
                    None => None,
                },
                None => None,
            },
            None => if is_slug(rem) {
                Some(SpecDocId::DesignDoc(rem))
            } else {
                None
            },
        }
    } else if starts_with(r, "task-"@) {
        match local_sequence(r.skip(5)) {
            Some(sequence) => Some(SpecDocId::TaskSpec { exec_slug: Seq::empty(), sequence }),
            None => None,
        }
    } else {
        None
    }
}

/// An id whose canonical text reads back as itself: slugs are slugs, a Design
/// Doc slug never spells `-patch-`, a Design Patch parent neither spells
/// `-patch-` nor ends in `-patch`, an Exec Plan slug of a Task Spec holds no
/// `/`, sequence numbers are positive, and the id is not a Guideline's.
pub open spec fn readable_id(id: SpecDocId) -> bool {
    match id {
        SpecDocId::Prd(s) => is_slug(s),
        SpecDocId::DesignDoc(s) => is_slug(s) && !contains_seq(s, "-patch-"@),
        SpecDocId::DesignPatch { parent_slug, sequence, patch_slug } => is_slug(parent_slug)
            && is_slug(patch_slug) && !contains_seq(parent_slug, "-patch-"@) && !ends_with(
            parent_slug,
            "-patch"@,
        ) && sequence > 0,
        SpecDocId::ExecPlan(s) => is_slug(s),
        SpecDocId::TaskSpec { exec_slug, sequence } => !exec_slug.contains('/') && sequence > 0,
        SpecDocId::ProjectSpec => true,
        SpecDocId::OrgSpec => true,
        SpecDocId::Guideline(_) => false,
    }
}

proof fn lemma_local_sequence_of(n: u32)
    requires
        n > 0,
    ensures
        local_sequence(two_digits(n as nat)) == Some(n),
        forall|k: int| 0 <= k < two_digits(n as nat).len() ==> is_digit(#[trigger] two_digits(n as nat)[k]),
        two_digits(n as nat).len() >= 2,
{
    crate::text::lemma_two_digits(n as nat);
}

proof fn lemma_plain_reference(r: Seq<char>)
    requires
        r.len() > 0,
        r[0] == 'p' || r[0] == 'd' || r[0] == 'e',
        is_lower(r.last()) || is_digit(r.last()),
    ensures
        trim(r) == r,
{
    crate::text::lemma_trim_noop(r);
}

proof fn lemma_prd_reads_back(s: Seq<char>)
    requires
        is_slug(s),
    ensures
        reference_id("prd-"@ + s) == Some(SpecDocId::Prd(s)),
{
    reveal_strlit("prd-");
    reveal_strlit("project");
    reveal_strlit("org");
    reveal_strlit("exec-");
    let r = "prd-"@ + s;
    lemma_slug_chars(s);
    assert(r.last() == s.last());
    lemma_plain_reference(r);
    assert(r[2] != "project"@[2]);
    assert(r[0] != "org"@[0]);
    assert(r.take(5)[0] != "exec-"@[0]);
    assert(r.take(4) =~= "prd-"@);
    assert(r.skip(4) =~= s);
}

proof fn lemma_design_reads_back(s: Seq<char>)
    requires
        is_slug(s),
        !contains_seq(s, "-patch-"@),
    ensures
        reference_id("design-"@ + s) == Some(SpecDocId::DesignDoc(s)),
{
    reveal_strlit("design-");
    reveal_strlit("project");
    reveal_strlit("org");
    reveal_strlit("exec-");
    reveal_strlit("prd-");
    let r = "design-"@ + s;
    lemma_slug_chars(s);
    assert(r.last() == s.last());
    lemma_plain_reference(r);
    assert(r[0] != "project"@[0]);
    assert(r[0] != "org"@[0]);
    assert(r.take(5)[0] != "exec-"@[0]);
    assert(r.take(4)[0] != "prd-"@[0]);
    assert(r.take(7) =~= "design-"@);
    assert(r.skip(7) =~= s);
    crate::text::lemma_find_from_nowhere(s, "-patch-"@, 0);
}

proof fn lemma_patch_reads_back(p: Seq<char>, n: u32, q: Seq<char>)
    requires
        is_slug(p),
        is_slug(q),
        !contains_seq(p, "-patch-"@),
        !ends_with(p, "-patch"@),
        n > 0,
    ensures
        reference_id("design-"@ + p + "-patch-"@ + two_digits(n as nat) + "-"@ + q) == Some(
            SpecDocId::DesignPatch { parent_slug: p, sequence: n, patch_slug: q },
        ),
{
    reveal_strlit("design-");
    reveal_strlit("project");
    reveal_strlit("org");
    reveal_strlit("exec-");
    reveal_strlit("prd-");
    reveal_strlit("-patch-");
    reveal_strlit("-patch");
    reveal_strlit("-");
    let big = "-patch-"@;
    let d = two_digits(n as nat);
    let r = "design-"@ + p + big + d + "-"@ + q;
    lemma_slug_chars(q);
    lemma_local_sequence_of(n);
    assert(r.last() == q.last());
    lemma_plain_reference(r);
    assert(r[0] != "project"@[0]);
    assert(r[0] != "org"@[0]);
    assert(r.take(5)[0] != "exec-"@[0]);
    assert(r.take(4)[0] != "prd-"@[0]);
    assert(r.take(7) =~= "design-"@);
    let rem = r.skip(7);
    assert(rem =~= p + big + d + "-"@ + q);
    let m = p.len() as int;
    assert(rem.subrange(m, m + 7) =~= big);
    assert forall|j: int| 0 <= j < m implies !occurs_at(rem, big, j) by {
        if occurs_at(rem, big, j) {
            if j + 7 <= m {
                assert(p.subrange(j, j + 7) =~= rem.subrange(j, j + 7));
                assert(occurs_at(p, big, j));
            } else {
                let l = m - j;
                assert(rem[m] == '-');
                assert(rem.subrange(j, j + 7)[l] == rem[m]);
                assert(big[l] == '-');
                assert(l == 6);
                assert(p.skip(p.len() - 6) =~= rem.subrange(j, m));
                assert(rem.subrange(j, m) =~= big.take(6));
                assert(big.take(6) =~= "-patch"@);
            }
        }
    }
    crate::text::lemma_find_from_at(rem, big, 0, m);
    let tail = rem.skip(m + 7);
    assert(rem.take(m) =~= p);
    assert(tail =~= d + "-"@ + q);
    let dl = d.len() as int;
    assert(tail.subrange(dl, dl + 1) =~= "-"@);
    assert forall|j: int| 0 <= j < dl implies !occurs_at(tail, "-"@, j) by {
        assert(tail[j] == d[j]);
        assert(is_digit(d[j]));
        if occurs_at(tail, "-"@, j) {
            assert(tail.subrange(j, j + 1)[0] == tail[j]);
            assert("-"@[0] == '-');
        }
    }
    crate::text::lemma_find_from_at(tail, "-"@, 0, dl);
    assert(tail.take(dl) =~= d);
    assert(tail.skip(dl + 1) =~= q);
}

proof fn lemma_exec_reads_back(s: Seq<char>)
    requires
        is_slug(s),
    ensures
        reference_id("exec-"@ + s) == Some(SpecDocId::ExecPlan(s)),
{
    reveal_strlit("project");
    reveal_strlit("org");
    reveal_strlit("exec-");
    reveal_strlit("/task-");
    let r = "exec-"@ + s;
    lemma_slug_chars(s);
    assert(r.last() == s.last());
    lemma_plain_reference(r);
    assert(r[0] != "project"@[0]);
    assert(r[0] != "org"@[0]);
    assert(r.take(5) =~= "exec-"@);
    assert(r.skip(5) =~= s);
    assert forall|j: int| 0 <= j implies !occurs_at(s, "/task-"@, j) by {
        if occurs_at(s, "/task-"@, j) {
            assert(s.subrange(j, j + 6)[0] == '/');
            assert(slug_char(s[j]));
        }
    }
    crate::text::lemma_find_from_nowhere(s, "/task-"@, 0);
}

proof fn lemma_task_reads_back(e: Seq<char>, n: u32)
    requires
        !e.contains('/'),
        n > 0,
    ensures
        reference_id("exec-"@ + e + "/task-"@ + two_digits(n as nat)) == Some(
            SpecDocId::TaskSpec { exec_slug: e, sequence: n },
        ),
{
    reveal_strlit("project");
    reveal_strlit("org");
    reveal_strlit("exec-");
    reveal_strlit("/task-");
    let d = two_digits(n as nat);
    let r = "exec-"@ + e + "/task-"@ + d;
    lemma_local_sequence_of(n);
    assert(r.last() == d.last());
    lemma_plain_reference(r);
    assert(r[0] != "project"@[0]);
    assert(r[0] != "org"@[0]);
    assert(r.take(5) =~= "exec-"@);
    let x = r.skip(5);
    assert(x =~= e + "/task-"@ + d);
    let m = e.len() as int;
    assert(x.subrange(m, m + 6) =~= "/task-"@);
    assert forall|j: int| 0 <= j < m implies !occurs_at(x, "/task-"@, j) by {
        if occurs_at(x, "/task-"@, j) {
            assert(x.subrange(j, j + 6)[0] == '/');
            assert(x[j] == e[j]);
            assert(e.contains('/'));
        }
    }
    crate::text::lemma_find_from_at(x, "/task-"@, 0, m);
    assert(x.take(m) =~= e);
    assert(x.skip(m + 6) =~= d);
}

/// The canonical text of every readable id parses back as that id.
pub proof fn lemma_canonical_id_reads_back(id: SpecDocId)
    requires
        readable_id(id),
    ensures
        reference_id(id_string(id)) == Some(id),
{
    match id {
        SpecDocId::Prd(s) => lemma_prd_reads_back(s),
        SpecDocId::DesignDoc(s) => lemma_design_reads_back(s),
        SpecDocId::DesignPatch { parent_slug, sequence, patch_slug } => lemma_patch_reads_back(
            parent_slug,
            sequence,
            patch_slug,
        ),
        SpecDocId::ExecPlan(s) => lemma_exec_reads_back(s),
        SpecDocId::TaskSpec { exec_slug, sequence } => lemma_task_reads_back(exec_slug, sequence),
        SpecDocId::ProjectSpec => {
            reveal_strlit("project");
            crate::text::lemma_trim_noop("project"@);
        },
        SpecDocId::OrgSpec => {
            reveal_strlit("org");
            reveal_strlit("project");
            crate::text::lemma_trim_noop("org"@);
        },
        SpecDocId::Guideline(_) => {},
    }
}

/// The canonical text of every readable id, with whitespace before and after
/// it, parses back as that id.
pub proof fn lemma_padded_id_reads_back(id: SpecDocId, before: Seq<char>, after: Seq<char>)
    requires
        readable_id(id),
        crate::text::all_ws(before),
        crate::text::all_ws(after),
    ensures
        reference_id(before + id_string(id) + after) == Some(id),
{
    lemma_canonical_id_reads_back(id);
    crate::text::lemma_trim_padded(before, id_string(id), after);
}

/// Parses a reference such as `prd-auth`, `design-auth-patch-01-fix` or `exec-auth/task-01`.
pub fn parse_reference_id(raw: &str) -> (r: Option<DocId>)
    ensures
        match r {
            Some(id) => reference_id(raw@) == Some(id@),
            None => reference_id(raw@) is None,
        },
{
    let r = trim_str(raw);
    proof {
        reveal_strlit("exec-");
        reveal_strlit("prd-");
        reveal_strlit("design-");
        reveal_strlit("task-");
    }
    if str_eq(r.as_str(), "project") {
        return Some(DocId::ProjectSpec);
    }
    if str_eq(r.as_str(), "org") {
        return Some(DocId::OrgSpec);
    }
    if let Some(exec_part) = strip_prefix(r.as_str(), "exec-") {
        if let Some((exec_slug, task_part)) = split_once_str(exec_part.as_str(), "/task-") {
            return match parse_local_sequence(task_part.as_str()) {
                Some(sequence) => Some(DocId::TaskSpec { exec_slug, sequence }),
                None => None,
            };
        }
        if valid_slug(exec_part.as_str()) {
            return Some(DocId::ExecPlan(exec_part));
        }
    }
    if let Some(prd_slug) = strip_prefix(r.as_str(), "prd-") {
        return if valid_slug(prd_slug.as_str()) {
            Some(DocId::Prd(prd_slug))
        } else {
            None
        };
    }
    if let Some(rem) = strip_prefix(r.as_str(), "design-") {
        if let Some((parent_slug, rest)) = split_once_str(rem.as_str(), "-patch-") {
            let (sequence_raw, patch_slug) = match split_once_str(rest.as_str(), "-") {
                Some(pair) => pair,
                None => return None,
            };
            let sequence = match parse_local_sequence(sequence_raw.as_str()) {
                Some(n) => n,
                None => return None,
            };
            if valid_slug(parent_slug.as_str()) && valid_slug(patch_slug.as_str()) {
                return Some(DocId::DesignPatch { parent_slug, sequence, patch_slug });
            }
            return None;
        }
        return if valid_slug(rem.as_str()) {
            Some(DocId::DesignDoc(rem))
        } else {
            None
        };
    }
    if let Some(task_rem) = strip_prefix(r.as_str(), "task-") {
        return match parse_local_sequence(task_rem.as_str()) {
            Some(sequence) => Some(DocId::TaskSpec { exec_slug: String::new(), sequence }),
            None => None,
        };
    }
    None
}

/// Removes every leading occurrence of `p` (non-empty).
pub open spec fn trim_start_seq(s: Seq<char>, p: Seq<char>) -> Seq<char>
    decreases s.len(),
{
    if p.len() > 0 && starts_with(s, p) {
        trim_start_seq(s.skip(p.len() as int), p)
    } else {
        s
    }
}

/// Removes every trailing occurrence of `p` (non-empty).
pub open spec fn trim_end_seq(s: Seq<char>, p: Seq<char>) -> Seq<char>
    decreases s.len(),
{
    if p.len() > 0 && ends_with(s, p) {
        trim_end_seq(s.take(s.len() - p.len()), p)
    } else {
        s
    }
}

/// `str::trim_start_matches` with a string pattern.
pub fn trim_start_matches(s: &str, p: &str) -> (r: String)
    ensures
        r@ == trim_start_seq(s@, p@),
{
    let mut cur = owned(s);
    let n = chars_of(p).len();
    if n == 0 {
        return cur;
    }
    loop
        invariant
            trim_start_seq(s@, p@) == trim_start_seq(cur@, p@),
            p@.len() == n,
            n > 0,
        decreases cur@.len(),
    {
        match strip_prefix(cur.as_str(), p) {
            Some(rest) => {
                cur = rest;
            },
            None => {
                return cur;
            },
        }
    }
}

/// `str::trim_end_matches` with a string pattern.
pub fn trim_end_matches(s: &str, p: &str) -> (r: String)
    ensures
        r@ == trim_end_seq(s@, p@),
{
    let mut cur = owned(s);
    let n = chars_of(p).len();
    if n == 0 {
        return cur;
    }
    loop
        invariant
            trim_end_seq(s@, p@) == trim_end_seq(cur@, p@),
            p@.len() == n,
            n > 0,
        decreases cur@.len(),
    {
        match strip_suffix(cur.as_str(), p) {
            Some(rest) => {
                cur = rest;
            },
            None => {
                return cur;
            },
        }
    }
}

/// The guideline id that a `docs/guidelines/<id>.md` path names.
pub open spec fn guideline_reference(raw: Seq<char>) -> Option<Seq<char>> {
    let r = trim_start_seq(trim(raw), "./"@);
    if starts_with(r, "docs/guidelines/"@) {
        let rel = r.skip(16);
        if ends_with(rel, ".md"@) {
            let stem = rel.take(rel.len() - 3);
            if stem.len() == 0 {
                None
            } else {
                Some(stem)
            }
        } else {
            None
        }
    } else {
        None
    }
}

/// Resolves a guideline path such as `docs/guidelines/error-handling.md`.
pub fn parse_guideline_reference(raw: &str) -> (r: Option<String>)
    ensures
        match r {
            Some(id) => guideline_reference(raw@) == Some(id@),
            None => guideline_reference(raw@) is None,
        },
{
    proof {
        reveal_strlit("docs/guidelines/");
        reveal_strlit(".md");
    }
    let t = trim_str(raw);
    let r = trim_start_matches(t.as_str(), "./");
    let rel = match strip_prefix(r.as_str(), "docs/guidelines/") {
        Some(x) => x,
        None => return None,
    };
    let stem = match strip_suffix(rel.as_str(), ".md") {
        Some(x) => x,
        None => return None,
    };
    if stem.as_str().is_empty() {
        return None;
    }
    Some(stem)
}

/// The number of days of `year`.
pub open spec fn year_days(year: nat) -> nat {
    if leap_year(year) {
        366
    } else {
        365
    }
}

/// The number of days from 1970-01-01 to the first of January of `year`.
pub open spec fn days_to_year(year: nat) -> nat
    decreases year,
{
    if year <= 1970 {
        0
    } else {
        days_to_year((year - 1) as nat) + year_days((year - 1) as nat)
    }
}

/// The number of days from the first of January to the first day of `month`.
pub open spec fn days_to_month(month: nat, year: nat) -> nat
    decreases month,
{
    if month <= 1 {
        0
    } else {
        days_to_month((month - 1) as nat, year) + days_in_month((month - 1) as nat, year)
    }
}

/// The number of days from 1970-01-01 to a date.
pub open spec fn epoch_day(year: nat, month: nat, day: nat) -> int {
    days_to_year(year) + days_to_month(month, year) + day - 1
}

/// The `YYYY-MM-DD` spelling of a date.
pub open spec fn date_text(year: nat, month: nat, day: nat) -> Seq<char> {
    decimal(year) + "-"@ + two_digits(month) + "-"@ + two_digits(day)
}

proof fn lemma_months_fill_year(year: nat)
    ensures
        days_to_month(12, year) + days_in_month(12, year) == year_days(year),
{
    reveal_with_fuel(days_to_month, 13);
}

fn year_length(year: u64) -> (r: u64)
    ensures
        r == year_days(year as nat),
{
    if (year % 4 == 0 && year % 100 != 0) || year % 400 == 0 {
        366
    } else {
        365
    }
}

fn month_length(month: u64, year: u64) -> (r: u64)
    ensures
        r == days_in_month(month as nat, year as nat),
{
    if month == 1 || month == 3 || month == 5 || month == 7 || month == 8 || month == 10
        || month == 12 {
        31
    } else if month == 4 || month == 6 || month == 9 || month == 11 {
        30
    } else if (year % 4 == 0 && year % 100 != 0) || year % 400 == 0 {
        29
    } else {
        28
    }
}

/// The calendar date (year, month, day) that lies `days` days after 1970-01-01.
pub fn civil_from_days(days: u32) -> (r: (u64, u64, u64))
    ensures
        1970 <= r.0,
        1 <= r.1 <= 12,
        1 <= r.2 <= days_in_month(r.1 as nat, r.0 as nat),
        epoch_day(r.0 as nat, r.1 as nat, r.2 as nat) == days,
        (r.0 - 1970) * 365 <= days,
{
    let mut year: u64 = 1970;
    let mut rem: u64 = days as u64;
    while rem >= year_length(year)
        invariant
            1970 <= year,
            (year - 1970) * 365 + rem <= days,
            days == days_to_year(year as nat) + rem,
        decreases rem,
    {
        rem = rem - year_length(year);
        year = year + 1;
    }
    let mut month: u64 = 1;
    proof {
        lemma_months_fill_year(year as nat);
    }
    while rem >= month_length(month, year)
        invariant
            1 <= month <= 12,
            days == days_to_year(year as nat) + days_to_month(month as nat, year as nat) + rem,
            rem + days_to_month(month as nat, year as nat) < year_days(year as nat),
            days_to_month(12, year as nat) + days_in_month(12, year as nat) == year_days(
                year as nat,
            ),
        decreases rem,
    {
        rem = rem - month_length(month, year);
        month = month + 1;
    }
    (year, month, rem + 1)
}

/// Spells a date as `YYYY-MM-DD`.
pub fn format_date(year: u64, month: u32, day: u32) -> (r: String)
    ensures
        r@ == date_text(year as nat, month as nat, day as nat),
{
    let mut out = crate::doc::types::decimal_string(year);
    append(&mut out, "-");
    let m = crate::doc::types::render_local_sequence(month);
    append(&mut out, m.as_str());
    append(&mut out, "-");
    let d = crate::doc::types::render_local_sequence(day);
    append(&mut out, d.as_str());
    out
}

/// A four-digit year, a month and a day of that month spell a valid date.
pub proof fn lemma_date_text_is_date(year: nat, month: nat, day: nat)
    requires
        1000 <= year <= 9999,
        1 <= month <= 12,
        1 <= day <= days_in_month(month, year),
    ensures
        is_date(date_text(year, month, day)),
{
    let y = decimal(year);
    let m = two_digits(month);
    let d = two_digits(day);
    assert(decimal(year / 10 / 10 / 10).len() == 1);
    assert(decimal(year / 10 / 10).len() == 2);
    assert(decimal(year / 10).len() == 3);
    assert(y.len() == 4);
    lemma_decimal(year);
    lemma_two_digits(month);
    lemma_two_digits(day);
    if month >= 10 {
        assert(decimal(month / 10).len() == 1);
    }
    assert(m.len() == 2);
    assert(days_in_month(month, year) <= 31);
    if day >= 10 {
        assert(decimal(day / 10).len() == 1);
    }
    assert(d.len() == 2);
    assert(!y.contains('-')) by {
        if y.contains('-') {
            let i = choose|i: int| 0 <= i < y.len() && y[i] == '-';
            assert(is_digit(y[i]));
        }
    }
    assert(!m.contains('-')) by {
        if m.contains('-') {
            let i = choose|i: int| 0 <= i < m.len() && m[i] == '-';
            assert(is_digit(m[i]));
        }
    }
    assert(!d.contains('-')) by {
        if d.contains('-') {
            let i = choose|i: int| 0 <= i < d.len() && d[i] == '-';
            assert(is_digit(d[i]));
        }
    }
    let ls = seq![y, m, d];
    assert forall|k: int| 0 <= k < ls.len() implies !(#[trigger] ls[k]).contains('-') by {}
    lemma_split_join(ls, '-');
    assert(ls.drop_last() =~= seq![y, m]);
    assert(seq![y, m].drop_last() =~= seq![y]);
    assert(join(seq![y], seq!['-']) == y);
    assert(join(seq![y, m], seq!['-']) == y + seq!['-'] + m);
    assert(join(ls, seq!['-']) == y + seq!['-'] + m + seq!['-'] + d);
    reveal_strlit("-");
    assert(join(ls, seq!['-']) =~= date_text(year, month, day));
}

/// The `YYYY-MM-DD` date that lies `days` days after 1970-01-01.
pub fn date_from_epoch_days(days: u32) -> (r: String)
    ensures
        days <= 2_930_000 ==> is_date(r@),
        exists|year: nat, month: nat, day: nat|
            1 <= month <= 12 && 1 <= day <= days_in_month(month, year) && epoch_day(
                year,
                month,
                day,
            ) == days && r@ == date_text(year, month, day),
{
    let (year, month, day) = civil_from_days(days);
    proof {
        if days <= 2_930_000 {
            lemma_date_text_is_date(year as nat, month as nat, day as nat);
        }
    }
    let text = format_date(year, month as u32, day as u32);
    assert(date_text(year as nat, month as nat, day as nat) == text@);
    text
}

} // verus!
