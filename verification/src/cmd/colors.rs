//! Color never changes what `specmate status` says: removing the color
//! sequences `ESC [ <digits> m` from a colored view gives the uncolored view.
use crate::cmd::status::{
    association_name, block_of, count_docs, count_tasks, dashboard, design_bucket, design_line,
    design_section, exec_line, exec_overview, exec_plans_part, exec_section, health_section,
    assoc_lines, assoc_part, concerns, detail, has_refs, insert_by_id, lines_of, listed,
    listing_line, listing_section, overview_head, overview_part, overview_tail, painted,
    painted_status, ref_row, ref_rows, refs_part, related_items, sorted_by_id, status_code,
    status_view_of, task_line, task_specs_part, title_of, totals_cells, totals_line,
    totals_section, warning_lines, warnings_part, with_types_status,
};
use crate::check::relative_to;
use crate::cmd::move_::doc_by_id;
use crate::doc::association::{related_upto, summaries_of};
use crate::doc::index::{index_of, ScanView};
use crate::doc::validate::index_violations;
use crate::doc::lifecycle::{expected_dir, live, terminal};
use crate::text::{all_digits, decimal, is_digit, join};
use crate::doc::types::{
    doc_type_name, id_string, seq_lt, status_name, AssociatedView, AssociationKind, DocType,
    DocumentView, IndexView, Status, SummaryView, ViolationView,
};
use vstd::prelude::*;

verus! {

/// The length of a run of digits closed by `m` at the start of `t`, counting the `m`.
pub open spec fn digits_m(t: Seq<char>) -> Option<nat>
    decreases t.len(),
{
    if t.len() == 0 {
        None
    } else if t[0] == 'm' {
        Some(1)
    } else if is_digit(t[0]) {
        match digits_m(t.drop_first()) {
            Some(n) => Some(n + 1),
            None => None,
        }
    } else {
        None
    }
}

/// The length of the color sequence `ESC [ <digits> m` that `s` starts with, if any.
pub open spec fn code_len(s: Seq<char>) -> Option<nat> {
    if s.len() >= 3 && s[0] == '\u{1b}' && s[1] == '[' && is_digit(s[2]) {
        match digits_m(s.skip(2)) {
            Some(n) => Some(n + 2),
            None => None,
        }
    } else {
        None
    }
}

pub proof fn lemma_digits_m_bounds(t: Seq<char>)
    ensures
        digits_m(t) matches Some(n) ==> 1 <= n <= t.len(),
    decreases t.len(),
{
    if t.len() > 0 && t[0] != 'm' && is_digit(t[0]) {
        lemma_digits_m_bounds(t.drop_first());
    }
}

pub proof fn lemma_code_len_bounds(s: Seq<char>)
    ensures
        code_len(s) matches Some(n) ==> 3 <= n <= s.len(),
{
    if s.len() >= 3 {
        lemma_digits_m_bounds(s.skip(2));
    }
}

/// `s` with every color sequence `ESC [ <digits> m` removed, read from the left.
pub open spec fn strip_ansi(s: Seq<char>) -> Seq<char>
    decreases s.len(),
{
    if s.len() == 0 {
        Seq::empty()
    } else {
        proof {
            lemma_code_len_bounds(s);
        }
        match code_len(s) {
            Some(n) => strip_ansi(s.skip(n as int)),
            None => seq![s[0]] + strip_ansi(s.drop_first()),
        }
    }
}

/// A text without its color sequences.
pub open spec fn uncolored(s: Seq<char>) -> Seq<char> {
    strip_ansi(s)
}

/// Whether `t` is the beginning of a color sequence that it does not finish:
/// `ESC`, `ESC [` or `ESC [` followed by digits.
pub open spec fn partial_code(t: Seq<char>) -> bool {
    &&& t.len() >= 1
    &&& t[0] == '\u{1b}'
    &&& (t.len() == 1 || (t[1] == '[' && all_digits(t.skip(2))))
}

/// Whether `s` ends partway into a color sequence.
pub open spec fn open_tail(s: Seq<char>) -> bool {
    exists|i: int| 0 <= i < s.len() && partial_code(#[trigger] s.skip(i))
}

/// Whether a color sequence occurs in `s`.
pub open spec fn has_code(s: Seq<char>) -> bool {
    exists|i: int| 0 <= i < s.len() && #[trigger] code_len(s.skip(i)) is Some
}

/// A text that holds no color sequence and does not end partway into one.
pub open spec fn plain(s: Seq<char>) -> bool {
    !has_code(s) && !open_tail(s)
}

/// A run of digits, as a color sequence carries.
pub open spec fn color_code(c: Seq<char>) -> bool {
    c.len() >= 1 && all_digits(c)
}

/// `x` reads as `y` once its color sequences are removed, and does not end
/// partway into one.
pub open spec fn shows_as(x: Seq<char>, y: Seq<char>) -> bool {
    strip_ansi(x) == y && !open_tail(x)
}

proof fn lemma_digits_m_cat(t: Seq<char>, u: Seq<char>)
    ensures
        digits_m(t) matches Some(n) ==> digits_m(t + u) == Some(n),
        digits_m(t + u) matches Some(n) ==> (n <= t.len() ==> digits_m(t) == Some(n)) && (n
            > t.len() ==> all_digits(t)),
    decreases t.len(),
{
    let s = t + u;
    if t.len() > 0 {
        assert(s[0] == t[0]);
        assert(s.drop_first() =~= t.drop_first() + u);
        lemma_digits_m_cat(t.drop_first(), u);
        if is_digit(t[0]) && t[0] != 'm' {
            assert forall|k: int| 0 <= k < t.len() && all_digits(t.drop_first()) implies is_digit(
                #[trigger] t[k],
            ) by {
                if k > 0 {
                    assert(t[k] == t.drop_first()[k - 1]);
                }
            }
        }
    } else {
        assert(s =~= u);
    }
}

proof fn lemma_code_cat(a: Seq<char>, b: Seq<char>)
    ensures
        code_len(a) matches Some(n) ==> code_len(a + b) == Some(n),
        code_len(a + b) matches Some(n) ==> (n <= a.len() ==> code_len(a) == Some(n)) && (n
            > a.len() && a.len() > 0 ==> partial_code(a)),
{
    let s = a + b;
    lemma_code_len_bounds(s);
    lemma_code_len_bounds(a);
    if a.len() >= 3 {
        assert(s.skip(2) =~= a.skip(2) + b);
        assert(s[0] == a[0] && s[1] == a[1] && s[2] == a[2]);
        lemma_digits_m_cat(a.skip(2), b);
    } else if a.len() > 0 && code_len(s) is Some {
        assert(s[0] == a[0]);
        if a.len() == 2 {
            assert(s[1] == a[1]);
            assert(a.skip(2).len() == 0);
        }
    }
}

proof fn lemma_open_tail_skip(a: Seq<char>, k: int)
    requires
        !open_tail(a),
        0 <= k <= a.len(),
    ensures
        !open_tail(a.skip(k)),
{
    if open_tail(a.skip(k)) {
        let i = choose|i: int| 0 <= i < a.skip(k).len() && partial_code(#[trigger] a.skip(k).skip(i));
        assert(a.skip(k).skip(i) =~= a.skip(k + i));
    }
}

proof fn lemma_has_code_skip(a: Seq<char>, k: int)
    requires
        !has_code(a),
        0 <= k <= a.len(),
    ensures
        !has_code(a.skip(k)),
{
    if has_code(a.skip(k)) {
        let i = choose|i: int| 0 <= i < a.skip(k).len() && #[trigger] code_len(a.skip(k).skip(i)) is Some;
        assert(a.skip(k).skip(i) =~= a.skip(k + i));
    }
}

/// Removing the color sequences of two texts, the first of which does not end
/// partway into one, is removing them from each.
proof fn lemma_strip_cat(a: Seq<char>, b: Seq<char>)
    requires
        !open_tail(a),
    ensures
        strip_ansi(a + b) == strip_ansi(a) + strip_ansi(b),
    decreases a.len(),
{
    let s = a + b;
    if a.len() == 0 {
        assert(s =~= b);
    } else {
        assert(a.skip(0) =~= a);
        lemma_code_cat(a, b);
        lemma_code_len_bounds(a);
        match code_len(s) {
            Some(n) => {
                assert(n <= a.len());
                lemma_open_tail_skip(a, n as int);
                assert(s.skip(n as int) =~= a.skip(n as int) + b);
                lemma_strip_cat(a.skip(n as int), b);
            },
            None => {
                assert(code_len(a) is None);
                assert(s[0] == a[0]);
                lemma_open_tail_skip(a, 1);
                assert(a.skip(1) =~= a.drop_first());
                assert(s.drop_first() =~= a.drop_first() + b);
                lemma_strip_cat(a.drop_first(), b);
                assert(seq![a[0]] + (strip_ansi(a.drop_first()) + strip_ansi(b)) =~= (seq![a[0]]
                    + strip_ansi(a.drop_first())) + strip_ansi(b));
            },
        }
    }
}

proof fn lemma_partial_prefix(p: Seq<char>, q: Seq<char>)
    requires
        p.len() >= 1,
        partial_code(p + q),
    ensures
        partial_code(p),
{
    let t = p + q;
    assert(p[0] == t[0]);
    if p.len() >= 2 {
        assert(p[1] == t[1]);
        assert forall|k: int| 0 <= k < p.skip(2).len() implies is_digit(#[trigger] p.skip(2)[k]) by {
            assert(p.skip(2)[k] == t.skip(2)[k]);
        }
    }
}

/// Texts that do not end partway into a color sequence, put together, do not either.
proof fn lemma_open_tail_cat(a: Seq<char>, b: Seq<char>)
    requires
        !open_tail(a),
        !open_tail(b),
    ensures
        !open_tail(a + b),
{
    let s = a + b;
    if open_tail(s) {
        let i = choose|i: int| 0 <= i < s.len() && partial_code(#[trigger] s.skip(i));
        if i >= a.len() {
            assert(s.skip(i) =~= b.skip(i - a.len()));
        } else {
            assert(s.skip(i) =~= a.skip(i) + b);
            lemma_partial_prefix(a.skip(i), b);
        }
    }
}

/// A text that holds no color sequence reads as itself.
pub proof fn lemma_strip_plain(t: Seq<char>)
    requires
        !has_code(t),
    ensures
        strip_ansi(t) == t,
    decreases t.len(),
{
    if t.len() > 0 {
        assert(t.skip(0) =~= t);
        lemma_has_code_skip(t, 1);
        assert(t.skip(1) =~= t.drop_first());
        lemma_strip_plain(t.drop_first());
        assert(t =~= seq![t[0]] + t.drop_first());
    }
}

/// A text that holds no color sequence and does not end partway into one reads as itself.
pub proof fn lemma_shows_plain(t: Seq<char>)
    requires
        plain(t),
    ensures
        shows_as(t, t),
{
    lemma_strip_plain(t);
}

/// A text without escape characters holds no color sequence and does not end
/// partway into one.
pub proof fn lemma_no_escape_plain(s: Seq<char>)
    requires
        !s.contains('\u{1b}'),
    ensures
        plain(s),
{
    if has_code(s) {
        let i = choose|i: int| 0 <= i < s.len() && #[trigger] code_len(s.skip(i)) is Some;
        assert(s[i] == s.skip(i)[0]);
    }
    if open_tail(s) {
        let i = choose|i: int| 0 <= i < s.len() && partial_code(#[trigger] s.skip(i));
        assert(s[i] == s.skip(i)[0]);
    }
}

/// Pieces that read as texts, put together, read as the texts put together.
pub proof fn lemma_shows_cat(x1: Seq<char>, y1: Seq<char>, x2: Seq<char>, y2: Seq<char>)
    requires
        shows_as(x1, y1),
        shows_as(x2, y2),
    ensures
        shows_as(x1 + x2, y1 + y2),
{
    lemma_strip_cat(x1, x2);
    lemma_open_tail_cat(x1, x2);
}

proof fn lemma_digits_m_code(code: Seq<char>)
    requires
        all_digits(code),
    ensures
        digits_m(code + "m"@) == Some(code.len() + 1),
    decreases code.len(),
{
    reveal_strlit("m");
    let t = code + "m"@;
    if code.len() == 0 {
        assert(t =~= seq!['m']);
    } else {
        assert(t[0] == code[0]);
        assert(is_digit(code[0]));
        assert(t.drop_first() =~= code.drop_first() + "m"@);
        assert(all_digits(code.drop_first())) by {
            assert forall|k: int| 0 <= k < code.drop_first().len() implies is_digit(
                #[trigger] code.drop_first()[k],
            ) by {
                assert(code.drop_first()[k] == code[k + 1]);
            }
        }
        lemma_digits_m_code(code.drop_first());
    }
}

proof fn lemma_shows_sequence(code: Seq<char>)
    requires
        color_code(code),
    ensures
        shows_as("\u{1b}["@ + code + "m"@, Seq::empty()),
{
    reveal_strlit("\u{1b}[");
    reveal_strlit("m");
    let s = "\u{1b}["@ + code + "m"@;
    assert(s[0] == '\u{1b}' && s[1] == '[' && s[2] == code[0]);
    assert(s.skip(2) =~= code + "m"@);
    lemma_digits_m_code(code);
    assert(code_len(s) == Some(s.len()));
    assert(s.skip(s.len() as int) =~= Seq::<char>::empty());
    assert(strip_ansi(s) == strip_ansi(s.skip(s.len() as int)));
    if open_tail(s) {
        let i = choose|i: int| 0 <= i < s.len() && partial_code(#[trigger] s.skip(i));
        assert(s.skip(i)[0] == s[i]);
        if i == 0 {
            assert(s.skip(2)[s.skip(2).len() - 1] == 'm');
            assert(s.skip(0) =~= s);
        } else if i == 1 {
        } else if i < s.len() - 1 {
            assert(s[i] == code[i - 2]);
        } else {
            assert(s[i] == 'm');
        }
    }
}

/// A painted text reads as the text, colored or not.
pub proof fn lemma_shows_painted(on: bool, code: Seq<char>, text: Seq<char>)
    requires
        plain(text),
        color_code(code),
    ensures
        shows_as(painted(on, code, text), text),
{
    lemma_shows_plain(text);
    if on {
        reveal_strlit("\u{1b}[0m");
        reveal_strlit("\u{1b}[");
        reveal_strlit("m");
        reveal_strlit("0");
        lemma_shows_sequence(code);
        assert("0"@ =~= seq!['0']);
        assert(color_code("0"@));
        lemma_shows_sequence("0"@);
        assert("\u{1b}["@ + "0"@ + "m"@ =~= "\u{1b}[0m"@);
        let open = "\u{1b}["@ + code + "m"@;
        lemma_shows_cat(open, Seq::empty(), text, text);
        lemma_shows_cat(open + text, Seq::<char>::empty() + text, "\u{1b}[0m"@, Seq::empty());
        assert(Seq::<char>::empty() + text + Seq::<char>::empty() =~= text);
    }
}

/// A text that holds no color sequence (it may end partway into one).
pub open spec fn clean(s: Seq<char>) -> bool {
    !has_code(s)
}

/// Whether `w` starts with a character that cannot continue a color sequence.
pub open spec fn safe_head(w: Seq<char>) -> bool {
    w.len() > 0 && w[0] != '[' && w[0] != 'm' && !is_digit(w[0])
}

proof fn lemma_digits_m_chars(t: Seq<char>)
    ensures
        digits_m(t) matches Some(n) ==> forall|k: int| 0 <= k < n ==> (#[trigger] t[k] == 'm'
            || is_digit(t[k])),
    decreases t.len(),
{
    lemma_digits_m_bounds(t);
    if t.len() > 0 && t[0] != 'm' && is_digit(t[0]) {
        lemma_digits_m_chars(t.drop_first());
        lemma_digits_m_bounds(t.drop_first());
        if digits_m(t) is Some {
            assert forall|k: int| 0 <= k < digits_m(t)->0 implies (#[trigger] t[k] == 'm' || is_digit(
                t[k],
            )) by {
                if k > 0 {
                    assert(t[k] == t.drop_first()[k - 1]);
                }
            }
        }
    }
}

/// Inside a color sequence, every character after the escape is `[`, a digit or `m`.
proof fn lemma_code_chars(s: Seq<char>)
    ensures
        code_len(s) matches Some(n) ==> forall|k: int| 1 <= k < n ==> (#[trigger] s[k] == '['
            || s[k] == 'm' || is_digit(s[k])),
{
    lemma_code_len_bounds(s);
    if code_len(s) is Some {
        lemma_digits_m_chars(s.skip(2));
        lemma_digits_m_bounds(s.skip(2));
        assert forall|k: int| 1 <= k < code_len(s)->0 implies (#[trigger] s[k] == '[' || s[k] == 'm'
            || is_digit(s[k])) by {
            if k >= 2 {
                assert(s[k] == s.skip(2)[k - 2]);
            }
        }
    }
}

/// No color sequence runs across the start of a text with a safe head.
proof fn lemma_strip_cat_safe(a: Seq<char>, b: Seq<char>)
    requires
        safe_head(b),
    ensures
        strip_ansi(a + b) == strip_ansi(a) + strip_ansi(b),
    decreases a.len(),
{
    let s = a + b;
    if a.len() == 0 {
        assert(s =~= b);
    } else {
        lemma_code_cat(a, b);
        lemma_code_chars(s);
        lemma_code_len_bounds(s);
        match code_len(s) {
            Some(n) => {
                if n > a.len() {
                    assert(s[a.len() as int] == b[0]);
                }
                assert(s.skip(n as int) =~= a.skip(n as int) + b);
                lemma_strip_cat_safe(a.skip(n as int), b);
            },
            None => {
                assert(code_len(a) is None);
                assert(s[0] == a[0]);
                assert(s.drop_first() =~= a.drop_first() + b);
                lemma_strip_cat_safe(a.drop_first(), b);
                assert(seq![a[0]] + (strip_ansi(a.drop_first()) + strip_ansi(b)) =~= (seq![a[0]]
                    + strip_ansi(a.drop_first())) + strip_ansi(b));
            },
        }
    }
}

/// A text with a safe head that does not end partway into a color sequence
/// closes whatever comes before it.
proof fn lemma_tail_safe(a: Seq<char>, w: Seq<char>)
    requires
        safe_head(w),
        !open_tail(w),
    ensures
        !open_tail(a + w),
{
    let s = a + w;
    if open_tail(s) {
        let i = choose|i: int| 0 <= i < s.len() && partial_code(#[trigger] s.skip(i));
        if i >= a.len() {
            assert(s.skip(i) =~= w.skip(i - a.len()));
        } else {
            let k = a.len() - i;
            assert(s.skip(i)[k] == w[0]);
            if k >= 2 {
                assert(s.skip(i).skip(2)[k - 2] == w[0]);
            }
        }
    }
}

/// Clean texts joined at a safe head make a clean text.
proof fn lemma_clean_safe(a: Seq<char>, w: Seq<char>)
    requires
        clean(a),
        clean(w),
        safe_head(w),
    ensures
        clean(a + w),
{
    let s = a + w;
    if has_code(s) {
        let i = choose|i: int| 0 <= i < s.len() && #[trigger] code_len(s.skip(i)) is Some;
        if i >= a.len() {
            assert(s.skip(i) =~= w.skip(i - a.len()));
        } else {
            assert(s.skip(i) =~= a.skip(i) + w);
            lemma_code_cat(a.skip(i), w);
            lemma_code_chars(s.skip(i));
            let k = a.len() - i;
            assert(s.skip(i)[k] == w[0]);
        }
    }
}

/// Clean texts joined after a text that does not end partway into a color
/// sequence make a clean text.
proof fn lemma_clean_closed(a: Seq<char>, w: Seq<char>)
    requires
        clean(a),
        clean(w),
        !open_tail(a),
    ensures
        clean(a + w),
{
    let s = a + w;
    if has_code(s) {
        let i = choose|i: int| 0 <= i < s.len() && #[trigger] code_len(s.skip(i)) is Some;
        if i >= a.len() {
            assert(s.skip(i) =~= w.skip(i - a.len()));
        } else {
            assert(s.skip(i) =~= a.skip(i) + w);
            lemma_code_cat(a.skip(i), w);
            lemma_code_len_bounds(s.skip(i));
        }
    }
}

/// A clean text followed by a plain text with a safe head makes a plain text.
pub proof fn lemma_clean_then(t: Seq<char>, w: Seq<char>)
    requires
        clean(t),
        plain(w),
        safe_head(w),
    ensures
        plain(t + w),
{
    lemma_clean_safe(t, w);
    lemma_tail_safe(t, w);
}

/// A plain text followed by a clean text makes a clean text.
pub proof fn lemma_plain_then_clean(p: Seq<char>, t: Seq<char>)
    requires
        plain(p),
        clean(t),
    ensures
        clean(p + t),
{
    lemma_clean_closed(p, t);
}

/// Clean texts joined by a plain separator with a safe head make a clean text.
pub proof fn lemma_clean_join(xs: Seq<Seq<char>>, sep: Seq<char>)
    requires
        plain(sep),
        safe_head(sep),
        forall|k: int| 0 <= k < xs.len() ==> clean(#[trigger] xs[k]),
    ensures
        clean(join(xs, sep)),
    decreases xs.len(),
{
    if xs.len() == 0 {
        lemma_no_escape_plain(Seq::empty());
    } else if xs.len() == 1 {
        assert(clean(xs[0]));
    } else {
        let init = xs.drop_last();
        assert forall|k: int| 0 <= k < init.len() implies clean(#[trigger] init[k]) by {
            assert(init[k] == xs[k]);
        }
        lemma_clean_join(init, sep);
        lemma_clean_then(join(init, sep), sep);
        assert(clean(xs[xs.len() - 1]));
        lemma_clean_closed(join(init, sep) + sep, xs.last());
    }
}

/// A painted clean text followed by a plain text with a safe head reads as the
/// text followed by it, colored or not.
pub proof fn lemma_shows_painted_then(on: bool, code: Seq<char>, t: Seq<char>, w: Seq<char>)
    requires
        clean(t),
        color_code(code),
        plain(w),
        safe_head(w),
    ensures
        shows_as(painted(on, code, t) + w, t + w),
{
    lemma_clean_then(t, w);
    if on {
        reveal_strlit("\u{1b}[0m");
        reveal_strlit("\u{1b}[");
        reveal_strlit("m");
        reveal_strlit("0");
        let open = "\u{1b}["@ + code + "m"@;
        let reset = "\u{1b}[0m"@;
        lemma_shows_sequence(code);
        assert("0"@ =~= seq!['0']);
        assert(color_code("0"@));
        lemma_shows_sequence("0"@);
        assert("\u{1b}["@ + "0"@ + "m"@ =~= reset);
        lemma_shows_plain(w);
        lemma_shows_cat(reset, Seq::empty(), w, w);
        let rw = reset + w;
        assert(Seq::<char>::empty() + w =~= w);
        assert(safe_head(rw)) by {
            assert(rw[0] == '\u{1b}');
        }
        lemma_strip_cat_safe(t, rw);
        lemma_strip_plain(t);
        lemma_tail_safe(t, rw);
        lemma_shows_cat(open, Seq::empty(), t + rw, t + w);
        assert(painted(on, code, t) + w =~= open + (t + rw));
        assert(Seq::<char>::empty() + (t + w) =~= t + w);
    } else {
        lemma_shows_plain(t + w);
    }
}

/// The separators that follow a shown text have safe heads.
proof fn lemma_safe_heads()
    ensures
        safe_head("  "@),
        safe_head("\n"@),
        safe_head(": "@),
        safe_head(" ("@),
        safe_head(", "@),
        safe_head("  design-docs: "@),
        safe_head("  tasks: draft="@),
{
    reveal_strlit("  ");
    reveal_strlit("\n");
    reveal_strlit(": ");
    reveal_strlit(" (");
    reveal_strlit(", ");
    reveal_strlit("  design-docs: ");
    reveal_strlit("  tasks: draft=");
}

/// A piece that reads as a text, followed by a clean text and a plain text with
/// a safe head, reads as the text followed by both.
proof fn lemma_shows_then_clean(x: Seq<char>, y: Seq<char>, t: Seq<char>, w: Seq<char>)
    requires
        shows_as(x, y),
        clean(t),
        plain(w),
        safe_head(w),
    ensures
        shows_as(x + t + w, y + t + w),
{
    lemma_clean_then(t, w);
    lemma_shows_then(x, y, t + w);
    assert(x + (t + w) =~= x + t + w);
    assert(y + (t + w) =~= y + t + w);
}

/// A piece that reads as a text, followed by a painted clean text and a plain
/// text with a safe head, reads as the text followed by the clean text and it.
proof fn lemma_shows_painted_after(
    x: Seq<char>,
    y: Seq<char>,
    on: bool,
    code: Seq<char>,
    t: Seq<char>,
    w: Seq<char>,
)
    requires
        shows_as(x, y),
        clean(t),
        color_code(code),
        plain(w),
        safe_head(w),
    ensures
        shows_as(x + painted(on, code, t) + w, y + t + w),
{
    lemma_shows_painted_then(on, code, t, w);
    lemma_shows_cat(x, y, painted(on, code, t) + w, t + w);
    assert(x + (painted(on, code, t) + w) =~= x + painted(on, code, t) + w);
    assert(y + (t + w) =~= y + t + w);
}

/// A painted status reads as its name.
pub proof fn lemma_shows_status(on: bool, s: Status)
    ensures
        shows_as(painted_status(on, s), status_name(s)),
        plain(status_name(s)),
{
    reveal_strlit("draft");
    reveal_strlit("approved");
    reveal_strlit("candidate");
    reveal_strlit("implemented");
    reveal_strlit("closed");
    reveal_strlit("obsolete");
    reveal_strlit("obsolete:merged");
    reveal_strlit("active");
    reveal_strlit("32");
    reveal_strlit("33");
    reveal_strlit("36");
    reveal_strlit("90");
    reveal_strlit("35");
    let n = status_name(s);
    let c = status_code(s);
    assert forall|k: int| 0 <= k < n.len() implies n[k] != '\u{1b}' by {}
    assert forall|k: int| 0 <= k < c.len() implies c[k] != 'm' by {}
    lemma_shows_painted(on, c, n);
}

/// Texts that hold no color sequence and do not end partway into one, put
/// together, hold none and do not either.
pub proof fn lemma_plain_cat(a: Seq<char>, b: Seq<char>)
    requires
        plain(a),
        plain(b),
    ensures
        plain(a + b),
{
    lemma_open_tail_cat(a, b);
    let s = a + b;
    if has_code(s) {
        let i = choose|i: int| 0 <= i < s.len() && #[trigger] code_len(s.skip(i)) is Some;
        if i >= a.len() {
            assert(s.skip(i) =~= b.skip(i - a.len()));
        } else {
            assert(s.skip(i) =~= a.skip(i) + b);
            lemma_code_cat(a.skip(i), b);
            lemma_code_len_bounds(s.skip(i));
        }
    }
}

/// Plain texts joined by a plain separator make a plain text.
pub proof fn lemma_plain_join(xs: Seq<Seq<char>>, sep: Seq<char>)
    requires
        plain(sep),
        forall|k: int| 0 <= k < xs.len() ==> plain(#[trigger] xs[k]),
    ensures
        plain(join(xs, sep)),
    decreases xs.len(),
{
    if xs.len() == 0 {
        lemma_no_escape_plain(Seq::empty());
    } else if xs.len() > 1 {
        let init = xs.drop_last();
        assert forall|k: int| 0 <= k < init.len() implies plain(#[trigger] init[k]) by {
            assert(init[k] == xs[k]);
        }
        lemma_plain_join(init, sep);
        lemma_plain_cat(join(init, sep), sep);
        lemma_plain_cat(join(init, sep) + sep, xs.last());
    }
}

/// Digits make a plain text.
pub proof fn lemma_plain_decimal(n: nat)
    ensures
        plain(decimal(n)),
{
    crate::text::lemma_decimal(n);
    let d = decimal(n);
    if d.contains('\u{1b}') {
        let k = choose|k: int| 0 <= k < d.len() && d[k] == '\u{1b}';
        assert(crate::text::is_digit(d[k]));
    }
    lemma_no_escape_plain(d);
}

/// The fixed words of the dashboard are plain.
pub proof fn lemma_dashboard_words_plain()
    ensures
        plain("    "@),
        plain("  "@),
        plain("\n"@),
        plain("    none\n"@),
        plain(" exec plans\n"@),
        plain(" task specs\n"@),
        plain("  design-docs: "@),
        plain("none"@),
        plain(", "@),
        plain("  tasks: draft="@),
        plain(" candidate="@),
        plain(" closed="@),
        plain("="@),
        plain(" "@),
        plain("  valid managed documents: "@),
        plain("  invalid managed entries: "@),
        plain("  repository validation violations: "@),
        plain("Repository Health"@),
        plain("Design Overview"@),
        plain("Execution Overview"@),
        plain("Status Totals"@),
        plain("All Documents"@),
        color_code("1"@),
{
    reveal_strlit("    ");
    reveal_strlit("  ");
    reveal_strlit("\n");
    reveal_strlit("    none\n");
    reveal_strlit(" exec plans\n");
    reveal_strlit(" task specs\n");
    reveal_strlit("  design-docs: ");
    reveal_strlit("none");
    reveal_strlit(", ");
    reveal_strlit("  tasks: draft=");
    reveal_strlit(" candidate=");
    reveal_strlit(" closed=");
    reveal_strlit("=");
    reveal_strlit(" ");
    reveal_strlit("  valid managed documents: ");
    reveal_strlit("  invalid managed entries: ");
    reveal_strlit("  repository validation violations: ");
    reveal_strlit("Repository Health");
    reveal_strlit("Design Overview");
    reveal_strlit("Execution Overview");
    reveal_strlit("Status Totals");
    reveal_strlit("All Documents");
    reveal_strlit("1");
}

/// The fixed words of the detail view are plain.
pub proof fn lemma_detail_words_plain()
    ensures
        plain("Overview"@),
        plain("  id: "@),
        plain("  title: "@),
        plain("  type: "@),
        plain("  status: "@),
        plain("  path: "@),
        plain("  lifecycle state: "@),
        plain("terminal"@),
        plain("live"@),
        plain("  expected directory: "@),
        plain("Upstream References"@),
        plain("  none\n"@),
        plain("Downstream Associations"@),
        plain(": "@),
        plain(" ("@),
        plain(")"@),
        plain("Related Repository Warnings"@),
        plain("prd"@),
        plain("parent"@),
        plain("merged-into"@),
        plain("superseded-by"@),
        plain("exec-plan"@),
{
    reveal_strlit("Overview");
    reveal_strlit("  id: ");
    reveal_strlit("  title: ");
    reveal_strlit("  type: ");
    reveal_strlit("  status: ");
    reveal_strlit("  path: ");
    reveal_strlit("  lifecycle state: ");
    reveal_strlit("terminal");
    reveal_strlit("live");
    reveal_strlit("  expected directory: ");
    reveal_strlit("Upstream References");
    reveal_strlit("  none\n");
    reveal_strlit("Downstream Associations");
    reveal_strlit(": ");
    reveal_strlit(" (");
    reveal_strlit(")");
    reveal_strlit("Related Repository Warnings");
    reveal_strlit("prd");
    reveal_strlit("parent");
    reveal_strlit("merged-into");
    reveal_strlit("superseded-by");
    reveal_strlit("exec-plan");
}

/// Type names, association names and status directories are plain.
pub proof fn lemma_names_plain(t: DocType, s: Status, k: AssociationKind)
    ensures
        plain(doc_type_name(t)),
        plain(association_name(k)),
        expected_dir(t, s) is Some ==> plain(expected_dir(t, s)->0),
{
    reveal_strlit("PRD");
    reveal_strlit("DesignDoc");
    reveal_strlit("DesignPatch");
    reveal_strlit("ExecPlan");
    reveal_strlit("TaskSpec");
    reveal_strlit("ProjectSpec");
    reveal_strlit("OrgSpec");
    reveal_strlit("Guideline");
    reveal_strlit("design docs");
    reveal_strlit("patches");
    reveal_strlit("exec plans");
    reveal_strlit("direct tasks");
    reveal_strlit("tasks");
    reveal_strlit("docs/prd/draft");
    reveal_strlit("docs/prd/approved");
    reveal_strlit("docs/prd/obsolete");
    reveal_strlit("docs/design/draft");
    reveal_strlit("docs/design/candidate");
    reveal_strlit("docs/design/implemented");
    reveal_strlit("docs/design/obsolete");
    reveal_strlit("docs/specs");
    reveal_strlit("docs/guidelines");
}

/// A document whose shown texts are clean: its id, title, path and upstream
/// references hold no color sequence.
pub open spec fn clean_doc(d: DocumentView) -> bool {
    let fm = d.frontmatter;
    &&& clean(id_string(d.id))
    &&& (d.title matches Some(t) ==> clean(t))
    &&& clean(d.path)
    &&& (fm.prd matches Some(v) ==> clean(v))
    &&& (fm.parent matches Some(v) ==> clean(v))
    &&& (fm.merged_into matches Some(v) ==> clean(v))
    &&& (fm.superseded_by matches Some(v) ==> clean(v))
    &&& (fm.exec_plan matches Some(v) ==> clean(v))
    &&& forall|k: int| 0 <= k < fm.design_docs.len() ==> clean(#[trigger] fm.design_docs[k])
}

/// Documents whose shown texts are clean.
pub open spec fn clean_docs(docs: Seq<DocumentView>) -> bool {
    forall|i: int| 0 <= i < docs.len() ==> clean_doc(#[trigger] docs[i])
}

proof fn lemma_title_plain(d: DocumentView)
    requires
        clean_doc(d),
    ensures
        clean(title_of(d)),
{
    reveal_strlit("untitled");
    lemma_no_escape_plain("untitled"@);
}

proof fn lemma_filter_members(docs: Seq<DocumentView>, types: Seq<DocType>, s: Status, n: nat)
    requires
        clean_docs(docs),
    ensures
        clean_docs(with_types_status(docs, types, s, n)),
    decreases n,
{
    if n > 0 && n <= docs.len() {
        lemma_filter_members(docs, types, s, (n - 1) as nat);
        let prev = with_types_status(docs, types, s, (n - 1) as nat);
        let cur = with_types_status(docs, types, s, n);
        assert forall|i: int| 0 <= i < cur.len() implies clean_doc(#[trigger] cur[i]) by {
            if i < prev.len() {
                assert(cur[i] == prev[i]);
            } else {
                assert(cur[i] == docs[n - 1]);
            }
        }
    }
}

proof fn lemma_insert_members(sorted: Seq<DocumentView>, d: DocumentView)
    requires
        clean_docs(sorted),
        clean_doc(d),
    ensures
        clean_docs(insert_by_id(sorted, d)),
        insert_by_id(sorted, d).len() == sorted.len() + 1,
    decreases sorted.len(),
{
    let r = insert_by_id(sorted, d);
    if sorted.len() == 0 {
    } else if seq_lt(id_string(d.id), id_string(sorted[0].id)) {
        assert forall|i: int| 0 <= i < r.len() implies clean_doc(#[trigger] r[i]) by {
            if i > 0 {
                assert(r[i] == sorted[i - 1]);
            }
        }
    } else {
        let rest = sorted.drop_first();
        assert forall|i: int| 0 <= i < rest.len() implies clean_doc(#[trigger] rest[i]) by {
            assert(rest[i] == sorted[i + 1]);
        }
        lemma_insert_members(rest, d);
        let tail = insert_by_id(rest, d);
        assert forall|i: int| 0 <= i < r.len() implies clean_doc(#[trigger] r[i]) by {
            if i > 0 {
                assert(r[i] == tail[i - 1]);
            }
        }
    }
}

proof fn lemma_sorted_members(docs: Seq<DocumentView>, n: nat)
    requires
        clean_docs(docs),
    ensures
        clean_docs(sorted_by_id(docs, n)),
    decreases n,
{
    if n > 0 && n <= docs.len() {
        lemma_sorted_members(docs, (n - 1) as nat);
        lemma_insert_members(sorted_by_id(docs, (n - 1) as nat), docs[n - 1]);
    }
}

proof fn lemma_listed_members(docs: Seq<DocumentView>, types: Seq<DocType>, s: Status)
    requires
        clean_docs(docs),
    ensures
        clean_docs(listed(docs, types, s)),
{
    let f = with_types_status(docs, types, s, docs.len());
    lemma_filter_members(docs, types, s, docs.len());
    lemma_sorted_members(f, f.len());
}

/// Lines that each read as their uncolored form, put together, read as the
/// uncolored lines put together.
proof fn lemma_shows_lines(
    on: bool,
    ds: Seq<DocumentView>,
    line: spec_fn(bool, DocumentView) -> Seq<char>,
    n: nat,
)
    requires
        forall|i: int| 0 <= i < ds.len() ==> shows_as(#[trigger] line(on, ds[i]), line(false, ds[i])),
    ensures
        shows_as(lines_of(on, ds, line, n), lines_of(false, ds, line, n)),
    decreases n,
{
    if n == 0 || n > ds.len() {
        lemma_shows_plain(Seq::empty());
    } else {
        lemma_shows_lines(on, ds, line, (n - 1) as nat);
        assert(shows_as(line(on, ds[n - 1]), line(false, ds[n - 1])));
        lemma_shows_cat(
            lines_of(on, ds, line, (n - 1) as nat),
            lines_of(false, ds, line, (n - 1) as nat),
            line(on, ds[n - 1]),
            line(false, ds[n - 1]),
        );
    }
}

proof fn lemma_shows_block(on: bool, ds: Seq<DocumentView>, line: spec_fn(bool, DocumentView) -> Seq<char>)
    requires
        forall|i: int| 0 <= i < ds.len() ==> shows_as(#[trigger] line(on, ds[i]), line(false, ds[i])),
    ensures
        shows_as(block_of(on, ds, line), block_of(false, ds, line)),
{
    lemma_dashboard_words_plain();
    lemma_shows_plain("    none\n"@);
    lemma_shows_lines(on, ds, line, ds.len());
}

proof fn lemma_shows_design_line(on: bool, d: DocumentView)
    requires
        clean_doc(d),
    ensures
        shows_as(design_line(on, d), design_line(false, d)),
{
    lemma_dashboard_words_plain();
    lemma_safe_heads();
    lemma_title_plain(d);
    let id = id_string(d.id);
    let t = title_of(d);
    lemma_shows_plain("    "@);
    lemma_shows_painted_after("    "@, "    "@, on, "1"@, id, "  "@);
    let p1 = "    "@ + painted(on, "1"@, id) + "  "@;
    let q1 = "    "@ + id + "  "@;
    lemma_shows_then_clean(p1, q1, t, "  "@);
    lemma_shows_status(on, d.status);
    lemma_shows_cat(p1 + t + "  "@, q1 + t + "  "@, painted_status(on, d.status), status_name(d.status));
    lemma_shows_then(
        p1 + t + "  "@ + painted_status(on, d.status),
        q1 + t + "  "@ + status_name(d.status),
        "\n"@,
    );
}

proof fn lemma_shows_bucket(on: bool, idx: IndexView, s: Status)
    requires
        clean_docs(idx.documents),
    ensures
        shows_as(design_bucket(on, idx, s), design_bucket(false, idx, s)),
{
    lemma_dashboard_words_plain();
    let ds = listed(idx.documents, seq![DocType::DesignDoc, DocType::DesignPatch], s);
    lemma_listed_members(idx.documents, seq![DocType::DesignDoc, DocType::DesignPatch], s);
    let line = |o: bool, d: DocumentView| design_line(o, d);
    assert forall|i: int| 0 <= i < ds.len() implies shows_as(#[trigger] line(on, ds[i]), line(false, ds[i])) by {
        lemma_shows_design_line(on, ds[i]);
    }
    lemma_shows_block(on, ds, line);
    lemma_shows_plain("  "@);
    lemma_shows_plain("\n"@);
    lemma_shows_status(on, s);
    lemma_shows_cat("  "@, "  "@, painted_status(on, s), status_name(s));
    lemma_shows_cat("  "@ + painted_status(on, s), "  "@ + status_name(s), "\n"@, "\n"@);
    lemma_shows_cat(
        "  "@ + painted_status(on, s) + "\n"@,
        "  "@ + status_name(s) + "\n"@,
        block_of(on, ds, line),
        block_of(false, ds, line),
    );
}

/// A piece that reads as a text, followed by plain text, reads as the text followed by it.
proof fn lemma_shows_then(x: Seq<char>, y: Seq<char>, z: Seq<char>)
    requires
        shows_as(x, y),
        plain(z),
    ensures
        shows_as(x + z, y + z),
{
    lemma_shows_plain(z);
    lemma_shows_cat(x, y, z, z);
}

proof fn lemma_shows_join(xs: Seq<Seq<char>>, ys: Seq<Seq<char>>, sep: Seq<char>)
    requires
        xs.len() == ys.len(),
        plain(sep),
        forall|k: int| 0 <= k < xs.len() ==> shows_as(#[trigger] xs[k], ys[k]),
    ensures
        shows_as(join(xs, sep), join(ys, sep)),
    decreases xs.len(),
{
    if xs.len() == 0 {
        lemma_shows_plain(Seq::empty());
    } else if xs.len() == 1 {
        assert(shows_as(xs[0], ys[0]));
    } else {
        let xi = xs.drop_last();
        let yi = ys.drop_last();
        assert forall|k: int| 0 <= k < xi.len() implies shows_as(#[trigger] xi[k], yi[k]) by {
            assert(xi[k] == xs[k] && yi[k] == ys[k]);
        }
        lemma_shows_join(xi, yi, sep);
        lemma_shows_then(join(xi, sep), join(yi, sep), sep);
        assert(shows_as(xs.last(), ys.last())) by {
            assert(shows_as(xs[xs.len() - 1], ys[ys.len() - 1]));
        }
        lemma_shows_cat(join(xi, sep) + sep, join(yi, sep) + sep, xs.last(), ys.last());
    }
}

proof fn lemma_shows_exec_line(on: bool, docs: Seq<DocumentView>, e: DocumentView)
    requires
        clean_doc(e),
    ensures
        shows_as(exec_line(on, docs, e), exec_line(false, docs, e)),
{
    lemma_dashboard_words_plain();
    lemma_safe_heads();
    lemma_title_plain(e);
    let id = id_string(e.id);
    let dd = e.frontmatter.design_docs;
    let refs = if dd.len() == 0 {
        "none"@
    } else {
        join(dd, ", "@)
    };
    if dd.len() > 0 {
        lemma_clean_join(dd, ", "@);
    }
    let c1 = decimal(count_tasks(docs, id, Status::Draft, docs.len()));
    let c2 = decimal(count_tasks(docs, id, Status::Candidate, docs.len()));
    let c3 = decimal(count_tasks(docs, id, Status::Closed, docs.len()));
    lemma_plain_decimal(count_tasks(docs, id, Status::Draft, docs.len()));
    lemma_plain_decimal(count_tasks(docs, id, Status::Candidate, docs.len()));
    lemma_plain_decimal(count_tasks(docs, id, Status::Closed, docs.len()));
    lemma_shows_plain("    "@);
    lemma_shows_painted_after("    "@, "    "@, on, "1"@, id, "  "@);
    let x0 = "    "@ + painted(on, "1"@, id) + "  "@;
    let y0 = "    "@ + id + "  "@;
    lemma_shows_then_clean(x0, y0, title_of(e), "  design-docs: "@);
    let x1 = x0 + title_of(e) + "  design-docs: "@;
    let y1 = y0 + title_of(e) + "  design-docs: "@;
    lemma_shows_then_clean(x1, y1, refs, "  tasks: draft="@);
    let x2 = x1 + refs + "  tasks: draft="@;
    let y2 = y1 + refs + "  tasks: draft="@;
    lemma_shows_then(x2, y2, c1);
    let x3 = x2 + c1;
    let y3 = y2 + c1;
    lemma_shows_then(x3, y3, " candidate="@);
    lemma_shows_then(x3 + " candidate="@, y3 + " candidate="@, c2);
    let x4 = x3 + " candidate="@ + c2;
    let y4 = y3 + " candidate="@ + c2;
    lemma_shows_then(x4, y4, " closed="@);
    lemma_shows_then(x4 + " closed="@, y4 + " closed="@, c3);
    lemma_shows_then(x4 + " closed="@ + c3, y4 + " closed="@ + c3, "\n"@);
}

proof fn lemma_shows_task_line(on: bool, t: DocumentView)
    requires
        clean_doc(t),
    ensures
        shows_as(task_line(on, t), task_line(false, t)),
{
    lemma_dashboard_words_plain();
    lemma_safe_heads();
    lemma_title_plain(t);
    let id = id_string(t.id);
    lemma_shows_plain("    "@);
    lemma_shows_painted_after("    "@, "    "@, on, "1"@, id, "  "@);
    let x0 = "    "@ + painted(on, "1"@, id) + "  "@;
    let y0 = "    "@ + id + "  "@;
    lemma_shows_then_clean(x0, y0, title_of(t), "\n"@);
}

proof fn lemma_shows_exec_overview(on: bool, idx: IndexView)
    requires
        clean_docs(idx.documents),
    ensures
        shows_as(exec_overview(on, idx), exec_overview(false, idx)),
{
    lemma_dashboard_words_plain();
    let docs = idx.documents;
    let plans = listed(docs, seq![DocType::ExecPlan], Status::Candidate);
    let tasks = listed(docs, seq![DocType::TaskSpec], Status::Candidate);
    lemma_listed_members(docs, seq![DocType::ExecPlan], Status::Candidate);
    lemma_listed_members(docs, seq![DocType::TaskSpec], Status::Candidate);
    let pl = |o: bool, e: DocumentView| exec_line(o, docs, e);
    let tl = |o: bool, t: DocumentView| task_line(o, t);
    assert forall|i: int| 0 <= i < plans.len() implies shows_as(#[trigger] pl(on, plans[i]), pl(false, plans[i])) by {
        lemma_shows_exec_line(on, docs, plans[i]);
    }
    assert forall|i: int| 0 <= i < tasks.len() implies shows_as(#[trigger] tl(on, tasks[i]), tl(false, tasks[i])) by {
        lemma_shows_task_line(on, tasks[i]);
    }
    lemma_shows_block(on, plans, pl);
    lemma_shows_block(on, tasks, tl);
    let head = painted_status(on, Status::Candidate);
    lemma_shows_status(on, Status::Candidate);
    lemma_shows_plain("  "@);
    lemma_shows_cat("  "@, "  "@, head, status_name(Status::Candidate));
    lemma_shows_then("  "@ + head, "  "@ + status_name(Status::Candidate), " exec plans\n"@);
    lemma_shows_cat(
        "  "@ + head + " exec plans\n"@,
        "  "@ + status_name(Status::Candidate) + " exec plans\n"@,
        block_of(on, plans, pl),
        block_of(false, plans, pl),
    );
    lemma_shows_then("  "@ + head, "  "@ + status_name(Status::Candidate), " task specs\n"@);
    lemma_shows_cat(
        "  "@ + head + " task specs\n"@,
        "  "@ + status_name(Status::Candidate) + " task specs\n"@,
        block_of(on, tasks, tl),
        block_of(false, tasks, tl),
    );
    lemma_shows_cat(
        exec_plans_part(on, idx),
        exec_plans_part(false, idx),
        task_specs_part(on, idx),
        task_specs_part(false, idx),
    );
}

proof fn lemma_shows_totals_line(on: bool, idx: IndexView, t: DocType, ss: Seq<Status>)
    ensures
        shows_as(totals_line(on, idx, t, ss), totals_line(false, idx, t, ss)),
{
    lemma_dashboard_words_plain();
    lemma_names_plain(t, Status::Draft, AssociationKind::PrdDesignDocs);
    let docs = idx.documents;
    let xs = totals_cells(on, docs, t, ss);
    let ys = totals_cells(false, docs, t, ss);
    assert forall|k: int| 0 <= k < xs.len() implies shows_as(#[trigger] xs[k], ys[k]) by {
        let c = decimal(count_docs(docs, t, ss[k], docs.len()));
        lemma_plain_decimal(count_docs(docs, t, ss[k], docs.len()));
        lemma_shows_status(on, ss[k]);
        lemma_shows_then(painted_status(on, ss[k]), status_name(ss[k]), "="@);
        lemma_shows_then(painted_status(on, ss[k]) + "="@, status_name(ss[k]) + "="@, c);
    }
    lemma_shows_join(xs, ys, " "@);
    let name = doc_type_name(t);
    lemma_plain_cat("  "@, name);
    lemma_plain_cat("  "@ + name, "  "@);
    lemma_shows_plain("  "@ + name + "  "@);
    lemma_shows_cat("  "@ + name + "  "@, "  "@ + name + "  "@, join(xs, " "@), join(ys, " "@));
    lemma_shows_then("  "@ + name + "  "@ + join(xs, " "@), "  "@ + name + "  "@ + join(ys, " "@), "\n"@);
}

proof fn lemma_shows_listing_line(on: bool, d: DocumentView)
    requires
        clean_doc(d),
    ensures
        shows_as(listing_line(on, d), listing_line(false, d)),
{
    lemma_dashboard_words_plain();
    lemma_safe_heads();
    lemma_names_plain(d.doc_type, d.status, AssociationKind::PrdDesignDocs);
    let id = id_string(d.id);
    lemma_shows_plain("  "@);
    lemma_shows_painted_after("  "@, "  "@, on, "1"@, id, "  "@);
    let x0 = "  "@ + painted(on, "1"@, id) + "  "@;
    let y0 = "  "@ + id + "  "@;
    lemma_shows_then(x0, y0, doc_type_name(d.doc_type));
    let x1 = x0 + doc_type_name(d.doc_type);
    let y1 = y0 + doc_type_name(d.doc_type);
    lemma_shows_then(x1, y1, "  "@);
    lemma_shows_status(on, d.status);
    lemma_shows_cat(x1 + "  "@, y1 + "  "@, painted_status(on, d.status), status_name(d.status));
    lemma_shows_then(
        x1 + "  "@ + painted_status(on, d.status),
        y1 + "  "@ + status_name(d.status),
        "\n"@,
    );
}

/// A heading painted bold reads as the heading, and closes what it opens.
proof fn lemma_shows_heading(on: bool, before: Seq<char>, title: Seq<char>)
    requires
        plain(before),
        plain(title),
    ensures
        shows_as(before + painted(on, "1"@, title) + "\n"@, before + title + "\n"@),
{
    lemma_dashboard_words_plain();
    lemma_shows_plain(before);
    lemma_shows_painted(on, "1"@, title);
    lemma_shows_cat(before, before, painted(on, "1"@, title), title);
    lemma_shows_then(before + painted(on, "1"@, title), before + title, "\n"@);
}

proof fn lemma_shows_health(idx: IndexView, violations: nat, on: bool)
    ensures
        shows_as(health_section(idx, violations, on), health_section(idx, violations, false)),
{
    lemma_dashboard_words_plain();
    lemma_shows_heading(on, Seq::empty(), "Repository Health"@);
    assert(Seq::<char>::empty() + painted(on, "1"@, "Repository Health"@) =~= painted(
        on,
        "1"@,
        "Repository Health"@,
    ));
    assert(Seq::<char>::empty() + "Repository Health"@ =~= "Repository Health"@);
    let h0 = painted(on, "1"@, "Repository Health"@) + "\n"@;
    let g0 = "Repository Health"@ + "\n"@;
    let n1 = decimal(idx.documents.len());
    let n2 = decimal(idx.invalid_entries.len());
    let n3 = decimal(violations);
    lemma_plain_decimal(idx.documents.len());
    lemma_plain_decimal(idx.invalid_entries.len());
    lemma_plain_decimal(violations);
    lemma_shows_then(h0, g0, "  valid managed documents: "@);
    lemma_shows_then(h0 + "  valid managed documents: "@, g0 + "  valid managed documents: "@, n1);
    let h1 = h0 + "  valid managed documents: "@ + n1;
    let g1 = g0 + "  valid managed documents: "@ + n1;
    lemma_shows_then(h1, g1, "\n"@);
    lemma_shows_then(h1 + "\n"@, g1 + "\n"@, "  invalid managed entries: "@);
    lemma_shows_then(
        h1 + "\n"@ + "  invalid managed entries: "@,
        g1 + "\n"@ + "  invalid managed entries: "@,
        n2,
    );
    let h2 = h1 + "\n"@ + "  invalid managed entries: "@ + n2;
    let g2 = g1 + "\n"@ + "  invalid managed entries: "@ + n2;
    lemma_shows_then(h2, g2, "\n"@);
    lemma_shows_then(h2 + "\n"@, g2 + "\n"@, "  repository validation violations: "@);
    lemma_shows_then(
        h2 + "\n"@ + "  repository validation violations: "@,
        g2 + "\n"@ + "  repository validation violations: "@,
        n3,
    );
    lemma_shows_then(
        h2 + "\n"@ + "  repository validation violations: "@ + n3,
        g2 + "\n"@ + "  repository validation violations: "@ + n3,
        "\n"@,
    );
}

proof fn lemma_shows_design_section(idx: IndexView, on: bool)
    requires
        clean_docs(idx.documents),
    ensures
        shows_as(design_section(idx, on), design_section(idx, false)),
{
    lemma_dashboard_words_plain();
    lemma_shows_heading(on, "\n"@, "Design Overview"@);
    lemma_shows_bucket(on, idx, Status::Draft);
    lemma_shows_bucket(on, idx, Status::Candidate);
    lemma_shows_bucket(on, idx, Status::Implemented);
    let d0 = "\n"@ + painted(on, "1"@, "Design Overview"@) + "\n"@;
    let e0 = "\n"@ + "Design Overview"@ + "\n"@;
    lemma_shows_cat(d0, e0, design_bucket(on, idx, Status::Draft), design_bucket(false, idx, Status::Draft));
    lemma_shows_cat(
        d0 + design_bucket(on, idx, Status::Draft),
        e0 + design_bucket(false, idx, Status::Draft),
        design_bucket(on, idx, Status::Candidate),
        design_bucket(false, idx, Status::Candidate),
    );
    lemma_shows_cat(
        d0 + design_bucket(on, idx, Status::Draft) + design_bucket(on, idx, Status::Candidate),
        e0 + design_bucket(false, idx, Status::Draft) + design_bucket(false, idx, Status::Candidate),
        design_bucket(on, idx, Status::Implemented),
        design_bucket(false, idx, Status::Implemented),
    );
}

proof fn lemma_shows_exec_section(idx: IndexView, on: bool)
    requires
        clean_docs(idx.documents),
    ensures
        shows_as(exec_section(idx, on), exec_section(idx, false)),
{
    lemma_dashboard_words_plain();
    lemma_shows_heading(on, "\n"@, "Execution Overview"@);
    lemma_shows_exec_overview(on, idx);
    lemma_shows_cat(
        "\n"@ + painted(on, "1"@, "Execution Overview"@) + "\n"@,
        "\n"@ + "Execution Overview"@ + "\n"@,
        exec_overview(on, idx),
        exec_overview(false, idx),
    );
}

#[verifier::rlimit(40)]
proof fn lemma_shows_totals_section(idx: IndexView, on: bool)
    ensures
        shows_as(totals_section(idx, on), totals_section(idx, false)),
{
    lemma_dashboard_words_plain();
    lemma_shows_heading(on, "\n"@, "Status Totals"@);
    let s1 = seq![Status::Draft, Status::Approved, Status::Obsolete];
    let s2 = seq![Status::Draft, Status::Candidate, Status::Implemented, Status::Obsolete];
    let s3 = seq![
        Status::Draft,
        Status::Candidate,
        Status::Implemented,
        Status::Obsolete,
        Status::ObsoleteMerged,
    ];
    let s4 = seq![Status::Draft, Status::Candidate, Status::Closed];
    lemma_shows_totals_line(on, idx, DocType::Prd, s1);
    lemma_shows_totals_line(on, idx, DocType::DesignDoc, s2);
    lemma_shows_totals_line(on, idx, DocType::DesignPatch, s3);
    lemma_shows_totals_line(on, idx, DocType::ExecPlan, s4);
    lemma_shows_totals_line(on, idx, DocType::TaskSpec, s4);
    let t0 = "\n"@ + painted(on, "1"@, "Status Totals"@) + "\n"@;
    let u0 = "\n"@ + "Status Totals"@ + "\n"@;
    let a1 = totals_line(on, idx, DocType::Prd, s1);
    let b1 = totals_line(false, idx, DocType::Prd, s1);
    let a2 = totals_line(on, idx, DocType::DesignDoc, s2);
    let b2 = totals_line(false, idx, DocType::DesignDoc, s2);
    let a3 = totals_line(on, idx, DocType::DesignPatch, s3);
    let b3 = totals_line(false, idx, DocType::DesignPatch, s3);
    let a4 = totals_line(on, idx, DocType::ExecPlan, s4);
    let b4 = totals_line(false, idx, DocType::ExecPlan, s4);
    let a5 = totals_line(on, idx, DocType::TaskSpec, s4);
    let b5 = totals_line(false, idx, DocType::TaskSpec, s4);
    lemma_shows_cat(t0, u0, a1, b1);
    lemma_shows_cat(t0 + a1, u0 + b1, a2, b2);
    lemma_shows_cat(t0 + a1 + a2, u0 + b1 + b2, a3, b3);
    lemma_shows_cat(t0 + a1 + a2 + a3, u0 + b1 + b2 + b3, a4, b4);
    lemma_shows_cat(t0 + a1 + a2 + a3 + a4, u0 + b1 + b2 + b3 + b4, a5, b5);
}

proof fn lemma_shows_listing_section(idx: IndexView, show_all: bool, on: bool)
    requires
        clean_docs(idx.documents),
    ensures
        shows_as(listing_section(idx, show_all, on), listing_section(idx, show_all, false)),
{
    lemma_dashboard_words_plain();
    if show_all {
        let all = sorted_by_id(idx.documents, idx.documents.len());
        lemma_sorted_members(idx.documents, idx.documents.len());
        let ll = |o: bool, d: DocumentView| listing_line(o, d);
        assert forall|i: int| 0 <= i < all.len() implies shows_as(#[trigger] ll(on, all[i]), ll(false, all[i])) by {
            lemma_shows_listing_line(on, all[i]);
        }
        lemma_shows_lines(on, all, ll, idx.documents.len());
        lemma_shows_heading(on, "\n"@, "All Documents"@);
        lemma_shows_cat(
            "\n"@ + painted(on, "1"@, "All Documents"@) + "\n"@,
            "\n"@ + "All Documents"@ + "\n"@,
            lines_of(on, all, ll, idx.documents.len()),
            lines_of(false, all, ll, idx.documents.len()),
        );
    } else {
        lemma_shows_plain(Seq::empty());
    }
}

/// The dashboard reads, without its colors, as the uncolored dashboard: what
/// `render_dashboard` gives with a coloring palette, its color sequences removed,
/// is what it gives with a plain one, for any index whose documents' shown texts
/// hold no color sequence `ESC [ <digits> m`.
pub proof fn lemma_shows_dashboard(idx: IndexView, violations: nat, show_all: bool, on: bool)
    requires
        clean_docs(idx.documents),
    ensures
        shows_as(dashboard(idx, violations, show_all, on), dashboard(idx, violations, show_all, false)),
{
    lemma_shows_health(idx, violations, on);
    lemma_shows_design_section(idx, on);
    lemma_shows_exec_section(idx, on);
    lemma_shows_totals_section(idx, on);
    lemma_shows_listing_section(idx, show_all, on);
    let h = health_section(idx, violations, on);
    let hh = health_section(idx, violations, false);
    lemma_shows_cat(h, hh, design_section(idx, on), design_section(idx, false));
    lemma_shows_cat(
        h + design_section(idx, on),
        hh + design_section(idx, false),
        exec_section(idx, on),
        exec_section(idx, false),
    );
    lemma_shows_cat(
        h + design_section(idx, on) + exec_section(idx, on),
        hh + design_section(idx, false) + exec_section(idx, false),
        totals_section(idx, on),
        totals_section(idx, false),
    );
    lemma_shows_cat(
        h + design_section(idx, on) + exec_section(idx, on) + totals_section(idx, on),
        hh + design_section(idx, false) + exec_section(idx, false) + totals_section(idx, false),
        listing_section(idx, show_all, on),
        listing_section(idx, show_all, false),
    );
}

/// Violations whose paths and messages are clean.
pub open spec fn clean_violations(vs: Seq<ViolationView>) -> bool {
    forall|i: int| 0 <= i < vs.len() ==> clean((#[trigger] vs[i]).path) && clean(vs[i].message)
}

proof fn lemma_plain_relative(root: Seq<char>, p: Seq<char>)
    requires
        clean(p),
    ensures
        clean(relative_to(root, p)),
{
    if crate::text::starts_with(p, root) {
        let rest = p.skip(root.len() as int);
        lemma_has_code_skip(p, root.len() as int);
        if rest.len() > 0 && rest[0] == '/' {
            lemma_has_code_skip(rest, 1);
        }
    }
}

proof fn lemma_plain_overview_tail(idx: IndexView, d: DocumentView)
    requires
        clean(d.path),
    ensures
        plain(overview_tail(idx, d)),
{
    lemma_detail_words_plain();
    lemma_dashboard_words_plain();
    lemma_names_plain(d.doc_type, d.status, AssociationKind::PrdDesignDocs);
    lemma_plain_relative(idx.repo_root, d.path);
    let rel = relative_to(idx.repo_root, d.path);
    let state = if terminal(d.doc_type, d.status) {
        "terminal"@
    } else if live(d.doc_type, d.status) {
        "live"@
    } else {
        "none"@
    };
    lemma_safe_heads();
    lemma_plain_then_clean("  path: "@, rel);
    lemma_clean_then("  path: "@ + rel, "\n"@);
    lemma_plain_cat("  path: "@ + rel + "\n"@, "  lifecycle state: "@);
    lemma_plain_cat("  path: "@ + rel + "\n"@ + "  lifecycle state: "@, state);
    lemma_plain_cat("  path: "@ + rel + "\n"@ + "  lifecycle state: "@ + state, "\n"@);
    let head = "  path: "@ + rel + "\n"@ + "  lifecycle state: "@ + state + "\n"@;
    match expected_dir(d.doc_type, d.status) {
        Some(dir) => {
            lemma_plain_cat("  expected directory: "@, dir);
            lemma_plain_cat("  expected directory: "@ + dir, "\n"@);
            lemma_plain_cat(head, "  expected directory: "@ + dir + "\n"@);
        },
        None => {
            assert(head + Seq::<char>::empty() =~= head);
        },
    }
}

proof fn lemma_shows_overview_head(d: DocumentView, on: bool)
    requires
        clean_doc(d),
    ensures
        shows_as(overview_head(d, on), overview_head(d, false)),
{
    lemma_detail_words_plain();
    lemma_dashboard_words_plain();
    lemma_names_plain(d.doc_type, d.status, AssociationKind::PrdDesignDocs);
    let id = id_string(d.id);
    let title = match d.title {
        Some(t) => t,
        None => "none"@,
    };
    lemma_shows_heading(on, Seq::empty(), "Overview"@);
    assert(Seq::<char>::empty() + painted(on, "1"@, "Overview"@) =~= painted(on, "1"@, "Overview"@));
    assert(Seq::<char>::empty() + "Overview"@ =~= "Overview"@);
    let x0 = painted(on, "1"@, "Overview"@) + "\n"@;
    let y0 = "Overview"@ + "\n"@;
    lemma_safe_heads();
    lemma_shows_then(x0, y0, "  id: "@);
    lemma_shows_painted_after(x0 + "  id: "@, y0 + "  id: "@, on, "1"@, id, "\n"@);
    let x1 = x0 + "  id: "@ + painted(on, "1"@, id) + "\n"@;
    let y1 = y0 + "  id: "@ + id + "\n"@;
    lemma_shows_then(x1, y1, "  title: "@);
    assert(clean(title)) by {
        reveal_strlit("none");
        lemma_no_escape_plain("none"@);
    }
    lemma_shows_then_clean(x1 + "  title: "@, y1 + "  title: "@, title, "\n"@);
    let x2 = x1 + "  title: "@ + title;
    let y2 = y1 + "  title: "@ + title;
    lemma_shows_then(x2 + "\n"@, y2 + "\n"@, "  type: "@);
    lemma_shows_then(x2 + "\n"@ + "  type: "@, y2 + "\n"@ + "  type: "@, doc_type_name(d.doc_type));
    let x3 = x2 + "\n"@ + "  type: "@ + doc_type_name(d.doc_type);
    let y3 = y2 + "\n"@ + "  type: "@ + doc_type_name(d.doc_type);
    lemma_shows_then(x3, y3, "\n"@);
    lemma_shows_then(x3 + "\n"@, y3 + "\n"@, "  status: "@);
    lemma_shows_status(on, d.status);
    lemma_shows_cat(
        x3 + "\n"@ + "  status: "@,
        y3 + "\n"@ + "  status: "@,
        painted_status(on, d.status),
        status_name(d.status),
    );
    lemma_shows_then(
        x3 + "\n"@ + "  status: "@ + painted_status(on, d.status),
        y3 + "\n"@ + "  status: "@ + status_name(d.status),
        "\n"@,
    );
}

proof fn lemma_plain_ref_row(label: Seq<char>, value: Option<Seq<char>>)
    requires
        plain(label),
        value matches Some(v) ==> clean(v),
    ensures
        plain(ref_row(label, value)),
{
    lemma_detail_words_plain();
    lemma_dashboard_words_plain();
    lemma_safe_heads();
    match value {
        Some(v) => {
            lemma_plain_cat("  "@, label);
            lemma_plain_cat("  "@ + label, ": "@);
            lemma_plain_then_clean("  "@ + label + ": "@, v);
            lemma_clean_then("  "@ + label + ": "@ + v, "\n"@);
        },
        None => {
            lemma_no_escape_plain(Seq::empty());
        },
    }
}

proof fn lemma_shows_refs_part(d: DocumentView, on: bool)
    requires
        clean_doc(d),
    ensures
        shows_as(refs_part(d, on), refs_part(d, false)),
{
    lemma_detail_words_plain();
    lemma_dashboard_words_plain();
    let fm = d.frontmatter;
    lemma_plain_ref_row("prd"@, fm.prd);
    lemma_plain_ref_row("parent"@, fm.parent);
    lemma_plain_ref_row("merged-into"@, fm.merged_into);
    lemma_plain_ref_row("superseded-by"@, fm.superseded_by);
    lemma_plain_ref_row("exec-plan"@, fm.exec_plan);
    let r1 = ref_row("prd"@, fm.prd) + ref_row("parent"@, fm.parent);
    lemma_plain_cat(ref_row("prd"@, fm.prd), ref_row("parent"@, fm.parent));
    lemma_plain_cat(r1, ref_row("merged-into"@, fm.merged_into));
    let r2 = r1 + ref_row("merged-into"@, fm.merged_into);
    lemma_plain_cat(r2, ref_row("superseded-by"@, fm.superseded_by));
    let r3 = r2 + ref_row("superseded-by"@, fm.superseded_by);
    let dd = if fm.design_docs.len() > 0 {
        "  design-docs: "@ + join(fm.design_docs, ", "@) + "\n"@
    } else {
        Seq::empty()
    };
    if fm.design_docs.len() > 0 {
        lemma_safe_heads();
        lemma_clean_join(fm.design_docs, ", "@);
        lemma_plain_then_clean("  design-docs: "@, join(fm.design_docs, ", "@));
        lemma_clean_then("  design-docs: "@ + join(fm.design_docs, ", "@), "\n"@);
    } else {
        lemma_no_escape_plain(Seq::empty());
    }
    lemma_plain_cat(r3, dd);
    lemma_plain_cat(r3 + dd, ref_row("exec-plan"@, fm.exec_plan));
    assert(plain(ref_rows(d)));
    let body = if has_refs(d) {
        ref_rows(d)
    } else {
        "  none\n"@
    };
    lemma_shows_heading(on, "\n"@, "Upstream References"@);
    lemma_shows_then(
        "\n"@ + painted(on, "1"@, "Upstream References"@) + "\n"@,
        "\n"@ + "Upstream References"@ + "\n"@,
        body,
    );
}

proof fn lemma_related_ids(docs: Seq<DocumentView>, kind: AssociationKind, owner: Seq<char>, n: nat)
    requires
        clean_docs(docs),
    ensures
        forall|a: int|
            0 <= a < related_upto(docs, kind, owner, n).len() ==> clean(
                id_string((#[trigger] related_upto(docs, kind, owner, n)[a]).id),
            ),
    decreases n,
{
    if n > 0 && n <= docs.len() {
        lemma_related_ids(docs, kind, owner, (n - 1) as nat);
        let prev = related_upto(docs, kind, owner, (n - 1) as nat);
        let cur = related_upto(docs, kind, owner, n);
        assert forall|a: int| 0 <= a < cur.len() implies clean(id_string((#[trigger] cur[a]).id)) by {
            if a < prev.len() {
                assert(cur[a] == prev[a]);
            } else {
                assert(cur[a].id == docs[n - 1].id);
                assert(clean_doc(docs[n - 1]));
            }
        }
    }
}

proof fn lemma_plain_related_items(rs: Seq<AssociatedView>)
    requires
        forall|a: int| 0 <= a < rs.len() ==> clean(id_string((#[trigger] rs[a]).id)),
    ensures
        forall|k: int| 0 <= k < related_items(rs).len() ==> plain(#[trigger] related_items(rs)[k]),
{
    lemma_detail_words_plain();
    lemma_safe_heads();
    assert forall|k: int| 0 <= k < related_items(rs).len() implies plain(#[trigger] related_items(rs)[k]) by {
        let id = id_string(rs[k].id);
        lemma_shows_status(false, rs[k].status);
        lemma_clean_then(id, " ("@);
        lemma_plain_cat(id + " ("@, status_name(rs[k].status));
        lemma_plain_cat(id + " ("@ + status_name(rs[k].status), ")"@);
    }
}

proof fn lemma_plain_assoc_lines(ss: Seq<SummaryView>, n: nat)
    requires
        forall|i: int, a: int|
            0 <= i < ss.len() && 0 <= a < ss[i].related.len() ==> clean(
                id_string((#[trigger] ss[i].related[a]).id),
            ),
    ensures
        plain(assoc_lines(ss, n)),
    decreases n,
{
    lemma_detail_words_plain();
    lemma_dashboard_words_plain();
    if n == 0 || n > ss.len() {
        lemma_no_escape_plain(Seq::empty());
    } else {
        lemma_plain_assoc_lines(ss, (n - 1) as nat);
        let sv = ss[n - 1];
        if sv.related.len() == 0 {
            assert(assoc_lines(ss, n) =~= assoc_lines(ss, (n - 1) as nat));
        } else {
            assert forall|a: int| 0 <= a < sv.related.len() implies clean(id_string((#[trigger] sv.related[a]).id)) by {
                assert(clean(id_string(ss[n - 1].related[a].id)));
            }
            lemma_plain_related_items(sv.related);
            lemma_plain_join(related_items(sv.related), ", "@);
            lemma_names_plain(DocType::Prd, Status::Draft, sv.kind);
            let name = association_name(sv.kind);
            let items = join(related_items(sv.related), ", "@);
            lemma_plain_cat("  "@, name);
            lemma_plain_cat("  "@ + name, ": "@);
            lemma_plain_cat("  "@ + name + ": "@, items);
            lemma_plain_cat("  "@ + name + ": "@ + items, "\n"@);
            lemma_plain_cat(assoc_lines(ss, (n - 1) as nat), "  "@ + name + ": "@ + items + "\n"@);
        }
    }
}

proof fn lemma_shows_assoc_part(idx: IndexView, d: DocumentView, on: bool)
    requires
        clean_docs(idx.documents),
    ensures
        shows_as(assoc_part(idx, d, on), assoc_part(idx, d, false)),
{
    lemma_detail_words_plain();
    let ss = summaries_of(idx, d);
    let owner = id_string(d.id);
    let docs = idx.documents;
    lemma_related_ids(docs, AssociationKind::PrdDesignDocs, owner, docs.len());
    lemma_related_ids(docs, AssociationKind::DesignDocPatches, owner, docs.len());
    lemma_related_ids(docs, AssociationKind::DesignDocExecPlans, owner, docs.len());
    lemma_related_ids(docs, AssociationKind::DesignDocTasks, owner, docs.len());
    lemma_related_ids(docs, AssociationKind::ExecPlanTasks, owner, docs.len());
    assert forall|i: int, a: int|
        0 <= i < ss.len() && 0 <= a < ss[i].related.len() implies clean(
            id_string((#[trigger] ss[i].related[a]).id),
        ) by {
        let k = ss[i].kind;
        assert(ss[i].related == related_upto(docs, k, owner, docs.len()));
    }
    lemma_plain_assoc_lines(ss, ss.len());
    let body = if forall|i: int| 0 <= i < ss.len() ==> #[trigger] ss[i].related.len() == 0 {
        "  none\n"@
    } else {
        assoc_lines(ss, ss.len())
    };
    lemma_dashboard_words_plain();
    lemma_shows_heading(on, "\n"@, "Downstream Associations"@);
    lemma_shows_then(
        "\n"@ + painted(on, "1"@, "Downstream Associations"@) + "\n"@,
        "\n"@ + "Downstream Associations"@ + "\n"@,
        body,
    );
}

proof fn lemma_plain_warning_lines(root: Seq<char>, vs: Seq<ViolationView>, d: DocumentView, n: nat)
    requires
        clean_violations(vs),
    ensures
        plain(warning_lines(root, vs, d, n)),
    decreases n,
{
    lemma_detail_words_plain();
    lemma_dashboard_words_plain();
    if n == 0 || n > vs.len() {
        lemma_no_escape_plain(Seq::empty());
    } else {
        lemma_plain_warning_lines(root, vs, d, (n - 1) as nat);
        let v = vs[n - 1];
        let prev = warning_lines(root, vs, d, (n - 1) as nat);
        if concerns(root, v, d) {
            lemma_plain_relative(root, v.path);
            let rel = relative_to(root, v.path);
            lemma_safe_heads();
            lemma_plain_then_clean("  "@, rel);
            lemma_clean_then("  "@ + rel, ": "@);
            lemma_plain_then_clean("  "@ + rel + ": "@, v.message);
            lemma_clean_then("  "@ + rel + ": "@ + v.message, "\n"@);
            lemma_plain_cat(prev, "  "@ + rel + ": "@ + v.message + "\n"@);
        } else {
            assert(warning_lines(root, vs, d, n) =~= prev);
        }
    }
}

proof fn lemma_shows_warnings_part(idx: IndexView, vs: Seq<ViolationView>, d: DocumentView, on: bool)
    requires
        clean_violations(vs),
    ensures
        shows_as(warnings_part(idx, vs, d, on), warnings_part(idx, vs, d, false)),
{
    lemma_detail_words_plain();
    lemma_plain_warning_lines(idx.repo_root, vs, d, vs.len());
    let body = if exists|i: int| 0 <= i < vs.len() && concerns(idx.repo_root, #[trigger] vs[i], d) {
        warning_lines(idx.repo_root, vs, d, vs.len())
    } else {
        "  none\n"@
    };
    lemma_dashboard_words_plain();
    lemma_shows_heading(on, "\n"@, "Related Repository Warnings"@);
    lemma_shows_then(
        "\n"@ + painted(on, "1"@, "Related Repository Warnings"@) + "\n"@,
        "\n"@ + "Related Repository Warnings"@ + "\n"@,
        body,
    );
}

proof fn lemma_doc_by_id_member(docs: Seq<DocumentView>, id: Seq<char>, i: int)
    requires
        clean_docs(docs),
        doc_by_id(docs, id, i) is Some,
    ensures
        clean_doc(doc_by_id(docs, id, i)->0),
    decreases docs.len() - i,
{
    if 0 <= i < docs.len() && id_string(docs[i].id) != id {
        lemma_doc_by_id_member(docs, id, i + 1);
    }
}

/// The detail view reads, without its colors, as the uncolored detail view; a
/// refusal is the same either way. This is what `render_detail` gives with a
/// coloring and with a plain palette, for any index and violations whose shown
/// texts hold no color sequence `ESC [ <digits> m`.
pub proof fn lemma_shows_detail(idx: IndexView, vs: Seq<ViolationView>, doc_id: Seq<char>, on: bool)
    requires
        clean_docs(idx.documents),
        clean_violations(vs),
    ensures
        match (detail(idx, vs, doc_id, on), detail(idx, vs, doc_id, false)) {
            (Ok(a), Ok(b)) => shows_as(a, b),
            (Err(x), Err(y)) => x == y,
            _ => false,
        },
{
    match doc_by_id(idx.documents, doc_id, 0) {
        None => {},
        Some(d) => {
            if d.doc_type != DocType::Guideline {
                lemma_doc_by_id_member(idx.documents, doc_id, 0);
                lemma_shows_overview_head(d, on);
                lemma_plain_overview_tail(idx, d);
                lemma_shows_then(overview_head(d, on), overview_head(d, false), overview_tail(idx, d));
                lemma_shows_refs_part(d, on);
                lemma_shows_assoc_part(idx, d, on);
                lemma_shows_warnings_part(idx, vs, d, on);
                let o1 = overview_part(idx, d, on);
                let o0 = overview_part(idx, d, false);
                lemma_shows_cat(o1, o0, refs_part(d, on), refs_part(d, false));
                lemma_shows_cat(
                    o1 + refs_part(d, on),
                    o0 + refs_part(d, false),
                    assoc_part(idx, d, on),
                    assoc_part(idx, d, false),
                );
                lemma_shows_cat(
                    o1 + refs_part(d, on) + assoc_part(idx, d, on),
                    o0 + refs_part(d, false) + assoc_part(idx, d, false),
                    warnings_part(idx, vs, d, on),
                    warnings_part(idx, vs, d, false),
                );
            }
        },
    }
}

/// Coloring `specmate status` only adds color sequences: with every
/// `ESC [ <digits> m` removed, the colored view reads exactly as the uncolored
/// one, for a repository whose shown texts (ids, titles, paths, references and
/// violation messages) hold no color sequence; a refusal is the same either way.
pub proof fn lemma_color_only_adds_escapes(
    root: Seq<char>,
    files: Seq<ScanView>,
    doc_id: Option<Seq<char>>,
    show_all: bool,
)
    requires
        clean_docs(index_of(root, files).documents),
        clean_violations(index_violations(index_of(root, files))),
    ensures
        match (
            status_view_of(root, files, doc_id, show_all, true),
            status_view_of(root, files, doc_id, show_all, false),
        ) {
            (Ok(a), Ok(b)) => uncolored(a) == b,
            (Err(x), Err(y)) => x == y,
            _ => false,
        },
{
    let idx = index_of(root, files);
    let vs = index_violations(idx);
    match doc_id {
        Some(id) => lemma_shows_detail(idx, vs, crate::text::trim(id), true),
        None => lemma_shows_dashboard(idx, vs.len(), show_all, true),
    }
}

} // verus!
