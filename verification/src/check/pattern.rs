//! Boundary patterns: their parse into tokens, and whether two patterns can
//! match a common path.
use crate::check::charset::{charset_has, kept, non_separator, CharSet};
use crate::text::{chars_of, index_of_char, lemma_index_of_char, pieces_view, split_char, split_str, str_eq};
use vstd::prelude::*;

verus! {

/// One token of a path segment pattern.
#[derive(Debug)]
pub enum SegmentToken {
    /// A character matched literally.
    Exact(char),
    /// `?`: one character other than `/`.
    AnyChar,
    /// `*`: any run of characters other than `/`.
    AnySeq,
    /// `[...]`: one character of the class.
    Class(CharSet),
}

/// One token of a path pattern: a segment pattern, or `**`.
#[derive(Debug)]
pub enum PathToken {
    /// `**`: any number of whole segments.
    AnySegments,
    /// One segment that matches the segment pattern.
    Segment(Vec<SegmentToken>),
}

/// The meaning of a segment token.
pub enum SegTok {
    Exact(char),
    AnyChar,
    AnySeq,
    Class(Set<int>),
}

/// The meaning of a path token.
pub enum PathTok {
    AnySegments,
    Segment(Seq<SegTok>),
}

/// The code points of a character set.
pub open spec fn members(cs: Seq<(u32, u32)>) -> Set<int> {
    Set::new(|x: int| charset_has(cs, x))
}

impl View for SegmentToken {
    type V = SegTok;

    open spec fn view(&self) -> SegTok {
        match self {
            SegmentToken::Exact(c) => SegTok::Exact(*c),
            SegmentToken::AnyChar => SegTok::AnyChar,
            SegmentToken::AnySeq => SegTok::AnySeq,
            SegmentToken::Class(cs) => SegTok::Class(members(cs@)),
        }
    }
}

pub open spec fn seg_view(v: Seq<SegmentToken>) -> Seq<SegTok> {
    v.map_values(|t: SegmentToken| t@)
}

impl View for PathToken {
    type V = PathTok;

    open spec fn view(&self) -> PathTok {
        match self {
            PathToken::AnySegments => PathTok::AnySegments,
            PathToken::Segment(ts) => PathTok::Segment(seg_view(ts@)),
        }
    }
}

pub open spec fn path_view(v: Seq<PathToken>) -> Seq<PathTok> {
    v.map_values(|t: PathToken| t@)
}

/// The code points a bracket class holds, from its ranges as written and its negation.
pub open spec fn class_member(raw: Seq<(u32, u32)>, negated: bool, x: int) -> bool {
    if negated {
        non_separator(x) && !kept(raw, x)
    } else {
        kept(raw, x)
    }
}

/// A class range from two characters, lowest first.
pub open spec fn range_of(a: char, b: char) -> (u32, u32) {
    if a <= b {
        (a as u32, b as u32)
    } else {
        (b as u32, a as u32)
    }
}

/// The items of a bracket class from position `i` on: the ranges it adds and the
/// position just after the closing `]`, or `None` when the class is not closed.
pub open spec fn class_items(cs: Seq<char>, i: int, first: bool) -> Option<(Seq<(u32, u32)>, int)>
    decreases cs.len() - i,
{
    if i < 0 || i >= cs.len() {
        None
    } else if cs[i] == ']' && !first {
        Some((Seq::empty(), i + 1))
    } else {
        let (start, j) = if cs[i] == '\\' {
            (if i + 1 < cs.len() {
                Some(cs[i + 1])
            } else {
                None
            }, i + 2)
        } else {
            (Some(cs[i]), i + 1)
        };
        match start {
            None => None,
            Some(st) => if j < cs.len() && cs[j] == '-' {
                let k = j + 1;
                if k < cs.len() && cs[k] != ']' {
                    let (end, after) = if cs[k] == '\\' {
                        (if k + 1 < cs.len() {
                            Some(cs[k + 1])
                        } else {
                            None
                        }, k + 2)
                    } else {
                        (Some(cs[k]), k + 1)
                    };
                    match end {
                        None => None,
                        Some(en) => match class_items(cs, after, false) {
                            Some((rest, next)) => Some((seq![range_of(st, en)] + rest, next)),
                            None => None,
                        },
                    }
                } else {
                    match class_items(cs, k, false) {
                        Some((rest, next)) => Some(
                            (seq![(st as u32, st as u32), ('-' as u32, '-' as u32)] + rest, next),
                        ),
                        None => None,
                    }
                }
            } else {
                match class_items(cs, j, false) {
                    Some((rest, next)) => Some((seq![(st as u32, st as u32)] + rest, next)),
                    None => None,
                }
            },
        }
    }
}

/// A bracket class whose body starts at `i` (just after `[`): its members and the
/// position after it.
pub open spec fn class_at(cs: Seq<char>, i: int) -> Option<(Set<int>, int)> {
    let negated = 0 <= i < cs.len() && (cs[i] == '!' || cs[i] == '^');
    let body = if negated {
        i + 1
    } else {
        i
    };
    match class_items(cs, body, true) {
        Some((raw, next)) => Some((Set::new(|x: int| class_member(raw, negated, x)), next)),
        None => None,
    }
}

/// The tokens of a segment pattern from position `i` on.
pub open spec fn segment_from(cs: Seq<char>, i: int) -> Option<Seq<SegTok>>
    decreases cs.len() - i,
{
    if i < 0 || i >= cs.len() {
        Some(Seq::empty())
    } else if cs[i] == '*' {
        match segment_from(cs, i + 1) {
            Some(rest) => Some(seq![SegTok::AnySeq] + rest),
            None => None,
        }
    } else if cs[i] == '?' {
        match segment_from(cs, i + 1) {
            Some(rest) => Some(seq![SegTok::AnyChar] + rest),
            None => None,
        }
    } else if cs[i] == '[' {
        match class_at(cs, i + 1) {
            Some((set, next)) => if i < next <= cs.len() {
                match segment_from(cs, next) {
                    Some(rest) => Some(seq![SegTok::Class(set)] + rest),
                    None => None,
                }
            } else {
                None
            },
            None => None,
        }
    } else if cs[i] == '\\' {
        if i + 1 < cs.len() {
            match segment_from(cs, i + 2) {
                Some(rest) => Some(seq![SegTok::Exact(cs[i + 1])] + rest),
                None => None,
            }
        } else {
            None
        }
    } else {
        match segment_from(cs, i + 1) {
            Some(rest) => Some(seq![SegTok::Exact(cs[i])] + rest),
            None => None,
        }
    }
}

/// The tokens of a segment pattern.
pub open spec fn segment_tokens(s: Seq<char>) -> Option<Seq<SegTok>> {
    segment_from(s, 0)
}

/// The tokens of the first `n` segments.
pub open spec fn path_tokens_upto(segments: Seq<Seq<char>>, n: nat) -> Option<Seq<PathTok>>
    decreases n,
{
    if n == 0 || n > segments.len() {
        Some(Seq::empty())
    } else {
        match path_tokens_upto(segments, (n - 1) as nat) {
            None => None,
            Some(prefix) => {
                let seg = segments[n - 1];
                if seg == "**"@ {
                    Some(prefix.push(PathTok::AnySegments))
                } else {
                    match segment_tokens(seg) {
                        Some(ts) => Some(prefix.push(PathTok::Segment(ts))),
                        None => None,
                    }
                }
            },
        }
    }
}

/// The tokens of a path pattern: its `/`-separated segments, each `**` or a segment pattern.
pub open spec fn path_tokens(p: Seq<char>) -> Option<Seq<PathTok>> {
    let segments = split_char(p, '/');
    path_tokens_upto(segments, segments.len())
}


/// A character's code point is a Unicode scalar value.
pub proof fn lemma_char_code(c: char)
    ensures
        (c as u32) <= 0xD7FF || (0xE000 <= (c as u32) && (c as u32) <= 0x10FFFF),
{
}

/// A class range from two characters, lowest first.
fn class_range(a: char, b: char) -> (r: (u32, u32))
    ensures
        r == range_of(a, b),
        r.0 <= r.1,
        r.0 <= 0xD7FF || 0xE000 <= r.0 <= 0x10FFFF,
        r.1 <= 0xD7FF || 0xE000 <= r.1 <= 0x10FFFF,
{
    if a <= b {
        (a as u32, b as u32)
    } else {
        (b as u32, a as u32)
    }
}

proof fn lemma_class_items_advance(cs: Seq<char>, i: int, first: bool)
    ensures
        match class_items(cs, i, first) {
            Some((_, next)) => i < next <= cs.len(),
            None => true,
        },
    decreases cs.len() - i,
{
    if 0 <= i < cs.len() && !(cs[i] == ']' && !first) {
        let j = if cs[i] == '\\' {
            i + 2
        } else {
            i + 1
        };
        if j <= cs.len() {
            lemma_class_items_advance(cs, j, false);
        }
        if j + 1 <= cs.len() {
            lemma_class_items_advance(cs, j + 1, false);
        }
        if j + 1 < cs.len() {
            let k = j + 1;
            let after = if cs[k] == '\\' {
                k + 2
            } else {
                k + 1
            };
            if after <= cs.len() {
                lemma_class_items_advance(cs, after, false);
            }
        }
    }
}

/// Parses a bracket class whose body starts at `start` (just after `[`).
pub fn parse_char_class(cs: &Vec<char>, start: usize) -> (r: Option<(CharSet, usize)>)
    ensures
        match class_at(cs@, start as int) {
            Some((set, next)) => match r {
                Some((c, after)) => members(c@) == set && after == next,
                None => false,
            },
            None => r is None,
        },
{
    let n = cs.len();
    let negated = start < n && (cs[start] == '!' || cs[start] == '^');
    let mut i: usize = if negated {
        start + 1
    } else {
        start
    };
    let ghost body = i as int;
    let mut first = true;
    let mut ranges: Vec<(u32, u32)> = Vec::new();
    let mut closed = false;
    let mut failed = i > n;
    assert(ranges@ + Seq::<(u32, u32)>::empty() =~= Seq::<(u32, u32)>::empty());
    while !closed && !failed
        invariant
            n == cs@.len(),
            i <= n || failed,
            forall|k: int|
                0 <= k < ranges@.len() ==> #[trigger] ranges@[k].0 <= ranges@[k].1 && (
                ranges@[k].0 <= 0xD7FF || 0xE000 <= ranges@[k].0 <= 0x10FFFF) && (ranges@[k].1
                <= 0xD7FF || 0xE000 <= ranges@[k].1 <= 0x10FFFF),
            failed ==> class_items(cs@, body, true) is None,
            closed ==> class_items(cs@, body, true) == Some((ranges@, i as int)),
            !closed && !failed ==> class_items(cs@, body, true) == match class_items(
                cs@,
                i as int,
                first,
            ) {
                Some((rest, next)) => Some((ranges@ + rest, next)),
                None => None,
            },
        decreases n + 1 - i + (if closed || failed {
            0int
        } else {
            1int
        }),
    {
        if i >= n {
            failed = true;
        } else if cs[i] == ']' && !first {
            closed = true;
            i = i + 1;
            assert(ranges@ + Seq::<(u32, u32)>::empty() =~= ranges@);
        } else {
            let ghost i0 = i as int;
            let ghost first0 = first;
            let ghost before = ranges@;
            let mut st: char = cs[i];
            let mut ok = true;
            if cs[i] == '\\' {
                if i + 1 < n {
                    st = cs[i + 1];
                    i = i + 2;
                } else {
                    ok = false;
                }
            } else {
                i = i + 1;
            }
            if !ok {
                failed = true;
            } else if i < n && cs[i] == '-' {
                let k = i + 1;
                if k < n && cs[k] != ']' {
                    let mut en: char = cs[k];
                    let mut ok2 = true;
                    if cs[k] == '\\' {
                        if k + 1 < n {
                            en = cs[k + 1];
                            i = k + 2;
                        } else {
                            ok2 = false;
                        }
                    } else {
                        i = k + 1;
                    }
                    if !ok2 {
                        failed = true;
                    } else {
                        proof {
                    lemma_char_code(st);
                }
                        ranges.push(class_range(st, en));
                        first = false;
                        proof {
                            assert forall|rest: Seq<(u32, u32)>| (before + (seq![range_of(st, en)] + rest))
                                == #[trigger] (ranges@ + rest) by {
                                assert(before + (seq![range_of(st, en)] + rest) =~= ranges@ + rest);
                            }
                        }
                    }
                } else {
                    proof {
                    lemma_char_code(st);
                }
                    ranges.push((st as u32, st as u32));
                    ranges.push(('-' as u32, '-' as u32));
                    first = false;
                    i = k;
                    proof {
                        assert forall|m: int| 0 <= m < ranges@.len() implies #[trigger] ranges@[m].0 <= ranges@[m].1 && (
                            ranges@[m].0 <= 0xD7FF || 0xE000 <= ranges@[m].0 <= 0x10FFFF) && (ranges@[m].1
                            <= 0xD7FF || 0xE000 <= ranges@[m].1 <= 0x10FFFF) by {
                            if m < before.len() {
                                assert(ranges@[m] == before[m]);
                                assert(before[m].0 <= before[m].1);
                            } else if m == before.len() {
                                assert(ranges@[m] == (st as u32, st as u32));
                            } else {
                                assert(ranges@[m] == (45u32, 45u32));
                            }
                        }
                        assert forall|rest: Seq<(u32, u32)>| (before + (seq![
                            (st as u32, st as u32),
                            ('-' as u32, '-' as u32),
                        ] + rest)) == #[trigger] (ranges@ + rest) by {
                            assert(before + (seq![(st as u32, st as u32), ('-' as u32, '-' as u32)]
                                + rest) =~= ranges@ + rest);
                        }
                    }
                }
            } else {
                proof {
                    lemma_char_code(st);
                }
                ranges.push((st as u32, st as u32));
                first = false;
                proof {
                    assert forall|rest: Seq<(u32, u32)>| (before + (seq![(st as u32, st as u32)] + rest))
                        == #[trigger] (ranges@ + rest) by {
                        assert(before + (seq![(st as u32, st as u32)] + rest) =~= ranges@ + rest);
                    }
                }
            }
        }
    }
    if failed {
        return None;
    }
    proof {
        lemma_class_items_advance(cs@, body, true);
    }
    let ghost raw = ranges@;
    let set = CharSet::from_ranges(ranges, negated);
    assert forall|x: int| members(set@).contains(x) == class_member(raw, negated, x) by {
        assert(charset_has(set@, x) <==> class_member(raw, negated, x));
    }
    assert(members(set@) =~= Set::new(|x: int| class_member(raw, negated, x)));
    Some((set, i))
}


/// No literal token of the segment is `/`.
pub open spec fn slash_free(ts: Seq<SegTok>) -> bool {
    forall|k: int| 0 <= k < ts.len() ==> !(#[trigger] ts[k] == SegTok::Exact('/'))
}

fn literal_token(c: char) -> (t: SegmentToken)
    ensures
        t@ == SegTok::Exact(c),
{
    SegmentToken::Exact(c)
}

/// Parses a segment pattern into tokens.
pub fn parse_segment_pattern(pattern: &str) -> (r: Option<Vec<SegmentToken>>)
    ensures
        match segment_tokens(pattern@) {
            Some(ts) => r is Some && seg_view(r->0@) == ts,
            None => r is None,
        },
        (forall|k: int| 0 <= k < pattern@.len() ==> pattern@[k] != '/') ==> (r matches Some(v)
            ==> slash_free(seg_view(v@))),
{
    let cs = chars_of(pattern);
    let n = cs.len();
    let mut tokens: Vec<SegmentToken> = Vec::new();
    let mut i: usize = 0;
    assert(seg_view(tokens@) + Seq::<SegTok>::empty() =~= Seq::<SegTok>::empty());
    while i < n
        invariant
            n == cs@.len(),
            cs@ == pattern@,
            i <= n,
            segment_from(cs@, 0) == match segment_from(cs@, i as int) {
                Some(rest) => Some(seg_view(tokens@) + rest),
                None => None::<Seq<SegTok>>,
            },
            (forall|k: int| 0 <= k < pattern@.len() ==> pattern@[k] != '/') ==> slash_free(
                seg_view(tokens@),
            ),
        decreases n - i,
    {
        let ghost before = seg_view(tokens@);
        let ghost old_tokens = tokens@;
        let c = cs[i];
        if c == '*' {
            tokens.push(SegmentToken::AnySeq); assert(tokens@.len() == old_tokens.len() + 1);
            i = i + 1;
        } else if c == '?' {
            tokens.push(SegmentToken::AnyChar); assert(tokens@.len() == old_tokens.len() + 1);
            i = i + 1;
        } else if c == '[' {
            match parse_char_class(&cs, i + 1) {
                Some((set, next)) => {
                    proof {
                        let b = if i + 1 < n && (cs@[i + 1] == '!' || cs@[i + 1] == '^') { i + 2 } else { i + 1 };
                        lemma_class_items_advance(cs@, b as int, true);
                    }
                    tokens.push(SegmentToken::Class(set)); assert(tokens@.len() == old_tokens.len() + 1);
                    i = next;
                },
                None => {
                    return None;
                },
            }
        } else if c == '\\' {
            if i + 1 < n {
                tokens.push(literal_token(cs[i + 1])); assert(tokens@.len() == old_tokens.len() + 1);
                i = i + 2;
            } else {
                return None;
            }
        } else {
            tokens.push(literal_token(c)); assert(tokens@.len() == old_tokens.len() + 1);
            i = i + 1;
        }
        proof {
            assert(tokens@.len() == old_tokens.len() + 1);
            assert(forall|k: int| 0 <= k < old_tokens.len() ==> tokens@[k] == old_tokens[k]);
            assert(seg_view(tokens@) =~= before.push(tokens@.last()@));
            if forall|k: int| 0 <= k < pattern@.len() ==> pattern@[k] != '/' {
                assert forall|k: int| 0 <= k < seg_view(tokens@).len() implies !(#[trigger] seg_view(tokens@)[k] == SegTok::Exact('/')) by {
                    if k < before.len() {
                        assert(seg_view(tokens@)[k] == before[k]);
                    }
                }
            }
            assert forall|rest: Seq<SegTok>| #[trigger] (seg_view(tokens@) + rest) == before + (seq![tokens@.last()@] + rest) by {
                assert(seg_view(tokens@) + rest =~= before + (seq![tokens@.last()@] + rest));
            }
        }
    }
    assert(seg_view(tokens@) + Seq::<SegTok>::empty() =~= seg_view(tokens@));
    Some(tokens)
}

proof fn lemma_tokens_none(segments: Seq<Seq<char>>, n: nat, m: nat)
    requires
        n <= m <= segments.len(),
        path_tokens_upto(segments, n) is None,
    ensures
        path_tokens_upto(segments, m) is None,
    decreases m - n,
{
    if n < m {
        lemma_tokens_none(segments, n, (m - 1) as nat);
    }
}

proof fn lemma_split_pieces(s: Seq<char>, c: char)
    ensures
        forall|k: int, m: int|
            0 <= k < split_char(s, c).len() && 0 <= m < split_char(s, c)[k].len() ==> #[trigger] split_char(s, c)[k][m] != c,
    decreases s.len(),
{
    lemma_index_of_char(s, c);
    match index_of_char(s, c) {
        Some(i) => {
            lemma_split_pieces(s.skip(i + 1), c);
            let rest = split_char(s.skip(i + 1), c);
            assert forall|k: int, m: int|
                0 <= k < split_char(s, c).len() && 0 <= m < split_char(s, c)[k].len() implies #[trigger] split_char(s, c)[k][m] != c by {
                if k > 0 {
                    assert(split_char(s, c)[k] == rest[k - 1]);
                }
            }
        },
        None => {},
    }
}

/// Parses a path pattern into tokens: `**` segments and segment patterns.
pub fn parse_path_pattern(pattern: &str) -> (r: Option<Vec<PathToken>>)
    ensures
        match path_tokens(pattern@) {
            Some(ts) => r is Some && path_view(r->0@) == ts,
            None => r is None,
        },
        r matches Some(v) ==> forall|k: int| 0 <= k < v@.len() ==> (#[trigger] v@[k]@ matches PathTok::Segment(ts) ==> slash_free(ts)),
{
    let segments = split_str(pattern, '/');
    let ghost segs = split_char(pattern@, '/');
    proof {
        lemma_split_pieces(pattern@, '/');
    }
    let mut tokens: Vec<PathToken> = Vec::new();
    let mut i: usize = 0;
    assert(path_view(tokens@) =~= Seq::<PathTok>::empty());
    while i < segments.len()
        invariant
            i <= segments.len(),
            pieces_view(segments@) == segs,
            segs == split_char(pattern@, '/'),
            forall|k: int, m: int|
                0 <= k < segs.len() && 0 <= m < segs[k].len() ==> #[trigger] segs[k][m] != '/',
            path_tokens_upto(segs, i as nat) == Some(path_view(tokens@)),
            forall|k: int| 0 <= k < tokens@.len() ==> (#[trigger] tokens@[k]@ matches PathTok::Segment(ts) ==> slash_free(ts)),
        decreases segments.len() - i,
    {
        let seg = segments[i].as_str();
        assert(seg@ == segs[i as int]);
        let ghost before = tokens@;
        if str_eq(seg, "**") {
            tokens.push(PathToken::AnySegments);
        } else {
            match parse_segment_pattern(seg) {
                Some(ts) => {
                    tokens.push(PathToken::Segment(ts));
                },
                None => {
                    proof {
                        lemma_tokens_none(segs, (i + 1) as nat, segs.len());
                    }
                    return None;
                },
            }
        }
        proof {
            assert(path_view(tokens@) =~= path_view(before).push(tokens@.last()@));
            assert forall|k: int| 0 <= k < tokens@.len() implies (#[trigger] tokens@[k]@ matches PathTok::Segment(ts) ==> slash_free(ts)) by {
                if k < before.len() {
                    assert(tokens@[k] == before[k]);
                }
            }
        }
        i = i + 1;
    }
    Some(tokens)
}


/// The code points a segment token can consume.
pub open spec fn tok_set(t: SegTok) -> Set<int> {
    match t {
        SegTok::Exact(c) => set![c as int],
        SegTok::AnyChar => Set::new(|x: int| non_separator(x)),
        SegTok::AnySeq => Set::new(|x: int| non_separator(x)),
        SegTok::Class(s) => s,
    }
}

/// Whether two sets of code points share one.
pub open spec fn meet(a: Set<int>, b: Set<int>) -> bool {
    exists|x: int| a.contains(x) && b.contains(x)
}

/// Whether the rest of segment pattern `l` from token `i` and the rest of `r` from
/// token `j` can both be completed by one run of characters: the product of the two
/// patterns' automata reaches its final state from `(i, j)`.
pub open spec fn seg_co(l: Seq<SegTok>, r: Seq<SegTok>, i: int, j: int) -> bool
    decreases (l.len() - i) + (r.len() - j),
{
    if i < 0 || j < 0 || i > l.len() || j > r.len() {
        false
    } else if i == l.len() && j == r.len() {
        true
    } else {
        let l_any = i < l.len() && l[i] is AnySeq;
        let r_any = j < r.len() && r[j] is AnySeq;
        ||| (l_any && seg_co(l, r, i + 1, j))
        ||| (r_any && seg_co(l, r, i, j + 1))
        ||| (i < l.len() && j < r.len() && !(l_any && r_any) && meet(tok_set(l[i]), tok_set(r[j]))
            && seg_co(
            l,
            r,
            if l_any {
                i
            } else {
                i + 1
            },
            if r_any {
                j
            } else {
                j + 1
            },
        ))
    }
}

/// The characters a segment token can consume.
fn token_charset(t: &SegmentToken) -> (r: CharSet)
    requires
        !(t@ == SegTok::Exact('/')),
    ensures
        forall|x: int| #[trigger] charset_has(r@, x) <==> tok_set(t@).contains(x),
{
    match t {
        SegmentToken::Exact(c) => CharSet::from_char(*c),
        SegmentToken::AnyChar => CharSet::any_non_separator(),
        SegmentToken::AnySeq => CharSet::any_non_separator(),
        SegmentToken::Class(cs) => cs.clone(),
    }
}

fn tokens_meet(a: &SegmentToken, b: &SegmentToken) -> (r: bool)
    requires
        !(a@ == SegTok::Exact('/')),
        !(b@ == SegTok::Exact('/')),
    ensures
        r == meet(tok_set(a@), tok_set(b@)),
{
    let x = token_charset(a);
    let y = token_charset(b);
    let r = x.intersects(&y);
    proof {
        if r {
            let w = choose|w: int| charset_has(x@, w) && charset_has(y@, w);
            assert(tok_set(a@).contains(w) && tok_set(b@).contains(w));
        }
        if meet(tok_set(a@), tok_set(b@)) {
            let w = choose|w: int| tok_set(a@).contains(w) && tok_set(b@).contains(w);
            assert(charset_has(x@, w) && charset_has(y@, w));
        }
    }
    r
}

fn is_any_seq(t: &SegmentToken) -> (r: bool)
    ensures
        r == (t@ is AnySeq),
{
    match t {
        SegmentToken::AnySeq => true,
        _ => false,
    }
}

/// Whether two segment patterns can match a common segment.
pub fn segment_patterns_intersect(left: &Vec<SegmentToken>, right: &Vec<SegmentToken>) -> (r: bool)
    requires
        slash_free(seg_view(left@)),
        slash_free(seg_view(right@)),
    ensures
        r == seg_co(seg_view(left@), seg_view(right@), 0, 0),
{
    let ghost l = seg_view(left@);
    let ghost rr = seg_view(right@);
    let n = left.len();
    let m = right.len();
    // The row of `n`: only `**`-free completions of `right` remain.
    let mut next: Vec<bool> = Vec::new();
    let mut k: usize = 0;
    while k < m
        invariant
            k <= m,
            m == right@.len(),
            next@.len() == k,
        decreases m - k,
    {
        next.push(false);
        k = k + 1;
    }
    let mut next_end = true;
    let mut j: usize = m;
    while j > 0
        invariant
            j <= m,
            m == right@.len(),
            n == left@.len(),
            l == seg_view(left@),
            rr == seg_view(right@),
            next@.len() == m,
            next_end == seg_co(l, rr, n as int, m as int),
            forall|jj: int| j <= jj < m ==> #[trigger] next@[jj] == seg_co(l, rr, n as int, jj),
        decreases j,
    {
        j = j - 1;
        assert(rr[j as int] == right@[j as int]@);
        let r_any = is_any_seq(&right[j]);
        let later = if j + 1 == m {
            next_end
        } else {
            next[j + 1]
        };
        next.set(j, r_any && later);
        assert(next@[j as int] == seg_co(l, rr, n as int, j as int));
    }
    let mut i: usize = n;
    while i > 0
        invariant
            i <= n,
            m == right@.len(),
            n == left@.len(),
            l == seg_view(left@),
            rr == seg_view(right@),
            slash_free(l),
            slash_free(rr),
            next@.len() == m,
            next_end == seg_co(l, rr, i as int, m as int),
            forall|jj: int| 0 <= jj < m ==> #[trigger] next@[jj] == seg_co(l, rr, i as int, jj),
        decreases i,
    {
        i = i - 1;
        assert(l[i as int] == left@[i as int]@);
        let l_any = is_any_seq(&left[i]);
        let cur_end = l_any && next_end;
        assert(cur_end == seg_co(l, rr, i as int, m as int));
        let mut cur: Vec<bool> = Vec::new();
        let mut k: usize = 0;
        while k < m
            invariant
                k <= m,
                cur@.len() == k,
            decreases m - k,
        {
            cur.push(false);
            k = k + 1;
        }
        let mut j: usize = m;
        while j > 0
            invariant
                j <= m,
                i < n,
                m == right@.len(),
                n == left@.len(),
                l == seg_view(left@),
                rr == seg_view(right@),
                slash_free(l),
                slash_free(rr),
                l_any == (l[i as int] is AnySeq),
                next@.len() == m,
                cur@.len() == m,
                next_end == seg_co(l, rr, i + 1, m as int),
                cur_end == seg_co(l, rr, i as int, m as int),
                forall|jj: int| 0 <= jj < m ==> #[trigger] next@[jj] == seg_co(l, rr, i + 1, jj),
                forall|jj: int| j <= jj < m ==> #[trigger] cur@[jj] == seg_co(l, rr, i as int, jj),
            decreases j,
        {
            j = j - 1;
            assert(rr[j as int] == right@[j as int]@);
            let r_any = is_any_seq(&right[j]);
            let right_cur = if j + 1 == m {
                cur_end
            } else {
                cur[j + 1]
            };
            let right_next = if j + 1 == m {
                next_end
            } else {
                next[j + 1]
            };
            let mut v = (l_any && next[j]) || (r_any && right_cur);
            if !v && !(l_any && r_any) {
                proof {
                    assert(!(l[i as int] == SegTok::Exact('/')));
                    assert(!(rr[j as int] == SegTok::Exact('/')));
                }
                if tokens_meet(&left[i], &right[j]) {
                    v = if l_any {
                        right_cur
                    } else if r_any {
                        next[j]
                    } else {
                        right_next
                    };
                }
            }
            cur.set(j, v);
            assert(cur@[j as int] == seg_co(l, rr, i as int, j as int));
        }
        next = cur;
        next_end = cur_end;
    }
    if m == 0 {
        next_end
    } else {
        next[0]
    }
}


/// Whether two path tokens can consume a common segment.
pub open spec fn label_meet(a: PathTok, b: PathTok) -> bool {
    match a {
        PathTok::AnySegments => match b {
            PathTok::AnySegments => true,
            PathTok::Segment(t) => seg_co(t, seq![SegTok::AnySeq], 0, 0),
        },
        PathTok::Segment(x) => match b {
            PathTok::AnySegments => seg_co(x, seq![SegTok::AnySeq], 0, 0),
            PathTok::Segment(y) => seg_co(x, y, 0, 0),
        },
    }
}

/// Whether the rest of path pattern `l` from token `i` and the rest of `r` from
/// token `j` can both be completed by one sequence of segments.
pub open spec fn path_co(l: Seq<PathTok>, r: Seq<PathTok>, i: int, j: int) -> bool
    decreases (l.len() - i) + (r.len() - j),
{
    if i < 0 || j < 0 || i > l.len() || j > r.len() {
        false
    } else if i == l.len() && j == r.len() {
        true
    } else {
        let l_any = i < l.len() && l[i] is AnySegments;
        let r_any = j < r.len() && r[j] is AnySegments;
        ||| (l_any && path_co(l, r, i + 1, j))
        ||| (r_any && path_co(l, r, i, j + 1))
        ||| (i < l.len() && j < r.len() && !(l_any && r_any) && label_meet(l[i], r[j]) && path_co(
            l,
            r,
            if l_any {
                i
            } else {
                i + 1
            },
            if r_any {
                j
            } else {
                j + 1
            },
        ))
    }
}

/// Path tokens whose segment patterns hold no `/` literal.
pub open spec fn path_slash_free(ts: Seq<PathTok>) -> bool {
    forall|k: int| 0 <= k < ts.len() ==> (#[trigger] ts[k] matches PathTok::Segment(t) ==> slash_free(t))
}

fn labels_meet(a: &PathToken, b: &PathToken) -> (r: bool)
    requires
        a@ matches PathTok::Segment(t) ==> slash_free(t),
        b@ matches PathTok::Segment(t) ==> slash_free(t),
    ensures
        r == label_meet(a@, b@),
{
    let mut any: Vec<SegmentToken> = Vec::new();
    any.push(SegmentToken::AnySeq);
    assert(seg_view(any@) =~= seq![SegTok::AnySeq]);
    match a {
        PathToken::AnySegments => match b {
            PathToken::AnySegments => true,
            PathToken::Segment(t) => segment_patterns_intersect(t, &any),
        },
        PathToken::Segment(x) => match b {
            PathToken::AnySegments => segment_patterns_intersect(x, &any),
            PathToken::Segment(y) => segment_patterns_intersect(x, y),
        },
    }
}

fn is_any_segments(t: &PathToken) -> (r: bool)
    ensures
        r == (t@ is AnySegments),
{
    match t {
        PathToken::AnySegments => true,
        _ => false,
    }
}

/// Whether two path patterns can match a common path.
pub fn path_patterns_intersect(left: &Vec<PathToken>, right: &Vec<PathToken>) -> (r: bool)
    requires
        path_slash_free(path_view(left@)),
        path_slash_free(path_view(right@)),
    ensures
        r == path_co(path_view(left@), path_view(right@), 0, 0),
{
    let ghost l = path_view(left@);
    let ghost rr = path_view(right@);
    let n = left.len();
    let m = right.len();
    let mut next: Vec<bool> = Vec::new();
    let mut k: usize = 0;
    while k < m
        invariant
            k <= m,
            next@.len() == k,
        decreases m - k,
    {
        next.push(false);
        k = k + 1;
    }
    let mut next_end = true;
    let mut j: usize = m;
    while j > 0
        invariant
            j <= m,
            m == right@.len(),
            n == left@.len(),
            l == path_view(left@),
            rr == path_view(right@),
            next@.len() == m,
            next_end == path_co(l, rr, n as int, m as int),
            forall|jj: int| j <= jj < m ==> #[trigger] next@[jj] == path_co(l, rr, n as int, jj),
        decreases j,
    {
        j = j - 1;
        assert(rr[j as int] == right@[j as int]@);
        let r_any = is_any_segments(&right[j]);
        let later = if j + 1 == m {
            next_end
        } else {
            next[j + 1]
        };
        next.set(j, r_any && later);
        assert(next@[j as int] == path_co(l, rr, n as int, j as int));
    }
    let mut i: usize = n;
    while i > 0
        invariant
            i <= n,
            m == right@.len(),
            n == left@.len(),
            l == path_view(left@),
            rr == path_view(right@),
            path_slash_free(l),
            path_slash_free(rr),
            next@.len() == m,
            next_end == path_co(l, rr, i as int, m as int),
            forall|jj: int| 0 <= jj < m ==> #[trigger] next@[jj] == path_co(l, rr, i as int, jj),
        decreases i,
    {
        i = i - 1;
        assert(l[i as int] == left@[i as int]@);
        let l_any = is_any_segments(&left[i]);
        let cur_end = l_any && next_end;
        assert(cur_end == path_co(l, rr, i as int, m as int));
        let mut cur: Vec<bool> = Vec::new();
        let mut k: usize = 0;
        while k < m
            invariant
                k <= m,
                cur@.len() == k,
            decreases m - k,
        {
            cur.push(false);
            k = k + 1;
        }
        let mut j: usize = m;
        while j > 0
            invariant
                j <= m,
                i < n,
                m == right@.len(),
                n == left@.len(),
                l == path_view(left@),
                rr == path_view(right@),
                path_slash_free(l),
                path_slash_free(rr),
                l_any == (l[i as int] is AnySegments),
                next@.len() == m,
                cur@.len() == m,
                next_end == path_co(l, rr, i + 1, m as int),
                cur_end == path_co(l, rr, i as int, m as int),
                forall|jj: int| 0 <= jj < m ==> #[trigger] next@[jj] == path_co(l, rr, i + 1, jj),
                forall|jj: int| j <= jj < m ==> #[trigger] cur@[jj] == path_co(l, rr, i as int, jj),
            decreases j,
        {
            j = j - 1;
            assert(rr[j as int] == right@[j as int]@);
            let r_any = is_any_segments(&right[j]);
            let right_cur = if j + 1 == m {
                cur_end
            } else {
                cur[j + 1]
            };
            let right_next = if j + 1 == m {
                next_end
            } else {
                next[j + 1]
            };
            let mut v = (l_any && next[j]) || (r_any && right_cur);
            if !v && !(l_any && r_any) {
                proof {
                    assert(l[i as int] matches PathTok::Segment(t) ==> slash_free(t));
                    assert(rr[j as int] matches PathTok::Segment(t) ==> slash_free(t));
                }
                if labels_meet(&left[i], &right[j]) {
                    v = if l_any {
                        right_cur
                    } else if r_any {
                        next[j]
                    } else {
                        right_next
                    };
                }
            }
            cur.set(j, v);
            assert(cur@[j as int] == path_co(l, rr, i as int, j as int));
        }
        next = cur;
        next_end = cur_end;
    }
    if m == 0 {
        next_end
    } else {
        next[0]
    }
}

/// Whether two segment patterns can be completed together does not depend on
/// which one is named first.
pub proof fn lemma_seg_co_symmetric(l: Seq<SegTok>, r: Seq<SegTok>, i: int, j: int)
    ensures
        seg_co(l, r, i, j) == seg_co(r, l, j, i),
    decreases (l.len() - i) + (r.len() - j),
{
    if i < 0 || j < 0 || i > l.len() || j > r.len() {
    } else if i == l.len() && j == r.len() {
    } else {
        let l_any = i < l.len() && l[i] is AnySeq;
        let r_any = j < r.len() && r[j] is AnySeq;
        if l_any {
            lemma_seg_co_symmetric(l, r, i + 1, j);
        }
        if r_any {
            lemma_seg_co_symmetric(l, r, i, j + 1);
        }
        if i < l.len() && j < r.len() && !(l_any && r_any) {
            lemma_seg_co_symmetric(
                l,
                r,
                if l_any {
                    i
                } else {
                    i + 1
                },
                if r_any {
                    j
                } else {
                    j + 1
                },
            );
            assert(meet(tok_set(l[i]), tok_set(r[j])) == meet(tok_set(r[j]), tok_set(l[i])));
        }
    }
}

proof fn lemma_label_meet_symmetric(a: PathTok, b: PathTok)
    ensures
        label_meet(a, b) == label_meet(b, a),
{
    match (a, b) {
        (PathTok::Segment(x), PathTok::Segment(y)) => lemma_seg_co_symmetric(x, y, 0, 0),
        _ => {},
    }
}

/// Whether two path patterns can be completed together does not depend on
/// which one is named first.
pub proof fn lemma_path_co_symmetric(l: Seq<PathTok>, r: Seq<PathTok>, i: int, j: int)
    ensures
        path_co(l, r, i, j) == path_co(r, l, j, i),
    decreases (l.len() - i) + (r.len() - j),
{
    if i < 0 || j < 0 || i > l.len() || j > r.len() {
    } else if i == l.len() && j == r.len() {
    } else {
        let l_any = i < l.len() && l[i] is AnySegments;
        let r_any = j < r.len() && r[j] is AnySegments;
        if l_any {
            lemma_path_co_symmetric(l, r, i + 1, j);
        }
        if r_any {
            lemma_path_co_symmetric(l, r, i, j + 1);
        }
        if i < l.len() && j < r.len() && !(l_any && r_any) {
            lemma_path_co_symmetric(
                l,
                r,
                if l_any {
                    i
                } else {
                    i + 1
                },
                if r_any {
                    j
                } else {
                    j + 1
                },
            );
            lemma_label_meet_symmetric(l[i], r[j]);
        }
    }
}

/// Two boundary patterns overlap exactly when they overlap the other way round.
pub proof fn lemma_overlap_symmetric(left: Seq<char>, right: Seq<char>)
    ensures
        overlap(left, right) == overlap(right, left),
{
    if let (Some(a), Some(b)) = (path_tokens(left), path_tokens(right)) {
        lemma_path_co_symmetric(a, b, 0, 0);
    }
}

/// Whether the segment tokens of `ts` from `i` on match the code points `w`:
/// `*` takes any run of code points of characters other than `/`, every other
/// token takes one code point of its set.
pub open spec fn seg_matches(ts: Seq<SegTok>, i: int, w: Seq<int>) -> bool
    decreases ts.len() - i + w.len(),
{
    if i < 0 || i > ts.len() {
        false
    } else if i == ts.len() {
        w.len() == 0
    } else if ts[i] is AnySeq {
        seg_matches(ts, i + 1, w) || (w.len() > 0 && tok_set(ts[i]).contains(w[0])
            && seg_matches(ts, i, w.drop_first()))
    } else {
        w.len() > 0 && tok_set(ts[i]).contains(w[0]) && seg_matches(ts, i + 1, w.drop_first())
    }
}

/// Whether the path tokens of `ts` from `i` on match the segments `segs`: `**`
/// takes any number of segments of characters other than `/`, every other token
/// takes one segment that its segment pattern matches.
pub open spec fn path_matches(ts: Seq<PathTok>, i: int, segs: Seq<Seq<int>>) -> bool
    decreases ts.len() - i + segs.len(),
{
    if i < 0 || i > ts.len() {
        false
    } else if i == ts.len() {
        segs.len() == 0
    } else {
        match ts[i] {
            PathTok::AnySegments => path_matches(ts, i + 1, segs) || (segs.len() > 0
                && seg_matches(seq![SegTok::AnySeq], 0, segs[0]) && path_matches(
                ts,
                i,
                segs.drop_first(),
            )),
            PathTok::Segment(t) => segs.len() > 0 && seg_matches(t, 0, segs[0]) && path_matches(
                ts,
                i + 1,
                segs.drop_first(),
            ),
        }
    }
}

proof fn lemma_seg_co_of_common_word(l: Seq<SegTok>, r: Seq<SegTok>, i: int, j: int, w: Seq<int>)
    requires
        seg_matches(l, i, w),
        seg_matches(r, j, w),
    ensures
        seg_co(l, r, i, j),
    decreases (l.len() - i) + (r.len() - j) + w.len(),
{
    let l_any = i < l.len() && l[i] is AnySeq;
    let r_any = j < r.len() && r[j] is AnySeq;
    if i == l.len() && j == r.len() {
    } else if l_any && seg_matches(l, i + 1, w) {
        lemma_seg_co_of_common_word(l, r, i + 1, j, w);
    } else if r_any && seg_matches(r, j + 1, w) {
        lemma_seg_co_of_common_word(l, r, i, j + 1, w);
    } else {
        let rest = w.drop_first();
        let ni = if l_any {
            i
        } else {
            i + 1
        };
        let nj = if r_any {
            j
        } else {
            j + 1
        };
        if l_any && r_any {
            lemma_seg_co_of_common_word(l, r, i, j, rest);
        } else {
            assert(tok_set(l[i]).contains(w[0]) && tok_set(r[j]).contains(w[0]));
            assert(meet(tok_set(l[i]), tok_set(r[j])));
            lemma_seg_co_of_common_word(l, r, ni, nj, rest);
        }
    }
}

proof fn lemma_common_word_of_seg_co(l: Seq<SegTok>, r: Seq<SegTok>, i: int, j: int) -> (w: Seq<int>)
    requires
        seg_co(l, r, i, j),
    ensures
        seg_matches(l, i, w),
        seg_matches(r, j, w),
    decreases (l.len() - i) + (r.len() - j),
{
    let l_any = i < l.len() && l[i] is AnySeq;
    let r_any = j < r.len() && r[j] is AnySeq;
    if i == l.len() && j == r.len() {
        Seq::empty()
    } else if l_any && seg_co(l, r, i + 1, j) {
        lemma_common_word_of_seg_co(l, r, i + 1, j)
    } else if r_any && seg_co(l, r, i, j + 1) {
        lemma_common_word_of_seg_co(l, r, i, j + 1)
    } else {
        let ni = if l_any {
            i
        } else {
            i + 1
        };
        let nj = if r_any {
            j
        } else {
            j + 1
        };
        let x = choose|x: int| tok_set(l[i]).contains(x) && tok_set(r[j]).contains(x);
        let rest = lemma_common_word_of_seg_co(l, r, ni, nj);
        let w = seq![x] + rest;
        assert(w.drop_first() =~= rest);
        assert(w[0] == x);
        w
    }
}

proof fn lemma_label_meet_of_common_word(a: PathTok, b: PathTok, w: Seq<int>)
    requires
        match a {
            PathTok::AnySegments => seg_matches(seq![SegTok::AnySeq], 0, w),
            PathTok::Segment(t) => seg_matches(t, 0, w),
        },
        match b {
            PathTok::AnySegments => seg_matches(seq![SegTok::AnySeq], 0, w),
            PathTok::Segment(t) => seg_matches(t, 0, w),
        },
    ensures
        label_meet(a, b),
{
    match (a, b) {
        (PathTok::AnySegments, PathTok::AnySegments) => {},
        (PathTok::AnySegments, PathTok::Segment(t)) => {
            lemma_seg_co_of_common_word(t, seq![SegTok::AnySeq], 0, 0, w);
        },
        (PathTok::Segment(t), PathTok::AnySegments) => {
            lemma_seg_co_of_common_word(t, seq![SegTok::AnySeq], 0, 0, w);
        },
        (PathTok::Segment(x), PathTok::Segment(y)) => {
            lemma_seg_co_of_common_word(x, y, 0, 0, w);
        },
    }
}

proof fn lemma_common_word_of_label_meet(a: PathTok, b: PathTok) -> (w: Seq<int>)
    requires
        label_meet(a, b),
    ensures
        match a {
            PathTok::AnySegments => seg_matches(seq![SegTok::AnySeq], 0, w),
            PathTok::Segment(t) => seg_matches(t, 0, w),
        },
        match b {
            PathTok::AnySegments => seg_matches(seq![SegTok::AnySeq], 0, w),
            PathTok::Segment(t) => seg_matches(t, 0, w),
        },
{
    match (a, b) {
        (PathTok::AnySegments, PathTok::AnySegments) => {
            let w = Seq::<int>::empty();
            let star = seq![SegTok::AnySeq];
            assert(seg_matches(star, 1, w));
            w
        },
        (PathTok::AnySegments, PathTok::Segment(t)) => {
            lemma_common_word_of_seg_co(t, seq![SegTok::AnySeq], 0, 0)
        },
        (PathTok::Segment(t), PathTok::AnySegments) => {
            lemma_common_word_of_seg_co(t, seq![SegTok::AnySeq], 0, 0)
        },
        (PathTok::Segment(x), PathTok::Segment(y)) => {
            lemma_common_word_of_seg_co(x, y, 0, 0)
        },
    }
}

proof fn lemma_path_co_of_common_path(
    l: Seq<PathTok>,
    r: Seq<PathTok>,
    i: int,
    j: int,
    segs: Seq<Seq<int>>,
)
    requires
        path_matches(l, i, segs),
        path_matches(r, j, segs),
    ensures
        path_co(l, r, i, j),
    decreases (l.len() - i) + (r.len() - j) + segs.len(),
{
    let l_any = i < l.len() && l[i] is AnySegments;
    let r_any = j < r.len() && r[j] is AnySegments;
    if i == l.len() && j == r.len() {
    } else if l_any && path_matches(l, i + 1, segs) {
        lemma_path_co_of_common_path(l, r, i + 1, j, segs);
    } else if r_any && path_matches(r, j + 1, segs) {
        lemma_path_co_of_common_path(l, r, i, j + 1, segs);
    } else {
        let rest = segs.drop_first();
        let ni = if l_any {
            i
        } else {
            i + 1
        };
        let nj = if r_any {
            j
        } else {
            j + 1
        };
        if l_any && r_any {
            lemma_path_co_of_common_path(l, r, i, j, rest);
        } else {
            lemma_label_meet_of_common_word(l[i], r[j], segs[0]);
            lemma_path_co_of_common_path(l, r, ni, nj, rest);
        }
    }
}

proof fn lemma_common_path_of_path_co(l: Seq<PathTok>, r: Seq<PathTok>, i: int, j: int) -> (segs: Seq<
    Seq<int>,
>)
    requires
        path_co(l, r, i, j),
    ensures
        path_matches(l, i, segs),
        path_matches(r, j, segs),
    decreases (l.len() - i) + (r.len() - j),
{
    let l_any = i < l.len() && l[i] is AnySegments;
    let r_any = j < r.len() && r[j] is AnySegments;
    if i == l.len() && j == r.len() {
        Seq::empty()
    } else if l_any && path_co(l, r, i + 1, j) {
        lemma_common_path_of_path_co(l, r, i + 1, j)
    } else if r_any && path_co(l, r, i, j + 1) {
        lemma_common_path_of_path_co(l, r, i, j + 1)
    } else {
        let ni = if l_any {
            i
        } else {
            i + 1
        };
        let nj = if r_any {
            j
        } else {
            j + 1
        };
        let w = lemma_common_word_of_label_meet(l[i], r[j]);
        let rest = lemma_common_path_of_path_co(l, r, ni, nj);
        let segs = seq![w] + rest;
        assert(segs.drop_first() =~= rest);
        assert(segs[0] == w);
        segs
    }
}

/// Two boundary patterns overlap exactly when both are well formed and some
/// path, taken as its segments of code points, is matched by both of them.
pub proof fn lemma_overlap_iff_common_path(left: Seq<char>, right: Seq<char>)
    ensures
        overlap(left, right) <==> (path_tokens(left) is Some && path_tokens(right) is Some
            && exists|segs: Seq<Seq<int>>|
            path_matches(path_tokens(left)->0, 0, segs) && path_matches(
                path_tokens(right)->0,
                0,
                segs,
            )),
{
    if let (Some(a), Some(b)) = (path_tokens(left), path_tokens(right)) {
        if path_co(a, b, 0, 0) {
            let segs = lemma_common_path_of_path_co(a, b, 0, 0);
            assert(path_matches(a, 0, segs) && path_matches(b, 0, segs));
        }
        if exists|segs: Seq<Seq<int>>| path_matches(a, 0, segs) && path_matches(b, 0, segs) {
            let segs = choose|segs: Seq<Seq<int>>|
                path_matches(a, 0, segs) && path_matches(b, 0, segs);
            lemma_path_co_of_common_path(a, b, 0, 0, segs);
        }
    }
}

/// Whether two boundary patterns can both match some path: false when either is
/// not a well-formed pattern.
pub open spec fn overlap(left: Seq<char>, right: Seq<char>) -> bool {
    match path_tokens(left) {
        Some(a) => match path_tokens(right) {
            Some(b) => path_co(a, b, 0, 0),
            None => false,
        },
        None => false,
    }
}

/// Whether two boundary patterns can both match some path.
pub fn patterns_overlap(left: &str, right: &str) -> (r: bool)
    ensures
        r == overlap(left@, right@),
{
    let left_pattern = parse_path_pattern(left);
    let right_pattern = parse_path_pattern(right);
    match left_pattern {
        Some(a) => match right_pattern {
            Some(b) => {
                proof {
                    assert(path_slash_free(path_view(a@))) by {
                        assert forall|k: int| 0 <= k < path_view(a@).len() implies (#[trigger] path_view(a@)[k] matches PathTok::Segment(t) ==> slash_free(t)) by {
                            assert(path_view(a@)[k] == a@[k]@);
                        }
                    }
                    assert(path_slash_free(path_view(b@))) by {
                        assert forall|k: int| 0 <= k < path_view(b@).len() implies (#[trigger] path_view(b@)[k] matches PathTok::Segment(t) ==> slash_free(t)) by {
                            assert(path_view(b@)[k] == b@[k]@);
                        }
                    }
                }
                path_patterns_intersect(&a, &b)
            },
            None => false,
        },
        None => false,
    }
}

} // verus!
