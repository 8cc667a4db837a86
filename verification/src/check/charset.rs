//! Sets of characters, held as sorted ranges of code points, for the glob classes
//! of boundary patterns.
use vstd::prelude::*;

verus! {

/// Whether `x` lies in one of the ranges.
pub open spec fn in_ranges(r: Seq<(u32, u32)>, x: int) -> bool {
    exists|k: int| 0 <= k < r.len() && #[trigger] r[k].0 <= x && x <= r[k].1
}

/// Ranges that are non-empty, sorted, and separated by at least one code point.
pub open spec fn canonical(r: Seq<(u32, u32)>) -> bool {
    &&& forall|k: int| 0 <= k < r.len() ==> #[trigger] r[k].0 <= r[k].1
    &&& forall|i: int, j: int| 0 <= i < j < r.len() ==> #[trigger] r[i].1 + 1 < #[trigger] r[j].0
}

/// A code point of a character other than `/`.
pub open spec fn non_separator(x: int) -> bool {
    (0 <= x <= 0x2E) || (0x30 <= x <= 0xD7FF) || (0xE000 <= x <= 0x10FFFF)
}

/// Ranges whose ends are characters other than `/`, and that do not contain `/`.
pub open spec fn separator_free(r: Seq<(u32, u32)>) -> bool {
    forall|k: int|
        0 <= k < r.len() ==> non_separator(#[trigger] r[k].0 as int) && non_separator(
            r[k].1 as int,
        ) && !(r[k].0 <= 0x2F && 0x2F <= r[k].1)
}

/// The code points of characters other than `/`.
pub open spec fn domain() -> Seq<(u32, u32)> {
    seq![(0u32, 0x2Eu32), (0x30u32, 0xD7FFu32), (0xE000u32, 0x10FFFFu32)]
}

/// A set of characters other than `/`.
#[derive(Debug)]
pub struct CharSet {
    ranges: Vec<(u32, u32)>,
}

impl CharSet {
    #[verifier::type_invariant]
    spec fn well_formed(self) -> bool {
        charset_wf(self.ranges@)
    }
}

impl View for CharSet {
    type V = Seq<(u32, u32)>;

    closed spec fn view(&self) -> Seq<(u32, u32)> {
        self.ranges@
    }
}

/// Whether the character set holds the code point `x`.
pub open spec fn charset_has(cs: Seq<(u32, u32)>, x: int) -> bool {
    in_ranges(cs, x)
}

/// A well-formed character set.
pub open spec fn charset_wf(cs: Seq<(u32, u32)>) -> bool {
    canonical(cs) && separator_free(cs)
}

impl Clone for CharSet {
    fn clone(&self) -> (r: Self)
        ensures
            r@ == self@,
    {
        proof {
            use_type_invariant(self);
        }
        let mut ranges: Vec<(u32, u32)> = Vec::new();
        let mut i: usize = 0;
        while i < self.ranges.len()
            invariant
                i <= self.ranges.len(),
                ranges@ == self.ranges@.take(i as int),
            decreases self.ranges.len() - i,
        {
            ranges.push(self.ranges[i]);
            i = i + 1;
            assert(ranges@ =~= self.ranges@.take(i as int));
        }
        assert(self.ranges@.take(self.ranges@.len() as int) =~= self.ranges@);
        CharSet { ranges }
    }
}

proof fn lemma_domain()
    ensures
        canonical(domain()),
        separator_free(domain()),
        forall|x: int| in_ranges(domain(), x) <==> non_separator(x),
{
    let d = domain();
    assert forall|x: int| in_ranges(d, x) <==> non_separator(x) by {
        if non_separator(x) {
            if x <= 0x2E {
                assert(d[0].0 <= x && x <= d[0].1);
            } else if x <= 0xD7FF {
                assert(d[1].0 <= x && x <= d[1].1);
            } else {
                assert(d[2].0 <= x && x <= d[2].1);
            }
        }
    }
}

impl CharSet {
    /// The set of one character.
    pub fn from_char(ch: char) -> (r: Self)
        requires
            ch != '/',
        ensures
            charset_wf(r@),
            forall|x: int| charset_has(r@, x) <==> x == ch as int,
    {
        let c: u32 = ch as u32;
        let mut ranges: Vec<(u32, u32)> = Vec::new();
        ranges.push((c, c));
        let r = CharSet { ranges };
        proof {
            assert(r@[0] == (c, c));
            assert forall|x: int| charset_has(r@, x) <==> x == ch as int by {
                if x == ch as int {
                    assert(r@[0].0 <= x && x <= r@[0].1);
                }
            }
        }
        r
    }

    /// Every character other than `/`.
    pub fn any_non_separator() -> (r: Self)
        ensures
            charset_wf(r@),
            forall|x: int| charset_has(r@, x) <==> non_separator(x),
    {
        let r = CharSet { ranges: domain_ranges() };
        proof {
            lemma_domain();
        }
        r
    }

    /// The characters of a bracket class: the given ranges less those that contain `/`,
    /// or, when `negated`, every other character except `/`.
    pub fn from_ranges(ranges: Vec<(u32, u32)>, negated: bool) -> (r: Self)
        requires
            forall|k: int|
                0 <= k < ranges@.len() ==> #[trigger] ranges@[k].0 <= ranges@[k].1 && (
                ranges@[k].0 <= 0xD7FF || 0xE000 <= ranges@[k].0 <= 0x10FFFF) && (ranges@[k].1
                <= 0xD7FF || 0xE000 <= ranges@[k].1 <= 0x10FFFF),
        ensures
            charset_wf(r@),
            negated ==> forall|x: int|
                #[trigger] charset_has(r@, x) <==> (non_separator(x) && !kept(ranges@, x)),
            !negated ==> forall|x: int| #[trigger] charset_has(r@, x) <==> kept(ranges@, x),
    {
        let kept_ranges = without_separator(ranges);
        let normalized = normalize_ranges(kept_ranges);
        if negated {
            CharSet { ranges: complement_ranges(&normalized) }
        } else {
            CharSet { ranges: normalized }
        }
    }

    /// Whether the two sets share a character.
    pub fn intersects(&self, other: &Self) -> (r: bool)
        ensures
            r == exists|x: int| charset_has(self@, x) && charset_has(other@, x),
            r ==> exists|x: int|
                non_separator(x) && charset_has(self@, x) && charset_has(other@, x),
    {
        proof {
            use_type_invariant(self);
            use_type_invariant(other);
        }
        let a = &self.ranges;
        let b = &other.ranges;
        let mut i: usize = 0;
        let mut j: usize = 0;
        while i < a.len() && j < b.len()
            invariant
                i <= a.len(),
                j <= b.len(),
                a@ == self@,
                b@ == other@,
                canonical(a@),
                canonical(b@),
                separator_free(a@),
                separator_free(b@),
                forall|x: int|
                    in_ranges(a@, x) && in_ranges(b@, x) ==> exists|k: int|
                        i <= k < a.len() && #[trigger] a@[k].0 <= x && x <= a@[k].1,
                forall|x: int|
                    in_ranges(a@, x) && in_ranges(b@, x) ==> exists|k: int|
                        j <= k < b.len() && #[trigger] b@[k].0 <= x && x <= b@[k].1,
            decreases a.len() + b.len() - i - j,
        {
            let (ls, le) = a[i];
            let (rs, re) = b[j];
            if le < rs {
                proof {
                    assert forall|x: int| in_ranges(a@, x) && in_ranges(b@, x) implies exists|k: int|
                        i + 1 <= k < a.len() && #[trigger] a@[k].0 <= x && x <= a@[k].1 by {
                        let k = choose|k: int| i <= k < a.len() && #[trigger] a@[k].0 <= x && x <= a@[k].1;
                        let m = choose|m: int| j <= m < b.len() && #[trigger] b@[m].0 <= x && x <= b@[m].1;
                        if k == i {
                            if m > j {
                                assert(b@[j as int].1 + 1 < b@[m].0);
                            }
                            assert(false);
                        }
                    }
                }
                i = i + 1;
                continue;
            }
            if re < ls {
                proof {
                    assert forall|x: int| in_ranges(a@, x) && in_ranges(b@, x) implies exists|k: int|
                        j + 1 <= k < b.len() && #[trigger] b@[k].0 <= x && x <= b@[k].1 by {
                        let k = choose|k: int| i <= k < a.len() && #[trigger] a@[k].0 <= x && x <= a@[k].1;
                        let m = choose|m: int| j <= m < b.len() && #[trigger] b@[m].0 <= x && x <= b@[m].1;
                        if m == j {
                            if k > i {
                                assert(a@[i as int].1 + 1 < a@[k].0);
                            }
                            assert(false);
                        }
                    }
                }
                j = j + 1;
                continue;
            }
            proof {
                let x: int = if ls < rs {
                    rs as int
                } else {
                    ls as int
                };
                assert(a@[i as int].0 <= x && x <= a@[i as int].1);
                assert(b@[j as int].0 <= x && x <= b@[j as int].1);
                assert(charset_has(self@, x) && charset_has(other@, x));
                assert(non_separator(x));
            }
            return true;
        }
        proof {
            assert forall|x: int| !(charset_has(self@, x) && charset_has(other@, x)) by {
                if in_ranges(a@, x) && in_ranges(b@, x) {
                    let k = choose|k: int| i <= k < a.len() && #[trigger] a@[k].0 <= x && x <= a@[k].1;
                    let m = choose|m: int| j <= m < b.len() && #[trigger] b@[m].0 <= x && x <= b@[m].1;
                }
            }
        }
        false
    }
}

/// The code points of characters other than `/`, as ranges.
pub fn domain_ranges() -> (r: Vec<(u32, u32)>)
    ensures
        r@ == domain(),
{
    let mut r: Vec<(u32, u32)> = Vec::new();
    r.push((0, 0x2E));
    r.push((0x30, 0xD7FF));
    r.push((0xE000, 0x10FFFF));
    assert(r@ =~= domain());
    r
}

/// The code points that a class keeps: those of its ranges that do not contain `/`.
pub open spec fn kept(input: Seq<(u32, u32)>, x: int) -> bool {
    exists|k: int|
        0 <= k < input.len() && !(input[k].0 <= 0x2F && 0x2F <= input[k].1) && #[trigger] input[k].0
            <= x && x <= input[k].1
}

fn without_separator(ranges: Vec<(u32, u32)>) -> (r: Vec<(u32, u32)>)
    requires
        forall|k: int|
            0 <= k < ranges@.len() ==> #[trigger] ranges@[k].0 <= ranges@[k].1 && (ranges@[k].0
                <= 0xD7FF || 0xE000 <= ranges@[k].0 <= 0x10FFFF) && (ranges@[k].1 <= 0xD7FF
                || 0xE000 <= ranges@[k].1 <= 0x10FFFF),
    ensures
        forall|k: int| 0 <= k < r@.len() ==> #[trigger] r@[k].0 <= r@[k].1,
        separator_free(r@),
        forall|x: int| in_ranges(r@, x) <==> kept(ranges@, x),
{
    let mut r: Vec<(u32, u32)> = Vec::new();
    let mut i: usize = 0;
    while i < ranges.len()
        invariant
            i <= ranges.len(),
            forall|k: int|
                0 <= k < ranges@.len() ==> #[trigger] ranges@[k].0 <= ranges@[k].1 && (
                ranges@[k].0 <= 0xD7FF || 0xE000 <= ranges@[k].0 <= 0x10FFFF) && (ranges@[k].1
                <= 0xD7FF || 0xE000 <= ranges@[k].1 <= 0x10FFFF),
            forall|k: int| 0 <= k < r@.len() ==> #[trigger] r@[k].0 <= r@[k].1,
            separator_free(r@),
            forall|x: int| in_ranges(r@, x) <==> kept(ranges@.take(i as int), x),
        decreases ranges.len() - i,
    {
        let (s, e) = ranges[i];
        let ghost before = r@;
        if !(s <= 0x2F && 0x2F <= e) {
            r.push((s, e));
        }
        proof {
            let t = ranges@.take(i + 1);
            assert forall|x: int| in_ranges(r@, x) <==> kept(t, x) by {
                if in_ranges(r@, x) {
                    let k = choose|k: int| 0 <= k < r@.len() && #[trigger] r@[k].0 <= x && x <= r@[k].1;
                    if k < before.len() {
                        assert(before[k] == r@[k]);
                        assert(in_ranges(before, x));
                        let m = choose|m: int|
                            0 <= m < i && !(ranges@.take(i as int)[m].0 <= 0x2F && 0x2F
                                <= ranges@.take(i as int)[m].1) && #[trigger] ranges@.take(
                                i as int,
                            )[m].0 <= x && x <= ranges@.take(i as int)[m].1;
                        assert(t[m] == ranges@[m]);
                    } else {
                        assert(t[i as int] == ranges@[i as int]);
                    }
                }
                if kept(t, x) {
                    let m = choose|m: int|
                        0 <= m < t.len() && !(t[m].0 <= 0x2F && 0x2F <= t[m].1) && #[trigger] t[m].0
                            <= x && x <= t[m].1;
                    if m < i {
                        assert(ranges@.take(i as int)[m] == t[m]);
                        assert(ranges@.take(i as int)[m].0 <= x);
                        assert(kept(ranges@.take(i as int), x));
                        assert(in_ranges(before, x));
                        let k = choose|k: int| 0 <= k < before.len() && #[trigger] before[k].0 <= x && x <= before[k].1;
                        assert(r@[k] == before[k]);
                    } else {
                        assert(r@[r@.len() - 1] == (s, e));
                    }
                }
            }
        }
        i = i + 1;
    }
    assert(ranges@.take(ranges@.len() as int) =~= ranges@);
    r
}


/// Sorts ranges by their first code point.
fn sort_by_start(v: Vec<(u32, u32)>) -> (r: Vec<(u32, u32)>)
    ensures
        r@.len() == v@.len(),
        forall|i: int, j: int| 0 <= i < j < r@.len() ==> #[trigger] r@[i].0 <= #[trigger] r@[j].0,
        forall|k: int| 0 <= k < r@.len() ==> v@.contains(#[trigger] r@[k]),
        forall|k: int| 0 <= k < v@.len() ==> r@.contains(#[trigger] v@[k]),
{
    let mut r: Vec<(u32, u32)> = Vec::new();
    let mut i: usize = 0;
    while i < v.len()
        invariant
            i <= v.len(),
            r@.len() == i,
            forall|a: int, b: int| 0 <= a < b < r@.len() ==> #[trigger] r@[a].0 <= #[trigger] r@[b].0,
            forall|k: int| 0 <= k < r@.len() ==> v@.take(i as int).contains(#[trigger] r@[k]),
            forall|k: int| 0 <= k < i ==> r@.contains(#[trigger] v@[k]),
        decreases v.len() - i,
    {
        let item = v[i];
        let mut p: usize = 0;
        while p < r.len() && r[p].0 <= item.0
            invariant
                p <= r.len(),
                forall|k: int| 0 <= k < p ==> #[trigger] r@[k].0 <= item.0,
            decreases r.len() - p,
        {
            p = p + 1;
        }
        let ghost before = r@;
        r.insert(p, item);
        proof {
            assert(r@ =~= before.take(p as int).push(item) + before.skip(p as int));
            assert forall|a: int, b: int| 0 <= a < b < r@.len() implies #[trigger] r@[a].0
                <= #[trigger] r@[b].0 by {
                if a < p && b == p {
                } else if a < p && b > p {
                    assert(r@[b] == before[b - 1]);
                } else if a == p && b > p {
                    assert(r@[b] == before[b - 1]);
                    if p < before.len() {
                        assert(before[p as int].0 > item.0);
                        if b - 1 > p {
                            assert(before[p as int].0 <= before[b - 1].0);
                        }
                    }
                } else if a > p {
                    assert(r@[a] == before[a - 1]);
                    assert(r@[b] == before[b - 1]);
                }
            }
            let t = v@.take(i + 1);
            assert forall|k: int| 0 <= k < r@.len() implies t.contains(#[trigger] r@[k]) by {
                if k < p {
                    assert(r@[k] == before[k]);
                    let m = choose|m: int| 0 <= m < i && v@.take(i as int)[m] == before[k];
                    assert(t[m] == before[k]);
                } else if k == p {
                    assert(t[i as int] == item);
                } else {
                    assert(r@[k] == before[k - 1]);
                    let m = choose|m: int| 0 <= m < i && v@.take(i as int)[m] == before[k - 1];
                    assert(t[m] == before[k - 1]);
                }
            }
            assert forall|k: int| 0 <= k < i + 1 implies r@.contains(#[trigger] v@[k]) by {
                if k < i {
                    let m = choose|m: int| 0 <= m < before.len() && before[m] == v@[k];
                    if m < p {
                        assert(r@[m] == v@[k]);
                    } else {
                        assert(r@[m + 1] == v@[k]);
                    }
                } else {
                    assert(r@[p as int] == v@[k]);
                }
            }
        }
        i = i + 1;
    }
    assert(v@.take(v@.len() as int) =~= v@);
    r
}

/// Sorts and merges ranges into the canonical form of the set they cover.
fn normalize_ranges(ranges: Vec<(u32, u32)>) -> (r: Vec<(u32, u32)>)
    requires
        forall|k: int| 0 <= k < ranges@.len() ==> #[trigger] ranges@[k].0 <= ranges@[k].1,
        separator_free(ranges@),
    ensures
        canonical(r@),
        separator_free(r@),
        forall|x: int| in_ranges(r@, x) <==> in_ranges(ranges@, x),
{
    let sorted = sort_by_start(ranges);
    proof {
        assert forall|k: int| 0 <= k < sorted@.len() implies #[trigger] sorted@[k].0 <= sorted@[k].1
            && non_separator(sorted@[k].0 as int) && non_separator(sorted@[k].1 as int) && !(
        sorted@[k].0 <= 0x2F && 0x2F <= sorted@[k].1) by {
            assert(ranges@.contains(sorted@[k]));
        }
        assert forall|x: int| in_ranges(sorted@, x) <==> in_ranges(ranges@, x) by {
            if in_ranges(sorted@, x) {
                let k = choose|k: int| 0 <= k < sorted@.len() && #[trigger] sorted@[k].0 <= x && x <= sorted@[k].1;
                assert(ranges@.contains(sorted@[k]));
                let m = choose|m: int| 0 <= m < ranges@.len() && ranges@[m] == sorted@[k];
                assert(ranges@[m].0 <= x && x <= ranges@[m].1);
            }
            if in_ranges(ranges@, x) {
                let k = choose|k: int| 0 <= k < ranges@.len() && #[trigger] ranges@[k].0 <= x && x <= ranges@[k].1;
                assert(sorted@.contains(ranges@[k]));
                let m = choose|m: int| 0 <= m < sorted@.len() && sorted@[m] == ranges@[k];
                assert(sorted@[m].0 <= x && x <= sorted@[m].1);
            }
        }
    }
    let mut out: Vec<(u32, u32)> = Vec::new();
    let mut i: usize = 0;
    while i < sorted.len()
        invariant
            i <= sorted.len(),
            forall|a: int, b: int| 0 <= a < b < sorted@.len() ==> #[trigger] sorted@[a].0 <= #[trigger] sorted@[b].0,
            forall|k: int| 0 <= k < sorted@.len() ==> #[trigger] sorted@[k].0 <= sorted@[k].1
                && non_separator(sorted@[k].0 as int) && non_separator(sorted@[k].1 as int) && !(
            sorted@[k].0 <= 0x2F && 0x2F <= sorted@[k].1),
            canonical(out@),
            separator_free(out@),
            i == 0 <==> out@.len() == 0,
            out@.len() > 0 ==> forall|k: int| i <= k < sorted@.len() ==> out@.last().0 <= #[trigger] sorted@[k].0,
            forall|x: int| in_ranges(out@, x) <==> in_ranges(sorted@.take(i as int), x),
        decreases sorted.len() - i,
    {
        let (s, e) = sorted[i];
        let ghost before = out@;
        let ghost t = sorted@.take(i + 1);
        let n = out.len();
        if n > 0 && s <= out[n - 1].1 + 1 {
            let (ls, le) = out[n - 1];
            let ne = if e > le { e } else { le };
            out.set(n - 1, (ls, ne));
            proof {
                assert forall|x: int| in_ranges(out@, x) <==> in_ranges(t, x) by {
                    if in_ranges(out@, x) {
                        let k = choose|k: int| 0 <= k < out@.len() && #[trigger] out@[k].0 <= x && x <= out@[k].1;
                        if k < n - 1 {
                            assert(before[k] == out@[k]);
                            assert(in_ranges(before, x));
                        } else if x <= le {
                            assert(before[n - 1].0 <= x && x <= before[n - 1].1);
                            assert(in_ranges(before, x));
                        } else {
                            assert(t[i as int] == (s, e));
                            assert(t[i as int].0 <= x && x <= t[i as int].1);
                        }
                        if in_ranges(before, x) {
                            let m = choose|m: int| 0 <= m < i && #[trigger] sorted@.take(i as int)[m].0 <= x && x <= sorted@.take(i as int)[m].1;
                            assert(t[m] == sorted@.take(i as int)[m]);
                        }
                    }
                    if in_ranges(t, x) {
                        let m = choose|m: int| 0 <= m < t.len() && #[trigger] t[m].0 <= x && x <= t[m].1;
                        if m < i {
                            assert(sorted@.take(i as int)[m] == t[m]);
                            assert(sorted@.take(i as int)[m].0 <= x);
                            assert(in_ranges(sorted@.take(i as int), x));
                            assert(in_ranges(before, x));
                            let k = choose|k: int| 0 <= k < before.len() && #[trigger] before[k].0 <= x && x <= before[k].1;
                            if k < n - 1 {
                                assert(out@[k] == before[k]);
                            } else {
                                assert(out@[n - 1].0 <= x && x <= out@[n - 1].1);
                            }
                        } else {
                            assert(out@[n - 1].0 <= x && x <= out@[n - 1].1);
                        }
                    }
                }
                assert(sorted@[i as int] == (s, e));
                assert(sorted@[i as int].0 <= sorted@[i as int].1);
                assert(before[n - 1].0 <= before[n - 1].1);
                assert forall|k: int| 0 <= k < out@.len() implies non_separator(#[trigger] out@[k].0 as int)
                    && non_separator(out@[k].1 as int) && !(out@[k].0 <= 0x2F && 0x2F <= out@[k].1) by {
                    if k == n - 1 {
                        if out@[k].0 <= 0x2F && 0x2F <= out@[k].1 {
                            if 0x2F <= le {
                                assert(before[k].0 <= 0x2F && 0x2F <= before[k].1);
                            } else {
                                assert(s <= 0x2F);
                            }
                        }
                    } else {
                        assert(out@[k] == before[k]);
                    }
                }
                assert forall|a: int, b: int| 0 <= a < b < out@.len() implies #[trigger] out@[a].1 + 1
                    < #[trigger] out@[b].0 by {
                    assert(out@[a] == before[a]);
                    assert(before[a].1 + 1 < before[b].0);
                }
                assert forall|k: int| i + 1 <= k < sorted@.len() implies out@.last().0 <= #[trigger] sorted@[k].0 by {
                    assert(before.last().0 <= sorted@[k].0);
                }
            }
        } else {
            out.push((s, e));
            proof {
                if n > 0 {
                    assert(before.last().0 <= s);
                }
                assert forall|x: int| in_ranges(out@, x) <==> in_ranges(t, x) by {
                    if in_ranges(out@, x) {
                        let k = choose|k: int| 0 <= k < out@.len() && #[trigger] out@[k].0 <= x && x <= out@[k].1;
                        if k < n {
                            assert(before[k] == out@[k]);
                            assert(in_ranges(before, x));
                            let m = choose|m: int| 0 <= m < i && #[trigger] sorted@.take(i as int)[m].0 <= x && x <= sorted@.take(i as int)[m].1;
                            assert(t[m] == sorted@.take(i as int)[m]);
                        } else {
                            assert(t[i as int] == (s, e));
                        }
                    }
                    if in_ranges(t, x) {
                        let m = choose|m: int| 0 <= m < t.len() && #[trigger] t[m].0 <= x && x <= t[m].1;
                        if m < i {
                            assert(sorted@.take(i as int)[m] == t[m]);
                            assert(sorted@.take(i as int)[m].0 <= x);
                            assert(in_ranges(sorted@.take(i as int), x));
                            assert(in_ranges(before, x));
                            let k = choose|k: int| 0 <= k < before.len() && #[trigger] before[k].0 <= x && x <= before[k].1;
                            assert(out@[k] == before[k]);
                        } else {
                            assert(out@[n as int] == (s, e));
                        }
                    }
                }
                assert forall|a: int, b: int| 0 <= a < b < out@.len() implies #[trigger] out@[a].1 + 1
                    < #[trigger] out@[b].0 by {
                    if b < n {
                        assert(out@[a] == before[a]);
                        assert(out@[b] == before[b]);
                    } else {
                        assert(out@[a] == before[a]);
                        if a < n - 1 {
                            assert(before[a].1 + 1 < before[n - 1].0);
                            assert(before[n - 1].0 <= before[n - 1].1);
                        }
                    }
                }
                assert forall|k: int| 0 <= k < out@.len() implies non_separator(#[trigger] out@[k].0 as int)
                    && non_separator(out@[k].1 as int) && !(out@[k].0 <= 0x2F && 0x2F <= out@[k].1) by {
                    if k < n {
                        assert(out@[k] == before[k]);
                    } else {
                        assert(out@[k] == sorted@[i as int]);
                    }
                }
            }
        }
        i = i + 1;
    }
    assert(sorted@.take(sorted@.len() as int) =~= sorted@);
    out
}

/// The code points of `[ds, de]` that no range of `input` holds, as canonical ranges.
fn complement_within(input: &Vec<(u32, u32)>, ds: u32, de: u32) -> (r: Vec<(u32, u32)>)
    requires
        charset_wf(input@),
        ds <= de <= 0x10FFFF,
    ensures
        canonical(r@),
        forall|k: int| 0 <= k < r@.len() ==> ds <= #[trigger] r@[k].0 && r@[k].1 <= de,
        forall|x: int| in_ranges(r@, x) <==> (ds <= x <= de && !in_ranges(input@, x)),
{
    let mut out: Vec<(u32, u32)> = Vec::new();
    let mut cursor: u32 = ds;
    let mut finished = false;
    let mut passed_end = false;
    let mut k: usize = 0;
    while k < input.len() && !finished && !passed_end
        invariant
            charset_wf(input@),
            ds <= de <= 0x10FFFF,
            k <= input.len(),
            ds <= cursor,
            !finished ==> cursor <= de,
            canonical(out@),
            forall|m: int| 0 <= m < out@.len() ==> ds <= #[trigger] out@[m].0 && out@[m].1 <= de,
            out@.len() > 0 && !finished ==> out@.last().1 + 1 < cursor,
            !finished ==> forall|m: int| 0 <= m < k ==> #[trigger] input@[m].1 < cursor,
            passed_end ==> !finished && k < input@.len() && input@[k as int].0 > de,
            !finished ==> forall|x: int| in_ranges(out@, x) <==> (ds <= x < cursor && !in_ranges(input@, x)),
            finished ==> forall|x: int| in_ranges(out@, x) <==> (ds <= x <= de && !in_ranges(input@, x)),
        decreases input.len() - k + (if passed_end {
            0int
        } else {
            1int
        }),
    {
        let (s, e) = input[k];
        if e < cursor {
            k = k + 1;
            continue;
        }
        if s > de {
            passed_end = true;
            continue;
        }
        let ghost before = out@;
        let ghost old_cursor = cursor;
        if s > cursor {
            out.push((cursor, s - 1));
        }
        proof {
            assert forall|m: int| 0 <= m < out@.len() implies ds <= #[trigger] out@[m].0 && out@[m].1 <= de by {
                if m < before.len() {
                    assert(out@[m] == before[m]);
                }
            }
            assert forall|a: int, b: int| 0 <= a < b < out@.len() implies #[trigger] out@[a].1 + 1
                < #[trigger] out@[b].0 by {
                assert(out@[a] == before[a]);
                if b < before.len() {
                    assert(out@[b] == before[b]);
                } else if a < before.len() - 1 {
                    assert(before[a].1 + 1 < before[before.len() - 1].0);
                    assert(before[before.len() - 1].0 <= before[before.len() - 1].1);
                }
            }
        }
        if e >= de {
            finished = true;
            proof {
                assert forall|x: int| in_ranges(out@, x) <==> (ds <= x <= de && !in_ranges(input@, x)) by {
                    if in_ranges(out@, x) {
                        let m = choose|m: int| 0 <= m < out@.len() && #[trigger] out@[m].0 <= x && x <= out@[m].1;
                        if m < before.len() {
                            assert(out@[m] == before[m]);
                            assert(in_ranges(before, x));
                        } else {
                            if in_ranges(input@, x) {
                                let j = choose|j: int| 0 <= j < input@.len() && #[trigger] input@[j].0 <= x && x <= input@[j].1;
                                if j < k {
                                } else if j > k {
                                    assert(input@[k as int].1 + 1 < input@[j].0);
                                }
                            }
                        }
                    }
                    if ds <= x <= de && !in_ranges(input@, x) {
                        if x < old_cursor {
                            let m = choose|m: int| 0 <= m < before.len() && #[trigger] before[m].0 <= x && x <= before[m].1;
                            assert(out@[m] == before[m]);
                        } else {
                            assert(!(input@[k as int].0 <= x && x <= input@[k as int].1));
                            assert(out@.last() == (old_cursor, (s - 1) as u32));
                            assert(out@[out@.len() - 1].0 <= x && x <= out@[out@.len() - 1].1);
                        }
                    }
                }
            }
        } else {
            cursor = e + 1;
            proof {
                assert forall|x: int| in_ranges(out@, x) <==> (ds <= x < cursor && !in_ranges(input@, x)) by {
                    if in_ranges(out@, x) {
                        let m = choose|m: int| 0 <= m < out@.len() && #[trigger] out@[m].0 <= x && x <= out@[m].1;
                        if m < before.len() {
                            assert(out@[m] == before[m]);
                            assert(in_ranges(before, x));
                        } else {
                            if in_ranges(input@, x) {
                                let j = choose|j: int| 0 <= j < input@.len() && #[trigger] input@[j].0 <= x && x <= input@[j].1;
                                if j < k {
                                } else if j > k {
                                    assert(input@[k as int].1 + 1 < input@[j].0);
                                }
                            }
                        }
                    }
                    if ds <= x < cursor && !in_ranges(input@, x) {
                        if x < old_cursor {
                            let m = choose|m: int| 0 <= m < before.len() && #[trigger] before[m].0 <= x && x <= before[m].1;
                            assert(out@[m] == before[m]);
                        } else {
                            assert(!(input@[k as int].0 <= x && x <= input@[k as int].1));
                            assert(out@.last() == (old_cursor, (s - 1) as u32));
                            assert(out@[out@.len() - 1].0 <= x && x <= out@[out@.len() - 1].1);
                        }
                    }
                }
            }
        }
        k = k + 1;
    }
    if !finished {
        let ghost before = out@;
        out.push((cursor, de));
        proof {
            assert forall|x: int| in_ranges(out@, x) <==> (ds <= x <= de && !in_ranges(input@, x)) by {
                if in_ranges(out@, x) {
                    let m = choose|m: int| 0 <= m < out@.len() && #[trigger] out@[m].0 <= x && x <= out@[m].1;
                    if m < before.len() {
                        assert(out@[m] == before[m]);
                        assert(in_ranges(before, x));
                    } else if in_ranges(input@, x) {
                        let j = choose|j: int| 0 <= j < input@.len() && #[trigger] input@[j].0 <= x && x <= input@[j].1;
                        if j >= k {
                            assert(input@[k as int].0 > de);
                            if j > k {
                                assert(input@[k as int].1 + 1 < input@[j].0);
                                assert(input@[k as int].0 <= input@[k as int].1);
                            }
                        }
                    }
                }
                if ds <= x <= de && !in_ranges(input@, x) && x < cursor {
                    let m = choose|m: int| 0 <= m < before.len() && #[trigger] before[m].0 <= x && x <= before[m].1;
                    assert(out@[m] == before[m]);
                }
                if ds <= x <= de && x >= cursor {
                    assert(out@[out@.len() - 1].0 <= x && x <= out@[out@.len() - 1].1);
                }
            }
            assert forall|a: int, b: int| 0 <= a < b < out@.len() implies #[trigger] out@[a].1 + 1
                < #[trigger] out@[b].0 by {
                assert(out@[a] == before[a]);
                if b < before.len() {
                    assert(out@[b] == before[b]);
                } else if a < before.len() - 1 {
                    assert(before[a].1 + 1 < before[before.len() - 1].0);
                    assert(before[before.len() - 1].0 <= before[before.len() - 1].1);
                }
            }
            assert forall|m: int| 0 <= m < out@.len() implies ds <= #[trigger] out@[m].0 && out@[m].1 <= de by {
                if m < before.len() {
                    assert(out@[m] == before[m]);
                }
            }
        }
    }
    out
}

/// The characters other than `/` that the canonical ranges `ranges` do not hold.
fn complement_ranges(ranges: &Vec<(u32, u32)>) -> (r: Vec<(u32, u32)>)
    requires
        charset_wf(ranges@),
    ensures
        charset_wf(r@),
        forall|x: int| in_ranges(r@, x) <==> (non_separator(x) && !in_ranges(ranges@, x)),
{
    let a = complement_within(ranges, 0, 0x2E);
    let b = complement_within(ranges, 0x30, 0xD7FF);
    let c = complement_within(ranges, 0xE000, 0x10FFFF);
    let mut out = a;
    let ghost la = out@.len();
    let mut i: usize = 0;
    while i < b.len()
        invariant
            i <= b.len(),
            out@ == a@ + b@.take(i as int),
        decreases b.len() - i,
    {
        out.push(b[i]);
        i = i + 1;
        assert(out@ =~= a@ + b@.take(i as int));
    }
    let mut j: usize = 0;
    while j < c.len()
        invariant
            j <= c.len(),
            out@ == a@ + b@ + c@.take(j as int),
        decreases c.len() - j,
    {
        out.push(c[j]);
        j = j + 1;
        assert(out@ =~= a@ + b@ + c@.take(j as int));
    }
    proof {
        assert(b@.take(b@.len() as int) =~= b@);
        assert(c@.take(c@.len() as int) =~= c@);
        assert(out@ =~= a@ + b@ + c@);
        let o = out@;
        let lb = la + b@.len();
        assert forall|k: int| 0 <= k < o.len() implies (if k < la {
            o[k] == a@[k]
        } else if k < lb {
            o[k] == b@[k - la]
        } else {
            o[k] == c@[k - lb]
        }) by {}
        assert forall|k: int| 0 <= k < o.len() implies #[trigger] o[k].0 <= o[k].1 && non_separator(
            o[k].0 as int,
        ) && non_separator(o[k].1 as int) && !(o[k].0 <= 0x2F && 0x2F <= o[k].1) by {
            if k < la {
                assert(o[k] == a@[k]);
            } else if k < lb {
                assert(o[k] == b@[k - la]);
            } else {
                assert(o[k] == c@[k - lb]);
            }
        }
        assert forall|p: int, q: int| 0 <= p < q < o.len() implies #[trigger] o[p].1 + 1
            < #[trigger] o[q].0 by {
            if q < la {
                assert(o[p] == a@[p] && o[q] == a@[q]);
            } else if q < lb {
                if p < la {
                    assert(o[p] == a@[p] && o[q] == b@[q - la]);
                    assert(0 <= a@[p].0 && a@[p].1 <= 0x2E);
                    assert(0x30 <= b@[q - la].0);
                } else {
                    assert(o[p] == b@[p - la] && o[q] == b@[q - la]);
                }
            } else {
                if p < la {
                    assert(o[p] == a@[p] && o[q] == c@[q - lb]);
                    assert(0 <= a@[p].0 && a@[p].1 <= 0x2E);
                    assert(0xE000 <= c@[q - lb].0);
                } else if p < lb {
                    assert(o[p] == b@[p - la] && o[q] == c@[q - lb]);
                    assert(0x30 <= b@[p - la].0 && b@[p - la].1 <= 0xD7FF);
                    assert(0xE000 <= c@[q - lb].0);
                } else {
                    assert(o[p] == c@[p - lb] && o[q] == c@[q - lb]);
                }
            }
        }
        assert forall|x: int| in_ranges(o, x) <==> (non_separator(x) && !in_ranges(ranges@, x)) by {
            if in_ranges(o, x) {
                let k = choose|k: int| 0 <= k < o.len() && #[trigger] o[k].0 <= x && x <= o[k].1;
                if k < la {
                    assert(o[k] == a@[k]);
                    assert(in_ranges(a@, x));
                } else if k < lb {
                    assert(o[k] == b@[k - la]);
                    assert(in_ranges(b@, x));
                } else {
                    assert(o[k] == c@[k - lb]);
                    assert(in_ranges(c@, x));
                }
            }
            if non_separator(x) && !in_ranges(ranges@, x) {
                if x <= 0x2E {
                    assert(in_ranges(a@, x));
                    let k = choose|k: int| 0 <= k < a@.len() && #[trigger] a@[k].0 <= x && x <= a@[k].1;
                    assert(o[k] == a@[k]);
                } else if x <= 0xD7FF {
                    assert(in_ranges(b@, x));
                    let k = choose|k: int| 0 <= k < b@.len() && #[trigger] b@[k].0 <= x && x <= b@[k].1;
                    assert(o[k + la] == b@[k]);
                } else {
                    assert(in_ranges(c@, x));
                    let k = choose|k: int| 0 <= k < c@.len() && #[trigger] c@[k].0 <= x && x <= c@[k].1;
                    assert(o[k + lb] == c@[k]);
                }
            }
        }
    }
    out
}

/// The two ends of a class range, lowest first.
pub fn ordered_range(start: char, end: char) -> (r: (char, char))
    ensures
        r == (if start <= end {
            (start, end)
        } else {
            (end, start)
        }),
{
    if start <= end {
        (start, end)
    } else {
        (end, start)
    }
}

} // verus!
