//! Character-sequence utilities shared by the document model and the renderers.
//!
//! Every operation here is specified over `Seq<char>`, the view of `str` and `String`.
use vstd::prelude::*;

verus! {

/// The Unicode `White_Space` property, as used by `str::trim`.
pub open spec fn is_ws(c: char) -> bool {
    ||| c == '\t'
    ||| c == '\n'
    ||| c == '\u{0B}'
    ||| c == '\u{0C}'
    ||| c == '\r'
    ||| c == ' '
    ||| c == '\u{85}'
    ||| c == '\u{A0}'
    ||| c == '\u{1680}'
    ||| ('\u{2000}' <= c && c <= '\u{200A}')
    ||| c == '\u{2028}'
    ||| c == '\u{2029}'
    ||| c == '\u{202F}'
    ||| c == '\u{205F}'
    ||| c == '\u{3000}'
}

pub open spec fn is_digit(c: char) -> bool {
    '0' <= c && c <= '9'
}

pub open spec fn is_lower(c: char) -> bool {
    'a' <= c && c <= 'z'
}

pub open spec fn starts_with(s: Seq<char>, p: Seq<char>) -> bool {
    p.len() <= s.len() && s.take(p.len() as int) == p
}

pub open spec fn ends_with(s: Seq<char>, p: Seq<char>) -> bool {
    p.len() <= s.len() && s.skip(s.len() - p.len()) == p
}

/// `p` occurs in `s` at position `i`.
pub open spec fn occurs_at(s: Seq<char>, p: Seq<char>, i: int) -> bool {
    0 <= i && i + p.len() <= s.len() && s.subrange(i, i + p.len()) == p
}

pub open spec fn contains_seq(s: Seq<char>, p: Seq<char>) -> bool {
    exists|i: int| occurs_at(s, p, i)
}

/// The first position at or after `i` where `p` occurs in `s`.
pub open spec fn find_from(s: Seq<char>, p: Seq<char>, i: int) -> Option<int>
    decreases s.len() + 1 - i,
{
    if i < 0 || i + p.len() > s.len() {
        None
    } else if s.subrange(i, i + p.len()) == p {
        Some(i)
    } else {
        find_from(s, p, i + 1)
    }
}

/// `str::split_once`: the parts before and after the first occurrence of `p`.
pub open spec fn split_once(s: Seq<char>, p: Seq<char>) -> Option<(Seq<char>, Seq<char>)> {
    match find_from(s, p, 0) {
        Some(i) => Some((s.take(i), s.skip(i + p.len()))),
        None => None,
    }
}

/// The first index of `c` in `s`.
pub open spec fn index_of_char(s: Seq<char>, c: char) -> Option<int>
    decreases s.len(),
{
    if s.len() == 0 {
        None
    } else if s[0] == c {
        Some(0)
    } else {
        match index_of_char(s.drop_first(), c) {
            Some(i) => Some(i + 1),
            None => None,
        }
    }
}

pub proof fn lemma_index_of_char(s: Seq<char>, c: char)
    ensures
        match index_of_char(s, c) {
            Some(i) => 0 <= i < s.len() && s[i] == c && forall|j: int| 0 <= j < i ==> s[j] != c,
            None => forall|j: int| 0 <= j < s.len() ==> s[j] != c,
        },
    decreases s.len(),
{
    if s.len() > 0 && s[0] != c {
        lemma_index_of_char(s.drop_first(), c);
        match index_of_char(s.drop_first(), c) {
            Some(i) => {
                assert forall|j: int| 0 <= j < i + 1 implies s[j] != c by {
                    if j > 0 {
                        assert(s[j] == s.drop_first()[j - 1]);
                    }
                }
            },
            None => {
                assert forall|j: int| 0 <= j < s.len() implies s[j] != c by {
                    if j > 0 {
                        assert(s[j] == s.drop_first()[j - 1]);
                    }
                }
            },
        }
    }
}

/// `str::split` on a single character.
pub open spec fn split_char(s: Seq<char>, c: char) -> Seq<Seq<char>>
    decreases s.len(),
{
    match index_of_char(s, c) {
        Some(i) => {
            proof {
                lemma_index_of_char(s, c);
            }
            seq![s.take(i)] + split_char(s.skip(i + 1), c)
        },
        None => seq![s],
    }
}

/// Splitting always gives at least one piece.
pub proof fn lemma_split_char_nonempty(s: Seq<char>, c: char)
    ensures
        split_char(s, c).len() >= 1,
    decreases s.len(),
{
    lemma_index_of_char(s, c);
    match index_of_char(s, c) {
        Some(i) => {
            lemma_split_char_nonempty(s.skip(i + 1), c);
        },
        None => {},
    }
}

/// A text without the separator is one piece.
pub proof fn lemma_split_char_whole(s: Seq<char>, c: char)
    requires
        !s.contains(c),
    ensures
        split_char(s, c) == seq![s],
{
    lemma_index_of_char(s, c);
    if index_of_char(s, c) is Some {
        let i = index_of_char(s, c)->0;
        assert(s[i] == c);
    }
}

/// Splitting at an occurrence of the separator splits each side on its own.
pub proof fn lemma_split_char_at(a: Seq<char>, b: Seq<char>, c: char)
    ensures
        split_char(a + seq![c] + b, c) == split_char(a, c) + split_char(b, c),
    decreases a.len(),
{
    let s = a + seq![c] + b;
    lemma_index_of_char(s, c);
    lemma_index_of_char(a, c);
    assert(s[a.len() as int] == c);
    let k = index_of_char(s, c)->0;
    match index_of_char(a, c) {
        None => {
            assert(k == a.len()) by {
                if k < a.len() {
                    assert(s[k] == a[k]);
                }
            }
            assert(s.take(k) =~= a);
            assert(s.skip(k + 1) =~= b);
            assert(split_char(a, c) == seq![a]);
            assert(split_char(s, c) =~= split_char(a, c) + split_char(b, c));
        },
        Some(i) => {
            assert(k == i) by {
                if k < i {
                    assert(s[k] == a[k]);
                }
                if i < k {
                    assert(s[i] == a[i]);
                }
            }
            lemma_split_char_at(a.skip(i + 1), b, c);
            assert(s.take(i) =~= a.take(i));
            assert(s.skip(i + 1) =~= a.skip(i + 1) + seq![c] + b);
            assert(split_char(s, c) =~= split_char(a, c) + split_char(b, c));
        },
    }
}

/// Splitting pieces joined by a separator that none of them holds gives the pieces back.
pub proof fn lemma_split_join(ls: Seq<Seq<char>>, c: char)
    requires
        ls.len() >= 1,
        forall|k: int| 0 <= k < ls.len() ==> !(#[trigger] ls[k]).contains(c),
    ensures
        split_char(join(ls, seq![c]), c) == ls,
    decreases ls.len(),
{
    if ls.len() == 1 {
        lemma_split_char_whole(ls[0], c);
        assert(seq![ls[0]] =~= ls);
    } else {
        let init = ls.drop_last();
        assert forall|k: int| 0 <= k < init.len() implies !(#[trigger] init[k]).contains(c) by {
            assert(init[k] == ls[k]);
        }
        lemma_split_join(init, c);
        lemma_split_char_at(join(init, seq![c]), ls.last(), c);
        lemma_split_char_whole(ls.last(), c);
        assert(ls =~= init + seq![ls.last()]);
    }
}

/// The pieces of a split never hold the separator.
pub proof fn lemma_split_char_pieces(s: Seq<char>, c: char)
    ensures
        forall|k: int|
            0 <= k < split_char(s, c).len() ==> !(#[trigger] split_char(s, c)[k]).contains(c),
    decreases s.len(),
{
    lemma_index_of_char(s, c);
    match index_of_char(s, c) {
        Some(i) => {
            lemma_split_char_pieces(s.skip(i + 1), c);
            let rest = split_char(s.skip(i + 1), c);
            assert forall|k: int| 0 <= k < split_char(s, c).len() implies !(#[trigger] split_char(
                s,
                c,
            )[k]).contains(c) by {
                if k == 0 {
                    assert(split_char(s, c)[0] == s.take(i));
                    if s.take(i).contains(c) {
                        let j = choose|j: int| 0 <= j < s.take(i).len() && s.take(i)[j] == c;
                        assert(s[j] == c);
                    }
                } else {
                    assert(split_char(s, c)[k] == rest[k - 1]);
                }
            }
        },
        None => {
            if s.contains(c) {
                let j = choose|j: int| 0 <= j < s.len() && s[j] == c;
            }
        },
    }
}

/// The last piece of a split is empty exactly when the text is empty or ends
/// with the separator.
pub proof fn lemma_split_char_last(s: Seq<char>, c: char)
    ensures
        split_char(s, c).len() >= 1,
        (split_char(s, c).last().len() == 0) <==> (s.len() == 0 || s.last() == c),
    decreases s.len(),
{
    lemma_split_char_nonempty(s, c);
    lemma_index_of_char(s, c);
    match index_of_char(s, c) {
        Some(i) => {
            let rest = s.skip(i + 1);
            lemma_split_char_last(rest, c);
            assert(split_char(s, c).last() == split_char(rest, c).last());
            if rest.len() > 0 {
                assert(rest.last() == s.last());
            } else {
                assert(i == s.len() - 1);
            }
        },
        None => {
            if s.len() > 0 {
                assert(s[s.len() - 1] != c);
            }
        },
    }
}

pub open spec fn trim_start(s: Seq<char>) -> Seq<char>
    decreases s.len(),
{
    if s.len() > 0 && is_ws(s[0]) {
        trim_start(s.drop_first())
    } else {
        s
    }
}

pub open spec fn trim_end(s: Seq<char>) -> Seq<char>
    decreases s.len(),
{
    if s.len() > 0 && is_ws(s.last()) {
        trim_end(s.drop_last())
    } else {
        s
    }
}

/// Whether every character of `s` is whitespace.
pub open spec fn all_ws(s: Seq<char>) -> bool {
    forall|i: int| 0 <= i < s.len() ==> is_ws(#[trigger] s[i])
}

proof fn lemma_trim_start_ws_prefix(a: Seq<char>, t: Seq<char>)
    requires
        all_ws(a),
    ensures
        trim_start(a + t) == trim_start(t),
    decreases a.len(),
{
    if a.len() > 0 {
        assert((a + t)[0] == a[0]);
        assert((a + t).drop_first() =~= a.drop_first() + t);
        assert(all_ws(a.drop_first())) by {
            assert forall|i: int| 0 <= i < a.drop_first().len() implies is_ws(#[trigger] a.drop_first()[i]) by {
                assert(a.drop_first()[i] == a[i + 1]);
            }
        }
        lemma_trim_start_ws_prefix(a.drop_first(), t);
    } else {
        assert(a + t =~= t);
    }
}

proof fn lemma_trim_end_ws_suffix(t: Seq<char>, b: Seq<char>)
    requires
        all_ws(b),
    ensures
        trim_end(t + b) == trim_end(t),
    decreases b.len(),
{
    if b.len() > 0 {
        assert((t + b).last() == b.last());
        assert((t + b).drop_last() =~= t + b.drop_last());
        assert(all_ws(b.drop_last())) by {
            assert forall|i: int| 0 <= i < b.drop_last().len() implies is_ws(#[trigger] b.drop_last()[i]) by {
                assert(b.drop_last()[i] == b[i]);
            }
        }
        lemma_trim_end_ws_suffix(t, b.drop_last());
    } else {
        assert(t + b =~= t);
    }
}

proof fn lemma_trim_start_then(s: Seq<char>, b: Seq<char>)
    requires
        all_ws(b),
    ensures
        trim_end(trim_start(s + b)) == trim_end(trim_start(s)),
    decreases s.len(),
{
    if s.len() == 0 {
        assert(s + b =~= b);
        lemma_trim_start_ws_prefix(b, Seq::empty());
        assert(b + Seq::<char>::empty() =~= b);
    } else if is_ws(s[0]) {
        assert((s + b)[0] == s[0]);
        assert((s + b).drop_first() =~= s.drop_first() + b);
        lemma_trim_start_then(s.drop_first(), b);
    } else {
        assert((s + b)[0] == s[0]);
        lemma_trim_end_ws_suffix(s, b);
    }
}

/// Whitespace around a text does not change the text trimmed.
pub proof fn lemma_trim_padded(a: Seq<char>, s: Seq<char>, b: Seq<char>)
    requires
        all_ws(a),
        all_ws(b),
    ensures
        trim(a + s + b) == trim(s),
{
    assert(a + s + b =~= a + (s + b));
    lemma_trim_start_ws_prefix(a, s + b);
    lemma_trim_start_then(s, b);
}

/// `str::trim`.
pub open spec fn trim(s: Seq<char>) -> Seq<char> {
    trim_end(trim_start(s))
}

/// `str::trim_end_matches` with a single character.
pub open spec fn trim_end_char(s: Seq<char>, c: char) -> Seq<char>
    decreases s.len(),
{
    if s.len() > 0 && s.last() == c {
        trim_end_char(s.drop_last(), c)
    } else {
        s
    }
}

/// Joins the pieces with `sep` between consecutive pieces.
pub open spec fn join(pieces: Seq<Seq<char>>, sep: Seq<char>) -> Seq<char>
    decreases pieces.len(),
{
    if pieces.len() == 0 {
        Seq::empty()
    } else if pieces.len() == 1 {
        pieces[0]
    } else {
        join(pieces.drop_last(), sep) + sep + pieces.last()
    }
}

/// The decimal digits of `n` without leading zeros (`"0"` for zero).
pub open spec fn decimal(n: nat) -> Seq<char>
    decreases n,
{
    if n < 10 {
        seq![digit_char(n)]
    } else {
        decimal(n / 10).push(digit_char(n % 10))
    }
}

pub open spec fn digit_char(d: nat) -> char {
    if d == 0 {
        '0'
    } else if d == 1 {
        '1'
    } else if d == 2 {
        '2'
    } else if d == 3 {
        '3'
    } else if d == 4 {
        '4'
    } else if d == 5 {
        '5'
    } else if d == 6 {
        '6'
    } else if d == 7 {
        '7'
    } else if d == 8 {
        '8'
    } else {
        '9'
    }
}

/// The value of a decimal digit character.
pub open spec fn digit_value(c: char) -> nat {
    (c as u32 - '0' as u32) as nat
}

/// The decimal rendering of `n` padded with zeros to at least two digits.
pub open spec fn two_digits(n: nat) -> Seq<char> {
    if n < 10 {
        seq!['0', digit_char(n)]
    } else {
        decimal(n)
    }
}

/// The value of a non-empty run of decimal digits.
pub open spec fn digits_value(s: Seq<char>) -> nat
    decreases s.len(),
{
    if s.len() == 0 {
        0
    } else {
        digits_value(s.drop_last()) * 10 + digit_value(s.last())
    }
}

pub open spec fn all_digits(s: Seq<char>) -> bool {
    forall|i: int| 0 <= i < s.len() ==> is_digit(#[trigger] s[i])
}

proof fn lemma_digit_char(d: nat)
    requires
        d < 10,
    ensures
        is_digit(digit_char(d)),
        digit_value(digit_char(d)) == d,
{
}

/// The decimal rendering of a number is a run of digits that reads back as that number.
pub proof fn lemma_decimal(n: nat)
    ensures
        decimal(n).len() >= 1,
        n >= 10 ==> decimal(n).len() >= 2,
        all_digits(decimal(n)),
        digits_value(decimal(n)) == n,
    decreases n,
{
    if n >= 10 {
        lemma_decimal(n / 10);
        lemma_digit_char(n % 10);
        let s = decimal(n);
        assert(s.drop_last() =~= decimal(n / 10));
        assert forall|i: int| 0 <= i < s.len() implies is_digit(#[trigger] s[i]) by {
            if i < s.len() - 1 {
                assert(s[i] == decimal(n / 10)[i]);
            }
        }
        assert((n / 10) * 10 + n % 10 == n) by (nonlinear_arith);
        assert(s.last() == digit_char(n % 10));
        assert(digits_value(s) == digits_value(decimal(n / 10)) * 10 + digit_value(digit_char(n % 10)));
    } else {
        lemma_digit_char(n);
        assert(decimal(n).drop_last() =~= Seq::<char>::empty());
        assert(digits_value(decimal(n)) == digits_value(Seq::<char>::empty()) * 10 + digit_value(digit_char(n)));
    }
}

/// A number padded to two digits is a run of at least two digits that reads back as that number.
pub proof fn lemma_two_digits(n: nat)
    ensures
        two_digits(n).len() >= 2,
        all_digits(two_digits(n)),
        digits_value(two_digits(n)) == n,
{
    if n < 10 {
        lemma_digit_char(n);
        lemma_digit_char(0);
        let s = two_digits(n);
        assert(s.drop_last() =~= seq!['0']);
        assert(seq!['0'].drop_last() =~= Seq::<char>::empty());
        assert(digits_value(seq!['0']) == digits_value(Seq::<char>::empty()) * 10 + digit_value('0'));
        assert(digits_value(s) == digits_value(seq!['0']) * 10 + digit_value(digit_char(n)));
    } else {
        lemma_decimal(n);
    }
}

/// Appends `c` to `s` with `String::push`. Trusted: the string's characters
/// afterwards are the old ones followed by `c`.
#[verifier::external_body]
pub(crate) fn push_char(s: &mut String, c: char)
    ensures
        final(s)@ == old(s)@.push(c),
{
    s.push(c);
}

/// Returns the characters of `s` as a vector.
pub fn chars_of(s: &str) -> (v: Vec<char>)
    ensures
        v@ == s@,
{
    let mut v: Vec<char> = Vec::new();
    for c in it: s.chars()
        invariant
            v@ == it.seq().take(it.index() as int),
            it.seq() == s@,
    {
        v.push(c);
    }
    v
}

/// Builds a string holding the characters of `cs`.
pub fn string_of(cs: &[char]) -> (r: String)
    ensures
        r@ == cs@,
{
    let mut r = String::new();
    let mut i: usize = 0;
    while i < cs.len()
        invariant
            i <= cs.len(),
            r@ == cs@.take(i as int),
        decreases cs.len() - i,
    {
        push_char(&mut r, cs[i]);
        i = i + 1;
        assert(r@ =~= cs@.take(i as int));
    }
    assert(cs@.take(cs@.len() as int) =~= cs@);
    r
}

/// A fresh copy of `s`.
pub fn owned(s: &str) -> (r: String)
    ensures
        r@ == s@,
{
    let cs = chars_of(s);
    string_of(cs.as_slice())
}

/// Appends `t` to `s`.
pub fn append(s: &mut String, t: &str)
    ensures
        final(s)@ == old(s)@ + t@,
{
    let cs = chars_of(t);
    let ghost start = s@;
    let mut i: usize = 0;
    while i < cs.len()
        invariant
            i <= cs.len(),
            cs@ == t@,
            s@ == start + cs@.take(i as int),
        decreases cs.len() - i,
    {
        push_char(s, cs[i]);
        i = i + 1;
        assert(s@ =~= start + cs@.take(i as int));
    }
    assert(cs@.take(cs@.len() as int) =~= cs@);
}

/// The concatenation of `a` and `b`.
pub fn concat2(a: &str, b: &str) -> (r: String)
    ensures
        r@ == a@ + b@,
{
    let mut r = owned(a);
    append(&mut r, b);
    r
}

/// The concatenation of `a`, `b` and `c`.
pub fn concat3(a: &str, b: &str, c: &str) -> (r: String)
    ensures
        r@ == a@ + b@ + c@,
{
    let mut r = owned(a);
    append(&mut r, b);
    append(&mut r, c);
    r
}

/// Character-wise equality of two strings.
pub fn str_eq(a: &str, b: &str) -> (r: bool)
    ensures
        r == (a@ == b@),
{
    let x = chars_of(a);
    let y = chars_of(b);
    chars_eq(x.as_slice(), y.as_slice())
}

pub fn chars_eq(x: &[char], y: &[char]) -> (r: bool)
    ensures
        r == (x@ == y@),
{
    if x.len() != y.len() {
        return false;
    }
    let mut i: usize = 0;
    while i < x.len()
        invariant
            i <= x.len(),
            x.len() == y.len(),
            x@.take(i as int) == y@.take(i as int),
        decreases x.len() - i,
    {
        if x[i] != y[i] {
            assert(x@[i as int] != y@[i as int]);
            return false;
        }
        i = i + 1;
        assert(x@.take(i as int) =~= x@.take(i - 1) .push(x@[i - 1]));
        assert(y@.take(i as int) =~= y@.take(i - 1) .push(y@[i - 1]));
    }
    assert(x@ =~= x@.take(x@.len() as int));
    assert(y@ =~= y@.take(y@.len() as int));
    true
}

/// Whether `s` begins with `p`.
pub fn has_prefix(s: &str, p: &str) -> (r: bool)
    ensures
        r == starts_with(s@, p@),
{
    let x = chars_of(s);
    let y = chars_of(p);
    if y.len() > x.len() {
        return false;
    }
    let head = slice_prefix(x.as_slice(), y.len());
    chars_eq(head.as_slice(), y.as_slice())
}

/// Whether `s` ends with `p`.
pub fn has_suffix(s: &str, p: &str) -> (r: bool)
    ensures
        r == ends_with(s@, p@),
{
    let x = chars_of(s);
    let y = chars_of(p);
    if y.len() > x.len() {
        return false;
    }
    let tail = slice_suffix(x.as_slice(), x.len() - y.len());
    chars_eq(tail.as_slice(), y.as_slice())
}

/// The first `n` characters of `x`.
pub fn slice_prefix(x: &[char], n: usize) -> (r: Vec<char>)
    requires
        n <= x.len(),
    ensures
        r@ == x@.take(n as int),
{
    let mut r: Vec<char> = Vec::new();
    let mut i: usize = 0;
    while i < n
        invariant
            i <= n,
            n <= x.len(),
            r@ == x@.take(i as int),
        decreases n - i,
    {
        r.push(x[i]);
        i = i + 1;
        assert(r@ =~= x@.take(i as int));
    }
    r
}

/// The characters of `x` from position `n` on.
pub fn slice_suffix(x: &[char], n: usize) -> (r: Vec<char>)
    requires
        n <= x.len(),
    ensures
        r@ == x@.skip(n as int),
{
    slice_range(x, n, x.len())
}

/// The characters of `x` in `[from, to)`.
pub fn slice_range(x: &[char], from: usize, to: usize) -> (r: Vec<char>)
    requires
        from <= to <= x.len(),
    ensures
        r@ == x@.subrange(from as int, to as int),
{
    let mut r: Vec<char> = Vec::new();
    let mut i: usize = from;
    while i < to
        invariant
            from <= i <= to,
            to <= x.len(),
            r@ == x@.subrange(from as int, i as int),
        decreases to - i,
    {
        r.push(x[i]);
        i = i + 1;
        assert(r@ =~= x@.subrange(from as int, i as int));
    }
    r
}

/// `str::strip_prefix`.
pub fn strip_prefix(s: &str, p: &str) -> (r: Option<String>)
    ensures
        r is Some <==> starts_with(s@, p@),
        r matches Some(t) ==> t@ == s@.skip(p@.len() as int),
{
    if has_prefix(s, p) {
        let x = chars_of(s);
        let n = chars_of(p).len();
        let rest = slice_suffix(x.as_slice(), n);
        Some(string_of(rest.as_slice()))
    } else {
        None
    }
}

/// `str::strip_suffix`.
pub fn strip_suffix(s: &str, p: &str) -> (r: Option<String>)
    ensures
        r is Some <==> ends_with(s@, p@),
        r matches Some(t) ==> t@ == s@.take(s@.len() - p@.len()),
{
    if has_suffix(s, p) {
        let x = chars_of(s);
        let n = chars_of(p).len();
        let head = slice_prefix(x.as_slice(), x.len() - n);
        Some(string_of(head.as_slice()))
    } else {
        None
    }
}

proof fn lemma_find_from_none(s: Seq<char>, p: Seq<char>, i: int, j: int)
    requires
        0 <= i <= j,
        find_from(s, p, i) is None,
    ensures
        !occurs_at(s, p, j),
    decreases j - i,
{
    if i + p.len() > s.len() {
    } else if i < j {
        assert(p.len() > 0) by {
            if p.len() == 0 {
                assert(s.subrange(i, i + p.len()) =~= p);
            }
        }
        lemma_find_from_none(s, p, i + 1, j);
    }
}

pub proof fn lemma_find_from_some(s: Seq<char>, p: Seq<char>, i: int)
    requires
        0 <= i,
    ensures
        find_from(s, p, i) matches Some(k) ==> i <= k && occurs_at(s, p, k) && forall|j: int|
            i <= j < k ==> !occurs_at(s, p, j),
    decreases s.len() + 1 - i,
{
    if i + p.len() > s.len() {
    } else if s.subrange(i, i + p.len()) == p {
    } else {
        assert(p.len() > 0) by {
            if p.len() == 0 {
                assert(s.subrange(i, i + p.len()) =~= p);
            }
        }
        lemma_find_from_some(s, p, i + 1);
    }
}

/// The first position of `p` in `x` at or after `from`.
pub fn find_chars(x: &[char], p: &[char], from: usize) -> (r: Option<usize>)
    requires
        from <= x.len(),
    ensures
        match r {
            Some(k) => find_from(x@, p@, from as int) == Some(k as int),
            None => find_from(x@, p@, from as int) is None,
        },
{
    let mut i: usize = from;
    if p.len() == 0 {
        assert(x@.subrange(from as int, from as int) =~= p@);
        return Some(from);
    }
    if p.len() > x.len() {
        assert(find_from(x@, p@, from as int) is None);
        return None;
    }
    while i <= x.len() - p.len()
        invariant
            from <= i <= x.len(),
            0 < p.len() <= x.len(),
            find_from(x@, p@, from as int) == find_from(x@, p@, i as int),
        decreases x.len() - i,
    {
        let piece = slice_range(x, i, i + p.len());
        if chars_eq(piece.as_slice(), p) {
            return Some(i);
        }
        i = i + 1;
    }
    None
}

/// `str::split_once`.
pub fn split_once_str(s: &str, p: &str) -> (r: Option<(String, String)>)
    ensures
        match r {
            Some((a, b)) => split_once(s@, p@) == Some((a@, b@)),
            None => split_once(s@, p@) is None,
        },
{
    let x = chars_of(s);
    let y = chars_of(p);
    match find_chars(x.as_slice(), y.as_slice(), 0) {
        Some(k) => {
            proof { lemma_find_from_some(x@, y@, 0); }
            assert(occurs_at(x@, y@, k as int));
            assert(k + y.len() <= x.len());
            let head = slice_prefix(x.as_slice(), k);
            let tail = slice_suffix(x.as_slice(), k + y.len());
            Some((string_of(head.as_slice()), string_of(tail.as_slice())))
        },
        None => None,
    }
}

/// Whether `p` occurs somewhere in `s`.
pub fn contains_str(s: &str, p: &str) -> (r: bool)
    ensures
        r == contains_seq(s@, p@),
{
    let x = chars_of(s);
    let y = chars_of(p);
    match find_chars(x.as_slice(), y.as_slice(), 0) {
        Some(k) => {
            proof { lemma_find_from_some(x@, y@, 0); }
            true
        },
        None => {
            proof {
                assert forall|j: int| !occurs_at(s@, p@, j) by {
                    if 0 <= j {
                        lemma_find_from_none(s@, p@, 0, j);
                    }
                }
            }
            false
        },
    }
}

pub proof fn lemma_find_none_means_absent(s: Seq<char>, p: Seq<char>)
    requires
        find_from(s, p, 0) is None,
    ensures
        !contains_seq(s, p),
{
    assert forall|j: int| !occurs_at(s, p, j) by {
        if 0 <= j {
            lemma_find_from_none(s, p, 0, j);
        }
    }
}

/// `p` is found first at `k` when it occurs there and nowhere between `i` and `k`.
pub proof fn lemma_find_from_at(s: Seq<char>, p: Seq<char>, i: int, k: int)
    requires
        0 <= i <= k,
        occurs_at(s, p, k),
        forall|j: int| i <= j < k ==> !occurs_at(s, p, j),
    ensures
        find_from(s, p, i) == Some(k),
    decreases k - i,
{
    if i < k {
        assert(!occurs_at(s, p, i));
        lemma_find_from_at(s, p, i + 1, k);
    }
}

/// `p` is not found from `i` on when it occurs nowhere from `i` on.
pub proof fn lemma_find_from_nowhere(s: Seq<char>, p: Seq<char>, i: int)
    requires
        0 <= i,
        forall|j: int| i <= j ==> !occurs_at(s, p, j),
    ensures
        find_from(s, p, i) is None,
    decreases s.len() + 1 - i,
{
    if i + p.len() <= s.len() {
        assert(!occurs_at(s, p, i));
        lemma_find_from_nowhere(s, p, i + 1);
    }
}

/// Trimming leaves a text alone when it starts and ends with no white space.
pub proof fn lemma_trim_noop(s: Seq<char>)
    requires
        s.len() > 0,
        !is_ws(s[0]),
        !is_ws(s.last()),
    ensures
        trim(s) == s,
{
    assert(trim_start(s) == s);
    assert(trim_end(s) == s);
}

/// `str::trim`.
pub fn trim_str(s: &str) -> (r: String)
    ensures
        r@ == trim(s@),
{
    let x = chars_of(s);
    let mut a: usize = 0;
    assert(x@.skip(0) =~= x@);
    while a < x.len() && is_ws_exec(x[a])
        invariant
            a <= x.len(),
            trim_start(x@) == trim_start(x@.skip(a as int)),
        decreases x.len() - a,
    {
        assert(x@.skip(a as int).drop_first() =~= x@.skip(a + 1));
        a = a + 1;
    }
    assert(trim_start(x@.skip(a as int)) == x@.skip(a as int));
    let mut b: usize = x.len();
    while b > a && is_ws_exec(x[b - 1])
        invariant
            a <= b <= x.len(),
            trim_end(x@.skip(a as int)) == trim_end(x@.subrange(a as int, b as int)),
        decreases b,
    {
        assert(x@.subrange(a as int, b as int).drop_last() =~= x@.subrange(a as int, b - 1));
        b = b - 1;
    }
    assert(x@.skip(a as int) =~= x@.subrange(a as int, x@.len() as int));
    let r = slice_range(x.as_slice(), a, b);
    string_of(r.as_slice())
}

/// `str::trim_start`.
pub fn trim_start_str(s: &str) -> (r: String)
    ensures
        r@ == trim_start(s@),
{
    let x = chars_of(s);
    let mut a: usize = 0;
    assert(x@.skip(0) =~= x@);
    while a < x.len() && is_ws_exec(x[a])
        invariant
            a <= x.len(),
            trim_start(x@) == trim_start(x@.skip(a as int)),
        decreases x.len() - a,
    {
        assert(x@.skip(a as int).drop_first() =~= x@.skip(a + 1));
        a = a + 1;
    }
    assert(trim_start(x@.skip(a as int)) == x@.skip(a as int));
    string_of(slice_suffix(x.as_slice(), a).as_slice())
}

/// Executable `is_ws`.
pub fn is_ws_exec(c: char) -> (r: bool)
    ensures
        r == is_ws(c),
{
    c == '\t' || c == '\n' || c == '\u{0B}' || c == '\u{0C}' || c == '\r' || c == ' ' || c
        == '\u{85}' || c == '\u{A0}' || c == '\u{1680}' || ('\u{2000}' <= c && c <= '\u{200A}')
        || c == '\u{2028}' || c == '\u{2029}' || c == '\u{202F}' || c == '\u{205F}' || c
        == '\u{3000}'
}

/// Whether `s` is empty after trimming whitespace.
pub fn is_blank(s: &str) -> (r: bool)
    ensures
        r == (trim(s@).len() == 0),
{
    let t = trim_str(s);
    t.as_str().is_empty()
}


/// The position of the first `c` in `x` at or after `from`.
pub fn find_char(x: &[char], c: char, from: usize) -> (r: Option<usize>)
    requires
        from <= x.len(),
    ensures
        match r {
            Some(k) => index_of_char(x@.skip(from as int), c) == Some(k - from) && from <= k,
            None => index_of_char(x@.skip(from as int), c) is None,
        },
{
    let ghost rest = x@.skip(from as int);
    proof { lemma_index_of_char(rest, c); }
    let mut i: usize = from;
    while i < x.len()
        invariant
            from <= i <= x.len(),
            rest == x@.skip(from as int),
            forall|j: int| from <= j < i ==> x@[j] != c,
        decreases x.len() - i,
    {
        if x[i] == c {
            proof {
                lemma_index_of_char(rest, c);
                assert(rest[i - from] == c);
                match index_of_char(rest, c) {
                    Some(k) => {
                        assert(k <= i - from);
                        assert(k >= i - from) by {
                            if k < i - from {
                                assert(rest[k] == x@[k + from]);
                            }
                        }
                    },
                    None => {},
                }
            }
            return Some(i);
        }
        i = i + 1;
    }
    proof {
        lemma_index_of_char(rest, c);
        match index_of_char(rest, c) {
            Some(k) => {
                assert(rest[k] == x@[k + from]);
            },
            None => {},
        }
    }
    None
}

/// The pieces of `s` separated by `c`, as views.
pub open spec fn pieces_view(v: Seq<String>) -> Seq<Seq<char>> {
    v.map_values(|p: String| p@)
}

/// `str::split` on a single character.
pub fn split_str(s: &str, c: char) -> (r: Vec<String>)
    ensures
        pieces_view(r@) == split_char(s@, c),
{
    let x = chars_of(s);
    let mut r: Vec<String> = Vec::new();
    let mut start: usize = 0;
    assert(x@.skip(0) =~= x@);
    loop
        invariant
            start <= x.len(),
            x@ == s@,
            split_char(s@, c) == pieces_view(r@) + split_char(x@.skip(start as int), c),
        decreases x.len() - start,
    {
        let ghost rest = x@.skip(start as int);
        match find_char(x.as_slice(), c, start) {
            Some(k) => {
                proof {
                    lemma_index_of_char(rest, c);
                }
                let piece = slice_range(x.as_slice(), start, k);
                proof {
                    assert(piece@ =~= rest.take(k - start));
                    assert(rest.skip(k - start + 1) =~= x@.skip(k + 1));
                }
                let ghost before = pieces_view(r@);
                r.push(string_of(piece.as_slice()));
                assert(pieces_view(r@) =~= before + seq![piece@]);
                start = k + 1;
            },
            None => {
                let piece = slice_suffix(x.as_slice(), start);
                let ghost before = pieces_view(r@);
                r.push(string_of(piece.as_slice()));
                assert(pieces_view(r@) =~= before + seq![piece@]);
                return r;
            },
        }
    }
}


/// Joins the strings with `sep` between consecutive ones.
pub fn join_strings(v: &Vec<String>, sep: &str) -> (r: String)
    ensures
        r@ == join(pieces_view(v@), sep@),
{
    let mut r = String::new();
    let mut i: usize = 0;
    while i < v.len()
        invariant
            i <= v.len(),
            r@ == join(pieces_view(v@).take(i as int), sep@),
        decreases v.len() - i,
    {
        let ghost prev = pieces_view(v@).take(i as int);
        if i > 0 {
            append(&mut r, sep);
        }
        append(&mut r, v[i].as_str());
        proof {
            let next = pieces_view(v@).take(i + 1);
            assert(next.drop_last() =~= prev);
            if i == 0 {
                assert(next =~= seq![v@[0]@]);
                assert(prev.len() == 0);
            }
        }
        i = i + 1;
    }
    assert(pieces_view(v@).take(v.len() as int) =~= pieces_view(v@));
    r
}

} // verus!
