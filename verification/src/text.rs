//! Text primitives over sequences of characters: the pieces of `str` behaviour that the
//! Verification logic relies on (whitespace trimming, prefixes, searching, line
//! splitting and decimal rendering), each stated as a spec function and implemented
//! with a proof that the implementation computes it.

use vstd::prelude::*;

verus! {

/// Trusted specification of `String::push` from std: the string grows by the one
/// character at its end, as the std documentation states.
pub assume_specification[ String::push ](string: &mut String, ch: char)
    ensures
        final(string)@ == old(string)@.push(ch),
;

/// The characters of a string, as a vector.
pub fn chars_of(s: &str) -> (chars: Vec<char>)
    ensures
        chars@ == s@,
{
    let mut chars: Vec<char> = Vec::new();
    for c in it: s.chars()
        invariant
            it.seq() == s@,
            chars@ == s@.take(it.index() as int),
    {
        proof {
            assert(s@.take(it.index() as int + 1) == s@.take(it.index() as int).push(c));
        }
        chars.push(c);
    }
    assert(chars@ =~= s@);
    chars
}


/// Unicode `White_Space`, the property that `char::is_whitespace` and `str::trim` use.
pub open spec fn is_whitespace(c: char) -> bool {
    let n = c as u32;
    ||| (0x09 <= n && n <= 0x0D)
    ||| n == 0x20
    ||| n == 0x85
    ||| n == 0xA0
    ||| n == 0x1680
    ||| (0x2000 <= n && n <= 0x200A)
    ||| n == 0x2028
    ||| n == 0x2029
    ||| n == 0x202F
    ||| n == 0x205F
    ||| n == 0x3000
}

/// Number of whitespace characters at the start of `s`.
pub open spec fn leading_ws(s: Seq<char>) -> nat
    decreases s.len(),
{
    if s.len() > 0 && is_whitespace(s[0]) {
        1 + leading_ws(s.drop_first())
    } else {
        0
    }
}

/// Number of whitespace characters at the end of `s`.
pub open spec fn trailing_ws(s: Seq<char>) -> nat
    decreases s.len(),
{
    if s.len() > 0 && is_whitespace(s.last()) {
        1 + trailing_ws(s.drop_last())
    } else {
        0
    }
}

/// `str::trim_start`.
pub open spec fn trim_start(s: Seq<char>) -> Seq<char> {
    s.skip(leading_ws(s) as int)
}

/// `str::trim_end`.
pub open spec fn trim_end(s: Seq<char>) -> Seq<char> {
    s.take(s.len() - trailing_ws(s))
}

/// `str::trim`.
pub open spec fn trim(s: Seq<char>) -> Seq<char> {
    trim_end(trim_start(s))
}

/// `s` begins with `p`.
pub open spec fn starts_with(s: Seq<char>, p: Seq<char>) -> bool {
    p.len() <= s.len() && s.take(p.len() as int) == p
}

/// `p` occurs in `s` at index `i`.
pub open spec fn occurs_at(s: Seq<char>, p: Seq<char>, i: int) -> bool {
    0 <= i && i + p.len() <= s.len() && s.subrange(i, i + p.len()) == p
}

/// `p` occurs somewhere in `s`.
pub open spec fn contains(s: Seq<char>, p: Seq<char>) -> bool {
    exists|i: int| occurs_at(s, p, i)
}

/// The first index at or after `i` where the non-empty pattern `p` occurs in `s`.
pub open spec fn find_from(s: Seq<char>, p: Seq<char>, i: int) -> Option<int>
    decreases s.len() - i,
{
    if i < 0 || p.len() == 0 || i + p.len() > s.len() {
        None
    } else if occurs_at(s, p, i) {
        Some(i)
    } else {
        find_from(s, p, i + 1)
    }
}

/// Number of line feeds in `s`.
pub open spec fn count_newlines(s: Seq<char>) -> nat
    decreases s.len(),
{
    if s.len() == 0 {
        0
    } else {
        count_newlines(s.drop_last()) + if s.last() == '\n' {
            1nat
        } else {
            0nat
        }
    }
}

/// Index of the first line feed in `s`, or its length when there is none.
pub open spec fn line_end(s: Seq<char>) -> nat
    decreases s.len(),
{
    if s.len() == 0 || s[0] == '\n' {
        0
    } else {
        1 + line_end(s.drop_first())
    }
}

/// A line without its carriage return, as `str::lines` strips it before a line feed.
pub open spec fn strip_cr(s: Seq<char>) -> Seq<char> {
    if s.len() > 0 && s.last() == '\r' {
        s.drop_last()
    } else {
        s
    }
}

pub proof fn lemma_line_end_bound(s: Seq<char>)
    ensures
        line_end(s) <= s.len(),
        line_end(s) < s.len() ==> s[line_end(s) as int] == '\n',
        forall|j: int| 0 <= j < line_end(s) ==> s[j] != '\n',
    decreases s.len(),
{
    if s.len() > 0 && s[0] != '\n' {
        lemma_line_end_bound(s.drop_first());
        assert forall|j: int| 0 <= j < line_end(s) implies s[j] != '\n' by {
            if j > 0 {
                assert(s[j] == s.drop_first()[j - 1]);
            }
        }
    }
}

/// `str::lines`: the text split at line feeds, each line without a carriage return
/// that stands just before its line feed; no line follows a final line feed.
pub open spec fn lines(s: Seq<char>) -> Seq<Seq<char>>
    decreases s.len(),
{
    if s.len() == 0 {
        seq![]
    } else {
        let k = line_end(s);
        proof {
            lemma_line_end_bound(s);
        }
        if k == s.len() {
            seq![s]
        } else {
            seq![strip_cr(s.take(k as int))] + lines(s.skip(k + 1int))
        }
    }
}

/// Decimal digit for `d < 10`.
pub open spec fn digit(d: nat) -> char {
    if d == 0 { '0' }
    else if d == 1 { '1' }
    else if d == 2 { '2' }
    else if d == 3 { '3' }
    else if d == 4 { '4' }
    else if d == 5 { '5' }
    else if d == 6 { '6' }
    else if d == 7 { '7' }
    else if d == 8 { '8' }
    else { '9' }
}

/// The decimal rendering of `n`, as `format!("{n}")` writes it.
pub open spec fn decimal(n: nat) -> Seq<char>
    decreases n,
{
    if n < 10 {
        seq![digit(n)]
    } else {
        decimal(n / 10).push(digit(n % 10))
    }
}


pub fn is_whitespace_char(c: char) -> (r: bool)
    ensures
        r == is_whitespace(c),
{
    let n = c as u32;
    (0x09 <= n && n <= 0x0D) || n == 0x20 || n == 0x85 || n == 0xA0 || n == 0x1680 || (0x2000
        <= n && n <= 0x200A) || n == 0x2028 || n == 0x2029 || n == 0x202F || n == 0x205F || n
        == 0x3000
}

pub proof fn lemma_leading_ws(s: Seq<char>, k: int)
    requires
        0 <= k <= s.len(),
        forall|j: int| 0 <= j < k ==> is_whitespace(#[trigger] s[j]),
        k == s.len() || !is_whitespace(s[k]),
    ensures
        leading_ws(s) == k,
    decreases k,
{
    if k > 0 {
        assert(is_whitespace(s[0]));
        let t = s.drop_first();
        assert forall|j: int| 0 <= j < k - 1 implies is_whitespace(#[trigger] t[j]) by {
            assert(t[j] == s[j + 1]);
        }
        if k < s.len() {
            assert(t[k - 1] == s[k]);
        }
        lemma_leading_ws(t, k - 1);
    }
}

pub proof fn lemma_trailing_ws(s: Seq<char>, k: int)
    requires
        0 <= k <= s.len(),
        forall|j: int| s.len() - k <= j < s.len() ==> is_whitespace(#[trigger] s[j]),
        k == s.len() || !is_whitespace(s[s.len() - k - 1]),
    ensures
        trailing_ws(s) == k,
    decreases k,
{
    if k > 0 {
        assert(is_whitespace(s[s.len() - 1]));
        let t = s.drop_last();
        assert forall|j: int| t.len() - (k - 1) <= j < t.len() implies is_whitespace(
            #[trigger] t[j],
        ) by {
            assert(t[j] == s[j]);
        }
        if k < s.len() {
            assert(t[t.len() - (k - 1) - 1] == s[s.len() - k - 1]);
        }
        lemma_trailing_ws(t, k - 1);
    }
}

/// Number of whitespace characters at the start of `v[a..b]`.
pub fn leading_ws_in(v: &Vec<char>, a: usize, b: usize) -> (n: usize)
    requires
        a <= b <= v@.len(),
    ensures
        n == leading_ws(v@.subrange(a as int, b as int)),
        n <= b - a,
{
    let mut i = a;
    while i < b && is_whitespace_char(v[i])
        invariant
            a <= i <= b <= v@.len(),
            forall|j: int| a <= j < i ==> is_whitespace(#[trigger] v@[j]),
        decreases b - i,
    {
        i = i + 1;
    }
    proof {
        let s = v@.subrange(a as int, b as int);
        assert forall|j: int| 0 <= j < i - a implies is_whitespace(#[trigger] s[j]) by {
            assert(s[j] == v@[a + j]);
        }
        lemma_leading_ws(s, i - a);
    }
    i - a
}

/// Number of whitespace characters at the end of `v[a..b]`.
pub fn trailing_ws_in(v: &Vec<char>, a: usize, b: usize) -> (n: usize)
    requires
        a <= b <= v@.len(),
    ensures
        n == trailing_ws(v@.subrange(a as int, b as int)),
        n <= b - a,
{
    let mut i = b;
    while i > a && is_whitespace_char(v[i - 1])
        invariant
            a <= i <= b <= v@.len(),
            forall|j: int| i <= j < b ==> is_whitespace(#[trigger] v@[j]),
        decreases i - a,
    {
        i = i - 1;
    }
    proof {
        let s = v@.subrange(a as int, b as int);
        assert forall|j: int| s.len() - (b - i) <= j < s.len() implies is_whitespace(
            #[trigger] s[j],
        ) by {
            assert(s[j] == v@[a + j]);
        }
        if i > a {
            assert(s[s.len() - (b - i) - 1] == v@[i - 1]);
        }
        lemma_trailing_ws(s, b - i);
    }
    b - i
}

/// The bounds of `trim(v[a..b])` within `v`.
pub fn trim_bounds(v: &Vec<char>, a: usize, b: usize) -> (r: (usize, usize))
    requires
        a <= b <= v@.len(),
    ensures
        a <= r.0 <= r.1 <= b,
        v@.subrange(r.0 as int, r.1 as int) == trim(v@.subrange(a as int, b as int)),
        v@.subrange(r.0 as int, b as int) == trim_start(v@.subrange(a as int, b as int)),
{
    let lead = leading_ws_in(v, a, b);
    let start = a + lead;
    let trail = trailing_ws_in(v, start, b);
    proof {
        let s = v@.subrange(a as int, b as int);
        assert(trim_start(s) =~= v@.subrange(start as int, b as int));
        assert(trim(s) =~= v@.subrange(start as int, (b - trail) as int));
    }
    (start, b - trail)
}

/// `p` occurs in `v` at index `i`.
pub fn occurs_at_in(v: &Vec<char>, p: &Vec<char>, i: usize) -> (r: bool)
    ensures
        r == occurs_at(v@, p@, i as int),
{
    if i > v.len() || p.len() > v.len() - i {
        return false;
    }
    let n = v.len();
    let mut k: usize = 0;
    while k < p.len()
        invariant
            n == v@.len(),
            i + p@.len() <= v@.len(),
            k <= p@.len(),
            forall|j: int| 0 <= j < k ==> v@[i + j] == p@[j],
        decreases p@.len() - k,
    {
        if v[i + k] != p[k] {
            proof {
                assert(v@.subrange(i as int, i + p@.len())[k as int] != p@[k as int]);
            }
            return false;
        }
        k = k + 1;
    }
    proof {
        assert(v@.subrange(i as int, i + p@.len()) =~= p@);
    }
    true
}

/// The first index at or after `from` where the non-empty pattern `p` occurs in `v`.
pub fn find_in(v: &Vec<char>, p: &Vec<char>, from: usize) -> (r: Option<usize>)
    requires
        p@.len() > 0,
    ensures
        match r {
            Some(i) => find_from(v@, p@, from as int) == Some(i as int),
            None => find_from(v@, p@, from as int) is None,
        },
{
    let mut i = from;
    while i <= v.len() && p.len() <= v.len() - i
        invariant
            p@.len() > 0,
            from <= i,
            find_from(v@, p@, from as int) == find_from(v@, p@, i as int),
        decreases v@.len() + 1 - i,
    {
        if occurs_at_in(v, p, i) {
            return Some(i);
        }
        i = i + 1;
    }
    None
}

/// `p` occurs somewhere in `v[a..b]`.
pub fn contains_in(v: &Vec<char>, a: usize, b: usize, p: &Vec<char>) -> (r: bool)
    requires
        a <= b <= v@.len(),
    ensures
        r == contains(v@.subrange(a as int, b as int), p@),
{
    let ghost s = v@.subrange(a as int, b as int);
    if p.len() > b - a {
        assert forall|i: int| !occurs_at(s, p@, i) by {}
        return false;
    }
    if p.len() == 0 {
        proof {
            assert(s.subrange(0, 0) =~= p@);
            assert(occurs_at(s, p@, 0));
        }
        return true;
    }
    let mut i = a;
    while i <= b - p.len()
        invariant
            a <= b <= v@.len(),
            0 < p@.len() <= b - a,
            a <= i <= b - p@.len() + 1,
            s == v@.subrange(a as int, b as int),
            forall|j: int| 0 <= j < i - a ==> !occurs_at(s, p@, j),
        decreases b - p@.len() + 1 - i,
    {
        if occurs_at_in(v, p, i) {
            proof {
                assert(s.subrange(i - a, i - a + p@.len()) =~= v@.subrange(
                    i as int,
                    i + p@.len(),
                ));
                assert(occurs_at(s, p@, i - a));
            }
            return true;
        }
        proof {
            assert(s.subrange(i - a, i - a + p@.len()) =~= v@.subrange(i as int, i + p@.len()));
        }
        i = i + 1;
    }
    assert forall|j: int| !occurs_at(s, p@, j) by {
        if 0 <= j < i - a {
        }
    }
    false
}

/// `v[a..b]` begins with `p`.
pub fn starts_with_in(v: &Vec<char>, a: usize, b: usize, p: &Vec<char>) -> (r: bool)
    requires
        a <= b <= v@.len(),
    ensures
        r == starts_with(v@.subrange(a as int, b as int), p@),
{
    let ghost s = v@.subrange(a as int, b as int);
    if p.len() > b - a {
        return false;
    }
    let r = occurs_at_in(v, p, a);
    proof {
        assert(s.take(p@.len() as int) =~= v@.subrange(a as int, a + p@.len()));
    }
    r
}

/// `v[a..b]` is exactly `p`.
pub fn range_eq(v: &Vec<char>, a: usize, b: usize, p: &Vec<char>) -> (r: bool)
    requires
        a <= b <= v@.len(),
    ensures
        r == (v@.subrange(a as int, b as int) == p@),
{
    if b - a != p.len() {
        proof {
            if v@.subrange(a as int, b as int) == p@ {
                assert(v@.subrange(a as int, b as int).len() == p@.len());
            }
        }
        return false;
    }
    occurs_at_in(v, p, a)
}

/// Number of line feeds in `v[0..k]`.
pub fn count_newlines_prefix(v: &Vec<char>, k: usize) -> (n: usize)
    requires
        k <= v@.len(),
    ensures
        n == count_newlines(v@.take(k as int)),
        n <= k,
{
    let mut n: usize = 0;
    let mut i: usize = 0;
    while i < k
        invariant
            i <= k <= v@.len(),
            n == count_newlines(v@.take(i as int)),
            n <= i,
        decreases k - i,
    {
        proof {
            assert(v@.take(i + 1).drop_last() =~= v@.take(i as int));
        }
        if v[i] == '\n' {
            n = n + 1;
        }
        i = i + 1;
    }
    n
}

pub proof fn lemma_line_end(s: Seq<char>, k: int)
    requires
        0 <= k <= s.len(),
        forall|j: int| 0 <= j < k ==> #[trigger] s[j] != '\n',
        k == s.len() || s[k] == '\n',
    ensures
        line_end(s) == k,
    decreases k,
{
    if k > 0 {
        let t = s.drop_first();
        assert(s[0] != '\n');
        assert forall|j: int| 0 <= j < k - 1 implies #[trigger] t[j] != '\n' by {
            assert(t[j] == s[j + 1]);
        }
        if k < s.len() {
            assert(t[k - 1] == s[k]);
        }
        lemma_line_end(t, k - 1);
    }
}

pub proof fn lemma_lines_len(s: Seq<char>)
    ensures
        lines(s).len() <= s.len(),
    decreases s.len(),
{
    if s.len() > 0 {
        let k = line_end(s);
        lemma_line_end_bound(s);
        if k < s.len() {
            lemma_lines_len(s.skip(k + 1int));
        }
    }
}

/// The start and end of each of the `lines` of `v`.
pub fn line_spans(v: &Vec<char>) -> (spans: Vec<(usize, usize)>)
    ensures
        spans@.len() == lines(v@).len(),
        spans@.len() <= v@.len(),
        forall|k: int|
            0 <= k < spans@.len() ==> {
                &&& (#[trigger] spans@[k]).0 <= spans@[k].1 <= v@.len()
                &&& v@.subrange(spans@[k].0 as int, spans@[k].1 as int) == lines(v@)[k]
            },
{
    let ghost s = v@;
    let mut spans: Vec<(usize, usize)> = Vec::new();
    let mut start: usize = 0;
    let mut i: usize = 0;
    proof {
        assert(s.skip(0) =~= s);
    }
    while i < v.len()
        invariant
            s == v@,
            start <= i <= v@.len(),
            forall|j: int| start <= j < i ==> #[trigger] s[j] != '\n',
            lines(s) == spans@.map_values(
                |sp: (usize, usize)| s.subrange(sp.0 as int, sp.1 as int),
            ) + lines(s.skip(start as int)),
            forall|k: int|
                0 <= k < spans@.len() ==> (#[trigger] spans@[k]).0 <= spans@[k].1 <= s.len(),
        decreases v@.len() - i,
    {
        if v[i] == '\n' {
            let end = if i > start && v[i - 1] == '\r' {
                i - 1
            } else {
                i
            };
            proof {
                let t = s.skip(start as int);
                assert forall|j: int| 0 <= j < i - start implies #[trigger] t[j] != '\n' by {
                    assert(t[j] == s[start + j]);
                }
                lemma_line_end(t, i - start);
                assert(t.take(i - start) =~= s.subrange(start as int, i as int));
                assert(strip_cr(t.take(i - start)) =~= s.subrange(start as int, end as int));
                assert(t.skip(i - start + 1) =~= s.skip(i + 1));
            }
            let ghost old_spans = spans@;
            spans.push((start, end));
            proof {
                assert(spans@.map_values(|sp: (usize, usize)| s.subrange(sp.0 as int, sp.1 as int))
                    =~= old_spans.map_values(
                    |sp: (usize, usize)| s.subrange(sp.0 as int, sp.1 as int),
                ).push(s.subrange(start as int, end as int)));
            }
            start = i + 1;
        }
        i = i + 1;
    }
    if start < v.len() {
        proof {
            let t = s.skip(start as int);
            assert forall|j: int| 0 <= j < t.len() implies #[trigger] t[j] != '\n' by {
                assert(t[j] == s[start + j]);
            }
            lemma_line_end(t, t.len() as int);
            assert(t =~= s.subrange(start as int, s.len() as int));
        }
        let ghost old_spans = spans@;
        spans.push((start, v.len()));
        proof {
            assert(spans@.map_values(|sp: (usize, usize)| s.subrange(sp.0 as int, sp.1 as int))
                =~= old_spans.map_values(
                |sp: (usize, usize)| s.subrange(sp.0 as int, sp.1 as int),
            ).push(s.subrange(start as int, s.len() as int)));
        }
    } else {
        proof {
            assert(s.skip(start as int).len() == 0);
        }
    }
    proof {
        let m = spans@.map_values(|sp: (usize, usize)| s.subrange(sp.0 as int, sp.1 as int));
        assert(lines(s) =~= m);
        assert forall|k: int| 0 <= k < spans@.len() implies v@.subrange(
            (#[trigger] spans@[k]).0 as int,
            spans@[k].1 as int,
        ) == lines(v@)[k] by {
            assert(m[k] == s.subrange(spans@[k].0 as int, spans@[k].1 as int));
        }
        lemma_lines_len(s);
    }
    spans
}

pub proof fn lemma_find_from(s: Seq<char>, p: Seq<char>, i: int)
    ensures
        find_from(s, p, i) matches Some(k) ==> {
            &&& i <= k
            &&& occurs_at(s, p, k)
            &&& forall|j: int| i <= j < k ==> !occurs_at(s, p, j)
        },
        find_from(s, p, i) is None && 0 <= i && p.len() > 0 ==> forall|j: int| i <= j ==> !occurs_at(s, p, j),
    decreases s.len() - i,
{
    if i < 0 || p.len() == 0 || i + p.len() > s.len() {
    } else if occurs_at(s, p, i) {
    } else {
        lemma_find_from(s, p, i + 1);
    }
}

pub proof fn lemma_count_newlines_concat(a: Seq<char>, b: Seq<char>)
    ensures
        count_newlines(a + b) == count_newlines(a) + count_newlines(b),
    decreases b.len(),
{
    if b.len() == 0 {
        assert(a + b =~= a);
    } else {
        lemma_count_newlines_concat(a, b.drop_last());
        assert((a + b).drop_last() =~= a + b.drop_last());
    }
}

pub proof fn lemma_count_newlines_none(s: Seq<char>)
    requires
        forall|j: int| 0 <= j < s.len() ==> #[trigger] s[j] != '\n',
    ensures
        count_newlines(s) == 0,
    decreases s.len(),
{
    if s.len() > 0 {
        assert forall|j: int| 0 <= j < s.drop_last().len() implies #[trigger] s.drop_last()[j]
            != '\n' by {
            assert(s.drop_last()[j] == s[j]);
        }
        lemma_count_newlines_none(s.drop_last());
    }
}

/// The lines of a text from a line start on are the lines of the text after as many
/// lines as line feeds come before that start.
pub proof fn lemma_lines_skip(s: Seq<char>, p: int)
    requires
        0 <= p <= s.len(),
        p == 0 || s[p - 1] == '\n',
    ensures
        count_newlines(s.take(p)) <= lines(s).len(),
        lines(s).skip(count_newlines(s.take(p)) as int) == lines(s.skip(p)),
    decreases s.len(),
{
    if p == 0 {
        assert(s.take(0) =~= Seq::<char>::empty());
        assert(s.skip(0) =~= s);
        assert(lines(s).skip(0) =~= lines(s));
    } else {
        lemma_line_end_bound(s);
        let k = line_end(s) as int;
        if k > p - 1 {
            assert(s[p - 1] != '\n');
        }
        assert(k <= p - 1);
        let t = s.skip(k + 1);
        let q = p - k - 1;
        if q > 0 {
            assert(t[q - 1] == s[p - 1]);
        }
        lemma_lines_skip(t, q);
        let head = s.take(k).push('\n');
        assert(s.take(p) =~= head + t.take(q));
        lemma_count_newlines_concat(head, t.take(q));
        assert forall|j: int| 0 <= j < s.take(k).len() implies #[trigger] s.take(k)[j] != '\n' by {
            assert(s.take(k)[j] == s[j]);
        }
        lemma_count_newlines_none(s.take(k));
        assert(head.drop_last() =~= s.take(k));
        assert(count_newlines(head) == 1);
        assert(t.skip(q) =~= s.skip(p));
        let c = count_newlines(t.take(q));
        assert(lines(s) == seq![strip_cr(s.take(k))] + lines(t));
        assert(lines(s).skip(1 + c as int) =~= lines(t).skip(c as int));
    }
}

/// A text that starts with `---` has a first line that starts with `---`.
pub proof fn lemma_first_line_starts_with_delimiter(u: Seq<char>)
    requires
        u.len() >= 3,
        u[0] == '-' && u[1] == '-' && u[2] == '-',
    ensures
        lines(u).len() > 0,
        starts_with(lines(u)[0], seq!['-', '-', '-']),
{
    lemma_line_end_bound(u);
    let k = line_end(u);
    if k < 3 {
        assert(u[k as int] == '\n');
    }
    let first = lines(u)[0];
    if k == u.len() {
        assert(first == u);
    } else {
        assert(first == strip_cr(u.take(k as int)));
    }
    assert(first.len() >= 3);
    assert(first.take(3) =~= seq!['-', '-', '-']) by {
        assert(first[0] == u[0] && first[1] == u[1] && first[2] == u[2]);
    }
}

/// `str::lines`, as slices of `s`.
pub fn lines_of<'a>(s: &'a str) -> (ls: Vec<&'a str>)
    ensures
        ls@.len() == lines(s@).len(),
        forall|k: int| 0 <= k < ls@.len() ==> (#[trigger] ls@[k])@ == lines(s@)[k],
{
    let v = chars_of(s);
    let spans = line_spans(&v);
    let mut ls: Vec<&'a str> = Vec::new();
    let mut k: usize = 0;
    while k < spans.len()
        invariant
            v@ == s@,
            k <= spans@.len(),
            ls@.len() == k,
            spans@.len() == lines(v@).len(),
            forall|j: int|
                0 <= j < spans@.len() ==> {
                    &&& (#[trigger] spans@[j]).0 <= spans@[j].1 <= v@.len()
                    &&& v@.subrange(spans@[j].0 as int, spans@[j].1 as int) == lines(v@)[j]
                },
            forall|j: int| 0 <= j < k ==> (#[trigger] ls@[j])@ == lines(s@)[j],
        decreases spans@.len() - k,
    {
        let (a, b) = spans[k];
        assert(spans@[k as int].0 <= spans@[k as int].1);
        ls.push(s.substring_char(a, b));
        k = k + 1;
    }
    ls
}

/// The two strings hold the same characters.
pub fn str_eq(a: &str, b: &str) -> (r: bool)
    ensures
        r == (a@ == b@),
{
    let va = chars_of(a);
    let vb = chars_of(b);
    proof {
        assert(va@.subrange(0, va@.len() as int) =~= va@);
    }
    range_eq(&va, 0, va.len(), &vb)
}

/// The characters `v[a..b]` as a string.
pub fn string_of(v: &Vec<char>, a: usize, b: usize) -> (out: String)
    requires
        a <= b <= v@.len(),
    ensures
        out@ == v@.subrange(a as int, b as int),
{
    let mut out = String::new();
    let mut i = a;
    while i < b
        invariant
            a <= i <= b <= v@.len(),
            out@ == v@.subrange(a as int, i as int),
        decreases b - i,
    {
        out.push(v[i]);
        proof {
            assert(v@.subrange(a as int, i + 1) =~= v@.subrange(a as int, i as int).push(v@[i as int]));
        }
        i = i + 1;
    }
    out
}

fn digit_char(d: usize) -> (c: char)
    requires
        d < 10,
    ensures
        c == digit(d as nat),
{
    match d {
        0 => '0',
        1 => '1',
        2 => '2',
        3 => '3',
        4 => '4',
        5 => '5',
        6 => '6',
        7 => '7',
        8 => '8',
        _ => '9',
    }
}

/// Appends the decimal rendering of `n`.
pub fn push_decimal(out: &mut String, n: usize)
    ensures
        final(out)@ == old(out)@ + decimal(n as nat),
    decreases n,
{
    if n >= 10 {
        push_decimal(out, n / 10);
    }
    out.push(digit_char(n % 10));
    proof {
        if n >= 10 {
            assert(old(out)@ + decimal(n as nat) =~= old(out)@ + decimal((n / 10) as nat) + seq![
                digit((n % 10) as nat),
            ]);
        }
    }
}

} // verus!
