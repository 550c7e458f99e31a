//! Character-level text model shared by the parsers.
//!
//! Every parser of the library works on the characters of its input. The spec
//! functions here say what the usual string operations (`trim`, `lines`,
//! `split`, `strip_prefix`, decimal parsing, ...) compute on a `Seq<char>`;
//! the exec functions compute them on a `Vec<char>` and are proved to agree.
use vstd::prelude::*;

verus! {

// ---------------------------------------------------------------------------
// Strings and character vectors
// ---------------------------------------------------------------------------

/// Appends one character to a string (`String::push`).
#[verifier::external_body]
pub(crate) fn push_char(s: &mut String, c: char)
    ensures
        final(s)@ == old(s)@.push(c),
{
    s.push(c)
}

/// The characters of `s`, in order.
pub fn chars_of(s: &str) -> (out: Vec<char>)
    ensures
        out@ == s@,
{
    let mut out: Vec<char> = Vec::new();
    for c in it: s.chars()
        invariant
            out@ == it.seq().take(it.index() as int),
            it.seq() == s@,
    {
        out.push(c);
    }
    out
}

/// A string holding exactly the characters of `v`.
pub fn string_of(v: &Vec<char>) -> (out: String)
    ensures
        out@ == v@,
{
    let mut out = String::new();
    let mut i: usize = 0;
    while i < v.len()
        invariant
            i <= v.len(),
            out@ == v@.subrange(0, i as int),
        decreases v.len() - i,
    {
        push_char(&mut out, v[i]);
        i = i + 1;
        assert(out@ =~= v@.subrange(0, i as int));
    }
    assert(v@.subrange(0, v.len() as int) =~= v@);
    out
}

/// A string holding the characters of `s`.
pub fn string_of_str(s: &str) -> (out: String)
    ensures
        out@ == s@,
{
    let v = chars_of(s);
    string_of(&v)
}

/// Appends the characters of `v` to `out`.
pub fn append_chars(out: &mut String, v: &Vec<char>)
    ensures
        final(out)@ == old(out)@ + v@,
{
    let ghost start = out@;
    let mut i: usize = 0;
    while i < v.len()
        invariant
            i <= v.len(),
            out@ == start + v@.subrange(0, i as int),
        decreases v.len() - i,
    {
        push_char(out, v[i]);
        i = i + 1;
        assert(out@ =~= start + v@.subrange(0, i as int));
    }
    assert(v@.subrange(0, v.len() as int) =~= v@);
}

/// Appends the characters of `s` to `out`.
pub fn append_str(out: &mut String, s: &str)
    ensures
        final(out)@ == old(out)@ + s@,
{
    let v = chars_of(s);
    append_chars(out, &v);
}

/// The sub-vector `v[a..b]`.
pub fn slice_chars(v: &Vec<char>, a: usize, b: usize) -> (out: Vec<char>)
    requires
        a <= b <= v.len(),
    ensures
        out@ == v@.subrange(a as int, b as int),
{
    let mut out: Vec<char> = Vec::new();
    let mut i = a;
    while i < b
        invariant
            a <= i <= b,
            b <= v.len(),
            out@ == v@.subrange(a as int, i as int),
        decreases b - i,
    {
        out.push(v[i]);
        i = i + 1;
        assert(out@ =~= v@.subrange(a as int, i as int));
    }
    out
}

/// Whether two character vectors are equal.
pub fn chars_eq(a: &Vec<char>, b: &Vec<char>) -> (r: bool)
    ensures
        r == (a@ == b@),
{
    if a.len() != b.len() {
        return false;
    }
    let mut i: usize = 0;
    while i < a.len()
        invariant
            i <= a.len(),
            a.len() == b.len(),
            a@.subrange(0, i as int) == b@.subrange(0, i as int),
        decreases a.len() - i,
    {
        if a[i] != b[i] {
            assert(a@[i as int] != b@[i as int]);
            return false;
        }
        assert(a@.subrange(0, (i + 1) as int) =~= a@.subrange(0, i as int).push(a@[i as int]));
        assert(b@.subrange(0, (i + 1) as int) =~= b@.subrange(0, i as int).push(b@[i as int]));
        i = i + 1;
    }
    assert(a@ =~= a@.subrange(0, a.len() as int));
    assert(b@ =~= b@.subrange(0, b.len() as int));
    true
}

/// Whether the characters of `v` equal those of `s`.
pub fn chars_eq_str(v: &Vec<char>, s: &str) -> (r: bool)
    ensures
        r == (v@ == s@),
{
    let w = chars_of(s);
    chars_eq(v, &w)
}

/// The views of a sequence of strings.
pub open spec fn string_views(v: Seq<String>) -> Seq<Seq<char>> {
    v.map_values(|x: String| x@)
}

/// Pushes a copy of `s` onto `v`.
pub fn push_string(v: &mut Vec<String>, s: &str)
    ensures
        string_views(final(v)@) == string_views(old(v)@).push(s@),
{
    v.push(string_of_str(s));
    assert(string_views(v@) =~= string_views(old(v)@).push(s@));
}

/// The views of a sequence of character vectors.
pub open spec fn views(v: Seq<Vec<char>>) -> Seq<Seq<char>> {
    v.map_values(|x: Vec<char>| x@)
}

// ---------------------------------------------------------------------------
// Whitespace and trimming
// ---------------------------------------------------------------------------

/// `char::is_whitespace`: the characters with the Unicode `White_Space`
/// property.
pub open spec fn is_ws(c: char) -> bool {
    ||| ('\u{9}' <= c && c <= '\u{d}')
    ||| c == ' '
    ||| c == '\u{85}'
    ||| c == '\u{a0}'
    ||| c == '\u{1680}'
    ||| ('\u{2000}' <= c && c <= '\u{200a}')
    ||| c == '\u{2028}'
    ||| c == '\u{2029}'
    ||| c == '\u{202f}'
    ||| c == '\u{205f}'
    ||| c == '\u{3000}'
}

pub fn is_whitespace(c: char) -> (r: bool)
    ensures
        r == is_ws(c),
{
    ('\u{9}' <= c && c <= '\u{d}') || c == ' ' || c == '\u{85}' || c == '\u{a0}' || c
        == '\u{1680}' || ('\u{2000}' <= c && c <= '\u{200a}') || c == '\u{2028}' || c
        == '\u{2029}' || c == '\u{202f}' || c == '\u{205f}' || c == '\u{3000}'
}

/// `str::trim_start`.
pub open spec fn trim_start(s: Seq<char>) -> Seq<char>
    decreases s.len(),
{
    if s.len() > 0 && is_ws(s[0]) {
        trim_start(s.drop_first())
    } else {
        s
    }
}

/// `str::trim_end`.
pub open spec fn trim_end(s: Seq<char>) -> Seq<char>
    decreases s.len(),
{
    if s.len() > 0 && is_ws(s.last()) {
        trim_end(s.drop_last())
    } else {
        s
    }
}

/// `str::trim`.
pub open spec fn trim(s: Seq<char>) -> Seq<char> {
    trim_end(trim_start(s))
}

proof fn lemma_trim_start_skip(s: Seq<char>, k: int)
    requires
        0 <= k <= s.len(),
        forall|j: int| 0 <= j < k ==> is_ws(#[trigger] s[j]),
    ensures
        trim_start(s) == trim_start(s.subrange(k, s.len() as int)),
    decreases k,
{
    if k == 0 {
        assert(s.subrange(0, s.len() as int) =~= s);
    } else {
        assert(is_ws(s[0]));
        let t = s.drop_first();
        assert forall|j: int| 0 <= j < k - 1 implies is_ws(#[trigger] t[j]) by {
            assert(is_ws(s[j + 1]));
        }
        lemma_trim_start_skip(t, k - 1);
        assert(t.subrange(k - 1, t.len() as int) =~= s.subrange(k, s.len() as int));
    }
}

proof fn lemma_trim_end_skip(s: Seq<char>, k: int)
    requires
        0 <= k <= s.len(),
        forall|j: int| k <= j < s.len() ==> is_ws(#[trigger] s[j]),
    ensures
        trim_end(s) == trim_end(s.subrange(0, k)),
    decreases s.len() - k,
{
    if k == s.len() {
        assert(s.subrange(0, k) =~= s);
    } else {
        assert(is_ws(s[s.len() - 1]));
        let t = s.drop_last();
        lemma_trim_end_skip(t, k);
        assert(t.subrange(0, k) =~= s.subrange(0, k));
    }
}

/// `trim_start(s)` is `s` without its leading whitespace.
pub fn trim_start_chars(s: &Vec<char>) -> (out: Vec<char>)
    ensures
        out@ == trim_start(s@),
{
    let mut i: usize = 0;
    while i < s.len() && is_whitespace(s[i])
        invariant
            i <= s.len(),
            forall|j: int| 0 <= j < i ==> is_ws(#[trigger] s@[j]),
        decreases s.len() - i,
    {
        i = i + 1;
    }
    proof {
        lemma_trim_start_skip(s@, i as int);
    }
    slice_chars(s, i, s.len())
}

/// `trim(s)`.
pub fn trim_chars(s: &Vec<char>) -> (out: Vec<char>)
    ensures
        out@ == trim(s@),
{
    let t = trim_start_chars(s);
    let mut k: usize = t.len();
    while k > 0 && is_whitespace(t[k - 1])
        invariant
            k <= t.len(),
            forall|j: int| k <= j < t.len() ==> is_ws(#[trigger] t@[j]),
        decreases k,
    {
        k = k - 1;
    }
    proof {
        lemma_trim_end_skip(t@, k as int);
        let u = t@.subrange(0, k as int);
        if u.len() > 0 {
            assert(u.last() == t@[k - 1]);
        }
    }
    slice_chars(&t, 0, k)
}

/// `str::trim`, on a string.
pub fn trim_str(s: &str) -> (out: Vec<char>)
    ensures
        out@ == trim(s@),
{
    let v = chars_of(s);
    trim_chars(&v)
}

// ---------------------------------------------------------------------------
// Searching for one character
// ---------------------------------------------------------------------------

/// Index of the first `d` in `s`, or -1.
pub open spec fn first_index(s: Seq<char>, d: char) -> int
    decreases s.len(),
{
    if s.len() == 0 {
        -1
    } else if s[0] == d {
        0
    } else {
        let r = first_index(s.drop_first(), d);
        if r < 0 {
            -1
        } else {
            r + 1
        }
    }
}

pub proof fn lemma_first_index(s: Seq<char>, d: char)
    ensures
        -1 <= first_index(s, d) < s.len(),
        first_index(s, d) >= 0 ==> s[first_index(s, d)] == d,
        forall|j: int| 0 <= j < first_index(s, d) ==> s[j] != d,
        first_index(s, d) < 0 ==> forall|j: int| 0 <= j < s.len() ==> s[j] != d,
    decreases s.len(),
{
    if s.len() > 0 && s[0] != d {
        let t = s.drop_first();
        lemma_first_index(t, d);
        assert forall|j: int| 0 <= j < first_index(s, d) implies s[j] != d by {
            if j > 0 {
                assert(s[j] == t[j - 1]);
            }
        }
        if first_index(s, d) < 0 {
            assert forall|j: int| 0 <= j < s.len() implies s[j] != d by {
                if j > 0 {
                    assert(s[j] == t[j - 1]);
                }
            }
        }
    }
}

pub proof fn lemma_first_index_at(s: Seq<char>, d: char, k: int)
    requires
        0 <= k < s.len(),
        s[k] == d,
        forall|j: int| 0 <= j < k ==> s[j] != d,
    ensures
        first_index(s, d) == k,
{
    lemma_first_index(s, d);
}

pub proof fn lemma_first_index_none(s: Seq<char>, d: char)
    requires
        forall|j: int| 0 <= j < s.len() ==> s[j] != d,
    ensures
        first_index(s, d) == -1,
{
    lemma_first_index(s, d);
    if first_index(s, d) >= 0 {
        assert(s[first_index(s, d)] == d);
    }
}

/// `s.find(d)`.
pub fn find_char(s: &Vec<char>, d: char) -> (r: Option<usize>)
    ensures
        match r {
            Some(k) => first_index(s@, d) == k,
            None => first_index(s@, d) == -1,
        },
{
    let mut i: usize = 0;
    while i < s.len()
        invariant
            i <= s.len(),
            forall|j: int| 0 <= j < i ==> s@[j] != d,
        decreases s.len() - i,
    {
        if s[i] == d {
            proof {
                lemma_first_index_at(s@, d, i as int);
            }
            return Some(i);
        }
        i = i + 1;
    }
    proof {
        lemma_first_index_none(s@, d);
    }
    None
}

// ---------------------------------------------------------------------------
// Splitting on one character
// ---------------------------------------------------------------------------

/// `s.split(d)`: the pieces between the occurrences of `d`, empty ones
/// included.
pub open spec fn split_seq(s: Seq<char>, d: char) -> Seq<Seq<char>>
    decreases s.len(),
{
    let k = first_index(s, d);
    if k < 0 {
        seq![s]
    } else {
        proof {
            lemma_first_index(s, d);
        }
        seq![s.subrange(0, k)] + split_seq(s.subrange(k + 1, s.len() as int), d)
    }
}

pub proof fn lemma_split_len(s: Seq<char>, d: char)
    ensures
        split_seq(s, d).len() >= 1,
    decreases s.len(),
{
    lemma_first_index(s, d);
    let k = first_index(s, d);
    if k >= 0 {
        lemma_split_len(s.subrange(k + 1, s.len() as int), d);
    }
}

proof fn lemma_split_step(s: Seq<char>, d: char, start: int, i: int)
    requires
        0 <= start <= i < s.len(),
        s[i] == d,
        forall|j: int| start <= j < i ==> s[j] != d,
    ensures
        split_seq(s.subrange(start, s.len() as int), d) == seq![s.subrange(start, i)]
            + split_seq(s.subrange(i + 1, s.len() as int), d),
{
    let t = s.subrange(start, s.len() as int);
    assert forall|j: int| 0 <= j < i - start implies t[j] != d by {
        assert(t[j] == s[start + j]);
    }
    lemma_first_index_at(t, d, i - start);
    assert(t.subrange(0, i - start) =~= s.subrange(start, i));
    assert(t.subrange(i - start + 1, t.len() as int) =~= s.subrange(i + 1, s.len() as int));
}

proof fn lemma_split_last(s: Seq<char>, d: char)
    requires
        forall|j: int| 0 <= j < s.len() ==> s[j] != d,
    ensures
        split_seq(s, d) == seq![s],
{
    lemma_first_index_none(s, d);
}

/// `s.split(d)`.
pub fn split_chars(s: &Vec<char>, d: char) -> (out: Vec<Vec<char>>)
    ensures
        views(out@) == split_seq(s@, d),
{
    let mut out: Vec<Vec<char>> = Vec::new();
    let mut start: usize = 0;
    let mut i: usize = 0;
    assert(s@.subrange(0, s.len() as int) =~= s@);
    assert(views(out@) =~= Seq::<Seq<char>>::empty());
    while i < s.len()
        invariant
            start <= i <= s.len(),
            forall|j: int| start <= j < i ==> s@[j] != d,
            split_seq(s@, d) == views(out@) + split_seq(s@.subrange(start as int, s.len() as int), d),
        decreases s.len() - i,
    {
        if s[i] == d {
            proof {
                lemma_split_step(s@, d, start as int, i as int);
            }
            let piece = slice_chars(s, start, i);
            let ghost before = views(out@);
            out.push(piece);
            proof {
                assert(views(out@) =~= before + seq![s@.subrange(start as int, i as int)]);
            }
            start = i + 1;
        }
        i = i + 1;
    }
    let piece = slice_chars(s, start, s.len());
    proof {
        let t = s@.subrange(start as int, s.len() as int);
        assert forall|j: int| 0 <= j < t.len() implies t[j] != d by {
            assert(t[j] == s@[start + j]);
        }
        lemma_split_last(t, d);
    }
    let ghost before = views(out@);
    out.push(piece);
    proof {
        assert(views(out@) =~= before + seq![s@.subrange(start as int, s.len() as int)]);
    }
    out
}

/// `s.split_once(d)`.
pub open spec fn split_once(s: Seq<char>, d: char) -> Option<(Seq<char>, Seq<char>)> {
    let k = first_index(s, d);
    if k < 0 {
        None
    } else {
        Some((s.subrange(0, k), s.subrange(k + 1, s.len() as int)))
    }
}

/// `s.split_once(d)`.
pub fn split_once_chars(s: &Vec<char>, d: char) -> (r: Option<(Vec<char>, Vec<char>)>)
    ensures
        match r {
            Some((a, b)) => split_once(s@, d) == Some((a@, b@)),
            None => split_once(s@, d) is None,
        },
{
    proof {
        lemma_first_index(s@, d);
    }
    match find_char(s, d) {
        Some(k) => {
            assert(k < s.len());
            Some((slice_chars(s, 0, k), slice_chars(s, k + 1, s.len())))
        },
        None => None,
    }
}

// ---------------------------------------------------------------------------
// Lines
// ---------------------------------------------------------------------------

/// A line without the `'\r'` of a `"\r\n"` ending.
pub open spec fn strip_cr(l: Seq<char>) -> Seq<char> {
    if l.len() > 0 && l.last() == '\r' {
        l.drop_last()
    } else {
        l
    }
}

/// `str::lines`: pieces between `'\n'`s, a `'\r'` before a `'\n'` dropped,
/// and no empty piece after a final `'\n'`.
pub open spec fn lines_seq(s: Seq<char>) -> Seq<Seq<char>> {
    let parts = split_seq(s, '\n');
    let n = parts.len() as int;
    let body = parts.subrange(0, n - 1).map_values(|l: Seq<char>| strip_cr(l));
    if parts[n - 1].len() == 0 {
        body
    } else {
        body.push(parts[n - 1])
    }
}

fn strip_cr_chars(l: Vec<char>) -> (out: Vec<char>)
    ensures
        out@ == strip_cr(l@),
{
    if l.len() > 0 && l[l.len() - 1] == '\r' {
        let k = l.len() - 1;
        let out = slice_chars(&l, 0, k);
        assert(out@ =~= l@.drop_last());
        out
    } else {
        l
    }
}

/// `s.lines()`.
pub fn lines_chars(s: &Vec<char>) -> (out: Vec<Vec<char>>)
    ensures
        views(out@) == lines_seq(s@),
{
    let parts = split_chars(s, '\n');
    proof {
        lemma_split_len(s@, '\n');
    }
    let n = parts.len();
    let ghost ps = split_seq(s@, '\n');
    let mut out: Vec<Vec<char>> = Vec::new();
    let mut i: usize = 0;
    while i + 1 < n
        invariant
            n == parts.len(),
            n >= 1,
            ps == split_seq(s@, '\n'),
            views(parts@) == ps,
            i + 1 <= n,
            views(out@) == ps.subrange(0, i as int).map_values(|l: Seq<char>| strip_cr(l)),
        decreases n - i,
    {
        let piece = strip_cr_chars(parts[i].clone());
        assert(parts@[i as int]@ == ps[i as int]);
        let ghost before = views(out@);
        let ghost pv = piece@;
        out.push(piece);
        proof {
            assert(views(out@) =~= before.push(pv));
            assert(ps.subrange(0, (i + 1) as int).map_values(|l: Seq<char>| strip_cr(l))
                =~= ps.subrange(0, i as int).map_values(|l: Seq<char>| strip_cr(l)).push(
                strip_cr(ps[i as int]),
            ));
        }
        i = i + 1;
    }
    assert(parts@[n - 1]@ == ps[n - 1]);
    if parts[n - 1].len() > 0 {
        let ghost before = views(out@);
        out.push(parts[n - 1].clone());
        proof {
            assert(views(out@) =~= before.push(ps[n - 1]));
        }
    }
    out
}

/// `s.lines()`, on a string.
pub fn lines_str(s: &str) -> (out: Vec<Vec<char>>)
    ensures
        views(out@) == lines_seq(s@),
{
    let v = chars_of(s);
    lines_chars(&v)
}

// ---------------------------------------------------------------------------
// Prefixes, suffixes and substrings
// ---------------------------------------------------------------------------

/// `s.starts_with(p)`.
pub open spec fn starts_with(s: Seq<char>, p: Seq<char>) -> bool {
    p.len() <= s.len() && s.subrange(0, p.len() as int) == p
}

/// `s.ends_with(p)`.
pub open spec fn ends_with(s: Seq<char>, p: Seq<char>) -> bool {
    p.len() <= s.len() && s.subrange(s.len() - p.len(), s.len() as int) == p
}

/// `p` occurs in `s` at index `i`.
pub open spec fn occurs_at(s: Seq<char>, p: Seq<char>, i: int) -> bool {
    0 <= i && i + p.len() <= s.len() && s.subrange(i, i + p.len()) == p
}

/// `s.contains(p)`.
pub open spec fn contains_seq(s: Seq<char>, p: Seq<char>) -> bool {
    exists|i: int| occurs_at(s, p, i)
}

/// `s.find(p)`: the first index at which `p` occurs.
pub open spec fn is_first_occurrence(s: Seq<char>, p: Seq<char>, i: int) -> bool {
    occurs_at(s, p, i) && forall|j: int| 0 <= j < i ==> !occurs_at(s, p, j)
}

/// Whether `p` occurs in `s` at index `i`.
pub fn occurs_at_chars(s: &Vec<char>, p: &Vec<char>, i: usize) -> (r: bool)
    ensures
        r == occurs_at(s@, p@, i as int),
{
    if i > s.len() || p.len() > s.len() - i {
        return false;
    }
    let mut k: usize = 0;
    while k < p.len()
        invariant
            i + p.len() <= s.len(),
            k <= p.len(),
            forall|j: int| 0 <= j < k ==> s@[i + j] == p@[j],
        decreases p.len() - k,
    {
        if s[i + k] != p[k] {
            proof {
                if s@.subrange(i as int, i + p.len()) == p@ {
                    assert(s@.subrange(i as int, i + p.len())[k as int] == s@[i + k]);
                }
            }
            return false;
        }
        k = k + 1;
    }
    assert(s@.subrange(i as int, i + p.len()) =~= p@);
    true
}

/// `s.starts_with(p)`.
pub fn starts_with_chars(s: &Vec<char>, p: &Vec<char>) -> (r: bool)
    ensures
        r == starts_with(s@, p@),
{
    occurs_at_chars(s, p, 0)
}

/// `s.starts_with(p)`, with `p` a string.
pub fn starts_with_str(s: &Vec<char>, p: &str) -> (r: bool)
    ensures
        r == starts_with(s@, p@),
{
    let pv = chars_of(p);
    starts_with_chars(s, &pv)
}

/// `s.ends_with(p)`, with `p` a string.
pub fn ends_with_str(s: &Vec<char>, p: &str) -> (r: bool)
    ensures
        r == ends_with(s@, p@),
{
    let pv = chars_of(p);
    if pv.len() > s.len() {
        return false;
    }
    let r = occurs_at_chars(s, &pv, s.len() - pv.len());
    r
}

/// `s.strip_prefix(p)`.
pub open spec fn strip_prefix(s: Seq<char>, p: Seq<char>) -> Option<Seq<char>> {
    if starts_with(s, p) {
        Some(s.subrange(p.len() as int, s.len() as int))
    } else {
        None
    }
}

/// `s.strip_prefix(p)`, with `p` a string.
pub fn strip_prefix_str(s: &Vec<char>, p: &str) -> (r: Option<Vec<char>>)
    ensures
        match r {
            Some(t) => strip_prefix(s@, p@) == Some(t@),
            None => strip_prefix(s@, p@) is None,
        },
{
    let pv = chars_of(p);
    if starts_with_chars(s, &pv) {
        Some(slice_chars(s, pv.len(), s.len()))
    } else {
        None
    }
}

/// `s.find(p)`.
pub fn find_sub(s: &Vec<char>, p: &Vec<char>) -> (r: Option<usize>)
    ensures
        match r {
            Some(i) => is_first_occurrence(s@, p@, i as int),
            None => !contains_seq(s@, p@),
        },
{
    let mut i: usize = 0;
    loop
        invariant
            i <= s.len(),
            forall|j: int| 0 <= j < i ==> !occurs_at(s@, p@, j),
        decreases s.len() - i,
    {
        if occurs_at_chars(s, p, i) {
            return Some(i);
        }
        if i == s.len() {
            assert forall|j: int| !occurs_at(s@, p@, j) by {
                if 0 <= j < i {
                }
            }
            return None;
        }
        i = i + 1;
    }
}

/// `s.find(p)`, with `p` a string.
pub fn find_str(s: &Vec<char>, p: &str) -> (r: Option<usize>)
    ensures
        match r {
            Some(i) => is_first_occurrence(s@, p@, i as int),
            None => !contains_seq(s@, p@),
        },
{
    let pv = chars_of(p);
    find_sub(s, &pv)
}

/// `s.contains(p)`, with `p` a string.
pub fn contains_str(s: &Vec<char>, p: &str) -> (r: bool)
    ensures
        r == contains_seq(s@, p@),
{
    match find_str(s, p) {
        Some(_) => true,
        None => false,
    }
}

// ---------------------------------------------------------------------------
// Splitting on whitespace
// ---------------------------------------------------------------------------

/// Index of the first whitespace character of `s`, or `s.len()`.
pub open spec fn first_ws(s: Seq<char>) -> int
    decreases s.len(),
{
    if s.len() == 0 {
        0
    } else if is_ws(s[0]) {
        0
    } else {
        first_ws(s.drop_first()) + 1
    }
}

pub proof fn lemma_first_ws(s: Seq<char>)
    ensures
        0 <= first_ws(s) <= s.len(),
        first_ws(s) < s.len() ==> is_ws(s[first_ws(s)]),
        forall|j: int| 0 <= j < first_ws(s) ==> !is_ws(s[j]),
    decreases s.len(),
{
    if s.len() > 0 && !is_ws(s[0]) {
        let t = s.drop_first();
        lemma_first_ws(t);
        assert forall|j: int| 0 <= j < first_ws(s) implies !is_ws(s[j]) by {
            if j > 0 {
                assert(s[j] == t[j - 1]);
            }
        }
    }
}

proof fn lemma_first_ws_at(s: Seq<char>, k: int)
    requires
        0 <= k <= s.len(),
        k < s.len() ==> is_ws(s[k]),
        forall|j: int| 0 <= j < k ==> !is_ws(s[j]),
    ensures
        first_ws(s) == k,
{
    lemma_first_ws(s);
    if first_ws(s) < k {
        assert(is_ws(s[first_ws(s)]));
    }
    if first_ws(s) > k {
        assert(!is_ws(s[k]));
    }
}

pub proof fn lemma_trim_start_len(s: Seq<char>)
    ensures
        trim_start(s).len() <= s.len(),
        trim_start(s).len() > 0 ==> !is_ws(trim_start(s)[0]),
        trim_start(s) == s.subrange(s.len() - trim_start(s).len(), s.len() as int),
    decreases s.len(),
{
    if s.len() > 0 && is_ws(s[0]) {
        lemma_trim_start_len(s.drop_first());
        let t = s.drop_first();
        assert(t.subrange(t.len() - trim_start(t).len(), t.len() as int) =~= s.subrange(
            s.len() - trim_start(t).len(),
            s.len() as int,
        ));
    } else {
        assert(s.subrange(0, s.len() as int) =~= s);
    }
}

/// `s.split_whitespace()`: the maximal runs of non-whitespace characters.
pub open spec fn split_ws(s: Seq<char>) -> Seq<Seq<char>>
    decreases s.len(),
{
    let t = trim_start(s);
    if t.len() == 0 {
        seq![]
    } else {
        proof {
            lemma_trim_start_len(s);
            lemma_first_ws(t);
        }
        let k = first_ws(t);
        seq![t.subrange(0, k)] + split_ws(t.subrange(k, t.len() as int))
    }
}

/// `s.split_whitespace()`.
pub fn split_whitespace_chars(s: &Vec<char>) -> (out: Vec<Vec<char>>)
    ensures
        views(out@) == split_ws(s@),
{
    let mut out: Vec<Vec<char>> = Vec::new();
    let mut i: usize = 0;
    assert(s@.subrange(0, s.len() as int) =~= s@);
    assert(views(out@) =~= Seq::<Seq<char>>::empty());
    loop
        invariant
            i <= s.len(),
            split_ws(s@) == views(out@) + split_ws(s@.subrange(i as int, s.len() as int)),
        decreases s.len() - i,
    {
        let ghost rest = s@.subrange(i as int, s.len() as int);
        let mut j = i;
        while j < s.len() && is_whitespace(s[j])
            invariant
                i <= j <= s.len(),
                forall|q: int| i <= q < j ==> is_ws(#[trigger] s@[q]),
            decreases s.len() - j,
        {
            j = j + 1;
        }
        proof {
            assert forall|q: int| 0 <= q < j - i implies is_ws(#[trigger] rest[q]) by {
                assert(rest[q] == s@[i + q]);
            }
            lemma_trim_start_skip(rest, (j - i) as int);
            assert(rest.subrange((j - i) as int, rest.len() as int) =~= s@.subrange(
                j as int,
                s.len() as int,
            ));
        }
        if j == s.len() {
            proof {
                let t = s@.subrange(j as int, s.len() as int);
                assert(t.len() == 0);
                assert(trim_start(t) == t);
                assert(split_ws(rest) =~= Seq::<Seq<char>>::empty());
                assert(views(out@) + split_ws(rest) =~= views(out@));
            }
            return out;
        }
        let mut k = j;
        while k < s.len() && !is_whitespace(s[k])
            invariant
                j <= k <= s.len(),
                forall|q: int| j <= q < k ==> !is_ws(#[trigger] s@[q]),
            decreases s.len() - k,
        {
            k = k + 1;
        }
        let piece = slice_chars(s, j, k);
        proof {
            let t = s@.subrange(j as int, s.len() as int);
            assert(!is_ws(s@[j as int]));
            assert(t[0] == s@[j as int]);
            assert(trim_start(t) == t);
            assert(trim_start(rest) == t);
            assert forall|q: int| 0 <= q < k - j implies !is_ws(t[q]) by {
                assert(t[q] == s@[j + q]);
            }
            if k < s.len() {
                assert(t[k - j] == s@[k as int]);
            }
            lemma_first_ws_at(t, (k - j) as int);
            assert(t.subrange(0, (k - j) as int) =~= s@.subrange(j as int, k as int));
            assert(t.subrange((k - j) as int, t.len() as int) =~= s@.subrange(
                k as int,
                s.len() as int,
            ));
            assert(split_ws(rest) == seq![s@.subrange(j as int, k as int)] + split_ws(
                s@.subrange(k as int, s.len() as int),
            ));
        }
        let ghost before = views(out@);
        let ghost pv = piece@;
        out.push(piece);
        proof {
            assert(views(out@) =~= before.push(pv));
            assert(before + split_ws(rest) =~= before.push(pv) + split_ws(
                s@.subrange(k as int, s.len() as int),
            ));
        }
        i = k;
    }
}

// ---------------------------------------------------------------------------
// Decimal numbers
// ---------------------------------------------------------------------------

pub open spec fn is_digit(c: char) -> bool {
    '0' <= c && c <= '9'
}

pub open spec fn digit_val(c: char) -> nat {
    ((c as int) - 48) as nat
}

pub open spec fn digit_char(d: nat) -> char {
    (d + 48) as char
}

pub open spec fn all_digits(s: Seq<char>) -> bool {
    forall|i: int| 0 <= i < s.len() ==> is_digit(#[trigger] s[i])
}

/// The number that the decimal digits `s` write.
pub open spec fn digits_value(s: Seq<char>) -> nat
    decreases s.len(),
{
    if s.len() == 0 {
        0
    } else {
        digits_value(s.drop_last()) * 10 + digit_val(s.last())
    }
}

/// The digits that `FromStr` of an unsigned integer reads: `s` without one
/// leading `'+'`.
pub open spec fn unsigned_digits(s: Seq<char>) -> Seq<char> {
    if s.len() > 0 && s[0] == '+' {
        s.drop_first()
    } else {
        s
    }
}

/// `s.parse::<uN>()` for the unsigned type whose largest value is `max`:
/// an optional `'+'`, then one or more ASCII digits whose value is at most
/// `max`.
pub open spec fn parse_unsigned(s: Seq<char>, max: nat) -> Option<nat> {
    let d = unsigned_digits(s);
    if d.len() > 0 && all_digits(d) && digits_value(d) <= max {
        Some(digits_value(d))
    } else {
        None
    }
}

/// `n.to_string()` for an unsigned `n`.
pub open spec fn decimal(n: nat) -> Seq<char>
    decreases n,
{
    if n < 10 {
        seq![digit_char(n)]
    } else {
        decimal(n / 10).push(digit_char(n % 10))
    }
}

proof fn lemma_digits_value_mono(s: Seq<char>, k: int)
    requires
        0 <= k <= s.len(),
    ensures
        digits_value(s.subrange(0, k)) <= digits_value(s),
    decreases s.len() - k,
{
    if k < s.len() {
        lemma_digits_value_mono(s.drop_last(), k);
        assert(s.drop_last().subrange(0, k) =~= s.subrange(0, k));
    } else {
        assert(s.subrange(0, k) =~= s);
    }
}

pub proof fn lemma_decimal(n: nat)
    ensures
        decimal(n).len() > 0,
        all_digits(decimal(n)),
        digits_value(decimal(n)) == n,
        decimal(n)[0] != '+',
        n > 0 ==> decimal(n)[0] != '0',
    decreases n,
{
    let c = digit_char(n % 10);
    assert(digit_val(c) == n % 10);
    if n >= 10 {
        lemma_decimal(n / 10);
        vstd::arithmetic::div_mod::lemma_fundamental_div_mod(n as int, 10);
        let d = decimal(n / 10);
        assert(decimal(n) == d.push(digit_char(n % 10)));
        assert(decimal(n).drop_last() =~= d);
        assert(decimal(n).last() == c);
        assert(digits_value(decimal(n)) == digits_value(d) * 10 + digit_val(c));
        assert(digits_value(d) == n / 10);
        assert((n / 10) * 10 + n % 10 == n);
        assert forall|i: int| 0 <= i < decimal(n).len() implies is_digit(#[trigger] decimal(n)[i]) by {
            if i < d.len() {
                assert(decimal(n)[i] == d[i]);
            }
        }
        assert(decimal(n)[0] == d[0]);
    } else {
        assert(decimal(n) == seq![c]);
        assert(decimal(n).drop_last() =~= Seq::<char>::empty());
        assert(digits_value(Seq::<char>::empty()) == 0);
        assert(n % 10 == n);
        assert(digits_value(decimal(n)) == digit_val(c));
    }
}

/// Decimal text reads back as the number it was written from.
pub proof fn lemma_parse_decimal(n: nat, max: nat)
    requires
        n <= max,
    ensures
        parse_unsigned(decimal(n), max) == Some(n),
{
    lemma_decimal(n);
}

/// `s.parse::<u64>()`.
pub fn parse_u64_chars(s: &Vec<char>) -> (r: Option<u64>)
    ensures
        match r {
            Some(v) => parse_unsigned(s@, u64::MAX as nat) == Some(v as nat),
            None => parse_unsigned(s@, u64::MAX as nat) is None,
        },
{
    let start: usize = if s.len() > 0 && s[0] == '+' {
        1
    } else {
        0
    };
    let ghost d = unsigned_digits(s@);
    assert(d =~= s@.subrange(start as int, s.len() as int));
    if start >= s.len() {
        return None;
    }
    let mut acc: u64 = 0;
    let mut i = start;
    assert(d.subrange(0, 0) =~= Seq::<char>::empty());
    while i < s.len()
        invariant
            start <= i <= s.len(),
            d == unsigned_digits(s@),
            d == s@.subrange(start as int, s.len() as int),
            all_digits(d.subrange(0, (i - start) as int)),
            acc as nat == digits_value(d.subrange(0, (i - start) as int)),
        decreases s.len() - i,
    {
        let c = s[i];
        let ghost k = (i - start) as int;
        assert(d[k] == c);
        if !('0' <= c && c <= '9') {
            assert(!all_digits(d));
            return None;
        }
        let dig = (c as u32 - 48) as u64;
        assert(d.subrange(0, k + 1).drop_last() =~= d.subrange(0, k));
        assert(d.subrange(0, k + 1).last() == c);
        assert(digits_value(d.subrange(0, k + 1)) == acc * 10 + dig);
        match acc.checked_mul(10) {
            Some(m) => match m.checked_add(dig) {
                Some(v) => {
                    acc = v;
                },
                None => {
                    proof {
                        lemma_digits_value_mono(d, k + 1);
                    }
                    return None;
                },
            },
            None => {
                proof {
                    lemma_digits_value_mono(d, k + 1);
                }
                return None;
            },
        }
        i = i + 1;
        assert forall|q: int| 0 <= q < (i - start) implies is_digit(
            #[trigger] d.subrange(0, (i - start) as int)[q],
        ) by {
            if q < k {
                assert(d.subrange(0, (i - start) as int)[q] == d.subrange(0, k)[q]);
            }
        }
    }
    assert(d.subrange(0, d.len() as int) =~= d);
    Some(acc)
}

/// `s.parse::<u32>()`.
pub fn parse_u32_chars(s: &Vec<char>) -> (r: Option<u32>)
    ensures
        match r {
            Some(v) => parse_unsigned(s@, u32::MAX as nat) == Some(v as nat),
            None => parse_unsigned(s@, u32::MAX as nat) is None,
        },
{
    match parse_u64_chars(s) {
        Some(v) => {
            if v <= u32::MAX as u64 {
                Some(v as u32)
            } else {
                None
            }
        },
        None => None,
    }
}

fn digit_char_exec(d: u64) -> (c: char)
    requires
        d < 10,
    ensures
        c == digit_char(d as nat),
{
    let b: u8 = (d as u8) + 48;
    b as char
}

/// Appends `decimal(n)` to `out`.
pub fn push_decimal(out: &mut Vec<char>, n: u64)
    ensures
        final(out)@ == old(out)@ + decimal(n as nat),
    decreases n,
{
    if n < 10 {
        out.push(digit_char_exec(n));
        assert(decimal(n as nat) == seq![digit_char(n as nat)]);
    } else {
        push_decimal(out, n / 10);
        out.push(digit_char_exec(n % 10));
        assert(decimal(n as nat) == decimal((n / 10) as nat).push(digit_char((n % 10) as nat)));
    }
}

/// `n.to_string()`.
pub fn decimal_chars(n: u64) -> (out: Vec<char>)
    ensures
        out@ == decimal(n as nat),
{
    let mut out: Vec<char> = Vec::new();
    push_decimal(&mut out, n);
    assert(out@ =~= decimal(n as nat));
    out
}

/// `n.to_string()`.
pub fn decimal_string(n: u64) -> (out: String)
    ensures
        out@ == decimal(n as nat),
{
    let v = decimal_chars(n);
    string_of(&v)
}


// ---------------------------------------------------------------------------
// Splitting at a substring, trimming a given character
// ---------------------------------------------------------------------------

/// The first index at or after `i` where `p` occurs in `s`, or -1.
pub open spec fn find_from(s: Seq<char>, p: Seq<char>, i: int) -> int
    decreases s.len() - i,
{
    if i < 0 || i + p.len() > s.len() {
        -1
    } else if occurs_at(s, p, i) {
        i
    } else if i >= s.len() {
        -1
    } else {
        find_from(s, p, i + 1)
    }
}

proof fn lemma_find_from_found(s: Seq<char>, p: Seq<char>, k: int, i: int)
    requires
        0 <= k <= i,
        occurs_at(s, p, i),
        forall|j: int| k <= j < i ==> !occurs_at(s, p, j),
    ensures
        find_from(s, p, k) == i,
    decreases i - k,
{
    if k < i {
        lemma_find_from_found(s, p, k + 1, i);
    }
}

proof fn lemma_find_from_none(s: Seq<char>, p: Seq<char>, k: int)
    requires
        0 <= k,
        forall|j: int| k <= j ==> !occurs_at(s, p, j),
    ensures
        find_from(s, p, k) == -1,
    decreases s.len() - k,
{
    if k + p.len() <= s.len() && k < s.len() {
        lemma_find_from_none(s, p, k + 1);
    }
}

/// `s.split_once(p)` for a string pattern `p`.
pub open spec fn split_once_sub(s: Seq<char>, p: Seq<char>) -> Option<(Seq<char>, Seq<char>)> {
    let k = find_from(s, p, 0);
    if k < 0 {
        None
    } else {
        Some((s.subrange(0, k), s.subrange(k + p.len(), s.len() as int)))
    }
}

/// `s.split_once(p)` for a string pattern `p`.
pub fn split_once_str(s: &Vec<char>, p: &str) -> (r: Option<(Vec<char>, Vec<char>)>)
    ensures
        match r {
            Some((a, b)) => split_once_sub(s@, p@) == Some((a@, b@)),
            None => split_once_sub(s@, p@) is None,
        },
{
    let pv = chars_of(p);
    match find_sub(s, &pv) {
        Some(i) => {
            proof {
                lemma_find_from_found(s@, p@, 0, i as int);
            }
            Some((slice_chars(s, 0, i), slice_chars(s, i + pv.len(), s.len())))
        },
        None => {
            proof {
                assert forall|j: int| 0 <= j implies !occurs_at(s@, p@, j) by {
                    if occurs_at(s@, p@, j) {
                        assert(contains_seq(s@, p@));
                    }
                }
                lemma_find_from_none(s@, p@, 0);
            }
            None
        },
    }
}

/// `s` without leading characters equal to `c`.
pub open spec fn trim_start_char(s: Seq<char>, c: char) -> Seq<char>
    decreases s.len(),
{
    if s.len() > 0 && s[0] == c {
        trim_start_char(s.drop_first(), c)
    } else {
        s
    }
}

/// `s` without trailing characters equal to `c`.
pub open spec fn trim_end_char(s: Seq<char>, c: char) -> Seq<char>
    decreases s.len(),
{
    if s.len() > 0 && s.last() == c {
        trim_end_char(s.drop_last(), c)
    } else {
        s
    }
}

/// `s.trim_matches(c)`.
pub open spec fn trim_matches(s: Seq<char>, c: char) -> Seq<char> {
    trim_end_char(trim_start_char(s, c), c)
}

/// `s.trim_matches(c)`.
pub fn trim_matches_chars(s: &Vec<char>, c: char) -> (r: Vec<char>)
    ensures
        r@ == trim_matches(s@, c),
{
    let mut a: usize = 0;
    assert(s@.subrange(0, s.len() as int) =~= s@);
    while a < s.len() && s[a] == c
        invariant
            a <= s.len(),
            trim_start_char(s@, c) == trim_start_char(s@.subrange(a as int, s.len() as int), c),
        decreases s.len() - a,
    {
        assert(s@.subrange(a as int, s.len() as int).drop_first() =~= s@.subrange(a + 1, s.len() as int));
        a = a + 1;
    }
    let ghost t = s@.subrange(a as int, s.len() as int);
    assert(trim_start_char(t, c) == t);
    let mut b: usize = s.len();
    assert(t.subrange(0, (b - a) as int) =~= t);
    while b > a && s[b - 1] == c
        invariant
            a <= b <= s.len(),
            t == s@.subrange(a as int, s.len() as int),
            trim_end_char(t, c) == trim_end_char(s@.subrange(a as int, b as int), c),
        decreases b,
    {
        assert(s@.subrange(a as int, b as int).drop_last() =~= s@.subrange(a as int, b - 1));
        b = b - 1;
    }
    slice_chars(s, a, b)
}


// ---------------------------------------------------------------------------
// Line-oriented files
// ---------------------------------------------------------------------------

/// The `Some` results of `f` over `s`, in order.
pub open spec fn filter_map<A, B>(s: Seq<A>, f: spec_fn(A) -> Option<B>) -> Seq<B>
    decreases s.len(),
{
    if s.len() == 0 {
        seq![]
    } else {
        let r = filter_map(s.drop_last(), f);
        match f(s.last()) {
            Some(b) => r.push(b),
            None => r,
        }
    }
}

/// One step of `filter_map` over a growing prefix.
pub proof fn lemma_filter_map_step<A, B>(s: Seq<A>, f: spec_fn(A) -> Option<B>, i: int)
    requires
        0 <= i < s.len(),
    ensures
        filter_map(s.take(i + 1), f) == match f(s[i]) {
            Some(b) => filter_map(s.take(i), f).push(b),
            None => filter_map(s.take(i), f),
        },
{
    assert(s.take(i + 1).drop_last() =~= s.take(i));
    assert(s.take(i + 1).last() == s[i]);
}

/// When `f` gives a value for every element, `filter_map` is a map.
pub proof fn lemma_filter_map_total<A, B>(s: Seq<A>, f: spec_fn(A) -> Option<B>)
    requires
        forall|i: int| 0 <= i < s.len() ==> (#[trigger] f(s[i])) is Some,
    ensures
        filter_map(s, f) == s.map_values(|a: A| f(a).unwrap()),
    decreases s.len(),
{
    if s.len() > 0 {
        let d = s.drop_last();
        assert forall|i: int| 0 <= i < d.len() implies (#[trigger] f(d[i])) is Some by {
            assert(d[i] == s[i]);
            assert(f(s[i]) is Some);
        }
        lemma_filter_map_total(d, f);
        assert(f(s[s.len() - 1]) is Some);
        assert(filter_map(s, f) =~= s.map_values(|a: A| f(a).unwrap()));
    } else {
        assert(filter_map(s, f) =~= s.map_values(|a: A| f(a).unwrap()));
    }
}

/// A line that holds neither `'\n'` nor `'\r'`.
pub open spec fn plain_line(l: Seq<char>) -> bool {
    forall|i: int| 0 <= i < l.len() ==> l[i] != '\n' && l[i] != '\r'
}

/// Each line followed by `'\n'`.
pub open spec fn join_lines(ls: Seq<Seq<char>>) -> Seq<char>
    decreases ls.len(),
{
    if ls.len() == 0 {
        seq![]
    } else {
        ls[0] + seq!['\n'] + join_lines(ls.drop_first())
    }
}

proof fn lemma_split_join(ls: Seq<Seq<char>>)
    requires
        forall|i: int| 0 <= i < ls.len() ==> plain_line(#[trigger] ls[i]),
    ensures
        split_seq(join_lines(ls), '\n') == ls.push(seq![]),
    decreases ls.len(),
{
    if ls.len() == 0 {
        lemma_first_index_none(Seq::<char>::empty(), '\n');
        assert(split_seq(join_lines(ls), '\n') =~= ls.push(seq![]));
    } else {
        let rest = ls.drop_first();
        assert forall|i: int| 0 <= i < rest.len() implies plain_line(#[trigger] rest[i]) by {
            assert(rest[i] == ls[i + 1]);
        }
        lemma_split_join(rest);
        let a = ls[0];
        assert(plain_line(ls[0]));
        let j = join_lines(ls);
        let r = join_lines(rest);
        assert(j =~= a + seq!['\n'] + r);
        assert forall|k: int| 0 <= k < a.len() implies j[k] != '\n' by {
            assert(j[k] == a[k]);
        }
        assert(j[a.len() as int] == '\n');
        lemma_first_index_at(j, '\n', a.len() as int);
        assert(j.subrange(0, a.len() as int) =~= a);
        assert(j.subrange((a.len() + 1) as int, j.len() as int) =~= r);
        assert(split_seq(j, '\n') =~= ls.push(seq![]));
    }
}

/// Reading back lines written one per `'\n'` gives the same lines.
pub proof fn lemma_lines_join(ls: Seq<Seq<char>>)
    requires
        forall|i: int| 0 <= i < ls.len() ==> plain_line(#[trigger] ls[i]),
    ensures
        lines_seq(join_lines(ls)) == ls,
{
    lemma_split_join(ls);
    let parts = ls.push(seq![]);
    assert(parts.subrange(0, parts.len() - 1) =~= ls);
    assert forall|i: int| 0 <= i < ls.len() implies strip_cr(#[trigger] ls[i]) == ls[i] by {
        assert(plain_line(ls[i]));
        if ls[i].len() > 0 {
            assert(ls[i].last() != '\r');
        }
    }
    assert(ls.map_values(|l: Seq<char>| strip_cr(l)) =~= ls);
}

/// Appends `l` and a `'\n'` to `out`.
pub fn push_line(out: &mut String, l: &str)
    ensures
        final(out)@ == old(out)@ + l@ + seq!['\n'],
{
    append_str(out, l);
    push_char(out, '\n');
}

pub proof fn lemma_join_lines_push(ls: Seq<Seq<char>>, l: Seq<char>)
    ensures
        join_lines(ls.push(l)) == join_lines(ls) + l + seq!['\n'],
    decreases ls.len(),
{
    if ls.len() == 0 {
        let one = ls.push(l);
        assert(one.drop_first() =~= Seq::<Seq<char>>::empty());
        assert(join_lines(one.drop_first()) == Seq::<char>::empty());
        assert(one[0] == l);
        assert(join_lines(one) == l + seq!['\n'] + Seq::<char>::empty());
        assert(join_lines(ls) == Seq::<char>::empty());
        assert(join_lines(one) =~= join_lines(ls) + l + seq!['\n']);
    } else {
        lemma_join_lines_push(ls.drop_first(), l);
        assert(ls.push(l).drop_first() =~= ls.drop_first().push(l));
        assert(ls.push(l)[0] == ls[0]);
        let t = join_lines(ls.drop_first());
        assert(join_lines(ls.push(l)) == ls[0] + seq!['\n'] + (t + l + seq!['\n']));
        assert(join_lines(ls) == ls[0] + seq!['\n'] + t);
        assert(join_lines(ls.push(l)) =~= join_lines(ls) + l + seq!['\n']);
    }
}


/// `s.trim_end_matches(c)`.
pub fn trim_end_char_chars(s: &Vec<char>, c: char) -> (r: Vec<char>)
    ensures
        r@ == trim_end_char(s@, c),
{
    let mut b: usize = s.len();
    assert(s@.subrange(0, b as int) =~= s@);
    while b > 0 && s[b - 1] == c
        invariant
            b <= s.len(),
            trim_end_char(s@, c) == trim_end_char(s@.subrange(0, b as int), c),
        decreases b,
    {
        assert(s@.subrange(0, b as int).drop_last() =~= s@.subrange(0, b - 1));
        b = b - 1;
    }
    slice_chars(s, 0, b)
}


/// `s` holds no `d`.
pub open spec fn free_of(s: Seq<char>, d: char) -> bool {
    forall|i: int| 0 <= i < s.len() ==> s[i] != d
}

/// Splitting `a`, `d`, `b` at `d`, where `a` holds no `d`.
pub proof fn lemma_split_cons_at(a: Seq<char>, d: char, b: Seq<char>)
    requires
        free_of(a, d),
    ensures
        split_seq(a + seq![d] + b, d) == seq![a] + split_seq(b, d),
        split_once(a + seq![d] + b, d) == Some((a, b)),
{
    let s = a + seq![d] + b;
    assert forall|j: int| 0 <= j < a.len() implies s[j] != d by {
        assert(s[j] == a[j]);
    }
    assert(s[a.len() as int] == d);
    lemma_first_index_at(s, d, a.len() as int);
    assert(s.subrange(0, a.len() as int) =~= a);
    assert(s.subrange((a.len() + 1) as int, s.len() as int) =~= b);
}

/// A piece without `d` splits into itself.
pub proof fn lemma_split_alone(a: Seq<char>, d: char)
    requires
        free_of(a, d),
    ensures
        split_seq(a, d) == seq![a],
{
    lemma_first_index_none(a, d);
}

/// A line made of plain pieces and separators other than line breaks is
/// plain.
pub proof fn lemma_plain_concat(a: Seq<char>, b: Seq<char>)
    requires
        plain_line(a),
        plain_line(b),
    ensures
        plain_line(a + b),
{
    assert forall|i: int| 0 <= i < (a + b).len() implies (a + b)[i] != '\n' && (a + b)[i] != '\r' by {
        if i < a.len() {
            assert((a + b)[i] == a[i]);
        } else {
            assert((a + b)[i] == b[i - a.len()]);
        }
    }
}

/// Decimal digits are not trimmed.
pub proof fn lemma_trim_decimal(n: nat)
    ensures
        trim(decimal(n)) == decimal(n),
        plain_line(decimal(n)),
        free_of(decimal(n), '\t'),
{
    lemma_decimal(n);
    let d = decimal(n);
    assert(is_digit(d[0]));
    assert(is_digit(d.last())) by {
        assert(d.last() == d[d.len() - 1]);
    }
    assert(trim_start(d) == d);
    assert(trim_end(d) == d);
    assert forall|i: int| 0 <= i < d.len() implies d[i] != '\n' && d[i] != '\r' && d[i] != '\t' by {
        assert(is_digit(d[i]));
    }
}

/// A property that every produced value has holds of all of `filter_map`.
pub proof fn lemma_filter_map_all<A, B>(s: Seq<A>, f: spec_fn(A) -> Option<B>, p: spec_fn(B) -> bool)
    requires
        forall|a: A| #[trigger] f(a) is Some ==> p(f(a).unwrap()),
    ensures
        forall|i: int| 0 <= i < filter_map(s, f).len() ==> p(#[trigger] filter_map(s, f)[i]),
    decreases s.len(),
{
    if s.len() > 0 {
        lemma_filter_map_all(s.drop_last(), f, p);
        let r = filter_map(s.drop_last(), f);
        match f(s.last()) {
            Some(b) => {
                assert forall|i: int| 0 <= i < r.push(b).len() implies p(#[trigger] r.push(b)[i]) by {
                    if i < r.len() {
                        assert(r.push(b)[i] == r[i]);
                    }
                }
            },
            None => {},
        }
    }
}

/// Appending an element that `f` drops leaves `filter_map` unchanged.
pub proof fn lemma_filter_map_push_none<A, B>(s: Seq<A>, f: spec_fn(A) -> Option<B>, x: A)
    requires
        f(x) is None,
    ensures
        filter_map(s.push(x), f) == filter_map(s, f),
{
    assert(s.push(x).drop_last() =~= s);
}

} // verus!
