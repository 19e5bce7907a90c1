//! Character-level text model: Unicode white space, trimming, joining and
//! comparison, stated over `Seq<char>`.

use vstd::prelude::*;

verus! {

/// The Unicode `White_Space` property: the set that `char::is_whitespace`,
/// `str::trim`, `str::split_whitespace` and the regex class `\s` all use.
pub open spec fn is_ws(c: char) -> bool {
    ||| ('\u{9}' <= c && c <= '\u{d}')
    ||| c == ' '
    ||| c == '\u{85}'
    ||| c == '\u{a0}'
    ||| c == '\u{1680}'
    ||| ('\u{2000}' <= c && c <= '\u{200a}')
    ||| c == '\u{2028}'
    ||| c == '\u{2029}'
    ||| c == '\u{202f}'
    ||| c == '\u{205f}'
    ||| c == '\u{3000}'
}

/// `s` holds no white space at all.
pub open spec fn no_ws(s: Seq<char>) -> bool {
    forall|i: int| 0 <= i < s.len() ==> !is_ws(#[trigger] s[i])
}

/// `s` with its leading white space removed.
pub open spec fn trim_left(s: Seq<char>) -> Seq<char>
    decreases s.len(),
{
    if s.len() > 0 && is_ws(s[0]) {
        trim_left(s.drop_first())
    } else {
        s
    }
}

/// `s` with its trailing white space removed.
pub open spec fn trim_right(s: Seq<char>) -> Seq<char>
    decreases s.len(),
{
    if s.len() > 0 && is_ws(s.last()) {
        trim_right(s.drop_last())
    } else {
        s
    }
}

/// `s` with leading and trailing white space removed, as `str::trim` does.
pub open spec fn trim(s: Seq<char>) -> Seq<char> {
    trim_right(trim_left(s))
}

/// The parts joined, with `sep` between each two neighbours, as `[T]::join` does.
pub open spec fn join(parts: Seq<Seq<char>>, sep: Seq<char>) -> Seq<char>
    decreases parts.len(),
{
    if parts.len() == 0 {
        Seq::empty()
    } else if parts.len() == 1 {
        parts[0]
    } else {
        join(parts.drop_last(), sep) + sep + parts.last()
    }
}

/// Each part with `prefix` put in front of it.
pub open spec fn prefix_each(parts: Seq<Seq<char>>, prefix: Seq<char>) -> Seq<Seq<char>> {
    parts.map_values(|t: Seq<char>| prefix + t)
}

/// The single space, as a sequence.
pub open spec fn space() -> Seq<char> {
    seq![' ']
}

/// The first index at or after `i` that holds `c`, or the length of `s` when
/// there is none.
pub open spec fn find_from(s: Seq<char>, c: char, i: int) -> int
    decreases s.len() - i,
{
    if 0 <= i < s.len() && s[i] != c {
        find_from(s, c, i + 1)
    } else {
        i
    }
}

pub proof fn lemma_find_from_bounds(s: Seq<char>, c: char, i: int)
    requires
        0 <= i <= s.len(),
    ensures
        i <= find_from(s, c, i) <= s.len(),
        forall|j: int| i <= j < find_from(s, c, i) ==> #[trigger] s[j] != c,
        find_from(s, c, i) < s.len() ==> s[find_from(s, c, i)] == c,
    decreases s.len() - i,
{
    if i < s.len() && s[i] != c {
        lemma_find_from_bounds(s, c, i + 1);
    }
}

/// Executable white-space test.
pub fn is_whitespace(c: char) -> (b: bool)
    ensures
        b == is_ws(c),
{
    ('\u{9}' <= c && c <= '\u{d}') || c == ' ' || c == '\u{85}' || c == '\u{a0}' || c
        == '\u{1680}' || ('\u{2000}' <= c && c <= '\u{200a}') || c == '\u{2028}' || c
        == '\u{2029}' || c == '\u{202f}' || c == '\u{205f}' || c == '\u{3000}'
}

/// The characters of a string slice, in order.
pub fn chars_of(s: &str) -> (v: Vec<char>)
    ensures
        v@ == s@,
{
    let mut v: Vec<char> = Vec::new();
    for c in it: s.chars()
        invariant
            v@ == it.seq().take(it.index() as int),
    {
        v.push(c);
    }
    v
}

/// `String::push`: appends one character.
#[verifier::external_body]
pub(crate) fn push_char(s: &mut String, c: char)
    ensures
        final(s)@ == old(s)@.push(c),
{
    s.push(c);
}

/// The string made of `v[lo..hi]`.
pub fn string_of(v: &Vec<char>, lo: usize, hi: usize) -> (s: String)
    requires
        lo <= hi <= v.len(),
    ensures
        s@ == v@.subrange(lo as int, hi as int),
{
    let mut s = String::new();
    let mut i = lo;
    while i < hi
        invariant
            lo <= i <= hi <= v.len(),
            s@ == v@.subrange(lo as int, i as int),
        decreases hi - i,
    {
        push_char(&mut s, v[i]);
        assert(v@.subrange(lo as int, i + 1) =~= v@.subrange(lo as int, i as int).push(v@[i as int]));
        i += 1;
    }
    s
}

/// Equality of two string slices, character by character.
pub fn str_eq(a: &str, b: &str) -> (r: bool)
    ensures
        r == (a@ == b@),
{
    let x = chars_of(a);
    let y = chars_of(b);
    chars_eq(&x, &y)
}

/// Equality of two character vectors.
pub fn chars_eq(x: &Vec<char>, y: &Vec<char>) -> (r: bool)
    ensures
        r == (x@ == y@),
{
    if x.len() != y.len() {
        return false;
    }
    let mut i: usize = 0;
    while i < x.len()
        invariant
            x.len() == y.len(),
            i <= x.len(),
            forall|j: int| 0 <= j < i ==> x@[j] == y@[j],
        decreases x.len() - i,
    {
        if x[i] != y[i] {
            return false;
        }
        i += 1;
    }
    assert(x@ =~= y@);
    true
}

/// Whether `v[lo..hi]` holds no white space.
pub fn range_has_no_ws(v: &Vec<char>, lo: usize, hi: usize) -> (r: bool)
    requires
        lo <= hi <= v.len(),
    ensures
        r == no_ws(v@.subrange(lo as int, hi as int)),
{
    let mut i = lo;
    while i < hi
        invariant
            lo <= i <= hi <= v.len(),
            forall|j: int| lo <= j < i ==> !is_ws(v@[j]),
        decreases hi - i,
    {
        if is_whitespace(v[i]) {
            assert(is_ws(v@.subrange(lo as int, hi as int)[i - lo]));
            return false;
        }
        i += 1;
    }
    assert forall|j: int| 0 <= j < hi - lo implies !is_ws(#[trigger] v@.subrange(lo as int, hi as int)[j]) by {
        assert(v@.subrange(lo as int, hi as int)[j] == v@[lo + j]);
    }
    true
}

/// Whether `v[lo..hi]` contains the character `c`.
pub fn range_contains(v: &Vec<char>, lo: usize, hi: usize, c: char) -> (r: bool)
    requires
        lo <= hi <= v.len(),
    ensures
        r == v@.subrange(lo as int, hi as int).contains(c),
{
    let mut i = lo;
    while i < hi
        invariant
            lo <= i <= hi <= v.len(),
            forall|j: int| lo <= j < i ==> v@[j] != c,
        decreases hi - i,
    {
        if v[i] == c {
            assert(v@.subrange(lo as int, hi as int)[i - lo] == c);
            return true;
        }
        i += 1;
    }
    assert(!v@.subrange(lo as int, hi as int).contains(c)) by {
        if v@.subrange(lo as int, hi as int).contains(c) {
            let k = choose|k: int| 0 <= k < hi - lo && v@.subrange(lo as int, hi as int)[k] == c;
            assert(v@[lo + k] == c);
        }
    }
    false
}

proof fn lemma_trim_left_skip(s: Seq<char>, k: int)
    requires
        0 <= k < s.len(),
        is_ws(s[k]),
        trim_left(s) == trim_left(s.skip(k)),
    ensures
        trim_left(s) == trim_left(s.skip(k + 1)),
{
    assert(s.skip(k).drop_first() =~= s.skip(k + 1));
}

proof fn lemma_trim_right_drop(s: Seq<char>, lo: int, hi: int)
    requires
        0 <= lo < hi <= s.len(),
        is_ws(s[hi - 1]),
    ensures
        trim_right(s.subrange(lo, hi)) == trim_right(s.subrange(lo, hi - 1)),
{
    assert(s.subrange(lo, hi).drop_last() =~= s.subrange(lo, hi - 1));
}

/// Bounds `(lo, hi)` such that `v[lo..hi]` is `v` trimmed.
pub fn trim_bounds(v: &Vec<char>) -> (r: (usize, usize))
    ensures
        r.0 <= r.1 <= v.len(),
        v@.subrange(r.0 as int, r.1 as int) == trim(v@),
{
    let mut lo: usize = 0;
    assert(v@.skip(0) =~= v@);
    while lo < v.len() && is_whitespace(v[lo])
        invariant
            lo <= v.len(),
            trim_left(v@) == trim_left(v@.skip(lo as int)),
        decreases v.len() - lo,
    {
        proof {
            lemma_trim_left_skip(v@, lo as int);
        }
        lo += 1;
    }
    assert(trim_left(v@) == v@.subrange(lo as int, v.len() as int)) by {
        assert(v@.skip(lo as int) =~= v@.subrange(lo as int, v.len() as int));
    }
    let mut hi: usize = v.len();
    while hi > lo && is_whitespace(v[hi - 1])
        invariant
            lo <= hi <= v.len(),
            trim(v@) == trim_right(v@.subrange(lo as int, hi as int)),
        decreases hi,
    {
        proof {
            lemma_trim_right_drop(v@, lo as int, hi as int);
        }
        hi -= 1;
    }
    (lo, hi)
}

/// The strings of `parts` joined with `sep` in between.
pub fn join_strings(parts: &Vec<String>, sep: &str) -> (r: String)
    ensures
        r@ == join(parts.deep_view(), sep@),
{
    let mut r = String::new();
    let ghost dv = parts.deep_view();
    let mut i: usize = 0;
    while i < parts.len()
        invariant
            i <= parts.len(),
            dv == parts.deep_view(),
            dv.len() == parts.len(),
            r@ == join(dv.take(i as int), sep@),
        decreases parts.len() - i,
    {
        assert(dv.take(i + 1).drop_last() =~= dv.take(i as int));
        if i != 0 {
            r.append(sep);
        }
        r.append(parts[i].as_str());
        i += 1;
    }
    assert(dv.take(parts.len() as int) =~= dv);
    r
}

/// The strings of `parts`, each with `prefix` in front, joined with `sep`.
pub fn join_prefixed(parts: &Vec<String>, prefix: &str, sep: &str) -> (r: String)
    ensures
        r@ == join(prefix_each(parts.deep_view(), prefix@), sep@),
{
    let mut r = String::new();
    let ghost dv = prefix_each(parts.deep_view(), prefix@);
    let mut i: usize = 0;
    while i < parts.len()
        invariant
            i <= parts.len(),
            dv == prefix_each(parts.deep_view(), prefix@),
            dv.len() == parts.len(),
            r@ == join(dv.take(i as int), sep@),
        decreases parts.len() - i,
    {
        assert(dv.take(i + 1).drop_last() =~= dv.take(i as int));
        assert(dv[i as int] == prefix@ + parts[i as int]@);
        if i != 0 {
            r.append(sep);
        }
        r.append(prefix);
        r.append(parts[i].as_str());
        i += 1;
    }
    assert(dv.take(parts.len() as int) =~= dv);
    r
}

/// The first index at or after `i` that holds `c`, or the length.
pub fn find_char(v: &Vec<char>, c: char, i: usize) -> (j: usize)
    requires
        i <= v.len(),
    ensures
        j == find_from(v@, c, i as int),
        i <= j <= v.len(),
{
    proof {
        lemma_find_from_bounds(v@, c, i as int);
    }
    let mut j = i;
    while j < v.len() && v[j] != c
        invariant
            i <= j <= v.len(),
            find_from(v@, c, i as int) == find_from(v@, c, j as int),
        decreases v.len() - j,
    {
        j += 1;
    }
    j
}

/// `s` is white space only.
pub open spec fn all_ws(s: Seq<char>) -> bool {
    forall|i: int| 0 <= i < s.len() ==> is_ws(#[trigger] s[i])
}

proof fn lemma_all_ws_drop_first(s: Seq<char>)
    requires
        s.len() > 0,
        all_ws(s),
    ensures
        all_ws(s.drop_first()),
{
    assert forall|i: int| 0 <= i < s.drop_first().len() implies is_ws(#[trigger] s.drop_first()[i]) by {
        assert(s.drop_first()[i] == s[i + 1]);
    }
}

proof fn lemma_all_ws_drop_last(s: Seq<char>)
    requires
        s.len() > 0,
        all_ws(s),
    ensures
        all_ws(s.drop_last()),
{
    assert forall|i: int| 0 <= i < s.drop_last().len() implies is_ws(#[trigger] s.drop_last()[i]) by {
        assert(s.drop_last()[i] == s[i]);
    }
}

/// Leading white space put in front changes nothing once trimmed on the left.
proof fn lemma_trim_left_pad(pre: Seq<char>, x: Seq<char>)
    requires
        all_ws(pre),
    ensures
        trim_left(pre + x) == trim_left(x),
    decreases pre.len(),
{
    if pre.len() == 0 {
        assert(pre + x =~= x);
    } else {
        assert((pre + x)[0] == pre[0]);
        assert((pre + x).drop_first() =~= pre.drop_first() + x);
        lemma_all_ws_drop_first(pre);
        lemma_trim_left_pad(pre.drop_first(), x);
    }
}

/// Trailing white space put behind changes nothing once trimmed on the right.
proof fn lemma_trim_right_pad(x: Seq<char>, post: Seq<char>)
    requires
        all_ws(post),
    ensures
        trim_right(x + post) == trim_right(x),
    decreases post.len(),
{
    if post.len() == 0 {
        assert(x + post =~= x);
    } else {
        assert((x + post).last() == post.last());
        assert((x + post).drop_last() =~= x + post.drop_last());
        lemma_all_ws_drop_last(post);
        lemma_trim_right_pad(x, post.drop_last());
    }
}

proof fn lemma_trim_inner(x: Seq<char>, post: Seq<char>)
    requires
        all_ws(post),
    ensures
        trim_right(trim_left(x + post)) == trim_right(trim_left(x)),
    decreases x.len(),
{
    if x.len() == 0 {
        assert(x + post =~= post);
        lemma_trim_left_pad(post, Seq::<char>::empty());
        assert(post + Seq::<char>::empty() =~= post);
    } else if is_ws(x[0]) {
        assert((x + post)[0] == x[0]);
        assert((x + post).drop_first() =~= x.drop_first() + post);
        lemma_trim_inner(x.drop_first(), post);
    } else {
        assert((x + post)[0] == x[0]);
        lemma_trim_right_pad(x, post);
    }
}

/// White space around a text changes nothing once the whole is trimmed.
pub proof fn lemma_trim_padded(pre: Seq<char>, s: Seq<char>, post: Seq<char>)
    requires
        all_ws(pre),
        all_ws(post),
    ensures
        trim(pre + s + post) == trim(s),
{
    assert(pre + s + post =~= pre + (s + post));
    lemma_trim_left_pad(pre, s + post);
    lemma_trim_inner(s, post);
}

/// Trimming on the left drops a run of white space from the front.
proof fn lemma_trim_left_split(s: Seq<char>) -> (a: int)
    ensures
        0 <= a <= s.len(),
        all_ws(s.take(a)),
        trim_left(s) == s.skip(a),
    decreases s.len(),
{
    if s.len() > 0 && is_ws(s[0]) {
        let a1 = lemma_trim_left_split(s.drop_first());
        assert(s.drop_first().skip(a1) =~= s.skip(a1 + 1));
        assert forall|i: int| 0 <= i < s.take(a1 + 1).len() implies is_ws(#[trigger] s.take(a1 + 1)[i]) by {
            if i > 0 {
                assert(s.take(a1 + 1)[i] == s.drop_first().take(a1)[i - 1]);
            }
        }
        a1 + 1
    } else {
        assert(s.skip(0) =~= s);
        0
    }
}

/// Trimming on the right drops a run of white space from the back.
proof fn lemma_trim_right_split(s: Seq<char>) -> (b: int)
    ensures
        0 <= b <= s.len(),
        all_ws(s.skip(b)),
        trim_right(s) == s.take(b),
    decreases s.len(),
{
    if s.len() > 0 && is_ws(s.last()) {
        let b1 = lemma_trim_right_split(s.drop_last());
        assert(s.drop_last().take(b1) =~= s.take(b1));
        assert forall|i: int| 0 <= i < s.skip(b1).len() implies is_ws(#[trigger] s.skip(b1)[i]) by {
            if b1 + i < s.len() - 1 {
                assert(s.skip(b1)[i] == s.drop_last().skip(b1)[i]);
            }
        }
        b1
    } else {
        assert(s.take(s.len() as int) =~= s);
        assert(s.skip(s.len() as int).len() == 0);
        s.len() as int
    }
}

/// Trimming twice is trimming once.
pub proof fn lemma_trim_idempotent(s: Seq<char>)
    ensures
        trim(trim(s)) == trim(s),
{
    let a = lemma_trim_left_split(s);
    let y = trim_left(s);
    let b = lemma_trim_right_split(y);
    let t = trim(s);
    assert(t == y.take(b));
    assert(s =~= s.take(a) + t + y.skip(b));
    lemma_trim_padded(s.take(a), t, y.skip(b));
}

} // verus!
