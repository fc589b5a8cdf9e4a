//! Character-level helpers on `Seq<char>`: Unicode white space, trimming,
//! prefix tests, UTF-8 widths and conversions between `str`, `String` and
//! `Vec<char>`.

use vstd::prelude::*;
use vstd::std_specs::iter::IteratorSpec;

verus! {

/// Unicode `White_Space` property (PropList.txt), the set `char::is_whitespace` tests.
pub open spec fn is_white_space(c: char) -> bool {
    let u = c as u32;
    ||| 0x9 <= u <= 0xD
    ||| u == 0x20
    ||| u == 0x85
    ||| u == 0xA0
    ||| u == 0x1680
    ||| 0x2000 <= u <= 0x200A
    ||| u == 0x2028
    ||| u == 0x2029
    ||| u == 0x202F
    ||| u == 0x205F
    ||| u == 0x3000
}

/// `s` with its leading white space removed.
pub open spec fn trim_start(s: Seq<char>) -> Seq<char>
    decreases s.len(),
{
    if s.len() > 0 && is_white_space(s[0]) {
        trim_start(s.drop_first())
    } else {
        s
    }
}

/// `s` with its trailing white space removed.
pub open spec fn trim_end(s: Seq<char>) -> Seq<char>
    decreases s.len(),
{
    if s.len() > 0 && is_white_space(s.last()) {
        trim_end(s.drop_last())
    } else {
        s
    }
}

/// `s` with leading and trailing white space removed, as `str::trim` does.
pub open spec fn trim(s: Seq<char>) -> Seq<char> {
    trim_end(trim_start(s))
}

/// Every character of `s` is white space.
pub open spec fn is_blank(s: Seq<char>) -> bool {
    forall|i: int| 0 <= i < s.len() ==> is_white_space(#[trigger] s[i])
}

/// `p` is a prefix of `s`.
pub open spec fn has_prefix(s: Seq<char>, p: Seq<char>) -> bool {
    p.len() <= s.len() && s.subrange(0, p.len() as int) == p
}

/// `p` occurs in `s` as a contiguous block.
pub open spec fn contains(s: Seq<char>, p: Seq<char>) -> bool {
    exists|i: int| 0 <= i <= s.len() - p.len() && #[trigger] s.subrange(i, i + p.len()) == p
}

/// The number of bytes of `c` in UTF-8.
pub open spec fn utf8_width(c: char) -> int {
    let u = c as u32;
    if u <= 0x7F {
        1
    } else if u <= 0x7FF {
        2
    } else if u <= 0xFFFF {
        3
    } else {
        4
    }
}

/// The number of bytes of `s` in UTF-8.
pub open spec fn utf8_len(s: Seq<char>) -> int
    decreases s.len(),
{
    if s.len() == 0 {
        0
    } else {
        utf8_width(s[0]) + utf8_len(s.drop_first())
    }
}

/// The characters of `s` whose UTF-8 encoding starts before byte `limit`.
pub open spec fn chars_starting_below(s: Seq<char>, limit: int) -> Seq<char>
    decreases s.len(),
{
    if s.len() == 0 || limit <= 0 {
        Seq::empty()
    } else {
        seq![s[0]] + chars_starting_below(s.drop_first(), limit - utf8_width(s[0]))
    }
}

/// A block that stands between two others is contained.
pub proof fn lemma_contains_middle(a: Seq<char>, b: Seq<char>, c: Seq<char>)
    ensures
        contains(a + b + c, b),
{
    let s = a + b + c;
    assert(s.subrange(a.len() as int, (a.len() + b.len()) as int) =~= b);
}

/// A prefix is contained.
pub proof fn lemma_contains_prefix(a: Seq<char>, b: Seq<char>)
    ensures
        contains(a + b, a),
{
    lemma_contains_middle(Seq::empty(), a, b);
    assert(Seq::<char>::empty() + a + b =~= a + b);
}

/// A suffix is contained.
pub proof fn lemma_contains_suffix(a: Seq<char>, b: Seq<char>)
    ensures
        contains(a + b, b),
{
    lemma_contains_middle(a, b, Seq::empty());
    assert(a + b + Seq::<char>::empty() =~= a + b);
}

/// Each part of a concatenation of three is contained in it.
pub proof fn lemma_contains_parts3(a: Seq<char>, b: Seq<char>, c: Seq<char>)
    ensures
        contains(a + b + c, a),
        contains(a + b + c, b),
        contains(a + b + c, c),
{
    lemma_contains_prefix(a + b, c);
    lemma_contains_prefix(a, b);
    lemma_contains_trans(a + b + c, a + b, a);
    lemma_contains_middle(a, b, c);
    lemma_contains_suffix(a + b, c);
}

/// Each part of a concatenation of four is contained in it.
pub proof fn lemma_contains_parts4(a: Seq<char>, b: Seq<char>, c: Seq<char>, d: Seq<char>)
    ensures
        contains(a + b + c + d, a),
        contains(a + b + c + d, b),
        contains(a + b + c + d, c),
        contains(a + b + c + d, d),
{
    lemma_contains_parts3(a, b, c);
    lemma_contains_prefix(a + b + c, d);
    lemma_contains_trans(a + b + c + d, a + b + c, a);
    lemma_contains_trans(a + b + c + d, a + b + c, b);
    lemma_contains_trans(a + b + c + d, a + b + c, c);
    lemma_contains_suffix(a + b + c, d);
}

/// Each part of a concatenation of five is contained in it.
pub proof fn lemma_contains_parts5(
    a: Seq<char>,
    b: Seq<char>,
    c: Seq<char>,
    d: Seq<char>,
    e: Seq<char>,
)
    ensures
        contains(a + b + c + d + e, a),
        contains(a + b + c + d + e, b),
        contains(a + b + c + d + e, c),
        contains(a + b + c + d + e, d),
        contains(a + b + c + d + e, e),
{
    lemma_contains_parts4(a, b, c, d);
    lemma_contains_prefix(a + b + c + d, e);
    lemma_contains_trans(a + b + c + d + e, a + b + c + d, a);
    lemma_contains_trans(a + b + c + d + e, a + b + c + d, b);
    lemma_contains_trans(a + b + c + d + e, a + b + c + d, c);
    lemma_contains_trans(a + b + c + d + e, a + b + c + d, d);
    lemma_contains_suffix(a + b + c + d, e);
}

/// Containment is transitive.
pub proof fn lemma_contains_trans(s: Seq<char>, m: Seq<char>, p: Seq<char>)
    requires
        contains(s, m),
        contains(m, p),
    ensures
        contains(s, p),
{
    let i = choose|i: int| 0 <= i <= s.len() - m.len() && #[trigger] s.subrange(i, i + m.len()) == m;
    let j = choose|j: int| 0 <= j <= m.len() - p.len() && #[trigger] m.subrange(j, j + p.len()) == p;
    assert(s.subrange(i + j, i + j + p.len()) =~= m.subrange(j, j + p.len()));
}

/// `trim_start` removes a prefix, and what it keeps does not start with white space.
pub proof fn lemma_trim_start_shape(s: Seq<char>)
    ensures
        trim_start(s).len() <= s.len(),
        trim_start(s) == s.subrange(s.len() - trim_start(s).len(), s.len() as int),
        trim_start(s).len() > 0 ==> !is_white_space(trim_start(s)[0]),
        trim_start(s).len() == 0 ==> is_blank(s),
    decreases s.len(),
{
    if s.len() > 0 && is_white_space(s[0]) {
        lemma_trim_start_shape(s.drop_first());
        let t = trim_start(s.drop_first());
        assert(s.drop_first().subrange(s.len() - 1 - t.len(), s.len() - 1) =~= s.subrange(
            s.len() - t.len(),
            s.len() as int,
        ));
        if t.len() == 0 {
            assert forall|i: int| 0 <= i < s.len() implies is_white_space(#[trigger] s[i]) by {
                if i > 0 {
                    assert(s[i] == s.drop_first()[i - 1]);
                }
            }
        }
    } else {
        assert(s.subrange(0, s.len() as int) =~= s);
    }
}

/// `trim_end` removes a suffix, and what it keeps does not end with white space.
pub proof fn lemma_trim_end_shape(s: Seq<char>)
    ensures
        trim_end(s).len() <= s.len(),
        trim_end(s) == s.subrange(0, trim_end(s).len() as int),
        trim_end(s).len() > 0 ==> !is_white_space(trim_end(s).last()),
        trim_end(s).len() == 0 ==> is_blank(s),
    decreases s.len(),
{
    if s.len() > 0 && is_white_space(s.last()) {
        lemma_trim_end_shape(s.drop_last());
        let t = trim_end(s.drop_last());
        assert(s.drop_last().subrange(0, t.len() as int) =~= s.subrange(0, t.len() as int));
        if t.len() == 0 {
            assert forall|i: int| 0 <= i < s.len() implies is_white_space(#[trigger] s[i]) by {
                if i < s.len() - 1 {
                    assert(s[i] == s.drop_last()[i]);
                }
            }
        }
    } else {
        assert(s.subrange(0, s.len() as int) =~= s);
    }
}

/// Trimming twice trims no more than trimming once.
pub proof fn lemma_trim_idempotent(s: Seq<char>)
    ensures
        trim(trim(s)) == trim(s),
{
    let y = trim_start(s);
    lemma_trim_start_shape(s);
    let z = trim_end(y);
    lemma_trim_end_shape(y);
    if z.len() > 0 {
        assert(z[0] == y[0]);
    }
    assert(trim_start(z) == z);
    assert(trim_end(z) == z);
}

/// A text trims to nothing exactly when it is all white space.
pub proof fn lemma_trim_empty_iff_blank(s: Seq<char>)
    ensures
        trim(s).len() == 0 <==> is_blank(s),
{
    let y = trim_start(s);
    lemma_trim_start_shape(s);
    lemma_trim_end_shape(y);
    if is_blank(s) {
        if y.len() > 0 {
            assert(y[0] == s[s.len() - y.len()]);
        }
    }
    if trim(s).len() == 0 && y.len() > 0 {
        assert(is_white_space(y[0]));
    }
}

/// The characters that start before byte `limit` are a prefix of `s`; they take at most
/// `limit + 3` bytes, and all of `s` when `s` takes at most `limit` bytes.
pub proof fn lemma_chars_starting_below(s: Seq<char>, limit: int)
    ensures
        chars_starting_below(s, limit).len() <= s.len(),
        chars_starting_below(s, limit) == s.take(chars_starting_below(s, limit).len() as int),
        limit > 0 ==> utf8_len(chars_starting_below(s, limit)) <= limit + 3,
        utf8_len(s) <= limit ==> chars_starting_below(s, limit) == s,
    decreases s.len(),
{
    lemma_utf8_len_nonneg(s);
    if s.len() == 0 || limit <= 0 {
        assert(s.take(0) =~= Seq::<char>::empty());
        if s.len() > 0 {
            lemma_utf8_len_nonneg(s.drop_first());
        } else {
            assert(s =~= Seq::<char>::empty());
        }
    } else {
        let w = utf8_width(s[0]);
        let rest = chars_starting_below(s.drop_first(), limit - w);
        lemma_chars_starting_below(s.drop_first(), limit - w);
        let r = seq![s[0]] + rest;
        assert(r.drop_first() =~= rest);
        assert(r[0] == s[0]);
        assert(utf8_len(r) == w + utf8_len(rest));
        assert(r =~= s.take(r.len() as int));
        if utf8_len(s) <= limit {
            assert(s =~= seq![s[0]] + s.drop_first());
        }
        if limit - w <= 0 {
            assert(rest =~= Seq::<char>::empty());
        }
    }
}

/// A UTF-8 length is never negative.
pub proof fn lemma_utf8_len_nonneg(s: Seq<char>)
    ensures
        utf8_len(s) >= 0,
    decreases s.len(),
{
    if s.len() > 0 {
        lemma_utf8_len_nonneg(s.drop_first());
    }
}

/// The index of the first `c` in `s`.
pub open spec fn find_char(s: Seq<char>, c: char) -> Option<int>
    decreases s.len(),
{
    if s.len() == 0 {
        None
    } else if s[0] == c {
        Some(0)
    } else {
        match find_char(s.drop_first(), c) {
            Some(i) => Some(i + 1),
            None => None,
        }
    }
}

/// The index of the first line feed in `s`.
pub open spec fn find_newline(s: Seq<char>) -> Option<int> {
    find_char(s, '\n')
}

/// A `c` that `find_char` finds lies inside `s`.
pub proof fn lemma_find_char_bounds(s: Seq<char>, c: char)
    ensures
        find_char(s, c) matches Some(i) ==> 0 <= i < s.len() && s[i] == c,
    decreases s.len(),
{
    if s.len() > 0 && s[0] != c {
        lemma_find_char_bounds(s.drop_first(), c);
    }
}

/// `find_char` finds the first `c`.
pub proof fn lemma_find_char(s: Seq<char>, c: char, k: int)
    requires
        0 <= k <= s.len(),
        forall|j: int| 0 <= j < k ==> s[j] != c,
        k < s.len() ==> s[k] == c,
    ensures
        find_char(s, c) == (if k < s.len() {
            Some(k)
        } else {
            None::<int>
        }),
    decreases k,
{
    if k > 0 {
        let t = s.drop_first();
        assert(s[0] != c);
        assert forall|j: int| 0 <= j < k - 1 implies t[j] != c by {
            assert(t[j] == s[j + 1]);
        }
        lemma_find_char(t, c, k - 1);
    }
}

/// The index of the first `c` in `v[lo..hi]`, or `hi` when there is none.
pub fn find_char_in(v: &Vec<char>, lo: usize, hi: usize, c: char) -> (k: usize)
    requires
        lo <= hi <= v.len(),
    ensures
        lo <= k <= hi,
        find_char(v@.subrange(lo as int, hi as int), c) == (if k < hi {
            Some(k - lo)
        } else {
            None::<int>
        }),
{
    let ghost s = v@.subrange(lo as int, hi as int);
    let mut k = lo;
    while k < hi && v[k] != c
        invariant
            lo <= k <= hi <= v.len(),
            s == v@.subrange(lo as int, hi as int),
            forall|j: int| 0 <= j < k - lo ==> s[j] != c,
        decreases hi - k,
    {
        assert(s[k - lo] == v@[k as int]);
        k = k + 1;
    }
    proof {
        if k < hi {
            assert(s[k - lo] == v@[k as int]);
        }
        lemma_find_char(s, c, k - lo);
    }
    k
}

/// Tests membership in the Unicode `White_Space` set.
pub fn is_white_space_char(c: char) -> (b: bool)
    ensures
        b == is_white_space(c),
{
    let u = c as u32;
    (0x9 <= u && u <= 0xD) || u == 0x20 || u == 0x85 || u == 0xA0 || u == 0x1680 || (0x2000 <= u
        && u <= 0x200A) || u == 0x2028 || u == 0x2029 || u == 0x202F || u == 0x205F || u == 0x3000
}

/// The number of bytes of `c` in UTF-8.
pub fn utf8_width_of(c: char) -> (w: usize)
    ensures
        w == utf8_width(c),
{
    let u = c as u32;
    if u <= 0x7F {
        1
    } else if u <= 0x7FF {
        2
    } else if u <= 0xFFFF {
        3
    } else {
        4
    }
}

/// How many leading characters of `v` start before byte `limit` of its UTF-8 encoding.
pub fn count_starting_below(v: &Vec<char>, limit: usize) -> (n: usize)
    requires
        limit <= 1_000_000,
    ensures
        n <= v.len(),
        v@.take(n as int) == chars_starting_below(v@, limit as int),
{
    let mut i: usize = 0;
    let mut offset: usize = 0;
    assert(v@.skip(0) =~= v@);
    while i < v.len() && offset < limit
        invariant
            i <= v.len(),
            limit <= 1_000_000,
            offset <= limit + 4,
            chars_starting_below(v@, limit as int) == v@.take(i as int) + chars_starting_below(
                v@.skip(i as int),
                limit - offset,
            ),
        decreases v.len() - i,
    {
        let w = utf8_width_of(v[i]);
        assert(v@.skip(i as int).drop_first() =~= v@.skip(i + 1));
        assert(v@.take(i as int) + seq![v@[i as int]] =~= v@.take(i + 1));
        offset = offset + w;
        i = i + 1;
    }
    assert(v@.take(i as int) + Seq::<char>::empty() =~= v@.take(i as int));
    i
}

/// Whether `v[lo..hi]` starts with `p`.
pub fn starts_with_at(v: &Vec<char>, lo: usize, hi: usize, p: &Vec<char>) -> (b: bool)
    requires
        lo <= hi <= v.len(),
    ensures
        b == has_prefix(v@.subrange(lo as int, hi as int), p@),
{
    let ghost s = v@.subrange(lo as int, hi as int);
    if hi - lo < p.len() {
        return false;
    }
    let mut i: usize = 0;
    while i < p.len()
        invariant
            i <= p.len() <= hi - lo,
            lo <= hi <= v.len(),
            s == v@.subrange(lo as int, hi as int),
            forall|k: int| 0 <= k < i ==> s[k] == p@[k],
        decreases p.len() - i,
    {
        if v[lo + i] != p[i] {
            assert(s.subrange(0, p.len() as int)[i as int] == s[i as int]);
            return false;
        }
        i = i + 1;
    }
    assert(s.subrange(0, p.len() as int) =~= p@);
    true
}

/// Whether `v[lo..hi]` is `p`.
pub fn equals_at(v: &Vec<char>, lo: usize, hi: usize, p: &Vec<char>) -> (b: bool)
    requires
        lo <= hi <= v.len(),
    ensures
        b == (v@.subrange(lo as int, hi as int) == p@),
{
    if hi - lo != p.len() {
        return false;
    }
    let b = starts_with_at(v, lo, hi, p);
    proof {
        let s = v@.subrange(lo as int, hi as int);
        assert(s.subrange(0, p.len() as int) =~= s);
    }
    b
}

/// The characters of `s`, in order.
pub fn str_chars(s: &str) -> (v: Vec<char>)
    ensures
        v@ == s@,
{
    let mut v: Vec<char> = Vec::new();
    for c in it: s.chars()
        invariant
            v@ == it.seq().take(it.index() as int),
            it.seq() == s@,
    {
        v.push(c);
    }
    v
}

/// `String::push`: appends `c` to `s`.
#[verifier::external_body]
pub(crate) fn push_char(s: &mut String, c: char)
    ensures
        final(s)@ == old(s)@.push(c),
{
    s.push(c);
}

/// The characters `v[lo..hi]` as a `String`.
pub fn string_from_chars(v: &Vec<char>, lo: usize, hi: usize) -> (s: String)
    requires
        lo <= hi <= v.len(),
    ensures
        s@ == v@.subrange(lo as int, hi as int),
{
    let mut s = String::new();
    let mut i = lo;
    while i < hi
        invariant
            lo <= i <= hi <= v.len(),
            s@ == v@.subrange(lo as int, i as int),
        decreases hi - i,
    {
        push_char(&mut s, v[i]);
        i = i + 1;
        assert(s@ =~= v@.subrange(lo as int, i as int));
    }
    s
}

/// Dropping a white-space prefix does not change what `trim_start` gives.
pub proof fn lemma_trim_start_skip(s: Seq<char>, i: int)
    requires
        0 <= i <= s.len(),
        forall|k: int| 0 <= k < i ==> is_white_space(#[trigger] s[k]),
    ensures
        trim_start(s) == trim_start(s.subrange(i, s.len() as int)),
    decreases i,
{
    if i > 0 {
        assert(is_white_space(s[0]));
        let t = s.drop_first();
        assert forall|k: int| 0 <= k < i - 1 implies is_white_space(#[trigger] t[k]) by {
            assert(t[k] == s[k + 1]);
        }
        lemma_trim_start_skip(t, i - 1);
        assert(t.subrange(i - 1, t.len() as int) =~= s.subrange(i, s.len() as int));
    } else {
        assert(s.subrange(0, s.len() as int) =~= s);
    }
}

/// Dropping a white-space suffix does not change what `trim_end` gives.
pub proof fn lemma_trim_end_take(s: Seq<char>, j: int)
    requires
        0 <= j <= s.len(),
        forall|k: int| j <= k < s.len() ==> is_white_space(#[trigger] s[k]),
    ensures
        trim_end(s) == trim_end(s.subrange(0, j)),
    decreases s.len() - j,
{
    if j < s.len() {
        assert(is_white_space(s[s.len() - 1]));
        let t = s.drop_last();
        assert forall|k: int| j <= k < t.len() implies is_white_space(#[trigger] t[k]) by {
            assert(t[k] == s[k]);
        }
        lemma_trim_end_take(t, j);
        assert(t.subrange(0, j) =~= s.subrange(0, j));
    } else {
        assert(s.subrange(0, j) =~= s);
    }
}

/// The bounds `(a, b)` with `v[a..b] == trim(v[lo..hi])`.
pub fn trim_bounds(v: &Vec<char>, lo: usize, hi: usize) -> (r: (usize, usize))
    requires
        lo <= hi <= v.len(),
    ensures
        lo <= r.0 <= r.1 <= hi,
        v@.subrange(r.0 as int, r.1 as int) == trim(v@.subrange(lo as int, hi as int)),
{
    let ghost s = v@.subrange(lo as int, hi as int);
    let mut i: usize = lo;
    while i < hi && is_white_space_char(v[i])
        invariant
            lo <= i <= hi <= v.len(),
            s == v@.subrange(lo as int, hi as int),
            forall|k: int| 0 <= k < i - lo ==> is_white_space(#[trigger] s[k]),
        decreases hi - i,
    {
        assert(s[i - lo] == v@[i as int]);
        i = i + 1;
    }
    proof {
        lemma_trim_start_skip(s, i - lo);
        assert(s.subrange(i - lo, s.len() as int) =~= v@.subrange(i as int, hi as int));
    }
    let ghost t = v@.subrange(i as int, hi as int);
    assert(trim_start(t) == t);
    let mut j: usize = hi;
    while j > i && is_white_space_char(v[j - 1])
        invariant
            lo <= i <= j <= hi <= v.len(),
            t == v@.subrange(i as int, hi as int),
            forall|k: int| j - i <= k < t.len() ==> is_white_space(#[trigger] t[k]),
        decreases j - i,
    {
        j = j - 1;
        assert(t[j - i] == v@[j as int]);
    }
    proof {
        lemma_trim_end_take(t, j - i);
        assert(t.subrange(0, j - i) =~= v@.subrange(i as int, j as int));
    }
    (i, j)
}

/// `s.trim()` as an owned `String`.
pub fn trim_string(s: &str) -> (r: String)
    ensures
        r@ == trim(s@),
{
    let v = str_chars(s);
    let (lo, hi) = trim_bounds(&v, 0, v.len());
    assert(v@.subrange(0, v.len() as int) =~= v@);
    string_from_chars(&v, lo, hi)
}

/// `s.trim().is_empty()`.
pub fn is_blank_str(s: &str) -> (b: bool)
    ensures
        b == (trim(s@).len() == 0),
{
    let v = str_chars(s);
    let (lo, hi) = trim_bounds(&v, 0, v.len());
    assert(v@.subrange(0, v.len() as int) =~= v@);
    lo == hi
}

} // verus!
