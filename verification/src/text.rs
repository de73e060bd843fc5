//! Character-level helpers on the lines of a `.osu` file: white space,
//! comments, key-value pairs and string comparisons.
use vstd::prelude::*;
use vstd::string::StringExecFns;

verus! {

/// Whether `c` has the Unicode `White_Space` property, as `char::is_whitespace`
/// documents it.
pub open spec fn is_whitespace(c: char) -> bool {
    let u = c as u32;
    ||| (0x09 <= u <= 0x0D)
    ||| u == 0x20
    ||| u == 0x85
    ||| u == 0xA0
    ||| u == 0x1680
    ||| (0x2000 <= u <= 0x200A)
    ||| u == 0x2028
    ||| u == 0x2029
    ||| u == 0x202F
    ||| u == 0x205F
    ||| u == 0x3000
}

/// `s` without its leading white space.
pub open spec fn trim_start(s: Seq<char>) -> Seq<char>
    decreases s.len(),
{
    if s.len() > 0 && is_whitespace(s[0]) {
        trim_start(s.drop_first())
    } else {
        s
    }
}

/// `s` without its trailing white space.
pub open spec fn trim_end(s: Seq<char>) -> Seq<char>
    decreases s.len(),
{
    if s.len() > 0 && is_whitespace(s.last()) {
        trim_end(s.drop_last())
    } else {
        s
    }
}

/// `s` without leading and trailing white space.
pub open spec fn trim(s: Seq<char>) -> Seq<char> {
    trim_end(trim_start(s))
}

/// The index of the first `"//"` in `s` at or after `from`.
pub open spec fn find_comment_from(s: Seq<char>, from: int) -> Option<int>
    decreases s.len() - from,
{
    if from < 0 || from + 1 >= s.len() {
        None
    } else if s[from] == '/' && s[from + 1] == '/' {
        Some(from)
    } else {
        find_comment_from(s, from + 1)
    }
}

/// The part of a line in front of its `//` comment, without trailing white
/// space; the whole line when it holds no comment.
pub open spec fn trim_comment(s: Seq<char>) -> Seq<char> {
    match find_comment_from(s, 0) {
        Some(i) => trim_end(s.take(i)),
        None => s,
    }
}

/// The index of the first `c` in `s` at or after `from`.
pub open spec fn find_char_from(s: Seq<char>, c: char, from: int) -> Option<int>
    decreases s.len() - from,
{
    if from < 0 || from >= s.len() {
        None
    } else if s[from] == c {
        Some(from)
    } else {
        find_char_from(s, c, from + 1)
    }
}

/// The index of the last `c` in `s` in front of `end`.
pub open spec fn rfind_char_before(s: Seq<char>, c: char, end: int) -> Option<int>
    decreases end,
{
    if end <= 0 || end > s.len() {
        None
    } else if s[end - 1] == c {
        Some(end - 1)
    } else {
        rfind_char_before(s, c, end - 1)
    }
}

/// The text behind the last `c` in `s`; all of `s` when it holds no `c`.
pub open spec fn after_last(s: Seq<char>, c: char) -> Seq<char> {
    match rfind_char_before(s, c, s.len() as int) {
        Some(i) => s.skip(i + 1),
        None => s,
    }
}

/// Whether `s` starts with `prefix`.
pub open spec fn has_prefix(s: Seq<char>, prefix: Seq<char>) -> bool {
    prefix.len() <= s.len() && s.take(prefix.len() as int) == prefix
}

/// The key of a `key: value` line: the trimmed text in front of the first
/// colon, or the whole trimmed line when there is none.
pub open spec fn key_of(s: Seq<char>) -> Seq<char> {
    match find_char_from(s, ':', 0) {
        Some(i) => trim(s.take(i)),
        None => trim(s),
    }
}

/// The value of a `key: value` line: the trimmed text behind the first colon,
/// or nothing when there is no colon.
pub open spec fn value_of(s: Seq<char>) -> Seq<char> {
    match find_char_from(s, ':', 0) {
        Some(i) => trim(s.skip(i + 1)),
        None => Seq::empty(),
    }
}

/// The line `key: value`, as the encoders write it.
pub open spec fn kv_line(key: Seq<char>, value: Seq<char>) -> Seq<char> {
    key + seq![':', ' '] + value
}

/// Whether `s` holds no `c`.
pub open spec fn lacks(s: Seq<char>, c: char) -> bool {
    forall|i: int| 0 <= i < s.len() ==> #[trigger] s[i] != c
}

/// The first `c` at or after `from` is at `i` when none stands in between.
pub proof fn lemma_find_char_at(s: Seq<char>, c: char, from: int, i: int)
    requires
        0 <= from <= i < s.len(),
        s[i] == c,
        forall|k: int| from <= k < i ==> #[trigger] s[k] != c,
    ensures
        find_char_from(s, c, from) == Some(i),
    decreases i - from,
{
    if from < i {
        lemma_find_char_at(s, c, from + 1, i);
    }
}

/// A line written as `key: value` reads back as that key and value, when the
/// key holds no colon and neither has white space at its ends.
pub proof fn lemma_kv_line(key: Seq<char>, value: Seq<char>)
    requires
        lacks(key, ':'),
        trim(key) == key,
        trim(value) == value,
    ensures
        key_of(kv_line(key, value)) == key,
        value_of(kv_line(key, value)) == value,
{
    let line = kv_line(key, value);
    let n = key.len() as int;
    assert(line[n] == ':');
    assert forall|k: int| 0 <= k < n implies #[trigger] line[k] != ':' by {
        assert(line[k] == key[k]);
    }
    lemma_find_char_at(line, ':', 0, n);
    assert(line.take(n) =~= key);
    let tail = line.skip(n + 1);
    assert(tail =~= seq![' '] + value);
    assert(is_whitespace(' '));
    assert(tail.drop_first() =~= value);
    assert(trim_start(tail) == trim_start(value));
}

proof fn lemma_trim_start_skip(s: Seq<char>, i: int)
    requires
        0 <= i <= s.len(),
        forall|k: int| 0 <= k < i ==> is_whitespace(#[trigger] s[k]),
    ensures
        trim_start(s) == trim_start(s.subrange(i, s.len() as int)),
    decreases i,
{
    if i > 0 {
        lemma_trim_start_skip(s.drop_first(), i - 1);
        assert(s.drop_first().subrange(i - 1, s.drop_first().len() as int) =~= s.subrange(
            i,
            s.len() as int,
        ));
    } else {
        assert(s.subrange(0, s.len() as int) =~= s);
    }
}

proof fn lemma_trim_end_take(s: Seq<char>, j: int)
    requires
        0 <= j <= s.len(),
        forall|k: int| j <= k < s.len() ==> is_whitespace(#[trigger] s[k]),
    ensures
        trim_end(s) == trim_end(s.take(j)),
    decreases s.len() - j,
{
    if j < s.len() {
        lemma_trim_end_take(s.drop_last(), j);
        assert(s.drop_last().take(j) =~= s.take(j));
    } else {
        assert(s.take(j) =~= s);
    }
}

proof fn lemma_trim_start_result(s: Seq<char>)
    ensures
        trim_start(s).len() == 0 || !is_whitespace(trim_start(s)[0]),
    decreases s.len(),
{
    if s.len() > 0 && is_whitespace(s[0]) {
        lemma_trim_start_result(s.drop_first());
    }
}

proof fn lemma_trim_end_result(s: Seq<char>)
    ensures
        trim_end(s).len() == 0 || !is_whitespace(trim_end(s).last()),
        trim_end(s).len() <= s.len(),
        trim_end(s) == s.take(trim_end(s).len() as int),
    decreases s.len(),
{
    if s.len() > 0 && is_whitespace(s.last()) {
        lemma_trim_end_result(s.drop_last());
        let r = trim_end(s.drop_last());
        assert(s.drop_last().take(r.len() as int) =~= s.take(r.len() as int));
    } else {
        assert(s.take(s.len() as int) =~= s);
    }
}

/// Trimming trimmed text changes nothing.
pub proof fn lemma_trim_idempotent(s: Seq<char>)
    ensures
        trim(trim(s)) == trim(s),
{
    let a = trim_start(s);
    let b = trim_end(a);
    lemma_trim_start_result(s);
    lemma_trim_end_result(a);
    if b.len() > 0 {
        assert(b[0] == a[0]);
    }
    assert(trim_start(b) == b);
    assert(trim_end(b) == b);
}

/// Exact characters of a string slice.
pub fn chars_of(s: &str) -> (v: Vec<char>)
    ensures
        v@ == s@,
{
    let mut v: Vec<char> = Vec::new();
    for c in it: s.chars()
        invariant
            v@ == it.seq().take(it.index() as int),
            it.seq() == s@,
    {
        v.push(c);
    }
    v
}

/// Executable form of [`is_whitespace`].
pub fn char_is_whitespace(c: char) -> (b: bool)
    ensures
        b == is_whitespace(c),
{
    let u = c as u32;
    (0x09 <= u && u <= 0x0D) || u == 0x20 || u == 0x85 || u == 0xA0 || u == 0x1680 || (0x2000
        <= u && u <= 0x200A) || u == 0x2028 || u == 0x2029 || u == 0x202F || u == 0x205F || u
        == 0x3000
}

/// Bounds `(start, end)` of the trimmed part of `v[from..to]`.
pub fn trim_bounds(v: &Vec<char>, from: usize, to: usize) -> (r: (usize, usize))
    requires
        from <= to <= v.len(),
    ensures
        from <= r.0 <= r.1 <= to,
        v@.subrange(r.0 as int, r.1 as int) == trim(v@.subrange(from as int, to as int)),
{
    let ghost s = v@.subrange(from as int, to as int);
    let mut i: usize = from;
    while i < to && char_is_whitespace(v[i])
        invariant
            from <= i <= to <= v.len(),
            forall|k: int| from <= k < i ==> is_whitespace(#[trigger] v@[k]),
        decreases to - i,
    {
        i = i + 1;
    }
    proof {
        assert forall|k: int| 0 <= k < i - from implies is_whitespace(#[trigger] s[k]) by {
            assert(s[k] == v@[from + k]);
        }
        lemma_trim_start_skip(s, i - from);
        assert(s.subrange(i - from, s.len() as int) =~= v@.subrange(i as int, to as int));
    }
    let mut j: usize = to;
    while j > i && char_is_whitespace(v[j - 1])
        invariant
            from <= i <= j <= to <= v.len(),
            forall|k: int| j <= k < to ==> is_whitespace(#[trigger] v@[k]),
        decreases j - i,
    {
        j = j - 1;
    }
    proof {
        let t = v@.subrange(i as int, to as int);
        assert forall|k: int| j - i <= k < t.len() implies is_whitespace(#[trigger] t[k]) by {
            assert(t[k] == v@[i + k]);
        }
        lemma_trim_end_take(t, j - i);
        assert(t.take(j - i) =~= v@.subrange(i as int, j as int));
        let u = v@.subrange(i as int, j as int);
        if i < j {
            assert(u[0] == v@[i as int]);
            assert(!is_whitespace(u[0]));
            assert(trim_start(u) == u);
        } else {
            assert(trim_start(u) == u);
        }
        if i < to {
            assert(t[0] == v@[i as int]);
        }
        assert(trim_start(s) == t);
    }
    (i, j)
}

/// `s` without leading and trailing white space.
pub fn trim_str(s: &str) -> (r: &str)
    ensures
        r@ == trim(s@),
{
    let v = chars_of(s);
    let (i, j) = trim_bounds(&v, 0, v.len());
    proof {
        assert(v@.subrange(0, v@.len() as int) =~= v@);
    }
    s.substring_char(i, j)
}

/// Whether the two strings hold the same characters.
pub fn str_eq(a: &str, b: &str) -> (r: bool)
    ensures
        r == (a@ == b@),
{
    let x = chars_of(a);
    let y = chars_of(b);
    chars_eq(&x, &y)
}

/// Whether the two vectors hold the same characters.
pub fn chars_eq(x: &Vec<char>, y: &Vec<char>) -> (r: bool)
    ensures
        r == (x@ == y@),
{
    if x.len() != y.len() {
        return false;
    }
    let mut i: usize = 0;
    while i < x.len()
        invariant
            x.len() == y.len(),
            0 <= i <= x.len(),
            forall|k: int| 0 <= k < i ==> x@[k] == y@[k],
        decreases x.len() - i,
    {
        if x[i] != y[i] {
            return false;
        }
        i = i + 1;
    }
    assert(x@ =~= y@);
    true
}

/// Whether `x[from..to]` holds exactly the characters of `lit`.
pub fn range_eq(x: &Vec<char>, from: usize, to: usize, lit: &str) -> (r: bool)
    requires
        from <= to <= x.len(),
    ensures
        r == (x@.subrange(from as int, to as int) == lit@),
{
    let y = chars_of(lit);
    if to - from != y.len() {
        return false;
    }
    let mut i: usize = 0;
    while i < y.len()
        invariant
            to - from == y.len(),
            y@ == lit@,
            from <= to <= x.len(),
            0 <= i <= y.len(),
            forall|k: int| 0 <= k < i ==> x@[from + k] == y@[k],
        decreases y.len() - i,
    {
        if x[from + i] != y[i] {
            proof {
                let sub = x@.subrange(from as int, to as int);
                assert(sub[i as int] == x@[from + i]);
                assert(sub[i as int] != lit@[i as int]);
            }
            return false;
        }
        i = i + 1;
    }
    assert(x@.subrange(from as int, to as int) =~= y@);
    true
}

/// The index of the first `c` in `v[from..]`, as [`find_char_from`].
pub fn find_char(v: &Vec<char>, c: char, from: usize) -> (r: Option<usize>)
    requires
        from <= v.len(),
    ensures
        r matches Some(i) ==> from <= i < v.len() && find_char_from(v@, c, from as int) == Some(
            i as int,
        ),
        r is None ==> find_char_from(v@, c, from as int) is None,
{
    let mut i: usize = from;
    while i < v.len()
        invariant
            from <= i <= v.len(),
            find_char_from(v@, c, from as int) == find_char_from(v@, c, i as int),
        decreases v.len() - i,
    {
        if v[i] == c {
            return Some(i);
        }
        i = i + 1;
    }
    None
}

/// The index of the last `c` in `v`, as [`rfind_char_before`].
pub fn rfind_char(v: &Vec<char>, c: char) -> (r: Option<usize>)
    ensures
        r matches Some(i) ==> i < v.len() && rfind_char_before(v@, c, v.len() as int) == Some(
            i as int,
        ),
        r is None ==> rfind_char_before(v@, c, v.len() as int) is None,
{
    let mut j: usize = v.len();
    while j > 0
        invariant
            0 <= j <= v.len(),
            rfind_char_before(v@, c, v.len() as int) == rfind_char_before(v@, c, j as int),
        decreases j,
    {
        if v[j - 1] == c {
            return Some(j - 1);
        }
        j = j - 1;
    }
    None
}

/// Whether `s` starts with `prefix`.
pub fn starts_with_str(s: &str, prefix: &str) -> (r: bool)
    ensures
        r == has_prefix(s@, prefix@),
{
    let v = chars_of(s);
    let p = chars_of(prefix);
    if p.len() > v.len() {
        return false;
    }
    let r = range_eq(&v, 0, p.len(), prefix);
    proof {
        assert(v@.subrange(0, p.len() as int) =~= v@.take(p.len() as int));
    }
    r
}

/// The index of the first `"//"` in `v`, as [`find_comment_from`].
pub fn find_comment(v: &Vec<char>) -> (r: Option<usize>)
    ensures
        r matches Some(i) ==> i + 1 < v.len() && find_comment_from(v@, 0) == Some(i as int),
        r is None ==> find_comment_from(v@, 0) is None,
{
    if v.len() == 0 {
        return None;
    }
    let mut i: usize = 0;
    while i < v.len() - 1
        invariant
            v.len() > 0,
            0 <= i <= v.len(),
            find_comment_from(v@, 0) == find_comment_from(v@, i as int),
        decreases v.len() - i,
    {
        if v[i] == '/' && v[i + 1] == '/' {
            return Some(i);
        }
        i = i + 1;
    }
    None
}

/// The part of a line in front of its `//` comment, as [`trim_comment`].
pub fn trim_comment_str(s: &str) -> (r: &str)
    ensures
        r@ == trim_comment(s@),
{
    let v = chars_of(s);
    match find_comment(&v) {
        Some(i) => {
            let mut j: usize = i;
            while j > 0 && char_is_whitespace(v[j - 1])
                invariant
                    0 <= j <= i < v.len(),
                    forall|k: int| j <= k < i ==> is_whitespace(#[trigger] v@[k]),
                decreases j,
            {
                j = j - 1;
            }
            proof {
                let t = v@.take(i as int);
                assert forall|k: int| j <= k < t.len() implies is_whitespace(#[trigger] t[k]) by {
                    assert(t[k] == v@[k]);
                }
                lemma_trim_end_take(t, j as int);
                assert(t.take(j as int) =~= v@.subrange(0, j as int));
                let u = v@.subrange(0, j as int);
                if j > 0 {
                    assert(u.last() == v@[j - 1]);
                }
                assert(trim_end(u) == u);
                assert(trim_comment(s@) == trim_end(t));
            }
            s.substring_char(0, j)
        },
        None => s,
    }
}

/// Split a `key: value` line into its trimmed key and value, as [`key_of`]
/// and [`value_of`].
pub fn split_key_value(s: &str) -> (r: (&str, &str))
    ensures
        r.0@ == key_of(s@),
        r.1@ == value_of(s@),
{
    let v = chars_of(s);
    match find_char(&v, ':', 0) {
        Some(i) => {
            let (a, b) = trim_bounds(&v, 0, i);
            let (c, d) = trim_bounds(&v, i + 1, v.len());
            proof {
                assert(v@.subrange(0, i as int) =~= v@.take(i as int));
                assert(v@.subrange(i + 1, v@.len() as int) =~= v@.skip(i + 1));
                assert(key_of(s@) == trim(v@.take(i as int)));
                assert(value_of(s@) == trim(v@.skip(i + 1)));
            }
            (s.substring_char(a, b), s.substring_char(c, d))
        },
        None => {
            let (a, b) = trim_bounds(&v, 0, v.len());
            proof {
                assert(v@.subrange(0, v@.len() as int) =~= v@);
                assert(key_of(s@) == trim(v@));
            }
            let e = s.substring_char(0, 0);
            assert(e@ =~= Seq::<char>::empty());
            (s.substring_char(a, b), e)
        },
    }
}

/// `s[from..]` split at each `c`, as `str::split` yields the pieces.
pub open spec fn split_from(s: Seq<char>, c: char, from: int) -> Seq<Seq<char>>
    decreases s.len() - from,
{
    if from < 0 || from > s.len() {
        Seq::empty()
    } else {
        match find_char_from(s, c, from) {
            None => seq![s.subrange(from, s.len() as int)],
            Some(i) => {
                proof {
                    lemma_find_char_range(s, c, from);
                }
                if from <= i < s.len() {
                    seq![s.subrange(from, i)] + split_from(s, c, i + 1)
                } else {
                    Seq::empty()
                }
            },
        }
    }
}

/// `s` split at each `c`, as `str::split` yields the pieces.
pub open spec fn split_by(s: Seq<char>, c: char) -> Seq<Seq<char>> {
    split_from(s, c, 0)
}

pub proof fn lemma_find_char_range(s: Seq<char>, c: char, from: int)
    ensures
        find_char_from(s, c, from) matches Some(i) ==> from <= i < s.len() && s[i] == c,
        find_char_from(s, c, from) is None && 0 <= from ==> forall|k: int|
            from <= k < s.len() ==> #[trigger] s[k] != c,
    decreases s.len() - from,
{
    if from >= 0 && from < s.len() && s[from] != c {
        lemma_find_char_range(s, c, from + 1);
    }
}

/// No `c` is found where none stands.
pub proof fn lemma_find_char_none(s: Seq<char>, c: char, from: int)
    requires
        0 <= from,
        forall|k: int| from <= k < s.len() ==> #[trigger] s[k] != c,
    ensures
        find_char_from(s, c, from) is None,
    decreases s.len() - from,
{
    if from < s.len() {
        lemma_find_char_none(s, c, from + 1);
    }
}

/// Searching `p + q` from `p.len() + k` finds what searching `q` from `k`
/// finds, shifted by `p.len()`.
pub proof fn lemma_find_char_shift(p: Seq<char>, q: Seq<char>, c: char, k: int)
    requires
        0 <= k,
    ensures
        find_char_from(p + q, c, p.len() + k) == match find_char_from(q, c, k) {
            Some(i) => Some(i + p.len()),
            None => None,
        },
    decreases q.len() - k,
{
    if k < q.len() {
        assert((p + q)[p.len() + k] == q[k]);
        if q[k] != c {
            lemma_find_char_shift(p, q, c, k + 1);
        }
    }
}

/// Splitting `p + q` from `p.len() + k` gives the pieces of `q` from `k`.
pub proof fn lemma_split_from_shift(p: Seq<char>, q: Seq<char>, c: char, k: int)
    requires
        0 <= k <= q.len(),
    ensures
        split_from(p + q, c, p.len() + k) == split_from(q, c, k),
    decreases q.len() - k,
{
    lemma_find_char_shift(p, q, c, k);
    lemma_find_char_range(q, c, k);
    lemma_find_char_range(p + q, c, p.len() + k);
    match find_char_from(q, c, k) {
        None => {
            assert((p + q).subrange(p.len() + k, (p + q).len() as int) =~= q.subrange(
                k,
                q.len() as int,
            ));
        },
        Some(i) => {
            assert((p + q).subrange(p.len() + k, p.len() + i) =~= q.subrange(k, i));
            lemma_split_from_shift(p, q, c, i + 1);
        },
    }
}

/// Splitting always gives at least one piece.
pub proof fn lemma_split_len(s: Seq<char>, c: char)
    ensures
        split_by(s, c).len() >= 1,
{
    lemma_find_char_range(s, c, 0);
}

/// A text without `c` is one piece.
pub proof fn lemma_split_single(a: Seq<char>, c: char)
    requires
        lacks(a, c),
    ensures
        split_by(a, c) == seq![a],
{
    lemma_find_char_none(a, c, 0);
    assert(a.subrange(0, a.len() as int) =~= a);
}

/// Splitting `a`, `c`, `b` at `c` gives `a` and then the pieces of `b`, when
/// `a` holds no `c`.
pub proof fn lemma_split_join(a: Seq<char>, b: Seq<char>, c: char)
    requires
        lacks(a, c),
    ensures
        split_by(a + seq![c] + b, c) == seq![a] + split_by(b, c),
{
    let p = a + seq![c];
    let s = p + b;
    assert(s[a.len() as int] == c);
    assert forall|k: int| 0 <= k < a.len() implies #[trigger] s[k] != c by {
        assert(s[k] == a[k]);
    }
    lemma_find_char_at(s, c, 0, a.len() as int);
    assert(s.subrange(0, a.len() as int) =~= a);
    lemma_split_from_shift(p, b, c, 0);
    assert(split_by(s, c) == seq![a] + split_from(s, c, a.len() + 1int));
}

/// A text without a slash holds no comment.
pub proof fn lemma_no_comment(s: Seq<char>)
    requires
        lacks(s, '/'),
    ensures
        trim_comment(s) == s,
{
    lemma_no_comment_from(s, 0);
}

proof fn lemma_no_comment_from(s: Seq<char>, from: int)
    requires
        lacks(s, '/'),
    ensures
        find_comment_from(s, from) is None,
    decreases s.len() - from,
{
    if 0 <= from && from + 1 < s.len() {
        assert(s[from] != '/');
        lemma_no_comment_from(s, from + 1);
    }
}

/// The bounds of the pieces of `v` split at each `c`, as [`split_by`].
pub fn split_ranges(v: &Vec<char>, c: char) -> (r: Vec<(usize, usize)>)
    ensures
        r@.len() == split_by(v@, c).len(),
        forall|k: int|
            0 <= k < r@.len() ==> r@[k].0 <= r@[k].1 <= v@.len() && #[trigger] split_by(
                v@,
                c,
            )[k] == v@.subrange(r@[k].0 as int, r@[k].1 as int),
{
    let mut r: Vec<(usize, usize)> = Vec::new();
    let mut start: usize = 0;
    loop
        invariant
            0 <= start <= v.len(),
            split_by(v@, c) == Seq::new(
                r@.len(),
                |k: int| v@.subrange(r@[k].0 as int, r@[k].1 as int),
            ) + split_from(v@, c, start as int),
            forall|k: int| 0 <= k < r@.len() ==> (#[trigger] r@[k]).0 <= r@[k].1 <= v@.len(),
        decreases v.len() - start,
    {
        let ghost before = Seq::new(
            r@.len(),
            |k: int| v@.subrange(r@[k].0 as int, r@[k].1 as int),
        );
        match find_char(v, c, start) {
            None => {
                r.push((start, v.len()));
                proof {
                    let after = Seq::new(
                        r@.len(),
                        |k: int| v@.subrange(r@[k].0 as int, r@[k].1 as int),
                    );
                    assert(after =~= before + seq![v@.subrange(start as int, v@.len() as int)]);
                }
                return r;
            },
            Some(i) => {
                proof {
                    lemma_find_char_range(v@, c, start as int);
                }
                r.push((start, i));
                proof {
                    let after = Seq::new(
                        r@.len(),
                        |k: int| v@.subrange(r@[k].0 as int, r@[k].1 as int),
                    );
                    assert(after =~= before + seq![v@.subrange(start as int, i as int)]);
                    assert(split_from(v@, c, start as int) == seq![
                        v@.subrange(start as int, i as int),
                    ] + split_from(v@, c, i + 1));
                    assert(before + split_from(v@, c, start as int) =~= after + split_from(
                        v@,
                        c,
                        i + 1,
                    ));
                }
                start = i + 1;
            },
        }
    }
}

/// The pieces of `s` split at each `c`, as `str::split` yields them.
#[verifier::loop_isolation(false)]
pub fn split_str(s: &str, c: char) -> (r: Vec<&str>)
    ensures
        r@.map_values(|p: &str| p@) == split_by(s@, c),
{
    let v = chars_of(s);
    let ranges = split_ranges(&v, c);
    let mut r: Vec<&str> = Vec::new();
    let mut i: usize = 0;
    while i < ranges.len()
        invariant
            0 <= i <= ranges.len(),
            r@.map_values(|p: &str| p@) == split_by(s@, c).take(i as int),
        decreases ranges.len() - i,
    {
        let (a, b) = ranges[i];
        proof {
            assert(split_by(v@, c)[i as int] == v@.subrange(a as int, b as int));
        }
        let piece = s.substring_char(a, b);
        r.push(piece);
        i = i + 1;
        assert(r@.map_values(|p: &str| p@) =~= split_by(s@, c).take(i as int));
    }
    assert(split_by(s@, c).take(i as int) =~= split_by(s@, c));
    r
}

/// Append the characters of `v` to `s`.
pub fn push_chars(s: &mut String, v: &Vec<char>)
    ensures
        final(s)@ == old(s)@ + v@,
{
    let mut i: usize = 0;
    while i < v.len()
        invariant
            0 <= i <= v.len(),
            s@ == old(s)@ + v@.take(i as int),
        decreases v.len() - i,
    {
        crate::reader::encoding::push_char(s, v[i]);
        i = i + 1;
        assert(s@ =~= old(s)@ + v@.take(i as int));
    }
    assert(v@.take(v.len() as int) =~= v@);
}

/// Append `t` to `s`.
pub fn push_str(s: &mut String, t: &str)
    ensures
        final(s)@ == old(s)@ + t@,
{
    s.append(t);
}

/// `s` with every backslash turned into a slash.
pub open spec fn standardized_path(s: Seq<char>) -> Seq<char> {
    s.map_values(|c: char| if c == '\\' { '/' } else { c })
}

/// `s` with each pair of backslashes, from left to right, made one.
pub open spec fn collapse_backslashes(s: Seq<char>) -> Seq<char>
    decreases s.len(),
{
    if s.len() == 0 {
        s
    } else if s.len() >= 2 && s[0] == '\\' && s[1] == '\\' {
        seq!['\\'] + collapse_backslashes(s.skip(2))
    } else {
        seq![s[0]] + collapse_backslashes(s.drop_first())
    }
}

/// `s` without leading and trailing double quotes.
pub open spec fn trim_quotes(s: Seq<char>) -> Seq<char>
    decreases s.len(),
{
    if s.len() > 0 && s[0] == '"' {
        trim_quotes(s.drop_first())
    } else if s.len() > 0 && s.last() == '"' {
        trim_quotes(s.drop_last())
    } else {
        s
    }
}

/// A file name as it stands in a `.osu` file made usable: double
/// backslashes collapsed, surrounding quotes removed, and slashes as path
/// separators.
pub open spec fn clean_filename(s: Seq<char>) -> Seq<char> {
    standardized_path(trim_quotes(collapse_backslashes(s)))
}

/// `s` with every backslash turned into a slash.
pub fn to_standardized_path(s: &str) -> (r: String)
    ensures
        r@ == standardized_path(s@),
{
    let v = chars_of(s);
    let mut out: Vec<char> = Vec::new();
    let mut i: usize = 0;
    while i < v.len()
        invariant
            0 <= i <= v.len(),
            out@ == standardized_path(v@.take(i as int)),
        decreases v.len() - i,
    {
        let c = v[i];
        out.push(if c == '\\' { '/' } else { c });
        i = i + 1;
        assert(out@ =~= standardized_path(v@.take(i as int)));
    }
    assert(v@.take(v.len() as int) =~= v@);
    crate::reader::encoding::string_from_chars(&out)
}

/// Clean a file name, as [`clean_filename`].
pub fn clean_filename_str(s: &str) -> (r: String)
    ensures
        r@ == clean_filename(s@),
{
    let v = chars_of(s);
    let mut collapsed: Vec<char> = Vec::new();
    let mut i: usize = 0;
    proof {
        assert(v@.skip(0) =~= v@);
        assert(collapsed@ + collapse_backslashes(v@) =~= collapse_backslashes(v@));
    }
    while i < v.len()
        invariant
            0 <= i <= v.len(),
            collapse_backslashes(v@) == collapsed@ + collapse_backslashes(v@.skip(i as int)),
        decreases v.len() - i,
    {
        let ghost rest = v@.skip(i as int);
        if i + 1 < v.len() && v[i] == '\\' && v[i + 1] == '\\' {
            proof {
                assert(rest[0] == v@[i as int] && rest[1] == v@[i + 1]);
                assert(rest.skip(2) =~= v@.skip(i + 2));
            }
            collapsed.push('\\');
            i = i + 2;
            proof {
                assert(collapsed@.drop_last() + (seq!['\\'] + collapse_backslashes(
                    v@.skip(i as int),
                )) =~= collapsed@ + collapse_backslashes(v@.skip(i as int)));
            }
        } else {
            proof {
                assert(rest[0] == v@[i as int]);
                if i + 1 < v.len() {
                    assert(rest[1] == v@[i + 1]);
                }
                assert(rest.drop_first() =~= v@.skip(i + 1));
            }
            collapsed.push(v[i]);
            i = i + 1;
            proof {
                assert(collapsed@.drop_last() + (seq![v@[i - 1]] + collapse_backslashes(
                    v@.skip(i as int),
                )) =~= collapsed@ + collapse_backslashes(v@.skip(i as int)));
            }
        }
    }
    proof {
        assert(v@.skip(i as int) =~= Seq::<char>::empty());
        assert(collapsed@ + Seq::<char>::empty() =~= collapsed@);
    }
    // strip the quotes
    let mut a: usize = 0;
    let mut b: usize = collapsed.len();
    proof {
        assert(collapsed@.subrange(0, collapsed@.len() as int) =~= collapsed@);
    }
    loop
        invariant
            0 <= a <= b <= collapsed.len(),
            trim_quotes(collapsed@) == trim_quotes(collapsed@.subrange(a as int, b as int)),
        ensures
            0 <= a <= b <= collapsed.len(),
            trim_quotes(collapsed@) == collapsed@.subrange(a as int, b as int),
        decreases b - a,
    {
        let ghost cur = collapsed@.subrange(a as int, b as int);
        if a < b && collapsed[a] == '"' {
            proof {
                assert(cur[0] == collapsed@[a as int]);
                assert(cur.drop_first() =~= collapsed@.subrange(a + 1, b as int));
            }
            a = a + 1;
        } else if a < b && collapsed[b - 1] == '"' {
            proof {
                assert(cur.last() == collapsed@[b - 1]);
                assert(cur.drop_last() =~= collapsed@.subrange(a as int, b - 1));
                if a < b {
                    assert(cur[0] == collapsed@[a as int]);
                }
            }
            b = b - 1;
        } else {
            proof {
                if a < b {
                    assert(cur[0] == collapsed@[a as int]);
                    assert(cur.last() == collapsed@[b - 1]);
                }
                assert(trim_quotes(cur) == cur);
            }
            break;
        }
    }
    let mut out: Vec<char> = Vec::new();
    let mut j: usize = a;
    while j < b
        invariant
            a <= j <= b <= collapsed.len(),
            out@ == standardized_path(collapsed@.subrange(a as int, j as int)),
        decreases b - j,
    {
        let c = collapsed[j];
        out.push(if c == '\\' { '/' } else { c });
        j = j + 1;
        assert(out@ =~= standardized_path(collapsed@.subrange(a as int, j as int)));
    }
    crate::reader::encoding::string_from_chars(&out)
}

} // verus!
