//! Character-sequence utilities on which the rest of the library is built.
//!
//! Strings are viewed as `Seq<char>`. Executable helpers work on `Vec<char>`
//! and each one is tied to a spec function of the same shape.

use vstd::prelude::*;

verus! {

/// The characters with the Unicode `White_Space` property.
pub open spec fn is_space(c: char) -> bool {
    let u = c as u32;
    ||| 0x09 <= u <= 0x0d
    ||| u == 0x20
    ||| u == 0x85
    ||| u == 0xa0
    ||| u == 0x1680
    ||| 0x2000 <= u <= 0x200a
    ||| u == 0x2028
    ||| u == 0x2029
    ||| u == 0x202f
    ||| u == 0x205f
    ||| u == 0x3000
}

/// Tells whether `c` is white space.
pub fn is_whitespace(c: char) -> (b: bool)
    ensures
        b == is_space(c),
{
    let u: u32 = c as u32;
    (0x09 <= u && u <= 0x0d) || u == 0x20 || u == 0x85 || u == 0xa0 || u == 0x1680 || (0x2000 <= u
        && u <= 0x200a) || u == 0x2028 || u == 0x2029 || u == 0x202f || u == 0x205f || u == 0x3000
}

/// `s` without its leading white space.
pub open spec fn trim_start(s: Seq<char>) -> Seq<char>
    decreases s.len(),
{
    if s.len() > 0 && is_space(s[0]) {
        trim_start(s.drop_first())
    } else {
        s
    }
}

/// `s` without its trailing white space.
pub open spec fn trim_end(s: Seq<char>) -> Seq<char>
    decreases s.len(),
{
    if s.len() > 0 && is_space(s.last()) {
        trim_end(s.drop_last())
    } else {
        s
    }
}

/// `s` without leading and trailing white space.
pub open spec fn trim(s: Seq<char>) -> Seq<char> {
    trim_end(trim_start(s))
}

/// `s` is non-empty and neither starts nor ends with white space, or is empty.
pub open spec fn is_trimmed(s: Seq<char>) -> bool {
    s.len() > 0 ==> !is_space(s[0]) && !is_space(s.last())
}

/// Trimming yields a trimmed sequence, and leaves a trimmed one alone.
pub proof fn lemma_trim_is_trimmed(s: Seq<char>)
    ensures
        is_trimmed(trim(s)),
        is_trimmed(s) ==> trim(s) == s,
        trim(s).len() <= s.len(),
{
    lemma_trim_start_shape(s);
    lemma_trim_end_shape(trim_start(s));
}

/// What `trim_start` returns: a suffix of `s` that does not begin with white
/// space, after a prefix made of white space only.
pub proof fn lemma_trim_start_shape(s: Seq<char>)
    ensures
        trim_start(s).len() <= s.len(),
        trim_start(s) == s.subrange(s.len() - trim_start(s).len(), s.len() as int),
        trim_start(s).len() > 0 ==> !is_space(trim_start(s)[0]),
        forall|i: int| 0 <= i < s.len() - trim_start(s).len() ==> is_space(#[trigger] s[i]),
    decreases s.len(),
{
    if s.len() > 0 && is_space(s[0]) {
        let t = s.drop_first();
        lemma_trim_start_shape(t);
        let k = t.len() - trim_start(t).len();
        assert(t.subrange(k, t.len() as int) == s.subrange(k + 1, s.len() as int));
        assert forall|i: int| 0 <= i < s.len() - trim_start(s).len() implies is_space(
            #[trigger] s[i],
        ) by {
            if i > 0 {
                assert(s[i] == t[i - 1]);
            }
        }
    } else {
        assert(s.subrange(0, s.len() as int) == s);
    }
}

/// What `trim_end` returns: a prefix of `s` that does not end with white
/// space, before a suffix made of white space only.
pub proof fn lemma_trim_end_shape(s: Seq<char>)
    ensures
        trim_end(s).len() <= s.len(),
        trim_end(s) == s.subrange(0, trim_end(s).len() as int),
        trim_end(s).len() > 0 ==> !is_space(trim_end(s).last()),
        forall|i: int| trim_end(s).len() <= i < s.len() ==> is_space(#[trigger] s[i]),
    decreases s.len(),
{
    if s.len() > 0 && is_space(s.last()) {
        let t = s.drop_last();
        lemma_trim_end_shape(t);
        let k = trim_end(t).len() as int;
        assert(t.subrange(0, k) == s.subrange(0, k));
        assert forall|i: int| trim_end(s).len() <= i < s.len() implies is_space(
            #[trigger] s[i],
        ) by {
            if i < s.len() - 1 {
                assert(s[i] == t[i]);
            }
        }
    } else {
        assert(s.subrange(0, s.len() as int) == s);
    }
}

/// Collects the characters of a string slice.
pub fn chars_of(s: &str) -> (v: Vec<char>)
    ensures
        v@ == s@,
{
    let mut v: Vec<char> = Vec::new();
    for c in it: s.chars()
        invariant
            v@ == it.seq().take(it.index() as int),
            it.seq() == s@,
    {
        v.push(c);
    }
    v
}

/// `String::from_iter` on a slice of characters: the string made of exactly
/// these characters, in order.
#[verifier::external_body]
pub(crate) fn string_of(v: &Vec<char>) -> (s: String)
    ensures
        s@ == v@,
{
    String::from_iter(v)
}

/// Copies the characters of `v` from `lo` up to `hi`.
pub fn slice_of(v: &Vec<char>, lo: usize, hi: usize) -> (r: Vec<char>)
    requires
        lo <= hi <= v.len(),
    ensures
        r@ == v@.subrange(lo as int, hi as int),
{
    let mut r: Vec<char> = Vec::new();
    let mut i: usize = lo;
    while i < hi
        invariant
            lo <= i <= hi <= v.len(),
            r@ == v@.subrange(lo as int, i as int),
        decreases hi - i,
    {
        r.push(v[i]);
        i += 1;
    }
    r
}

/// Appends the characters of `tail` to `out`.
pub fn append(out: &mut Vec<char>, tail: &Vec<char>)
    ensures
        final(out)@ == old(out)@ + tail@,
{
    let mut i: usize = 0;
    while i < tail.len()
        invariant
            i <= tail.len(),
            out@ == old(out)@ + tail@.subrange(0, i as int),
        decreases tail.len() - i,
    {
        out.push(tail[i]);
        i += 1;
    }
    assert(tail@.subrange(0, tail.len() as int) == tail@);
}

/// Appends the characters of the string slice `tail` to `out`.
pub fn append_str(out: &mut Vec<char>, tail: &str)
    ensures
        final(out)@ == old(out)@ + tail@,
{
    let t = chars_of(tail);
    append(out, &t);
}

/// Index of the first character of `v` at or after `lo` that is not white
/// space, or `hi` if there is none before `hi`.
fn skip_space_forward(v: &Vec<char>, lo: usize, hi: usize) -> (i: usize)
    requires
        lo <= hi <= v.len(),
    ensures
        lo <= i <= hi,
        trim_start(v@.subrange(lo as int, hi as int)) == v@.subrange(i as int, hi as int),
{
    let mut i: usize = lo;
    while i < hi && is_whitespace(v[i])
        invariant
            lo <= i <= hi <= v.len(),
            trim_start(v@.subrange(lo as int, hi as int)) == trim_start(
                v@.subrange(i as int, hi as int),
            ),
        decreases hi - i,
    {
        assert(v@.subrange(i as int, hi as int).drop_first() == v@.subrange(i + 1, hi as int));
        i += 1;
    }
    i
}

/// One past the index of the last character of `v` before `hi` that is not
/// white space, or `lo` if there is none at or after `lo`.
fn skip_space_backward(v: &Vec<char>, lo: usize, hi: usize) -> (j: usize)
    requires
        lo <= hi <= v.len(),
    ensures
        lo <= j <= hi,
        trim_end(v@.subrange(lo as int, hi as int)) == v@.subrange(lo as int, j as int),
{
    let mut j: usize = hi;
    while j > lo && is_whitespace(v[j - 1])
        invariant
            lo <= j <= hi <= v.len(),
            trim_end(v@.subrange(lo as int, hi as int)) == trim_end(
                v@.subrange(lo as int, j as int),
            ),
        decreases j - lo,
    {
        assert(v@.subrange(lo as int, j as int).drop_last() == v@.subrange(lo as int, j - 1));
        j -= 1;
    }
    j
}

/// The characters of `v` without leading and trailing white space.
pub fn trimmed(v: &Vec<char>) -> (r: Vec<char>)
    ensures
        r@ == trim(v@),
{
    let n: usize = v.len();
    let i: usize = skip_space_forward(v, 0, n);
    let j: usize = skip_space_backward(v, i, n);
    assert(v@.subrange(0, n as int) == v@);
    slice_of(v, i, j)
}


/// `p` occurs in `s` at index `i`.
pub open spec fn matches_at(s: Seq<char>, p: Seq<char>, i: int) -> bool {
    0 <= i && i + p.len() <= s.len() && s.subrange(i, i + p.len()) == p
}

/// `p` occurs somewhere in `s`.
pub open spec fn contains_seq(s: Seq<char>, p: Seq<char>) -> bool {
    exists|i: int| matches_at(s, p, i)
}

/// `s` begins with `p`.
pub open spec fn starts_with(s: Seq<char>, p: Seq<char>) -> bool {
    matches_at(s, p, 0)
}

/// `s` ends with `p`.
pub open spec fn ends_with(s: Seq<char>, p: Seq<char>) -> bool {
    matches_at(s, p, s.len() - p.len())
}

/// `i` is the index of the first occurrence of `p` in `s`.
pub open spec fn is_first_match(s: Seq<char>, p: Seq<char>, i: int) -> bool {
    matches_at(s, p, i) && forall|j: int| 0 <= j < i ==> !matches_at(s, p, j)
}

/// `i` is the index of the last occurrence of `p` in `s`.
pub open spec fn is_last_match(s: Seq<char>, p: Seq<char>, i: int) -> bool {
    matches_at(s, p, i) && forall|j: int| i < j ==> !matches_at(s, p, j)
}

/// Index of the first occurrence of `p` in `s`, if there is one.
pub open spec fn first_match(s: Seq<char>, p: Seq<char>) -> Option<int> {
    if contains_seq(s, p) {
        Some(choose|i: int| is_first_match(s, p, i))
    } else {
        None
    }
}

/// Index of the last occurrence of `p` in `s`, if there is one.
pub open spec fn last_match(s: Seq<char>, p: Seq<char>) -> Option<int> {
    if contains_seq(s, p) {
        Some(choose|i: int| is_last_match(s, p, i))
    } else {
        None
    }
}

/// A first occurrence is the value of `first_match`.
pub proof fn lemma_first_match_unique(s: Seq<char>, p: Seq<char>, i: int)
    requires
        is_first_match(s, p, i),
    ensures
        first_match(s, p) == Some(i),
{
    let k = choose|k: int| is_first_match(s, p, k);
    if k < i {
    } else if i < k {
    }
}

/// A last occurrence is the value of `last_match`.
pub proof fn lemma_last_match_unique(s: Seq<char>, p: Seq<char>, i: int)
    requires
        is_last_match(s, p, i),
    ensures
        last_match(s, p) == Some(i),
{
    let k = choose|k: int| is_last_match(s, p, k);
    if k < i {
    } else if i < k {
    }
}

/// Tells whether `p` occurs in `s` at index `i`.
pub fn occurs_at(s: &Vec<char>, p: &Vec<char>, i: usize) -> (b: bool)
    ensures
        b == matches_at(s@, p@, i as int),
{
    if p.len() > s.len() || i > s.len() - p.len() {
        return false;
    }
    let mut k: usize = 0;
    while k < p.len()
        invariant
            k <= p.len(),
            i + p.len() <= s.len(),
            s@.subrange(i as int, i + k) == p@.subrange(0, k as int),
        decreases p.len() - k,
    {
        if s[i + k] != p[k] {
            assert(s@.subrange(i as int, i + p.len())[k as int] != p@[k as int]);
            return false;
        }
        assert(s@.subrange(i as int, i + k + 1) == s@.subrange(i as int, i + k).push(
            s@[i + k],
        ));
        assert(p@.subrange(0, k + 1) == p@.subrange(0, k as int).push(p@[k as int]));
        k += 1;
    }
    assert(p@.subrange(0, p.len() as int) == p@);
    true
}

/// Finds the first occurrence of `p` in `s`.
pub fn find(s: &Vec<char>, p: &Vec<char>) -> (r: Option<usize>)
    ensures
        r matches Some(i) ==> is_first_match(s@, p@, i as int),
        r is None ==> !contains_seq(s@, p@),
        first_match(s@, p@) == (match r {
            Some(i) => Some(i as int),
            None => None,
        }),
{
    let mut i: usize = 0;
    loop
        invariant
            i <= s.len(),
            forall|j: int| 0 <= j < i ==> !matches_at(s@, p@, j),
        decreases s.len() - i,
    {
        if occurs_at(s, p, i) {
            proof {
                lemma_first_match_unique(s@, p@, i as int);
            }
            return Some(i);
        }
        if i == s.len() {
            return None;
        }
        i += 1;
    }
}

/// Finds the last occurrence of `p` in `s`.
pub fn rfind(s: &Vec<char>, p: &Vec<char>) -> (r: Option<usize>)
    ensures
        r matches Some(i) ==> is_last_match(s@, p@, i as int),
        r is None ==> !contains_seq(s@, p@),
        last_match(s@, p@) == (match r {
            Some(i) => Some(i as int),
            None => None,
        }),
{
    let mut i: usize = s.len();
    loop
        invariant
            i <= s.len(),
            forall|j: int| i < j ==> !matches_at(s@, p@, j),
        decreases i,
    {
        if occurs_at(s, p, i) {
            proof {
                lemma_last_match_unique(s@, p@, i as int);
            }
            return Some(i);
        }
        if i == 0 {
            return None;
        }
        i -= 1;
    }
}

/// Tells whether `p` occurs in `s`.
pub fn contains(s: &Vec<char>, p: &Vec<char>) -> (b: bool)
    ensures
        b == contains_seq(s@, p@),
{
    find(s, p).is_some()
}

/// Tells whether `s` begins with `p`.
pub fn has_prefix(s: &Vec<char>, p: &Vec<char>) -> (b: bool)
    ensures
        b == starts_with(s@, p@),
{
    occurs_at(s, p, 0)
}

/// Tells whether `s` ends with `p`.
pub fn has_suffix(s: &Vec<char>, p: &Vec<char>) -> (b: bool)
    ensures
        b == ends_with(s@, p@),
{
    if p.len() > s.len() {
        return false;
    }
    occurs_at(s, p, s.len() - p.len())
}

/// Tells whether `a` and `b` hold the same characters.
pub fn same(a: &Vec<char>, b: &Vec<char>) -> (r: bool)
    ensures
        r == (a@ == b@),
{
    if a.len() != b.len() {
        return false;
    }
    let r = occurs_at(a, b, 0);
    assert(a@.subrange(0, a.len() as int) == a@);
    r
}

/// Index of the first `c` in `s`, or the length of `s`.
pub open spec fn index_of_char(s: Seq<char>, c: char) -> int
    decreases s.len(),
{
    if s.len() == 0 || s[0] == c {
        0
    } else {
        1 + index_of_char(s.drop_first(), c)
    }
}

/// `index_of_char` lies within `s`, points at `c` if inside, and nothing
/// before it is `c`.
pub proof fn lemma_index_of_char(s: Seq<char>, c: char)
    ensures
        0 <= index_of_char(s, c) <= s.len(),
        index_of_char(s, c) < s.len() ==> s[index_of_char(s, c)] == c,
        forall|j: int| 0 <= j < index_of_char(s, c) ==> #[trigger] s[j] != c,
    decreases s.len(),
{
    if s.len() == 0 || s[0] == c {
    } else {
        let t = s.drop_first();
        lemma_index_of_char(t, c);
        assert forall|j: int| 0 <= j < index_of_char(s, c) implies #[trigger] s[j] != c by {
            if j > 0 {
                assert(s[j] == t[j - 1]);
            }
        }
    }
}

/// An index that points at the first `c` (or the end) is `index_of_char`.
pub proof fn lemma_index_of_char_is(s: Seq<char>, c: char, k: int)
    requires
        0 <= k <= s.len(),
        k < s.len() ==> s[k] == c,
        forall|j: int| 0 <= j < k ==> #[trigger] s[j] != c,
    ensures
        index_of_char(s, c) == k,
{
    lemma_index_of_char(s, c);
    let i = index_of_char(s, c);
    if i < k {
        assert(s[i] != c);
    } else if k < i {
        assert(s[k] != c);
    }
}

/// Finds the first `c` in `s` at or after `from`.
pub fn find_char_from(s: &Vec<char>, c: char, from: usize) -> (k: usize)
    requires
        from <= s.len(),
    ensures
        from <= k <= s.len(),
        k == from + index_of_char(s@.subrange(from as int, s.len() as int), c),
        k < s.len() ==> s@[k as int] == c,
        forall|j: int| from <= j < k ==> #[trigger] s@[j] != c,
{
    let mut k: usize = from;
    while k < s.len() && s[k] != c
        invariant
            from <= k <= s.len(),
            forall|j: int| from <= j < k ==> #[trigger] s@[j] != c,
        decreases s.len() - k,
    {
        k += 1;
    }
    proof {
        let t = s@.subrange(from as int, s.len() as int);
        assert forall|j: int| 0 <= j < k - from implies #[trigger] t[j] != c by {
            assert(t[j] == s@[from + j]);
        }
        lemma_index_of_char_is(t, c, k - from);
    }
    k
}

/// One line without the carriage return that closed it, if any.
pub open spec fn strip_cr(line: Seq<char>) -> Seq<char> {
    if line.len() > 0 && line.last() == '\r' {
        line.drop_last()
    } else {
        line
    }
}

/// The lines of `s`. A line ends at a line feed, or at a carriage return
/// directly followed by one; the terminator belongs to no line. What follows
/// the last terminator is a line only if it is not empty.
pub open spec fn split_lines(s: Seq<char>) -> Seq<Seq<char>>
    decreases s.len(),
{
    if s.len() == 0 {
        seq![]
    } else {
        let k = index_of_char(s, '\n');
        if k < 0 || k >= s.len() {
            seq![s]
        } else {
            seq![strip_cr(s.subrange(0, k))] + split_lines(s.subrange(k + 1, s.len() as int))
        }
    }
}

/// The views of a vector of character vectors.
pub open spec fn views(v: Seq<Vec<char>>) -> Seq<Seq<char>> {
    Seq::new(v.len(), |i: int| v[i]@)
}

/// The views of a vector of strings.
pub open spec fn string_views(v: Seq<String>) -> Seq<Seq<char>> {
    Seq::new(v.len(), |i: int| v[i]@)
}

/// Splits `s` into its lines.
pub fn lines_of(s: &Vec<char>) -> (out: Vec<Vec<char>>)
    ensures
        views(out@) == split_lines(s@),
{
    let n: usize = s.len();
    let mut out: Vec<Vec<char>> = Vec::new();
    let mut pos: usize = 0;
    assert(s@.subrange(0, n as int) == s@);
    while pos < n
        invariant
            pos <= n,
            n == s.len(),
            split_lines(s@) == views(out@) + split_lines(s@.subrange(pos as int, n as int)),
        decreases n - pos,
    {
        let k: usize = find_char_from(s, '\n', pos);
        let ghost rest = s@.subrange(pos as int, n as int);
        let ghost prev = views(out@);
        if k >= n {
            let line = slice_of(s, pos, n);
            out.push(line);
            assert(views(out@) == prev + seq![rest]);
            pos = n;
            assert(split_lines(s@.subrange(n as int, n as int)) == Seq::<Seq<char>>::empty());
        } else {
            let mut end: usize = k;
            if end > pos && s[end - 1] == '\r' {
                end -= 1;
            }
            let line = slice_of(s, pos, end);
            assert(rest.subrange(0, k - pos) == s@.subrange(pos as int, k as int));
            assert(line@ == strip_cr(rest.subrange(0, k - pos)));
            assert(rest.subrange(k - pos + 1, rest.len() as int) == s@.subrange(k + 1, n as int));
            out.push(line);
            assert(views(out@) == prev + seq![line@]);
            pos = k + 1;
        }
    }
    assert(split_lines(s@.subrange(pos as int, n as int)) == Seq::<Seq<char>>::empty());
    out
}

/// Counts the lines of `text`.
pub fn line_count(text: &str) -> (n: usize)
    ensures
        n == split_lines(text@).len(),
{
    let chars: Vec<char> = chars_of(text);
    let lines: Vec<Vec<char>> = lines_of(&chars);
    assert(views(lines@).len() == lines@.len());
    lines.len()
}

/// The sequences of `parts` with `sep` between each two neighbours.
pub open spec fn join(parts: Seq<Seq<char>>, sep: Seq<char>) -> Seq<char>
    decreases parts.len(),
{
    if parts.len() == 0 {
        seq![]
    } else if parts.len() == 1 {
        parts[0]
    } else {
        join(parts.drop_last(), sep) + sep + parts.last()
    }
}

/// Joining one more part puts the separator before it, unless it is the
/// first.
pub proof fn lemma_join_push(parts: Seq<Seq<char>>, x: Seq<char>, sep: Seq<char>)
    ensures
        join(parts.push(x), sep) == (if parts.len() == 0 {
            x
        } else {
            join(parts, sep) + sep + x
        }),
{
    assert(parts.push(x).drop_last() == parts);
}

/// Parts that are not empty join to nothing only if there are none.
pub proof fn lemma_join_empty(parts: Seq<Seq<char>>, sep: Seq<char>)
    requires
        forall|i: int| 0 <= i < parts.len() ==> (#[trigger] parts[i]).len() > 0,
    ensures
        join(parts, sep).len() == 0 <==> parts.len() == 0,
{
}

/// Number of bytes that the UTF-8 encoding of `c` takes.
pub open spec fn char_width(c: char) -> nat {
    let u = c as u32;
    if u < 0x80 {
        1
    } else if u < 0x800 {
        2
    } else if u < 0x10000 {
        3
    } else {
        4
    }
}

/// Number of bytes that the UTF-8 encoding of `s` takes: the length that
/// `str::len` reports.
pub open spec fn byte_len(s: Seq<char>) -> nat
    decreases s.len(),
{
    if s.len() == 0 {
        0
    } else {
        byte_len(s.drop_last()) + char_width(s.last())
    }
}

/// The byte length of a concatenation is the sum of the byte lengths.
pub proof fn lemma_byte_len_concat(a: Seq<char>, b: Seq<char>)
    ensures
        byte_len(a + b) == byte_len(a) + byte_len(b),
    decreases b.len(),
{
    if b.len() == 0 {
        assert(a + b == a);
    } else {
        lemma_byte_len_concat(a, b.drop_last());
        assert((a + b).drop_last() == a + b.drop_last());
    }
}

/// `byte_len` is the length of the UTF-8 encoding.
pub proof fn lemma_byte_len_is_encoded_len(s: Seq<char>)
    ensures
        byte_len(s) == vstd::utf8::encode_utf8(s).len(),
    decreases s.len(),
{
    if s.len() > 0 {
        let c = s[0];
        let rest = s.drop_first();
        vstd::utf8::char_is_scalar(c);
        lemma_byte_len_is_encoded_len(rest);
        lemma_byte_len_concat(seq![c], rest);
        assert(seq![c] + rest == s);
        assert(byte_len(seq![c]) == char_width(c)) by {
            assert(seq![c].drop_last() == Seq::<char>::empty());
            assert(byte_len(Seq::<char>::empty()) == 0);
        }
        assert(vstd::utf8::encode_scalar(c as u32).len() == char_width(c));
    }
}

/// The rows of a text, joined again, are the text itself if it holds no
/// carriage return.
pub proof fn lemma_lines_join_back(s: Seq<char>)
    requires
        forall|i: int| 0 <= i < s.len() ==> #[trigger] s[i] != '\r',
    ensures
        join(
            if s.len() > 0 && s.last() == '\n' {
                split_lines(s).push(Seq::empty())
            } else {
                split_lines(s)
            },
            "\n"@,
        ) == s,
    decreases s.len(),
{
    reveal_strlit("\n");
    let sep = "\n"@;
    let rows = if s.len() > 0 && s.last() == '\n' {
        split_lines(s).push(Seq::empty())
    } else {
        split_lines(s)
    };
    if s.len() == 0 {
    } else {
        lemma_index_of_char(s, '\n');
        let k = index_of_char(s, '\n');
        if k >= s.len() {
            assert(rows == seq![s]);
        } else {
            let head = s.subrange(0, k);
            let rest = s.subrange(k + 1, s.len() as int);
            assert forall|i: int| 0 <= i < rest.len() implies #[trigger] rest[i] != '\r' by {
                assert(rest[i] == s[k + 1 + i]);
            }
            lemma_lines_join_back(rest);
            assert(strip_cr(head) == head) by {
                if head.len() > 0 {
                    assert(head.last() == s[k - 1]);
                }
            }
            let rest_rows = if rest.len() > 0 && rest.last() == '\n' {
                split_lines(rest).push(Seq::empty())
            } else {
                split_lines(rest)
            };
            if rest.len() > 0 {
                assert(rest.last() == s.last());
                assert(rows =~= seq![head] + rest_rows);
                assert(rest_rows.len() > 0) by {
                    if rest.last() != '\n' {
                        lemma_split_lines_nonempty(rest);
                    }
                }
                lemma_join_front(head, rest_rows, sep);
                assert(s =~= head + sep + rest);
            } else {
                assert(s.last() == '\n');
                assert(split_lines(rest) == Seq::<Seq<char>>::empty());
                assert(rows =~= seq![head] + seq![Seq::<char>::empty()]);
                lemma_join_front(head, seq![Seq::<char>::empty()], sep);
                assert(join(seq![Seq::<char>::empty()], sep) == Seq::<char>::empty());
                assert(s =~= head + sep + Seq::<char>::empty());
            }
        }
    }
}

/// A text that is not empty has at least one line.
pub proof fn lemma_split_lines_nonempty(s: Seq<char>)
    requires
        s.len() > 0,
    ensures
        split_lines(s).len() > 0,
{
}

/// Joining with one more part in front puts the separator after it, unless
/// it is the only one.
pub proof fn lemma_join_front(first: Seq<char>, rest: Seq<Seq<char>>, sep: Seq<char>)
    ensures
        join(seq![first] + rest, sep) == (if rest.len() == 0 {
            first
        } else {
            first + sep + join(rest, sep)
        }),
    decreases rest.len(),
{
    let all = seq![first] + rest;
    if rest.len() == 0 {
        assert(all =~= seq![first]);
    } else if rest.len() == 1 {
        assert(all.drop_last() =~= seq![first]);
        assert(all.last() == rest[0]);
        assert(join(seq![first], sep) == first);
    } else {
        let front = rest.drop_last();
        lemma_join_front(first, front, sep);
        assert(all.drop_last() =~= seq![first] + front);
        assert(all.last() == rest.last());
        assert(first + sep + join(front, sep) + sep + rest.last() =~= first + sep + (join(
            front,
            sep,
        ) + sep + rest.last()));
    }
}

/// A sequence takes at least one byte and at most four bytes per character.
pub proof fn lemma_byte_len_bounds(s: Seq<char>)
    ensures
        s.len() <= byte_len(s) <= 4 * s.len(),
    decreases s.len(),
{
    if s.len() > 0 {
        lemma_byte_len_bounds(s.drop_last());
    }
}

/// A prefix takes no more bytes than the whole.
pub proof fn lemma_byte_len_prefix(s: Seq<char>, k: int)
    requires
        0 <= k <= s.len(),
    ensures
        byte_len(s.subrange(0, k)) <= byte_len(s),
{
    lemma_byte_len_concat(s.subrange(0, k), s.subrange(k, s.len() as int));
    assert(s.subrange(0, k) + s.subrange(k, s.len() as int) == s);
}

/// Number of bytes that the UTF-8 encoding of `c` takes.
pub fn width_of(c: char) -> (w: usize)
    ensures
        w == char_width(c),
{
    let u: u32 = c as u32;
    if u < 0x80 {
        1
    } else if u < 0x800 {
        2
    } else if u < 0x10000 {
        3
    } else {
        4
    }
}

/// Number of characters of the longest prefix of `s` that takes at most
/// `budget` bytes.
pub open spec fn prefix_within(s: Seq<char>, budget: nat) -> nat
    decreases s.len(),
{
    if s.len() == 0 {
        0
    } else if byte_len(s) <= budget {
        s.len()
    } else {
        prefix_within(s.drop_last(), budget)
    }
}

/// `prefix_within` is the length of the longest prefix that fits.
pub proof fn lemma_prefix_within(s: Seq<char>, budget: nat)
    ensures
        prefix_within(s, budget) <= s.len(),
        byte_len(s.subrange(0, prefix_within(s, budget) as int)) <= budget,
        forall|k: int|
            prefix_within(s, budget) < k <= s.len() ==> byte_len(#[trigger] s.subrange(0, k))
                > budget,
    decreases s.len(),
{
    if s.len() == 0 {
        assert(s.subrange(0, 0) == s);
    } else if byte_len(s) <= budget {
        assert(s.subrange(0, s.len() as int) == s);
    } else {
        let t = s.drop_last();
        lemma_prefix_within(t, budget);
        let m = prefix_within(t, budget) as int;
        assert(t.subrange(0, m) == s.subrange(0, m));
        assert forall|k: int| prefix_within(s, budget) < k <= s.len() implies byte_len(
            #[trigger] s.subrange(0, k),
        ) > budget by {
            if k == s.len() {
                assert(s.subrange(0, k) == s);
            } else {
                assert(t.subrange(0, k) == s.subrange(0, k));
            }
        }
    }
}

/// Total number of bytes of `s`.
pub fn byte_length(s: &Vec<char>) -> (r: usize)
    requires
        s.len() <= usize::MAX / 4,
    ensures
        r == byte_len(s@),
{
    let mut total: usize = 0;
    let mut i: usize = 0;
    while i < s.len()
        invariant
            i <= s.len(),
            s.len() <= usize::MAX / 4,
            total == byte_len(s@.subrange(0, i as int)),
            total <= 4 * i,
        decreases s.len() - i,
    {
        let w: usize = width_of(s[i]);
        assert(s@.subrange(0, i + 1).drop_last() == s@.subrange(0, i as int));
        total += w;
        i += 1;
    }
    assert(s@.subrange(0, s.len() as int) == s@);
    total
}

/// Length in characters of the longest prefix of `s` that takes at most
/// `budget` bytes, with the number of bytes it takes.
pub fn fit_prefix(s: &Vec<char>, budget: usize) -> (r: (usize, usize))
    ensures
        r.0 == prefix_within(s@, budget as nat),
        r.0 <= s.len(),
        r.1 == byte_len(s@.subrange(0, r.0 as int)),
        r.1 <= budget,
        (r.0 == s.len()) == (byte_len(s@) <= budget),
{
    let mut used: usize = 0;
    let mut i: usize = 0;
    while i < s.len()
        invariant
            i <= s.len(),
            used == byte_len(s@.subrange(0, i as int)),
            used <= budget,
        decreases s.len() - i,
    {
        let w: usize = width_of(s[i]);
        assert(s@.subrange(0, i + 1).drop_last() == s@.subrange(0, i as int));
        if w > budget - used {
            proof {
                lemma_fit_stops(s@, i as int, budget as nat);
            }
            return (i, used);
        }
        used += w;
        i += 1;
    }
    proof {
        assert(s@.subrange(0, s.len() as int) == s@);
        lemma_prefix_within(s@, budget as nat);
        if s.len() > 0 {
        }
    }
    (i, used)
}

/// If the first `i` characters fit in `budget` bytes and one more does not,
/// `i` is the length of the longest prefix that fits.
pub proof fn lemma_fit_stops(s: Seq<char>, i: int, budget: nat)
    requires
        0 <= i < s.len(),
        byte_len(s.subrange(0, i)) <= budget,
        byte_len(s.subrange(0, i + 1)) > budget,
    ensures
        prefix_within(s, budget) == i,
        byte_len(s) > budget,
{
    lemma_prefix_within(s, budget);
    let m = prefix_within(s, budget) as int;
    lemma_byte_len_prefix(s, i + 1);
    if m > i {
        lemma_byte_len_prefix(s.subrange(0, m), i + 1);
        assert(s.subrange(0, m).subrange(0, i + 1) == s.subrange(0, i + 1));
    } else if m < i {
        assert(byte_len(s.subrange(0, i)) > budget);
    }
}

/// The longest prefix of `s` that takes at most `limit` bytes.
pub open spec fn excerpt(s: Seq<char>, limit: nat) -> Seq<char> {
    s.subrange(0, prefix_within(s, limit) as int)
}

/// Cuts `s` down to its longest prefix of at most `limit` bytes, and tells
/// whether anything was cut off.
pub fn cut_to(s: &str, limit: usize) -> (r: (Vec<char>, bool))
    ensures
        r.0@ == excerpt(s@, limit as nat),
        r.1 == (byte_len(s@) > limit),
        !r.1 ==> r.0@ == s@,
{
    let chars: Vec<char> = chars_of(s);
    let fit: (usize, usize) = fit_prefix(&chars, limit);
    let kept: Vec<char> = slice_of(&chars, 0, fit.0);
    assert(chars@.subrange(0, chars.len() as int) == chars@);
    (kept, fit.0 < chars.len())
}

/// The decimal digits of `n`, most significant first.
pub open spec fn decimal(n: nat) -> Seq<char>
    decreases n,
{
    if n < 10 {
        seq![digit_char(n)]
    } else {
        decimal(n / 10).push(digit_char(n % 10))
    }
}

/// The character of one decimal digit.
pub open spec fn digit_char(d: nat) -> char {
    if d == 0 {
        '0'
    } else if d == 1 {
        '1'
    } else if d == 2 {
        '2'
    } else if d == 3 {
        '3'
    } else if d == 4 {
        '4'
    } else if d == 5 {
        '5'
    } else if d == 6 {
        '6'
    } else if d == 7 {
        '7'
    } else if d == 8 {
        '8'
    } else {
        '9'
    }
}

fn digit_of(d: usize) -> (c: char)
    requires
        d < 10,
    ensures
        c == digit_char(d as nat),
{
    if d == 0 {
        '0'
    } else if d == 1 {
        '1'
    } else if d == 2 {
        '2'
    } else if d == 3 {
        '3'
    } else if d == 4 {
        '4'
    } else if d == 5 {
        '5'
    } else if d == 6 {
        '6'
    } else if d == 7 {
        '7'
    } else if d == 8 {
        '8'
    } else {
        '9'
    }
}

/// Writes `n` in decimal.
pub fn decimal_of(n: usize) -> (r: Vec<char>)
    ensures
        r@ == decimal(n as nat),
    decreases n,
{
    if n < 10 {
        let mut r: Vec<char> = Vec::new();
        r.push(digit_of(n));
        r
    } else {
        let mut r = decimal_of(n / 10);
        r.push(digit_of(n % 10));
        r
    }
}

/// `s` after every leading occurrence of `p` was taken away, one after the
/// other.
pub open spec fn strip_leading(s: Seq<char>, p: Seq<char>) -> Seq<char>
    decreases s.len(),
{
    if p.len() > 0 && starts_with(s, p) {
        strip_leading(s.subrange(p.len() as int, s.len() as int), p)
    } else {
        s
    }
}

/// `s` after every trailing occurrence of `p` was taken away, one after the
/// other.
pub open spec fn strip_trailing(s: Seq<char>, p: Seq<char>) -> Seq<char>
    decreases s.len(),
{
    if p.len() > 0 && ends_with(s, p) {
        strip_trailing(s.subrange(0, s.len() - p.len()), p)
    } else {
        s
    }
}

/// Takes every leading occurrence of `p` away from `s`.
pub fn without_leading(s: &Vec<char>, p: &str) -> (r: Vec<char>)
    requires
        p@.len() > 0,
    ensures
        r@ == strip_leading(s@, p@),
{
    let pat: Vec<char> = chars_of(p);
    let n: usize = s.len();
    let mut lo: usize = 0;
    assert(s@.subrange(0, n as int) == s@);
    while occurs_at(s, &pat, lo)
        invariant
            lo <= n,
            n == s.len(),
            pat@ == p@,
            pat@.len() > 0,
            strip_leading(s@, p@) == strip_leading(s@.subrange(lo as int, n as int), p@),
        decreases n - lo,
    {
        let ghost cur = s@.subrange(lo as int, n as int);
        assert(cur.subrange(0, pat@.len() as int) == s@.subrange(lo as int, lo + pat@.len()));
        assert(cur.subrange(pat@.len() as int, cur.len() as int) == s@.subrange(
            lo + pat@.len(),
            n as int,
        ));
        lo += pat.len();
    }
    proof {
        let cur = s@.subrange(lo as int, n as int);
        if starts_with(cur, p@) {
            assert(cur.subrange(0, pat@.len() as int) == s@.subrange(lo as int, lo + pat@.len()));
        }
    }
    slice_of(s, lo, n)
}

/// Takes every trailing occurrence of `p` away from `s`.
pub fn without_trailing(s: &Vec<char>, p: &str) -> (r: Vec<char>)
    requires
        p@.len() > 0,
    ensures
        r@ == strip_trailing(s@, p@),
{
    let pat: Vec<char> = chars_of(p);
    let mut hi: usize = s.len();
    assert(s@.subrange(0, hi as int) == s@);
    while hi >= pat.len() && occurs_at(s, &pat, hi - pat.len())
        invariant
            hi <= s.len(),
            pat@ == p@,
            pat@.len() > 0,
            strip_trailing(s@, p@) == strip_trailing(s@.subrange(0, hi as int), p@),
        decreases hi,
    {
        let ghost cur = s@.subrange(0, hi as int);
        assert(cur.subrange(cur.len() - pat@.len(), cur.len() as int) == s@.subrange(
            hi - pat@.len(),
            hi as int,
        ));
        assert(cur.subrange(0, cur.len() - pat@.len()) == s@.subrange(0, hi - pat@.len()));
        hi -= pat.len();
    }
    proof {
        let cur = s@.subrange(0, hi as int);
        if ends_with(cur, p@) {
            assert(cur.subrange(cur.len() - pat@.len(), cur.len() as int) == s@.subrange(
                hi - pat@.len(),
                hi as int,
            ));
        }
    }
    slice_of(s, 0, hi)
}

/// `s` with every occurrence of `from` replaced by `to`, found from left to
/// right and without overlap.
pub open spec fn replace_all(s: Seq<char>, from: Seq<char>, to: Seq<char>) -> Seq<char>
    decreases s.len(),
{
    if s.len() == 0 || from.len() == 0 {
        s
    } else if starts_with(s, from) {
        to + replace_all(s.subrange(from.len() as int, s.len() as int), from, to)
    } else {
        seq![s[0]] + replace_all(s.drop_first(), from, to)
    }
}

/// Replaces every occurrence of `from` in `s` by `to`.
pub fn replaced(s: &Vec<char>, from: &str, to: &str) -> (r: Vec<char>)
    requires
        from@.len() > 0,
    ensures
        r@ == replace_all(s@, from@, to@),
{
    let pat: Vec<char> = chars_of(from);
    let sub: Vec<char> = chars_of(to);
    let n: usize = s.len();
    let mut out: Vec<char> = Vec::new();
    let mut i: usize = 0;
    assert(s@.subrange(0, n as int) == s@);
    while i < n
        invariant
            i <= n,
            n == s.len(),
            pat@ == from@,
            sub@ == to@,
            pat@.len() > 0,
            replace_all(s@, from@, to@) == out@ + replace_all(
                s@.subrange(i as int, n as int),
                from@,
                to@,
            ),
        decreases n - i,
    {
        let ghost cur = s@.subrange(i as int, n as int);
        let ghost before = out@;
        if occurs_at(s, &pat, i) {
            assert(cur.subrange(0, pat@.len() as int) == s@.subrange(i as int, i + pat@.len()));
            assert(cur.subrange(pat@.len() as int, cur.len() as int) == s@.subrange(
                i + pat@.len(),
                n as int,
            ));
            append(&mut out, &sub);
            i += pat.len();
            assert(before + (to@ + replace_all(s@.subrange(i as int, n as int), from@, to@))
                == out@ + replace_all(s@.subrange(i as int, n as int), from@, to@));
        } else {
            proof {
                if starts_with(cur, from@) {
                    assert(cur.subrange(0, pat@.len() as int) == s@.subrange(
                        i as int,
                        i + pat@.len(),
                    ));
                }
            }
            assert(cur.drop_first() == s@.subrange(i + 1, n as int));
            out.push(s[i]);
            i += 1;
            assert(before + (seq![cur[0]] + replace_all(
                s@.subrange(i as int, n as int),
                from@,
                to@,
            )) == out@ + replace_all(s@.subrange(i as int, n as int), from@, to@));
        }
    }
    assert(replace_all(s@.subrange(n as int, n as int), from@, to@) == Seq::<char>::empty());
    assert(out@ + Seq::<char>::empty() == out@);
    out
}

/// Tells whether the literal `p` occurs in `s`.
pub fn has(s: &Vec<char>, p: &str) -> (b: bool)
    ensures
        b == contains_seq(s@, p@),
{
    let pat: Vec<char> = chars_of(p);
    contains(s, &pat)
}

/// Tells whether `s` begins with the literal `p`.
pub fn begins(s: &Vec<char>, p: &str) -> (b: bool)
    ensures
        b == starts_with(s@, p@),
{
    let pat: Vec<char> = chars_of(p);
    has_prefix(s, &pat)
}

/// Tells whether `s` ends with the literal `p`.
pub fn ends(s: &Vec<char>, p: &str) -> (b: bool)
    ensures
        b == ends_with(s@, p@),
{
    let pat: Vec<char> = chars_of(p);
    has_suffix(s, &pat)
}

/// Tells whether `s` holds exactly the characters of the literal `p`.
pub fn is(s: &Vec<char>, p: &str) -> (b: bool)
    ensures
        b == (s@ == p@),
{
    let pat: Vec<char> = chars_of(p);
    same(s, &pat)
}

/// What `str::to_lowercase` returns for a string with these characters.
pub uninterp spec fn lowercase(s: Seq<char>) -> Seq<char>;

/// `str::to_lowercase`: the lowercase equivalent of `s`, by the Unicode
/// case mapping, as a function of the characters of `s` alone.
#[verifier::external_body]
pub(crate) fn to_lowercase(s: &str) -> (r: String)
    ensures
        r@ == lowercase(s@),
{
    s.to_lowercase()
}

} // verus!
