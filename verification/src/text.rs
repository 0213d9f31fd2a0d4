//! Character-level text utilities with their mathematical models.
//!
//! Strings are modelled by their view, a `Seq<char>`.

use vstd::prelude::*;

verus! {

/// The decimal digit character of `d` (for `d < 10`).
pub open spec fn digit_char(d: nat) -> char {
    if d == 0 { '0' }
    else if d == 1 { '1' }
    else if d == 2 { '2' }
    else if d == 3 { '3' }
    else if d == 4 { '4' }
    else if d == 5 { '5' }
    else if d == 6 { '6' }
    else if d == 7 { '7' }
    else if d == 8 { '8' }
    else { '9' }
}

/// The shortest decimal rendering of `n`, most significant digit first.
pub open spec fn decimal(n: nat) -> Seq<char>
    decreases n,
{
    if n < 10 {
        seq![digit_char(n)]
    } else {
        decimal(n / 10).push(digit_char(n % 10))
    }
}

/// The digit character of `d`.
pub fn digit_of(d: u64) -> (c: char)
    requires
        d < 10,
    ensures
        c == digit_char(d as nat),
{
    if d == 0 { '0' }
    else if d == 1 { '1' }
    else if d == 2 { '2' }
    else if d == 3 { '3' }
    else if d == 4 { '4' }
    else if d == 5 { '5' }
    else if d == 6 { '6' }
    else if d == 7 { '7' }
    else if d == 8 { '8' }
    else { '9' }
}

/// Appends the decimal rendering of `n`.
pub fn append_decimal(s: &mut String, n: u64)
    ensures
        final(s)@ == old(s)@ + decimal(n as nat),
    decreases n,
{
    if n < 10 {
        push_char(s, digit_of(n));
        assert(final(s)@ =~= old(s)@ + decimal(n as nat));
    } else {
        append_decimal(s, n / 10);
        push_char(s, digit_of(n % 10));
        assert(final(s)@ =~= old(s)@ + decimal(n as nat));
    }
}

/// The decimal rendering of `n`, as `n.to_string()` gives it.
pub fn decimal_string(n: u64) -> (s: String)
    ensures
        s@ == decimal(n as nat),
{
    let mut s = String::new();
    append_decimal(&mut s, n);
    assert(s@ =~= decimal(n as nat));
    s
}

/// Appends one character to a string (`String::push`).
#[verifier::external_body]
pub(crate) fn push_char(s: &mut String, c: char)
    ensures
        final(s)@ == old(s)@.push(c),
{
    s.push(c);
}

/// The characters of `s`, in order.
pub fn chars_of(s: &str) -> (v: Vec<char>)
    ensures
        v@ == s@,
{
    let n = s.unicode_len();
    let mut v: Vec<char> = Vec::new();
    let mut i: usize = 0;
    while i < n
        invariant
            n == s@.len(),
            i <= n,
            v@ == s@.take(i as int),
        decreases n - i,
    {
        let c = s.get_char(i);
        v.push(c);
        i = i + 1;
        assert(v@ =~= s@.take(i as int));
    }
    assert(v@ =~= s@);
    v
}

/// A string holding exactly the characters of `v`.
pub fn string_from_chars(v: &[char]) -> (s: String)
    ensures
        s@ == v@,
{
    let mut s = String::new();
    let mut i: usize = 0;
    while i < v.len()
        invariant
            i <= v@.len(),
            s@ == v@.take(i as int),
        decreases v.len() - i,
    {
        push_char(&mut s, v[i]);
        i = i + 1;
        assert(s@ =~= v@.take(i as int));
    }
    assert(v@.take(v@.len() as int) =~= v@);
    s
}

} // verus!

verus! {

/// Unicode `White_Space`, the set `char::is_whitespace` tests.
pub open spec fn is_whitespace(c: char) -> bool {
    let u = c as u32;
    ||| (0x09 <= u && u <= 0x0d)
    ||| u == 0x20
    ||| u == 0x85
    ||| u == 0xa0
    ||| u == 0x1680
    ||| (0x2000 <= u && u <= 0x200a)
    ||| u == 0x2028
    ||| u == 0x2029
    ||| u == 0x202f
    ||| u == 0x205f
    ||| u == 0x3000
}

/// Whether `c` is whitespace (`char::is_whitespace`).
pub fn is_whitespace_char(c: char) -> (b: bool)
    ensures
        b == is_whitespace(c),
{
    let u = c as u32;
    (0x09 <= u && u <= 0x0d) || u == 0x20 || u == 0x85 || u == 0xa0 || u == 0x1680
        || (0x2000 <= u && u <= 0x200a) || u == 0x2028 || u == 0x2029 || u == 0x202f
        || u == 0x205f || u == 0x3000
}

/// `s` without its leading whitespace (`str::trim_start`).
pub open spec fn trim_start(s: Seq<char>) -> Seq<char>
    decreases s.len(),
{
    if s.len() > 0 && is_whitespace(s[0]) {
        trim_start(s.drop_first())
    } else {
        s
    }
}

/// `s` without its trailing whitespace (`str::trim_end`).
pub open spec fn trim_end(s: Seq<char>) -> Seq<char>
    decreases s.len(),
{
    if s.len() > 0 && is_whitespace(s.last()) {
        trim_end(s.drop_last())
    } else {
        s
    }
}

/// `s` without leading and trailing whitespace (`str::trim`).
pub open spec fn trim(s: Seq<char>) -> Seq<char> {
    trim_end(trim_start(s))
}

/// Whether `pat` occurs in `s` starting at index `i`.
pub open spec fn occurs_at(s: Seq<char>, pat: Seq<char>, i: int) -> bool {
    0 <= i && i + pat.len() <= s.len() && s.subrange(i, i + pat.len()) == pat
}

/// Whether `pat` occurs in `s` (`str::contains`).
pub open spec fn contains(s: Seq<char>, pat: Seq<char>) -> bool {
    exists|i: int| #[trigger] occurs_at(s, pat, i)
}

/// Whether `s` begins with `pat` (`str::starts_with`).
pub open spec fn starts_with(s: Seq<char>, pat: Seq<char>) -> bool {
    pat.len() <= s.len() && s.take(pat.len() as int) == pat
}

/// Whether `s` ends with `pat` (`str::ends_with`).
pub open spec fn ends_with(s: Seq<char>, pat: Seq<char>) -> bool {
    pat.len() <= s.len() && s.skip(s.len() - pat.len()) == pat
}

/// The characters of `v` from `lo` up to `hi`.
pub fn copy_range(v: &[char], lo: usize, hi: usize) -> (r: Vec<char>)
    requires
        lo <= hi <= v@.len(),
    ensures
        r@ == v@.subrange(lo as int, hi as int),
{
    let mut r: Vec<char> = Vec::new();
    let mut i = lo;
    while i < hi
        invariant
            lo <= i <= hi <= v@.len(),
            r@ == v@.subrange(lo as int, i as int),
        decreases hi - i,
    {
        r.push(v[i]);
        i = i + 1;
        assert(r@ =~= v@.subrange(lo as int, i as int));
    }
    r
}

/// Whether the characters `a` and `b` are the same.
pub fn same_chars(a: &[char], b: &[char]) -> (eq: bool)
    ensures
        eq == (a@ == b@),
{
    if a.len() != b.len() {
        return false;
    }
    let mut i: usize = 0;
    while i < a.len()
        invariant
            a@.len() == b@.len(),
            i <= a@.len(),
            forall|k: int| 0 <= k < i ==> a@[k] == b@[k],
        decreases a.len() - i,
    {
        if a[i] != b[i] {
            return false;
        }
        i = i + 1;
    }
    assert(a@ =~= b@);
    true
}

/// Whether the strings `a` and `b` hold the same characters.
pub fn str_eq(a: &str, b: &str) -> (eq: bool)
    ensures
        eq == (a@ == b@),
{
    let va = chars_of(a);
    let vb = chars_of(b);
    same_chars(va.as_slice(), vb.as_slice())
}

/// Whether `pat` occurs in `s` at index `i`.
pub fn occurs_at_exec(s: &[char], pat: &[char], i: usize) -> (b: bool)
    ensures
        b == occurs_at(s@, pat@, i as int),
{
    if i > s.len() || pat.len() > s.len() - i {
        return false;
    }
    let n = s.len();
    let mut k: usize = 0;
    while k < pat.len()
        invariant
            n == s@.len(),
            i <= s@.len(),
            i + pat@.len() <= s@.len(),
            k <= pat@.len(),
            forall|m: int| 0 <= m < k ==> s@[i + m] == pat@[m],
        decreases pat.len() - k,
    {
        if s[i + k] != pat[k] {
            assert(s@.subrange(i as int, i + pat@.len())[k as int] != pat@[k as int]);
            return false;
        }
        k = k + 1;
    }
    assert(s@.subrange(i as int, i + pat@.len()) =~= pat@);
    true
}

/// Whether `pat` occurs in `s`.
pub fn contains_exec(s: &[char], pat: &[char]) -> (b: bool)
    ensures
        b == contains(s@, pat@),
{
    if pat.len() > s.len() {
        return false;
    }
    let last = s.len() - pat.len();
    let mut i: usize = 0;
    loop
        invariant
            pat@.len() <= s@.len(),
            last == s@.len() - pat@.len(),
            i <= last,
            forall|m: int| 0 <= m < i ==> !#[trigger] occurs_at(s@, pat@, m),
        ensures
            forall|m: int| 0 <= m <= last ==> !#[trigger] occurs_at(s@, pat@, m),
        decreases last - i,
    {
        if occurs_at_exec(s, pat, i) {
            return true;
        }
        if i == last {
            break;
        }
        i = i + 1;
    }
    assert forall|m: int| !#[trigger] occurs_at(s@, pat@, m) by {
        if 0 <= m && m <= last {
        }
    }
    false
}

/// Whether the literal-like `pat` occurs in `s`.
pub fn contains_str(s: &[char], pat: &str) -> (b: bool)
    ensures
        b == contains(s@, pat@),
{
    let p = chars_of(pat);
    contains_exec(s, p.as_slice())
}

/// Whether `s` begins with `pat`.
pub fn starts_with_str(s: &[char], pat: &str) -> (b: bool)
    ensures
        b == starts_with(s@, pat@),
{
    let p = chars_of(pat);
    let r = occurs_at_exec(s, p.as_slice(), 0);
    assert(s@.subrange(0, p@.len() as int) =~= s@.take(p@.len() as int));
    r
}

/// Whether `s` ends with `pat`.
pub fn ends_with_str(s: &[char], pat: &str) -> (b: bool)
    ensures
        b == ends_with(s@, pat@),
{
    let p = chars_of(pat);
    if p.len() > s.len() {
        return false;
    }
    let r = occurs_at_exec(s, p.as_slice(), s.len() - p.len());
    assert(s@.subrange(s@.len() - p@.len(), s@.len() as int) =~= s@.skip(s@.len() - p@.len()));
    r
}

proof fn lemma_trim_start_skip(s: Seq<char>, lo: int)
    requires
        0 <= lo < s.len(),
        is_whitespace(s[lo]),
    ensures
        trim_start(s.skip(lo)) == trim_start(s.skip(lo + 1)),
{
    assert(s.skip(lo).drop_first() =~= s.skip(lo + 1));
}

proof fn lemma_trim_end_take(s: Seq<char>, hi: int)
    requires
        0 < hi <= s.len(),
        is_whitespace(s[hi - 1]),
    ensures
        trim_end(s.take(hi)) == trim_end(s.take(hi - 1)),
{
    assert(s.take(hi).drop_last() =~= s.take(hi - 1));
}

/// The bounds `(lo, hi)` of `v` with leading and trailing whitespace removed.
pub fn trim_bounds(v: &[char]) -> (r: (usize, usize))
    ensures
        r.0 <= r.1 <= v@.len(),
        v@.subrange(r.0 as int, r.1 as int) == trim(v@),
{
    let n = v.len();
    let mut lo: usize = 0;
    assert(v@.skip(0) =~= v@);
    while lo < n && is_whitespace_char(v[lo])
        invariant
            n == v@.len(),
            lo <= n,
            trim_start(v@) == trim_start(v@.skip(lo as int)),
        decreases n - lo,
    {
        proof { lemma_trim_start_skip(v@, lo as int); }
        lo = lo + 1;
    }
    assert(trim_start(v@.skip(lo as int)) == v@.skip(lo as int));
    let ghost t = v@.skip(lo as int);
    let mut hi: usize = n;
    assert(t.take(t.len() as int) =~= t);
    while hi > lo && is_whitespace_char(v[hi - 1])
        invariant
            n == v@.len(),
            lo <= hi <= n,
            t == v@.skip(lo as int),
            trim(v@) == trim_end(t.take(hi - lo)),
        decreases hi,
    {
        proof {
            assert(t[hi - lo - 1] == v@[hi - 1]);
            lemma_trim_end_take(t, hi - lo);
        }
        hi = hi - 1;
    }
    assert(t.take(hi - lo) =~= v@.subrange(lo as int, hi as int));
    (lo, hi)
}

/// `v` with leading and trailing whitespace removed.
pub fn trim_chars(v: &[char]) -> (r: Vec<char>)
    ensures
        r@ == trim(v@),
{
    let (lo, hi) = trim_bounds(v);
    copy_range(v, lo, hi)
}

} // verus!

verus! {

/// Index of the first `c` in `s`, or `s.len()` when there is none.
pub open spec fn index_of(s: Seq<char>, c: char) -> nat
    decreases s.len(),
{
    if s.len() == 0 {
        0
    } else if s[0] == c {
        0
    } else {
        1 + index_of(s.drop_first(), c)
    }
}

/// A line of text without its `'\r'` before a line feed.
pub open spec fn strip_cr(line: Seq<char>) -> Seq<char> {
    if line.len() > 0 && line.last() == '\r' {
        line.drop_last()
    } else {
        line
    }
}

/// The lines of `s` (`str::lines`): pieces separated by `'\n'`, a `'\r'`
/// before a `'\n'` dropped, and no empty piece after a final `'\n'`.
pub open spec fn lines(s: Seq<char>) -> Seq<Seq<char>>
    decreases s.len(),
{
    if s.len() == 0 {
        Seq::empty()
    } else {
        let i = index_of(s, '\n');
        if i < s.len() {
            seq![strip_cr(s.take(i as int))].add(lines(s.skip(i + 1 as int)))
        } else {
            seq![s]
        }
    }
}

/// The text after the last `c` in `s`, or all of `s` when it holds no `c`
/// (the last piece of `str::split(c)`).
pub open spec fn after_last(s: Seq<char>, c: char) -> Seq<char>
    decreases s.len(),
{
    if s.len() == 0 {
        s
    } else if s.last() == c {
        Seq::empty()
    } else {
        after_last(s.drop_last(), c).push(s.last())
    }
}

/// The text before the first `c` in `s` (the first piece of `str::split(c)`).
pub open spec fn before_first(s: Seq<char>, c: char) -> Seq<char> {
    s.take(index_of(s, c) as int)
}

/// Index of the first whitespace character of `s`, or `s.len()`.
pub open spec fn whitespace_index(s: Seq<char>) -> nat
    decreases s.len(),
{
    if s.len() == 0 {
        0
    } else if is_whitespace(s[0]) {
        0
    } else {
        1 + whitespace_index(s.drop_first())
    }
}

pub proof fn lemma_trim_start_len(s: Seq<char>)
    ensures
        trim_start(s).len() <= s.len(),
        trim_start(s).len() > 0 ==> !is_whitespace(trim_start(s)[0]),
    decreases s.len(),
{
    if s.len() > 0 && is_whitespace(s[0]) {
        lemma_trim_start_len(s.drop_first());
    }
}

pub proof fn lemma_whitespace_index_bound(s: Seq<char>)
    ensures
        whitespace_index(s) <= s.len(),
        whitespace_index(s) < s.len() ==> is_whitespace(s[whitespace_index(s) as int]),
        forall|k: int| 0 <= k < whitespace_index(s) ==> !is_whitespace(#[trigger] s[k]),
    decreases s.len(),
{
    if s.len() > 0 && !is_whitespace(s[0]) {
        lemma_whitespace_index_bound(s.drop_first());
        assert forall|k: int| 0 <= k < whitespace_index(s) implies !is_whitespace(#[trigger] s[k]) by {
            if k > 0 {
                assert(s[k] == s.drop_first()[k - 1]);
            }
        }
    }
}

/// The whitespace-separated words of `s` (`str::split_whitespace`).
pub open spec fn words(s: Seq<char>) -> Seq<Seq<char>>
    decreases s.len(),
{
    let t = trim_start(s);
    if t.len() == 0 {
        Seq::empty()
    } else {
        let j = whitespace_index(t);
        proof {
            lemma_trim_start_len(s);
            lemma_whitespace_index_bound(t);
        }
        if j == 0 {
            Seq::empty()
        } else {
            seq![t.take(j as int)].add(words(t.skip(j as int)))
        }
    }
}

pub proof fn lemma_index_of(s: Seq<char>, c: char)
    ensures
        index_of(s, c) <= s.len(),
        index_of(s, c) < s.len() ==> s[index_of(s, c) as int] == c,
        forall|k: int| 0 <= k < index_of(s, c) ==> #[trigger] s[k] != c,
    decreases s.len(),
{
    if s.len() > 0 && s[0] != c {
        lemma_index_of(s.drop_first(), c);
        assert forall|k: int| 0 <= k < index_of(s, c) implies #[trigger] s[k] != c by {
            if k > 0 {
                assert(s[k] == s.drop_first()[k - 1]);
            }
        }
    }
}

/// `index_of` is determined by the first occurrence.
pub proof fn lemma_index_of_is(s: Seq<char>, c: char, k: int)
    requires
        0 <= k <= s.len(),
        k < s.len() ==> s[k] == c,
        forall|m: int| 0 <= m < k ==> #[trigger] s[m] != c,
    ensures
        index_of(s, c) == k,
    decreases s.len(),
{
    if s.len() > 0 && k > 0 {
        let t = s.drop_first();
        assert forall|m: int| 0 <= m < k - 1 implies #[trigger] t[m] != c by {
            assert(t[m] == s[m + 1]);
        }
        lemma_index_of_is(t, c, k - 1);
    }
}

/// Index of the first `c` in `v` at or after `from`, or `v.len()`.
pub fn find_char_from(v: &[char], c: char, from: usize) -> (k: usize)
    requires
        from <= v@.len(),
    ensures
        from <= k <= v@.len(),
        k - from == index_of(v@.skip(from as int), c),
{
    let mut k = from;
    while k < v.len() && v[k] != c
        invariant
            from <= k <= v@.len(),
            forall|m: int| from <= m < k ==> #[trigger] v@[m] != c,
        decreases v.len() - k,
    {
        k = k + 1;
    }
    proof {
        let t = v@.skip(from as int);
        assert forall|m: int| 0 <= m < k - from implies #[trigger] t[m] != c by {
            assert(t[m] == v@[from + m]);
        }
        lemma_index_of_is(t, c, k - from);
    }
    k
}

/// The lines of `v` (see `lines`).
pub fn split_lines(v: &[char]) -> (r: Vec<Vec<char>>)
    ensures
        r@.len() == lines(v@).len(),
        forall|i: int| 0 <= i < r@.len() ==> #[trigger] r@[i]@ == lines(v@)[i],
{
    let n = v.len();
    let mut r: Vec<Vec<char>> = Vec::new();
    let mut start: usize = 0;
    let ghost mut done: Seq<Seq<char>> = Seq::empty();
    assert(v@.skip(0) =~= v@);
    while start < n
        invariant
            n == v@.len(),
            start <= n,
            lines(v@) == done.add(lines(v@.skip(start as int))),
            r@.len() == done.len(),
            forall|i: int| 0 <= i < r@.len() ==> #[trigger] r@[i]@ == done[i],
        decreases n - start,
    {
        let ghost rest = v@.skip(start as int);
        let k = find_char_from(v, '\n', start);
        let line: Vec<char>;
        if k < n {
            let hi = if k > start && v[k - 1] == '\r' { k - 1 } else { k };
            line = copy_range(v, start, hi);
            proof {
                let i = index_of(rest, '\n');
                assert(rest.take(i as int) =~= v@.subrange(start as int, k as int));
                assert(line@ == strip_cr(rest.take(i as int))) by {
                    if k > start && v@[k - 1] == '\r' {
                        assert(v@.subrange(start as int, k as int).drop_last() =~= v@.subrange(start as int, hi as int));
                    }
                }
                assert(rest.skip(i + 1 as int) =~= v@.skip(k + 1));
                assert(lines(rest) == seq![line@].add(lines(v@.skip(k + 1))));
                assert(done.add(seq![line@]).add(lines(v@.skip(k + 1))) =~= done.add(lines(rest)));
                done = done.push(line@);
            }
            r.push(line);
            start = k + 1;
        } else {
            line = copy_range(v, start, n);
            proof {
                assert(rest =~= v@.subrange(start as int, n as int));
                assert(lines(rest) == seq![line@]);
                assert(v@.skip(n as int) =~= Seq::<char>::empty());
                assert(done.push(line@).add(lines(v@.skip(n as int))) =~= done.add(lines(rest)));
                done = done.push(line@);
            }
            r.push(line);
            start = n;
        }
    }
    proof {
        assert(v@.skip(n as int) =~= Seq::<char>::empty());
        assert(done.add(Seq::<Seq<char>>::empty()) =~= done);
    }
    r
}

/// The text after the last `c` in `v` (see `after_last`).
pub fn after_last_exec(v: &[char], c: char) -> (r: Vec<char>)
    ensures
        r@ == after_last(v@, c),
{
    let n = v.len();
    let mut k = n;
    proof {
        assert(v@.take(n as int) =~= v@);
        assert(after_last(v@, c) + v@.subrange(n as int, n as int) =~= after_last(v@, c));
    }
    while k > 0 && v[k - 1] != c
        invariant
            n == v@.len(),
            k <= n,
            after_last(v@, c) == after_last(v@.take(k as int), c) + v@.subrange(k as int, n as int),
        decreases k,
    {
        proof {
            let t = v@.take(k as int);
            assert(t.drop_last() =~= v@.take(k - 1));
            assert(t.last() == v@[k - 1]);
            assert(after_last(v@.take(k - 1), c).push(v@[k - 1]) + v@.subrange(k as int, n as int)
                =~= after_last(v@.take(k - 1), c) + v@.subrange(k - 1, n as int));
        }
        k = k - 1;
    }
    proof {
        if k == 0 {
            assert(v@.take(0) =~= Seq::<char>::empty());
        } else {
            assert(v@.take(k as int).last() == c);
        }
        assert(after_last(v@.take(k as int), c) =~= Seq::<char>::empty());
        assert(v@.take(n as int) =~= v@);
    }
    copy_range(v, k, n)
}

/// The text before the first `c` in `v` (see `before_first`).
pub fn before_first_exec(v: &[char], c: char) -> (r: Vec<char>)
    ensures
        r@ == before_first(v@, c),
{
    let k = find_char_from(v, c, 0);
    assert(v@.skip(0) =~= v@);
    copy_range(v, 0, k)
}

/// The whitespace-separated words of `v` (see `words`).
pub fn split_words(v: &[char]) -> (r: Vec<Vec<char>>)
    ensures
        r@.len() == words(v@).len(),
        forall|i: int| 0 <= i < r@.len() ==> #[trigger] r@[i]@ == words(v@)[i],
{
    let n = v.len();
    let mut r: Vec<Vec<char>> = Vec::new();
    let mut pos: usize = 0;
    let ghost mut done: Seq<Seq<char>> = Seq::empty();
    assert(v@.skip(0) =~= v@);
    while pos < n
        invariant
            n == v@.len(),
            pos <= n,
            words(v@) == done.add(words(v@.skip(pos as int))),
            r@.len() == done.len(),
            forall|i: int| 0 <= i < r@.len() ==> #[trigger] r@[i]@ == done[i],
        decreases n - pos,
    {
        let ghost rest = v@.skip(pos as int);
        if is_whitespace_char(v[pos]) {
            proof {
                assert(rest.drop_first() =~= v@.skip(pos + 1));
                assert(trim_start(rest) == trim_start(v@.skip(pos + 1)));
            }
            pos = pos + 1;
        } else {
            let mut end = pos;
            while end < n && !is_whitespace_char(v[end])
                invariant
                    pos <= end <= n == v@.len(),
                    forall|m: int| pos <= m < end ==> !is_whitespace(#[trigger] v@[m]),
                decreases n - end,
            {
                end = end + 1;
            }
            let w = copy_range(v, pos, end);
            proof {
                assert(trim_start(rest) == rest);
                assert forall|m: int| 0 <= m < end - pos implies !is_whitespace(#[trigger] rest[m]) by {
                    assert(rest[m] == v@[pos + m]);
                }
                lemma_whitespace_index_is(rest, end - pos);
                assert(rest.take(end - pos) =~= w@);
                assert(rest.skip(end - pos) =~= v@.skip(end as int));
                assert(words(rest) == seq![w@].add(words(v@.skip(end as int))));
                assert(done.push(w@).add(words(v@.skip(end as int))) =~= done.add(words(rest)));
                done = done.push(w@);
            }
            r.push(w);
            pos = end;
        }
    }
    proof {
        assert(v@.skip(n as int) =~= Seq::<char>::empty());
        assert(done.add(Seq::<Seq<char>>::empty()) =~= done);
    }
    r
}

proof fn lemma_whitespace_index_is(s: Seq<char>, k: int)
    requires
        0 <= k <= s.len(),
        k < s.len() ==> is_whitespace(s[k]),
        forall|m: int| 0 <= m < k ==> !is_whitespace(#[trigger] s[m]),
    ensures
        whitespace_index(s) == k,
    decreases s.len(),
{
    if s.len() > 0 && k > 0 {
        let t = s.drop_first();
        assert forall|m: int| 0 <= m < k - 1 implies !is_whitespace(#[trigger] t[m]) by {
            assert(t[m] == s[m + 1]);
        }
        lemma_whitespace_index_is(t, k - 1);
    }
}

} // verus!
