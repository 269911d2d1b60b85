//! Character sequences: where a pattern occurs, what counts as whitespace, and
//! the executable string helpers that the rest of the crate is built on.
//!
//! Every specification here speaks of `Seq<char>`, the view of `str` and
//! `String`. Positions are counted in characters, never in bytes.

use vstd::prelude::*;
use vstd::string::*;

verus! {

/// `pat` stands in `s` at position `i`.
pub open spec fn occurs_at(s: Seq<char>, pat: Seq<char>, i: int) -> bool {
    &&& 0 <= i
    &&& i + pat.len() <= s.len()
    &&& s.subrange(i, i + pat.len()) == pat
}

/// `pat` stands somewhere in `s`.
pub open spec fn contains(s: Seq<char>, pat: Seq<char>) -> bool {
    exists|i: int| occurs_at(s, pat, i)
}

/// The first position at or after `from` at which `pat` stands in `s`.
///
/// [`lemma_find_from`] states what the result is without the recursion.
pub open spec fn find_from(s: Seq<char>, pat: Seq<char>, from: int) -> Option<int>
    decreases s.len() - from + 1,
{
    if from < 0 || from + pat.len() > s.len() {
        None
    } else if occurs_at(s, pat, from) {
        Some(from)
    } else {
        find_from(s, pat, from + 1)
    }
}

/// The first position at which `pat` stands in `s`.
pub open spec fn find(s: Seq<char>, pat: Seq<char>) -> Option<int> {
    find_from(s, pat, 0)
}

/// `s` cut at the first occurrence of `pat`: what stands before it and what
/// stands after it. `None` when `pat` does not occur.
pub open spec fn split_once(s: Seq<char>, pat: Seq<char>) -> Option<(Seq<char>, Seq<char>)> {
    match find(s, pat) {
        Some(i) => Some((s.subrange(0, i), s.subrange(i + pat.len(), s.len() as int))),
        None => None,
    }
}

/// `find_from` returns the least position from `from` on at which `pat`
/// stands, and `None` exactly when there is no such position.
pub proof fn lemma_find_from(s: Seq<char>, pat: Seq<char>, from: int)
    requires
        0 <= from,
    ensures
        match find_from(s, pat, from) {
            Some(i) => {
                &&& from <= i
                &&& occurs_at(s, pat, i)
                &&& forall|j: int| from <= j < i ==> !occurs_at(s, pat, j)
            },
            None => forall|j: int| from <= j ==> !occurs_at(s, pat, j),
        },
    decreases s.len() - from + 1,
{
    if from + pat.len() <= s.len() && !occurs_at(s, pat, from) {
        lemma_find_from(s, pat, from + 1);
    }
}

/// `find` returns the least position at which `pat` stands, and `None`
/// exactly when `pat` does not occur in `s`.
pub proof fn lemma_find(s: Seq<char>, pat: Seq<char>)
    ensures
        match find(s, pat) {
            Some(i) => {
                &&& occurs_at(s, pat, i)
                &&& forall|j: int| j < i ==> !occurs_at(s, pat, j)
            },
            None => !contains(s, pat),
        },
{
    lemma_find_from(s, pat, 0);
}

/// Searching the tail of `s` that starts at `from` is searching `s` from
/// `from` on, with every position moved by `from`.
pub proof fn lemma_find_in_suffix(s: Seq<char>, pat: Seq<char>, from: int)
    requires
        0 <= from <= s.len(),
    ensures
        find(s.subrange(from, s.len() as int), pat) == match find_from(s, pat, from) {
            Some(i) => Some(i - from),
            None => None,
        },
{
    let tail = s.subrange(from, s.len() as int);
    lemma_find_from(s, pat, from);
    lemma_find_from(tail, pat, 0);
    assert forall|j: int| occurs_at(tail, pat, j) <==> 0 <= j && occurs_at(s, pat, j + from) by {
        if 0 <= j && j + pat.len() <= tail.len() {
            assert(tail.subrange(j, j + pat.len()) =~= s.subrange(
                j + from,
                j + from + pat.len(),
            ));
        }
    }
    if let Some(i) = find_from(s, pat, from) {
        assert(occurs_at(tail, pat, i - from));
    }
    if let Some(k) = find(tail, pat) {
        assert(occurs_at(s, pat, k + from));
    }
}

/// The characters with the Unicode property `White_Space`.
pub open spec fn is_whitespace(c: char) -> bool {
    let n = c as u32;
    ||| 0x09 <= n <= 0x0D
    ||| n == 0x20
    ||| n == 0x85
    ||| n == 0xA0
    ||| n == 0x1680
    ||| 0x2000 <= n <= 0x200A
    ||| n == 0x2028
    ||| n == 0x2029
    ||| n == 0x202F
    ||| n == 0x205F
    ||| n == 0x3000
}

/// `s` without the whitespace it begins with.
pub open spec fn trim_start(s: Seq<char>) -> Seq<char>
    decreases s.len(),
{
    if s.len() > 0 && is_whitespace(s[0]) {
        trim_start(s.drop_first())
    } else {
        s
    }
}

/// `s` without the whitespace it ends with.
pub open spec fn trim_end(s: Seq<char>) -> Seq<char>
    decreases s.len(),
{
    if s.len() > 0 && is_whitespace(s.last()) {
        trim_end(s.drop_last())
    } else {
        s
    }
}

/// `s` without the whitespace around it.
pub open spec fn trim(s: Seq<char>) -> Seq<char> {
    trim_end(trim_start(s))
}

/// `s` neither begins nor ends with whitespace.
pub open spec fn is_trimmed(s: Seq<char>) -> bool {
    s.len() > 0 ==> !is_whitespace(s[0]) && !is_whitespace(s.last())
}

/// A pattern of one character stands wherever that character stands.
pub proof fn lemma_occurs_at_char(s: Seq<char>, c: char, i: int)
    ensures
        occurs_at(s, seq![c], i) <==> 0 <= i < s.len() && s[i] == c,
{
    if 0 <= i < s.len() {
        if s[i] == c {
            assert(s.subrange(i, i + 1) =~= seq![c]);
        } else {
            assert(s.subrange(i, i + 1)[0] == s[i]);
        }
    }
}

/// A pattern of two characters stands wherever the two stand side by side.
pub proof fn lemma_occurs_at_pair(s: Seq<char>, a: char, b: char, i: int)
    ensures
        occurs_at(s, seq![a, b], i) <==> 0 <= i && i + 2 <= s.len() && s[i] == a && s[i + 1] == b,
{
    if 0 <= i && i + 2 <= s.len() {
        if s[i] == a && s[i + 1] == b {
            assert(s.subrange(i, i + 2) =~= seq![a, b]);
        } else {
            assert(s.subrange(i, i + 2)[0] == s[i]);
            assert(s.subrange(i, i + 2)[1] == s[i + 1]);
        }
    }
}

/// A position at which `pat` stands, with none before it, is what `find`
/// returns.
pub proof fn lemma_find_is(s: Seq<char>, pat: Seq<char>, i: int)
    requires
        occurs_at(s, pat, i),
        forall|j: int| 0 <= j < i ==> !occurs_at(s, pat, j),
    ensures
        find(s, pat) == Some(i),
{
    lemma_find(s, pat);
}

/// `trim_start` drops a run of whitespace from the front of `s`, and what is
/// left does not begin with whitespace.
pub proof fn lemma_trim_start(s: Seq<char>)
    ensures
        trim_start(s).len() <= s.len(),
        trim_start(s) == s.subrange(s.len() - trim_start(s).len(), s.len() as int),
        forall|j: int| 0 <= j < s.len() - trim_start(s).len() ==> is_whitespace(s[j]),
        trim_start(s).len() > 0 ==> !is_whitespace(trim_start(s)[0]),
    decreases s.len(),
{
    if s.len() > 0 && is_whitespace(s[0]) {
        let tail = s.drop_first();
        let kept = trim_start(tail);
        lemma_trim_start(tail);
        assert(kept =~= s.subrange(s.len() - kept.len(), s.len() as int));
        assert forall|j: int| 0 <= j < s.len() - kept.len() implies is_whitespace(s[j]) by {
            if j > 0 {
                assert(s[j] == tail[j - 1]);
            }
        }
    } else {
        assert(s =~= s.subrange(0, s.len() as int));
    }
}

/// `trim_end` drops a run of whitespace from the back of `s`, and what is
/// left does not end with whitespace.
pub proof fn lemma_trim_end(s: Seq<char>)
    ensures
        trim_end(s).len() <= s.len(),
        trim_end(s) == s.subrange(0, trim_end(s).len() as int),
        forall|j: int| trim_end(s).len() <= j < s.len() ==> is_whitespace(s[j]),
        trim_end(s).len() > 0 ==> !is_whitespace(trim_end(s).last()),
    decreases s.len(),
{
    if s.len() > 0 && is_whitespace(s.last()) {
        let init = s.drop_last();
        let kept = trim_end(init);
        lemma_trim_end(init);
        assert(kept =~= s.subrange(0, kept.len() as int));
        assert forall|j: int| kept.len() <= j < s.len() implies is_whitespace(s[j]) by {
            if j < init.len() {
                assert(s[j] == init[j]);
            }
        }
    } else {
        assert(s =~= s.subrange(0, s.len() as int));
    }
}

/// `trim` keeps one stretch of `s`: everything before it and everything after
/// it is whitespace, and the stretch itself is trimmed.
pub proof fn lemma_trim(s: Seq<char>)
    ensures
        ({
            let from = s.len() - trim_start(s).len();
            let to = from + trim(s).len();
            &&& 0 <= from <= to <= s.len()
            &&& trim(s) == s.subrange(from, to)
            &&& forall|j: int| 0 <= j < from ==> is_whitespace(s[j])
            &&& forall|j: int| to <= j < s.len() ==> is_whitespace(s[j])
            &&& is_trimmed(trim(s))
        }),
{
    let front = trim_start(s);
    let from = s.len() - front.len();
    let to = from + trim(s).len();
    lemma_trim_start(s);
    lemma_trim_end(front);
    assert(trim(s) =~= s.subrange(from, to));
    assert forall|j: int| to <= j < s.len() implies is_whitespace(s[j]) by {
        assert(s[j] == front[j - from]);
    }
    if trim(s).len() > 0 {
        assert(trim(s)[0] == front[0]);
    }
}

/// Trimming leaves a trimmed sequence as it is.
pub proof fn lemma_trim_of_trimmed(s: Seq<char>)
    requires
        is_trimmed(s),
    ensures
        trim(s) == s,
{
}

/// Whitespace put around a sequence is trimmed away again.
pub proof fn lemma_trim_of_padded(s: Seq<char>, before: char, after: char)
    requires
        is_whitespace(before),
        is_whitespace(after),
    ensures
        trim(seq![before] + s + seq![after]) == trim(s),
{
    let padded = seq![before] + s + seq![after];
    let back = s + seq![after];
    assert(padded.drop_first() =~= back);
    assert(trim_start(padded) == trim_start(back));
    lemma_trim_start_then_whitespace(s, after);
}

/// Trimming `s` followed by whitespace is trimming `s`.
proof fn lemma_trim_start_then_whitespace(s: Seq<char>, after: char)
    requires
        is_whitespace(after),
    ensures
        trim_end(trim_start(s + seq![after])) == trim_end(trim_start(s)),
    decreases s.len(),
{
    let back = s + seq![after];
    if s.len() == 0 {
        assert(back.drop_first() =~= Seq::<char>::empty());
        assert(trim_start(back) == trim_start(back.drop_first()));
        assert(s =~= Seq::<char>::empty());
    } else if is_whitespace(s[0]) {
        assert(back.drop_first() =~= s.drop_first() + seq![after]);
        lemma_trim_start_then_whitespace(s.drop_first(), after);
    } else {
        assert(back[0] == s[0]);
        assert(back.drop_last() =~= s);
    }
}

/// Whether `c` is whitespace.
pub fn char_is_whitespace(c: char) -> (b: bool)
    ensures
        b == is_whitespace(c),
{
    let n: u32 = c as u32;
    (0x09 <= n && n <= 0x0D) || n == 0x20 || n == 0x85 || n == 0xA0 || n == 0x1680 || (0x2000 <= n
        && n <= 0x200A) || n == 0x2028 || n == 0x2029 || n == 0x202F || n == 0x205F || n == 0x3000
}

/// The characters of `s`, one element each.
pub fn chars_of(s: &str) -> (chars: Vec<char>)
    ensures
        chars@ == s@,
{
    let mut chars: Vec<char> = Vec::new();
    for c in it: s.chars()
        invariant
            it.seq() == s@,
            chars@ == it.seq().take(it.index()),
    {
        chars.push(c);
    }
    chars
}

/// The characters of `s` from position `from` up to, not including, `to`.
pub fn substring(s: &str, from: usize, to: usize) -> (part: String)
    requires
        from <= to <= s@.len(),
    ensures
        part@ == s@.subrange(from as int, to as int),
{
    s.substring_char(from, to).to_owned()
}

/// Whether `pat` stands in `hay` at position `i`.
pub fn matches_at(hay: &Vec<char>, pat: &[char], i: usize) -> (b: bool)
    requires
        i + pat@.len() <= hay@.len(),
    ensures
        b == occurs_at(hay@, pat@, i as int),
{
    let n = hay.len();
    let m = pat.len();
    let mut k: usize = 0;
    while k < m
        invariant
            n == hay@.len(),
            m == pat@.len(),
            i + m <= n,
            k <= m,
            forall|j: int| 0 <= j < k ==> hay@[i + j] == pat@[j],
        decreases m - k,
    {
        if hay[i + k] != pat[k] {
            assert(hay@.subrange(i as int, i + m)[k as int] == hay@[i + k]);
            return false;
        }
        k += 1;
    }
    assert(hay@.subrange(i as int, i + m) =~= pat@);
    true
}

/// The first position at or after `from` at which `pat` stands in `hay`.
pub fn index_of(hay: &Vec<char>, pat: &[char], from: usize) -> (found: Option<usize>)
    ensures
        match found {
            Some(i) => find_from(hay@, pat@, from as int) == Some(i as int),
            None => find_from(hay@, pat@, from as int) is None,
        },
{
    let n = hay.len();
    let m = pat.len();
    if from > n {
        return None;
    }
    let mut i = from;
    while m <= n - i
        invariant
            n == hay@.len(),
            m == pat@.len(),
            from <= i <= n,
            find_from(hay@, pat@, from as int) == find_from(hay@, pat@, i as int),
        decreases n - i,
    {
        if matches_at(hay, pat, i) {
            return Some(i);
        }
        assert(m > 0) by {
            if m == 0 {
                assert(hay@.subrange(i as int, i + m) =~= pat@);
            }
        }
        i += 1;
    }
    None
}

/// The part of `hay[from..to]` that is left when the whitespace around it is
/// taken away, as a pair of positions in `hay`.
pub fn trim_range(hay: &Vec<char>, from: usize, to: usize) -> (range: (usize, usize))
    requires
        from <= to <= hay@.len(),
    ensures
        from <= range.0 <= range.1 <= to,
        hay@.subrange(range.0 as int, range.1 as int) == trim(
            hay@.subrange(from as int, to as int),
        ),
{
    let mut lo = from;
    while lo < to && char_is_whitespace(hay[lo])
        invariant
            from <= lo <= to <= hay@.len(),
            trim_start(hay@.subrange(from as int, to as int)) == trim_start(
                hay@.subrange(lo as int, to as int),
            ),
        decreases to - lo,
    {
        assert(hay@.subrange(lo as int, to as int).drop_first() =~= hay@.subrange(
            lo + 1,
            to as int,
        ));
        lo += 1;
    }
    let mut hi = to;
    while hi > lo && char_is_whitespace(hay[hi - 1])
        invariant
            lo <= hi <= to <= hay@.len(),
            trim_end(hay@.subrange(lo as int, to as int)) == trim_end(
                hay@.subrange(lo as int, hi as int),
            ),
        decreases hi - lo,
    {
        assert(hay@.subrange(lo as int, hi as int).drop_last() =~= hay@.subrange(
            lo as int,
            hi - 1,
        ));
        hi -= 1;
    }
    (lo, hi)
}

} // verus!
