//! Paths as text: the directory and the file name of a path, the slug of a
//! directory, and where a glob pattern and a destination stand in the tree.
//!
//! A path is a sequence of characters in which `/` separates the components.

use crate::text::{chars_of, substring};
use vstd::prelude::*;
use vstd::string::*;

verus! {

/// The character that separates the components of a path.
pub open spec fn separator() -> char {
    '/'
}

/// The position of the last separator in `path`.
pub open spec fn last_separator(path: Seq<char>) -> Option<int>
    decreases path.len(),
{
    if path.len() == 0 {
        None
    } else if path.last() == separator() {
        Some(path.len() - 1)
    } else {
        last_separator(path.drop_last())
    }
}

/// The last component of `path`: what follows its last separator, or all of
/// it where it has none.
pub open spec fn file_name(path: Seq<char>) -> Seq<char> {
    match last_separator(path) {
        Some(i) => path.subrange(i + 1, path.len() as int),
        None => path,
    }
}

/// The directory of `path`: what stands before its last separator, or
/// nothing where it has none.
pub open spec fn parent(path: Seq<char>) -> Seq<char> {
    match last_separator(path) {
        Some(i) => path.subrange(0, i),
        None => Seq::empty(),
    }
}

/// `dir` with a hyphen in place of every separator.
pub open spec fn slug(dir: Seq<char>) -> Seq<char> {
    Seq::new(
        dir.len(),
        |i: int|
            if dir[i] == separator() {
                '-'
            } else {
                dir[i]
            },
    )
}

/// `s` without the separators it begins with.
pub open spec fn strip_leading_separators(s: Seq<char>) -> Seq<char>
    decreases s.len(),
{
    if s.len() > 0 && s[0] == separator() {
        strip_leading_separators(s.drop_first())
    } else {
        s
    }
}

/// Whether `s` begins with a separator.
pub open spec fn is_rooted(s: Seq<char>) -> bool {
    s.len() > 0 && s[0] == separator()
}

/// `rel` below `dir`: the two with one separator between them.
pub open spec fn below(dir: Seq<char>, rel: Seq<char>) -> Seq<char> {
    dir + seq![separator()] + rel
}

/// The path `rel` as seen from `dir`. A rooted `rel` stands for itself. No
/// separator is added after an empty `dir`, nor after one that ends in a
/// separator.
pub open spec fn joined(dir: Seq<char>, rel: Seq<char>) -> Seq<char> {
    if is_rooted(rel) {
        rel
    } else if dir.len() == 0 || dir.last() == separator() {
        dir + rel
    } else {
        below(dir, rel)
    }
}

/// Where a copy goes. A rooted `to` is taken from `root`, without the
/// separators it begins with; any other is taken from `dir`, as it stands.
pub open spec fn destination(root: Seq<char>, dir: Seq<char>, to: Seq<char>) -> Seq<char> {
    if is_rooted(to) {
        joined(root, strip_leading_separators(to))
    } else {
        joined(dir, to)
    }
}

/// The last separator of a path is a separator, and none follows it; a path
/// without one holds no separator at all.
pub proof fn lemma_last_separator(path: Seq<char>)
    ensures
        match last_separator(path) {
            Some(i) => {
                &&& 0 <= i < path.len()
                &&& path[i] == separator()
                &&& forall|j: int| i < j < path.len() ==> path[j] != separator()
            },
            None => forall|j: int| 0 <= j < path.len() ==> path[j] != separator(),
        },
    decreases path.len(),
{
    if path.len() > 0 && path.last() != separator() {
        let init = path.drop_last();
        lemma_last_separator(init);
        assert forall|j: int| 0 <= j < init.len() implies init[j] == path[j] by {}
        match last_separator(init) {
            Some(i) => {
                assert forall|j: int| i < j < path.len() implies path[j] != separator() by {
                    if j < init.len() {
                        assert(init[j] != separator());
                    }
                }
            },
            None => {
                assert forall|j: int| 0 <= j < path.len() implies path[j] != separator() by {
                    if j < init.len() {
                        assert(init[j] != separator());
                    }
                }
            },
        }
    }
}

/// A path with a separator is its directory, a separator and its file name;
/// a file name holds no separator.
pub proof fn lemma_parent_and_file_name(path: Seq<char>)
    ensures
        last_separator(path) is Some ==> path == below(parent(path), file_name(path)),
        last_separator(path) is None ==> path == file_name(path) && parent(path).len() == 0,
        forall|j: int| 0 <= j < file_name(path).len() ==> file_name(path)[j] != separator(),
{
    lemma_last_separator(path);
    if last_separator(path) is Some {
        assert(path =~= below(parent(path), file_name(path)));
    }
}

/// What is left of `s` without the separators it begins with does not begin
/// with a separator.
pub proof fn lemma_strip_leading_separators(s: Seq<char>)
    ensures
        !is_rooted(strip_leading_separators(s)),
    decreases s.len(),
{
    if is_rooted(s) {
        lemma_strip_leading_separators(s.drop_first());
    }
}

/// A destination begins with the root or with the directory, whatever the
/// template gave: with the root where the template gave a rooted path, with
/// the directory where it did not.
pub proof fn lemma_destination_stays_inside(root: Seq<char>, dir: Seq<char>, to: Seq<char>)
    ensures
        is_rooted(to) ==> root.is_prefix_of(destination(root, dir, to)),
        !is_rooted(to) ==> dir.is_prefix_of(destination(root, dir, to)),
{
    lemma_strip_leading_separators(to);
}

/// The position of the last separator among `chars`.
fn last_separator_of(chars: &Vec<char>) -> (found: Option<usize>)
    ensures
        match found {
            Some(i) => last_separator(chars@) == Some(i as int),
            None => last_separator(chars@) is None,
        },
{
    let mut i = chars.len();
    assert(chars@.take(i as int) =~= chars@);
    while i > 0
        invariant
            i <= chars@.len(),
            last_separator(chars@) == last_separator(chars@.take(i as int)),
        decreases i,
    {
        if chars[i - 1] == '/' {
            return Some(i - 1);
        }
        assert(chars@.take(i as int).drop_last() =~= chars@.take(i - 1));
        i -= 1;
    }
    None
}

/// The last component of `path`.
pub fn path_file_name(path: &str) -> (name: String)
    ensures
        name@ == file_name(path@),
{
    let chars = chars_of(path);
    let n = chars.len();
    match last_separator_of(&chars) {
        Some(i) => {
            proof {
                lemma_last_separator(path@);
            }
            substring(path, i + 1, n)
        },
        None => {
            let name = substring(path, 0, n);
            assert(path@.subrange(0, n as int) =~= path@);
            name
        },
    }
}

/// The directory of `path`.
pub fn path_parent(path: &str) -> (dir: String)
    ensures
        dir@ == parent(path@),
{
    let chars = chars_of(path);
    match last_separator_of(&chars) {
        Some(i) => {
            proof {
                lemma_last_separator(path@);
            }
            substring(path, 0, i)
        },
        None => String::new(),
    }
}

/// `dir` with a hyphen in place of every separator.
pub fn dir_slug(dir: &str) -> (out: String)
    ensures
        out@ == slug(dir@),
{
    let chars = chars_of(dir);
    let n = chars.len();
    let mut out = String::new();
    let mut start: usize = 0;
    let mut i: usize = 0;
    proof {
        reveal_strlit("-");
        assert(out@ =~= slug(dir@.subrange(0, 0)));
    }
    while i < n
        invariant
            chars@ == dir@,
            n == dir@.len(),
            start <= i <= n,
            "-"@ == seq!['-'],
            out@ == slug(dir@.subrange(0, start as int)),
            forall|j: int| start <= j < i ==> dir@[j] != separator(),
        decreases n - i,
    {
        if chars[i] == '/' {
            let run = substring(dir, start, i);
            out.append(run.as_str());
            out.append("-");
            assert(out@ =~= slug(dir@.subrange(0, i + 1)));
            start = i + 1;
        }
        i += 1;
    }
    let run = substring(dir, start, n);
    out.append(run.as_str());
    assert(out@ =~= slug(dir@));
    out
}

/// The number of separators that `chars` begins with.
fn leading_separators(chars: &Vec<char>) -> (k: usize)
    ensures
        k <= chars@.len(),
        chars@.subrange(k as int, chars@.len() as int) == strip_leading_separators(chars@),
{
    let n = chars.len();
    let mut k: usize = 0;
    assert(chars@.subrange(0, n as int) =~= chars@);
    while k < n && chars[k] == '/'
        invariant
            n == chars@.len(),
            k <= n,
            strip_leading_separators(chars@) == strip_leading_separators(
                chars@.subrange(k as int, n as int),
            ),
        decreases n - k,
    {
        assert(chars@.subrange(k as int, n as int).drop_first() =~= chars@.subrange(
            k + 1,
            n as int,
        ));
        k += 1;
    }
    k
}

/// The path `rel` as seen from `dir`.
pub fn join(dir: &str, rel: &str) -> (path: String)
    ensures
        path@ == joined(dir@, rel@),
{
    let rel_chars = chars_of(rel);
    if rel_chars.len() > 0 && rel_chars[0] == '/' {
        return String::from_str(rel);
    }
    let dir_chars = chars_of(dir);
    let n = dir_chars.len();
    let mut path = String::from_str(dir);
    if n > 0 && dir_chars[n - 1] != '/' {
        proof {
            reveal_strlit("/");
        }
        path.append("/");
    }
    path.append(rel);
    assert(path@ =~= joined(dir@, rel@));
    path
}

/// Where the copy for the interpolated template `to` goes.
pub fn resolve(root: &str, dir: &str, to: &str) -> (path: String)
    ensures
        path@ == destination(root@, dir@, to@),
{
    let chars = chars_of(to);
    if chars.len() > 0 && chars[0] == '/' {
        let k = leading_separators(&chars);
        let rest = substring(to, k, chars.len());
        join(root, rest.as_str())
    } else {
        join(dir, to)
    }
}

} // verus!
