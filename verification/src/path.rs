//! Paths as text. A path is a sequence of characters in which `/` separates
//! the components; a component is a maximal run of characters other than
//! `/`, and `.` and `..` are components like any other. A path that starts
//! with `/` is absolute.

use crate::text::{string_of, to_chars};
use vstd::prelude::*;
use vstd::string::StringExecFns;

verus! {

/// The first index at or after `i` that holds no separator, or the length
/// of `p`.
pub open spec fn skip_separators(p: Seq<char>, i: int) -> int
    decreases p.len() - i,
{
    if 0 <= i < p.len() && p[i] == '/' {
        skip_separators(p, i + 1)
    } else {
        i
    }
}

/// The first index at or after `i` that holds a separator, or the length of
/// `p`.
pub open spec fn skip_component(p: Seq<char>, i: int) -> int
    decreases p.len() - i,
{
    if 0 <= i < p.len() && p[i] != '/' {
        skip_component(p, i + 1)
    } else {
        i
    }
}

/// The end of `p[..j]` once the separators at its end are dropped.
pub open spec fn skip_separators_back(p: Seq<char>, j: int) -> int
    decreases j,
{
    if 0 < j <= p.len() && p[j - 1] == '/' {
        skip_separators_back(p, j - 1)
    } else {
        j
    }
}

/// The start of the run of characters other than separators that ends at
/// `j`.
pub open spec fn skip_component_back(p: Seq<char>, j: int) -> int
    decreases j,
{
    if 0 < j <= p.len() && p[j - 1] != '/' {
        skip_component_back(p, j - 1)
    } else {
        j
    }
}

/// Whether `p` is absolute.
pub open spec fn is_absolute(p: Seq<char>) -> bool {
    p.len() > 0 && p[0] == '/'
}

/// `rel` seen from `base`: `rel` itself where it is absolute, else `base`
/// followed by `rel`, with one separator between them unless `base` is
/// empty or ends in one.
pub open spec fn joined(base: Seq<char>, rel: Seq<char>) -> Seq<char> {
    if is_absolute(rel) {
        rel
    } else if base.len() == 0 || base.last() == '/' {
        base + rel
    } else {
        base + seq!['/'] + rel
    }
}

/// `p` without its first component and the separators after it. The first
/// component of an absolute path is its root.
pub open spec fn without_first_component(p: Seq<char>) -> Seq<char> {
    p.subrange(skip_separators(p, skip_component(p, 0)), p.len() as int)
}

/// The last component of `p`, if it has one.
pub open spec fn last_component(p: Seq<char>) -> Option<Seq<char>> {
    let b = skip_separators_back(p, p.len() as int);
    if b == 0 {
        None
    } else {
        Some(p.subrange(skip_component_back(p, b), b))
    }
}

/// `p` without its last component: `None` where `p` has no component (it is
/// empty or only a root), the root where the last component stands directly
/// under it, else what precedes the last component, without the separators
/// between them.
pub open spec fn parent_of(p: Seq<char>) -> Option<Seq<char>> {
    let b = skip_separators_back(p, p.len() as int);
    if b == 0 {
        None
    } else {
        let a = skip_component_back(p, b);
        let e = skip_separators_back(p, a);
        if e == 0 && a > 0 {
            Some(p.subrange(0, 1))
        } else {
            Some(p.subrange(0, e))
        }
    }
}

/// Whether the directory that holds `p` is named `bin`.
pub open spec fn in_bin_directory(p: Seq<char>) -> bool {
    match parent_of(p) {
        Some(dir) => last_component(dir) == Some(seq!['b', 'i', 'n']),
        None => false,
    }
}

/// Between `i` and `skip_separators` everything is a separator, and what
/// stands there, if anything, is none.
pub proof fn lemma_skip_separators(p: Seq<char>, i: int)
    requires
        0 <= i <= p.len(),
    ensures
        i <= skip_separators(p, i) <= p.len(),
        forall|j: int| i <= j < skip_separators(p, i) ==> #[trigger] p[j] == '/',
        skip_separators(p, i) < p.len() ==> p[skip_separators(p, i)] != '/',
    decreases p.len() - i,
{
    if i < p.len() && p[i] == '/' {
        lemma_skip_separators(p, i + 1);
    }
}

/// Between `i` and `skip_component` nothing is a separator, and what stands
/// there, if anything, is one.
pub proof fn lemma_skip_component(p: Seq<char>, i: int)
    requires
        0 <= i <= p.len(),
    ensures
        i <= skip_component(p, i) <= p.len(),
        forall|j: int| i <= j < skip_component(p, i) ==> #[trigger] p[j] != '/',
        skip_component(p, i) < p.len() ==> p[skip_component(p, i)] == '/',
    decreases p.len() - i,
{
    if i < p.len() && p[i] != '/' {
        lemma_skip_component(p, i + 1);
    }
}

fn scan_separators(v: &[char], i: usize) -> (k: usize)
    requires
        i <= v.len(),
    ensures
        k == skip_separators(v@, i as int),
        i <= k <= v.len(),
{
    let mut k: usize = i;
    while k < v.len() && v[k] == '/'
        invariant
            i <= k <= v.len(),
            skip_separators(v@, i as int) == skip_separators(v@, k as int),
        decreases v.len() - k,
    {
        k += 1;
    }
    k
}

fn scan_component(v: &[char], i: usize) -> (k: usize)
    requires
        i <= v.len(),
    ensures
        k == skip_component(v@, i as int),
        i <= k <= v.len(),
{
    let mut k: usize = i;
    while k < v.len() && v[k] != '/'
        invariant
            i <= k <= v.len(),
            skip_component(v@, i as int) == skip_component(v@, k as int),
        decreases v.len() - k,
    {
        k += 1;
    }
    k
}

fn scan_separators_back(v: &[char], j: usize) -> (k: usize)
    requires
        j <= v.len(),
    ensures
        k == skip_separators_back(v@, j as int),
        k <= j,
{
    let mut k: usize = j;
    while k > 0 && v[k - 1] == '/'
        invariant
            k <= j <= v.len(),
            skip_separators_back(v@, j as int) == skip_separators_back(v@, k as int),
        decreases k,
    {
        k -= 1;
    }
    k
}

fn scan_component_back(v: &[char], j: usize) -> (k: usize)
    requires
        j <= v.len(),
    ensures
        k == skip_component_back(v@, j as int),
        k <= j,
{
    let mut k: usize = j;
    while k > 0 && v[k - 1] != '/'
        invariant
            k <= j <= v.len(),
            skip_component_back(v@, j as int) == skip_component_back(v@, k as int),
        decreases k,
    {
        k -= 1;
    }
    k
}

/// `rel` seen from `base`.
pub fn join(base: &str, rel: &str) -> (p: String)
    ensures
        p@ == joined(base@, rel@),
{
    let b = to_chars(base);
    let r = to_chars(rel);
    if r.len() > 0 && r[0] == '/' {
        rel.to_owned()
    } else {
        let mut p = base.to_owned();
        if b.len() > 0 && b[b.len() - 1] != '/' {
            p.push('/');
        }
        p.append(rel);
        p
    }
}

/// `path` without its first component and the separators after it.
pub fn strip_first_component(path: &str) -> (rest: String)
    ensures
        rest@ == without_first_component(path@),
{
    let v = to_chars(path);
    let k = scan_component(v.as_slice(), 0);
    let r = scan_separators(v.as_slice(), k);
    string_of(v.as_slice(), r, v.len())
}

/// The directory that holds `path`, if `path` has a last component.
pub fn parent(path: &str) -> (dir: Option<String>)
    ensures
        match dir {
            Some(d) => parent_of(path@) == Some(d@),
            None => parent_of(path@) is None,
        },
{
    let v = to_chars(path);
    let b = scan_separators_back(v.as_slice(), v.len());
    if b == 0 {
        None
    } else {
        let a = scan_component_back(v.as_slice(), b);
        let e = scan_separators_back(v.as_slice(), a);
        if e == 0 && a > 0 {
            Some(string_of(v.as_slice(), 0, 1))
        } else {
            Some(string_of(v.as_slice(), 0, e))
        }
    }
}

/// Whether the directory that holds `path` is named `bin`.
pub fn in_bin(path: &str) -> (b: bool)
    ensures
        b == in_bin_directory(path@),
{
    let v = to_chars(path);
    let b = scan_separators_back(v.as_slice(), v.len());
    if b == 0 {
        return false;
    }
    let a = scan_component_back(v.as_slice(), b);
    let e = scan_separators_back(v.as_slice(), a);
    let end: usize = if e == 0 && a > 0 {
        1
    } else {
        e
    };
    // The directory is `v[..end]`; its last component ends where its
    // trailing separators start.
    let ghost dir = v@.subrange(0, end as int);
    let db = scan_separators_back(v.as_slice(), end);
    proof {
        lemma_back_scans_of_prefix(v@, end as int, end as int);
    }
    if db == 0 {
        return false;
    }
    let da = scan_component_back(v.as_slice(), db);
    proof {
        lemma_back_scans_of_prefix(v@, end as int, db as int);
        assert(dir.subrange(da as int, db as int) == v@.subrange(da as int, db as int));
        if db - da == 3 {
            assert(v@.subrange(da as int, db as int) == seq![v@[da as int], v@[da + 1], v@[da + 2]]);
        }
        assert(seq!['b', 'i', 'n'].len() == 3);
        assert(seq!['b', 'i', 'n'][0] == 'b');
        assert(seq!['b', 'i', 'n'][1] == 'i');
        assert(seq!['b', 'i', 'n'][2] == 'n');
    }
    db - da == 3 && v[da] == 'b' && v[da + 1] == 'i' && v[da + 2] == 'n'
}

/// Scanning backwards from `j` sees the same in `p` and in a prefix of `p`
/// that reaches `j`.
proof fn lemma_back_scans_of_prefix(p: Seq<char>, n: int, j: int)
    requires
        0 <= j <= n <= p.len(),
    ensures
        skip_separators_back(p.subrange(0, n), j) == skip_separators_back(p, j),
        skip_component_back(p.subrange(0, n), j) == skip_component_back(p, j),
    decreases j,
{
    if j > 0 {
        lemma_back_scans_of_prefix(p, n, j - 1);
    }
}

} // verus!
