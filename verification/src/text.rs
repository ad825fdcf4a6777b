//! Text primitives: whitespace, trimming and line splitting, stated over
//! sequences of characters and computed in one pass over the input.

use vstd::prelude::*;

verus! {

/// `String::push` of the standard library: the string afterwards is the
/// string before with `c` added at its end.
pub assume_specification[ String::push ](s: &mut String, c: char)
    ensures
        final(s)@ == old(s)@.push(c),
;

/// Whether `c` has the Unicode property `White_Space`.
pub open spec fn is_whitespace(c: char) -> bool {
    let n = c as u32;
    ||| 0x09 <= n <= 0x0D
    ||| n == 0x20
    ||| n == 0x85
    ||| n == 0xA0
    ||| n == 0x1680
    ||| 0x2000 <= n <= 0x200A
    ||| n == 0x2028
    ||| n == 0x2029
    ||| n == 0x202F
    ||| n == 0x205F
    ||| n == 0x3000
}

/// The first index at or after `i` that holds no whitespace, or the length
/// of `s` where only whitespace follows.
pub open spec fn skip_whitespace(s: Seq<char>, i: int) -> int
    decreases s.len() - i,
{
    if 0 <= i < s.len() && is_whitespace(s[i]) {
        skip_whitespace(s, i + 1)
    } else {
        i
    }
}

/// The first index at or after `i` that holds whitespace, or the length of
/// `s` where none follows.
pub open spec fn skip_token(s: Seq<char>, i: int) -> int
    decreases s.len() - i,
{
    if 0 <= i < s.len() && !is_whitespace(s[i]) {
        skip_token(s, i + 1)
    } else {
        i
    }
}

/// The end of `s[..j]` once the whitespace at its end is dropped.
pub open spec fn skip_whitespace_back(s: Seq<char>, j: int) -> int
    decreases j,
{
    if 0 < j <= s.len() && is_whitespace(s[j - 1]) {
        skip_whitespace_back(s, j - 1)
    } else {
        j
    }
}

/// `s` without the whitespace at its start and at its end.
pub open spec fn trimmed(s: Seq<char>) -> Seq<char> {
    let a = skip_whitespace(s, 0);
    let b = skip_whitespace_back(s, s.len() as int);
    if a < b {
        s.subrange(a, b)
    } else {
        Seq::empty()
    }
}

/// The index of the first line feed at or after `i`, or the length of `s`
/// where none follows.
pub open spec fn line_end(s: Seq<char>, i: int) -> int
    decreases s.len() - i,
{
    if 0 <= i < s.len() && s[i] != '\n' {
        line_end(s, i + 1)
    } else {
        i
    }
}

/// A line that was ended by a line feed, without the carriage return that
/// may stand before the line feed.
pub open spec fn strip_cr(line: Seq<char>) -> Seq<char> {
    if line.len() > 0 && line.last() == '\r' {
        line.drop_last()
    } else {
        line
    }
}

/// The lines of `s` from index `i` on.
pub open spec fn lines_from(s: Seq<char>, i: int) -> Seq<Seq<char>>
    decreases s.len() - i,
{
    if 0 <= i < s.len() {
        proof {
            lemma_line_end(s, i);
        }
        let k = line_end(s, i);
        if k < s.len() {
            seq![strip_cr(s.subrange(i, k))] + lines_from(s, k + 1)
        } else {
            seq![s.subrange(i, k)]
        }
    } else {
        Seq::empty()
    }
}

/// The lines of `s`. A line ends at a line feed or at a carriage return
/// followed by a line feed, and neither belongs to the line. The last line
/// needs no line ending, and no empty line follows a final line ending.
pub open spec fn lines_of(s: Seq<char>) -> Seq<Seq<char>> {
    lines_from(s, 0)
}

/// Between `i` and `skip_whitespace` everything is whitespace, and what
/// stands there, if anything, is not.
pub proof fn lemma_skip_whitespace(s: Seq<char>, i: int)
    requires
        0 <= i <= s.len(),
    ensures
        i <= skip_whitespace(s, i) <= s.len(),
        forall|j: int| i <= j < skip_whitespace(s, i) ==> is_whitespace(#[trigger] s[j]),
        skip_whitespace(s, i) < s.len() ==> !is_whitespace(s[skip_whitespace(s, i)]),
    decreases s.len() - i,
{
    if i < s.len() && is_whitespace(s[i]) {
        lemma_skip_whitespace(s, i + 1);
    }
}

/// Between `i` and `skip_token` nothing is whitespace, and what stands
/// there, if anything, is.
pub proof fn lemma_skip_token(s: Seq<char>, i: int)
    requires
        0 <= i <= s.len(),
    ensures
        i <= skip_token(s, i) <= s.len(),
        forall|j: int| i <= j < skip_token(s, i) ==> !is_whitespace(#[trigger] s[j]),
        skip_token(s, i) < s.len() ==> is_whitespace(s[skip_token(s, i)]),
    decreases s.len() - i,
{
    if i < s.len() && !is_whitespace(s[i]) {
        lemma_skip_token(s, i + 1);
    }
}

/// Between `i` and `line_end` there is no line feed, and what stands there,
/// if anything, is one.
pub proof fn lemma_line_end(s: Seq<char>, i: int)
    requires
        0 <= i <= s.len(),
    ensures
        i <= line_end(s, i) <= s.len(),
        forall|j: int| i <= j < line_end(s, i) ==> #[trigger] s[j] != '\n',
        line_end(s, i) < s.len() ==> s[line_end(s, i)] == '\n',
    decreases s.len() - i,
{
    if i < s.len() && s[i] != '\n' {
        lemma_line_end(s, i + 1);
    }
}

/// Whether `c` is whitespace.
pub fn char_is_whitespace(c: char) -> (b: bool)
    ensures
        b == is_whitespace(c),
{
    let n: u32 = c as u32;
    (0x09 <= n && n <= 0x0D) || n == 0x20 || n == 0x85 || n == 0xA0 || n == 0x1680 || (0x2000 <= n
        && n <= 0x200A) || n == 0x2028 || n == 0x2029 || n == 0x202F || n == 0x205F || n == 0x3000
}

/// The characters of `s`, in order.
pub fn to_chars(s: &str) -> (v: Vec<char>)
    ensures
        v@ == s@,
{
    broadcast use vstd::string::group_string_axioms;

    let mut v: Vec<char> = Vec::new();
    for c in it: s.chars()
        invariant
            it.seq() == s@,
            v@ == s@.subrange(0, it.index()),
    {
        v.push(c);
    }
    v
}

/// The string made of `v[from..to]`.
pub fn string_of(v: &[char], from: usize, to: usize) -> (s: String)
    requires
        from <= to <= v.len(),
    ensures
        s@ == v@.subrange(from as int, to as int),
{
    let mut s = String::new();
    let mut i: usize = from;
    while i < to
        invariant
            from <= i <= to <= v.len(),
            s@ == v@.subrange(from as int, i as int),
        decreases to - i,
    {
        s.push(v[i]);
        i += 1;
    }
    s
}

/// Where the whitespace that starts at `i` ends.
pub fn scan_whitespace(v: &[char], i: usize) -> (k: usize)
    requires
        i <= v.len(),
    ensures
        k == skip_whitespace(v@, i as int),
        i <= k <= v.len(),
{
    let mut k: usize = i;
    while k < v.len() && char_is_whitespace(v[k])
        invariant
            i <= k <= v.len(),
            skip_whitespace(v@, i as int) == skip_whitespace(v@, k as int),
        decreases v.len() - k,
    {
        k += 1;
    }
    k
}

/// Where the run of characters other than whitespace that starts at `i` ends.
pub fn scan_token(v: &[char], i: usize) -> (k: usize)
    requires
        i <= v.len(),
    ensures
        k == skip_token(v@, i as int),
        i <= k <= v.len(),
{
    let mut k: usize = i;
    while k < v.len() && !char_is_whitespace(v[k])
        invariant
            i <= k <= v.len(),
            skip_token(v@, i as int) == skip_token(v@, k as int),
        decreases v.len() - k,
    {
        k += 1;
    }
    k
}

/// Where `v[..j]` ends once the whitespace at its end is dropped.
pub fn scan_whitespace_back(v: &[char], j: usize) -> (k: usize)
    requires
        j <= v.len(),
    ensures
        k == skip_whitespace_back(v@, j as int),
        k <= j,
{
    let mut k: usize = j;
    while k > 0 && char_is_whitespace(v[k - 1])
        invariant
            k <= j <= v.len(),
            skip_whitespace_back(v@, j as int) == skip_whitespace_back(v@, k as int),
        decreases k,
    {
        k -= 1;
    }
    k
}

/// Where the line that starts at `i` ends: at the next line feed, or at the
/// end of `v`.
pub fn scan_line(v: &[char], i: usize) -> (k: usize)
    requires
        i <= v.len(),
    ensures
        k == line_end(v@, i as int),
        i <= k <= v.len(),
{
    let mut k: usize = i;
    while k < v.len() && v[k] != '\n'
        invariant
            i <= k <= v.len(),
            line_end(v@, i as int) == line_end(v@, k as int),
        decreases v.len() - k,
    {
        k += 1;
    }
    k
}

/// `s` without the whitespace at its start and at its end.
pub fn trim(s: &str) -> (t: String)
    ensures
        t@ == trimmed(s@),
{
    let v = to_chars(s);
    let a = scan_whitespace(v.as_slice(), 0);
    let b = scan_whitespace_back(v.as_slice(), v.len());
    if a < b {
        string_of(v.as_slice(), a, b)
    } else {
        String::new()
    }
}

/// The bounds `(start, end)` of each line of `v`, in order.
pub fn line_bounds(v: &[char]) -> (bounds: Vec<(usize, usize)>)
    ensures
        bounds@.len() == lines_of(v@).len(),
        forall|n: int|
            0 <= n < bounds@.len() ==> {
                &&& (#[trigger] bounds@[n]).0 <= bounds@[n].1 <= v@.len()
                &&& v@.subrange(bounds@[n].0 as int, bounds@[n].1 as int) == lines_of(v@)[n]
            },
{
    let mut bounds: Vec<(usize, usize)> = Vec::new();
    let mut start: usize = 0;
    while start < v.len()
        invariant
            start <= v.len(),
            lines_of(v@) == Seq::new(
                bounds@.len(),
                |n: int| v@.subrange(bounds@[n].0 as int, bounds@[n].1 as int),
            ) + lines_from(v@, start as int),
            forall|n: int|
                0 <= n < bounds@.len() ==> (#[trigger] bounds@[n]).0 <= bounds@[n].1 <= v@.len(),
        decreases v.len() - start,
    {
        let k = scan_line(v, start);
        let ghost before = bounds@;
        if k < v.len() {
            let end: usize = if k > start && v[k - 1] == '\r' {
                k - 1
            } else {
                k
            };
            bounds.push((start, end));
            proof {
                let line = v@.subrange(start as int, k as int);
                assert(v@.subrange(start as int, end as int) == strip_cr(line));
                assert(Seq::new(
                    bounds@.len(),
                    |n: int| v@.subrange(bounds@[n].0 as int, bounds@[n].1 as int),
                ) == Seq::new(
                    before.len(),
                    |n: int| v@.subrange(before[n].0 as int, before[n].1 as int),
                ) + seq![strip_cr(line)]);
            }
            start = k + 1;
        } else {
            bounds.push((start, k));
            proof {
                assert(Seq::new(
                    bounds@.len(),
                    |n: int| v@.subrange(bounds@[n].0 as int, bounds@[n].1 as int),
                ) == Seq::new(
                    before.len(),
                    |n: int| v@.subrange(before[n].0 as int, before[n].1 as int),
                ) + seq![v@.subrange(start as int, k as int)]);
            }
            start = k;
        }
    }
    bounds
}

/// The lines of `text`.
pub fn lines(text: &str) -> (out: Vec<String>)
    ensures
        out@.len() == lines_of(text@).len(),
        forall|n: int| 0 <= n < out@.len() ==> (#[trigger] out@[n])@ == lines_of(text@)[n],
{
    let v = to_chars(text);
    let bounds = line_bounds(v.as_slice());
    let mut out: Vec<String> = Vec::new();
    let mut n: usize = 0;
    while n < bounds.len()
        invariant
            n <= bounds@.len(),
            out@.len() == n,
            v@ == text@,
            bounds@.len() == lines_of(v@).len(),
            forall|m: int|
                0 <= m < bounds@.len() ==> {
                    &&& (#[trigger] bounds@[m]).0 <= bounds@[m].1 <= v@.len()
                    &&& v@.subrange(bounds@[m].0 as int, bounds@[m].1 as int) == lines_of(v@)[m]
                },
            forall|m: int| 0 <= m < n ==> (#[trigger] out@[m])@ == lines_of(text@)[m],
        decreases bounds@.len() - n,
    {
        let (start, end) = bounds[n];
        out.push(string_of(v.as_slice(), start, end));
        n += 1;
    }
    out
}

/// Whether `list` holds `name`.
pub fn holds(list: &Vec<String>, name: &str) -> (found: bool)
    ensures
        found == list.deep_view().contains(name@),
{
    let wanted = name.to_owned();
    let mut i: usize = 0;
    while i < list.len()
        invariant
            i <= list@.len(),
            wanted@ == name@,
            forall|j: int| 0 <= j < i ==> list.deep_view()[j] != name@,
        decreases list@.len() - i,
    {
        if list[i] == wanted {
            assert(list.deep_view()[i as int] == name@);
            return true;
        }
        i += 1;
    }
    false
}

} // verus!
