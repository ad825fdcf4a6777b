//! The manifest of a component: one directive per line, each a keyword
//! (`file` or `dir`) and a path, with whitespace between them.

use crate::text::{
    is_whitespace, lemma_skip_token, lemma_skip_whitespace, scan_token, scan_whitespace,
    skip_token, skip_whitespace, string_of, to_chars,
};
use vstd::prelude::*;

verus! {

/// What a directive installs.
#[derive(Debug, Clone, Copy, PartialEq, Eq, Structural)]
pub enum PartKind {
    File,
    Dir,
}

/// A directive: the kind of the thing to install and its path below the
/// component's directory.
#[derive(Debug, PartialEq, Eq)]
pub struct ComponentPart {
    pub kind: PartKind,
    pub path: String,
}

/// The text of the keyword `file`.
pub open spec fn file_keyword() -> Seq<char> {
    seq!['f', 'i', 'l', 'e']
}

/// The text of the keyword `dir`.
pub open spec fn dir_keyword() -> Seq<char> {
    seq!['d', 'i', 'r']
}

/// The kind that a keyword stands for, if it is one.
pub open spec fn keyword_kind(word: Seq<char>) -> Option<PartKind> {
    if word == file_keyword() {
        Some(PartKind::File)
    } else if word == dir_keyword() {
        Some(PartKind::Dir)
    } else {
        None
    }
}

/// The first token of `line`: its first maximal run of characters other
/// than whitespace, empty where the line holds only whitespace.
pub open spec fn first_token(line: Seq<char>) -> Seq<char> {
    let a = skip_whitespace(line, 0);
    line.subrange(a, skip_token(line, a))
}

/// What follows the first token of `line` and the whitespace after it, up
/// to the end of the line; empty where the line has no second token.
pub open spec fn remainder(line: Seq<char>) -> Seq<char> {
    let b = skip_token(line, skip_whitespace(line, 0));
    line.subrange(skip_whitespace(line, b), line.len() as int)
}

/// The directive that `line` holds: the kind named by its first token, and
/// as path the rest of the line from its second token on. `None` where the
/// first token is no keyword or no second token follows.
pub open spec fn decoded(line: Seq<char>) -> Option<(PartKind, Seq<char>)> {
    match keyword_kind(first_token(line)) {
        Some(kind) => if remainder(line).len() > 0 {
            Some((kind, remainder(line)))
        } else {
            None
        },
        None => None,
    }
}

/// The kind of the directive in `line` and the index at which its path
/// starts, if `line` holds a directive.
pub fn decode_chars(line: &[char]) -> (part: Option<(PartKind, usize)>)
    ensures
        match part {
            Some((kind, start)) => start < line@.len() && decoded(line@) == Some(
                (kind, line@.subrange(start as int, line@.len() as int)),
            ),
            None => decoded(line@) is None,
        },
{
    let a = scan_whitespace(line, 0);
    let b = scan_token(line, a);
    let c = scan_whitespace(line, b);
    proof {
        let word = line@.subrange(a as int, b as int);
        if b - a == 4 {
            assert(word == seq![line@[a as int], line@[a + 1], line@[a + 2], line@[a + 3]]);
        }
        if b - a == 3 {
            assert(word == seq![line@[a as int], line@[a + 1], line@[a + 2]]);
        }
        assert(file_keyword().len() == 4 && dir_keyword().len() == 3);
        assert(file_keyword()[0] == 'f' && file_keyword()[1] == 'i' && file_keyword()[2] == 'l'
            && file_keyword()[3] == 'e');
        assert(dir_keyword()[0] == 'd' && dir_keyword()[1] == 'i' && dir_keyword()[2] == 'r');
    }
    let kind = if b - a == 4 && line[a] == 'f' && line[a + 1] == 'i' && line[a + 2] == 'l' && line[a
        + 3] == 'e' {
        PartKind::File
    } else if b - a == 3 && line[a] == 'd' && line[a + 1] == 'i' && line[a + 2] == 'r' {
        PartKind::Dir
    } else {
        return None;
    };
    if c < line.len() {
        Some((kind, c))
    } else {
        None
    }
}

impl ComponentPart {
    /// The directive that `line` holds, if it holds one.
    pub fn decode(line: &str) -> (part: Option<ComponentPart>)
        ensures
            match part {
                Some(p) => decoded(line@) == Some((p.kind, p.path@)),
                None => decoded(line@) is None,
            },
    {
        let v = to_chars(line);
        match decode_chars(v.as_slice()) {
            Some((kind, start)) => Some(
                ComponentPart { kind, path: string_of(v.as_slice(), start, v.len()) },
            ),
            None => None,
        }
    }
}

/// A keyword, whitespace and a path that starts with a character other than
/// whitespace decode to the keyword's kind and to that path, unchanged.
pub proof fn lemma_decode_directive(keyword: Seq<char>, gap: Seq<char>, path: Seq<char>)
    requires
        keyword_kind(keyword) is Some,
        gap.len() > 0,
        forall|i: int| 0 <= i < gap.len() ==> is_whitespace(#[trigger] gap[i]),
        path.len() > 0,
        !is_whitespace(path[0]),
    ensures
        decoded(keyword + gap + path) == Some((keyword_kind(keyword)->0, path)),
{
    let line = keyword + gap + path;
    let n = keyword.len() as int;
    let m = n + gap.len();
    assert(file_keyword().len() == 4 && dir_keyword().len() == 3);
    assert(file_keyword()[0] == 'f' && file_keyword()[1] == 'i' && file_keyword()[2] == 'l'
        && file_keyword()[3] == 'e');
    assert(dir_keyword()[0] == 'd' && dir_keyword()[1] == 'i' && dir_keyword()[2] == 'r');
    assert forall|i: int| 0 <= i < n implies !is_whitespace(#[trigger] line[i]) by {
        assert(line[i] == keyword[i]);
    }
    assert forall|i: int| n <= i < m implies is_whitespace(#[trigger] line[i]) by {
        assert(line[i] == gap[i - n]);
    }
    assert(line[m] == path[0]);
    lemma_skip_whitespace(line, 0);
    assert(skip_whitespace(line, 0) == 0);
    lemma_skip_token(line, 0);
    assert(skip_token(line, 0) == n) by {
        let k = skip_token(line, 0);
        if k < n {
            assert(is_whitespace(line[k]));
        }
        if k > n {
            assert(!is_whitespace(line[n]));
        }
    }
    lemma_skip_whitespace(line, n);
    assert(skip_whitespace(line, n) == m) by {
        let k = skip_whitespace(line, n);
        if k < m {
            assert(!is_whitespace(line[k]));
        }
        if k > m {
            assert(is_whitespace(line[m]));
        }
    }
    assert(line.subrange(0, n) == keyword);
    assert(line.subrange(m, line.len() as int) == path);
}

/// A line whose first token is no keyword, or that has no second token,
/// holds no directive; every other line holds one.
pub proof fn lemma_decode_rejects(line: Seq<char>)
    ensures
        decoded(line) is None <==> keyword_kind(first_token(line)) is None || remainder(
            line,
        ).len() == 0,
{
}

} // verus!
