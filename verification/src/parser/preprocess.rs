//! The first pass over a document: block comments go, tabs become spaces.

use vstd::prelude::*;

use crate::text::{chars_of, string_of};

verus! {

/// What is left of `s` from position `i` on, where `in_comment` tells whether
/// that position lies inside a block comment.
///
/// Outside a comment, `/*` opens one, a tab becomes four spaces, and any other
/// character stays. Inside a comment the first `*/` closes it, whatever stands
/// before; a newline stays, and any other character goes. A comment that is
/// never closed runs to the end of the text.
pub open spec fn strip(s: Seq<char>, i: int, in_comment: bool) -> Seq<char>
    decreases s.len() - i,
{
    if i < 0 || i >= s.len() {
        Seq::empty()
    } else if in_comment {
        if s[i] == '\n' {
            seq!['\n'] + strip(s, i + 1, true)
        } else if s[i] == '*' && i + 1 < s.len() && s[i + 1] == '/' {
            strip(s, i + 2, false)
        } else {
            strip(s, i + 1, true)
        }
    } else {
        if s[i] == '/' && i + 1 < s.len() && s[i + 1] == '*' {
            strip(s, i + 2, true)
        } else if s[i] == '\t' {
            seq![' ', ' ', ' ', ' '] + strip(s, i + 1, false)
        } else {
            seq![s[i]] + strip(s, i + 1, false)
        }
    }
}

/// The document `src` without its block comments and with four spaces for
/// each tab.
pub open spec fn preprocess(src: Seq<char>) -> Seq<char> {
    strip(src, 0, false)
}

/// How often `c` stands in `s` at position `i` or after it.
pub open spec fn count(s: Seq<char>, c: char, i: int) -> nat
    decreases s.len() - i,
{
    if i < 0 || i >= s.len() {
        0
    } else if s[i] == c {
        1 + count(s, c, i + 1)
    } else {
        count(s, c, i + 1)
    }
}

/// Counting over a concatenation counts both parts.
proof fn lemma_count_concat(a: Seq<char>, b: Seq<char>, c: char, i: int)
    requires
        0 <= i <= a.len(),
    ensures
        count(a + b, c, i) == count(a, c, i) + count(b, c, 0),
    decreases a.len() - i,
{
    if i < a.len() {
        assert((a + b)[i] == a[i]);
        lemma_count_concat(a, b, c, i + 1);
    } else {
        lemma_count_shift(a, b, c, 0);
    }
}

/// Counting in the second part of a concatenation counts in that part alone.
proof fn lemma_count_shift(a: Seq<char>, b: Seq<char>, c: char, j: int)
    requires
        0 <= j <= b.len(),
    ensures
        count(a + b, c, a.len() + j) == count(b, c, j),
    decreases b.len() - j,
{
    if j < b.len() {
        assert((a + b)[a.len() + j] == b[j]);
        lemma_count_shift(a, b, c, j + 1);
    }
}

/// Stripping keeps every newline: the text has as many of them after it as
/// before, so that every line stays where it was.
pub proof fn lemma_strip_keeps_newlines(s: Seq<char>, i: int, in_comment: bool)
    requires
        0 <= i,
    ensures
        count(strip(s, i, in_comment), '\n', 0) == count(s, '\n', i),
    decreases s.len() - i,
{
    if i < s.len() {
        if in_comment {
            if s[i] == '\n' {
                lemma_strip_keeps_newlines(s, i + 1, true);
                lemma_count_concat(seq!['\n'], strip(s, i + 1, true), '\n', 0);
                reveal_with_fuel(count, 2);
            } else if s[i] == '*' && i + 1 < s.len() && s[i + 1] == '/' {
                lemma_strip_keeps_newlines(s, i + 2, false);
                reveal_with_fuel(count, 2);
            } else {
                lemma_strip_keeps_newlines(s, i + 1, true);
            }
        } else {
            if s[i] == '/' && i + 1 < s.len() && s[i + 1] == '*' {
                lemma_strip_keeps_newlines(s, i + 2, true);
                reveal_with_fuel(count, 2);
            } else if s[i] == '\t' {
                lemma_strip_keeps_newlines(s, i + 1, false);
                lemma_count_concat(seq![' ', ' ', ' ', ' '], strip(s, i + 1, false), '\n', 0);
                reveal_with_fuel(count, 5);
            } else {
                lemma_strip_keeps_newlines(s, i + 1, false);
                lemma_count_concat(seq![s[i]], strip(s, i + 1, false), '\n', 0);
                reveal_with_fuel(count, 2);
            }
        }
    }
}

/// A preprocessed document has as many newlines as the document itself.
pub proof fn lemma_preprocess_keeps_newlines(src: Seq<char>)
    ensures
        count(preprocess(src), '\n', 0) == count(src, '\n', 0),
{
    lemma_strip_keeps_newlines(src, 0, false);
}

/// No tab is left in what stripping yields.
pub proof fn lemma_strip_leaves_no_tab(s: Seq<char>, i: int, in_comment: bool)
    requires
        0 <= i,
    ensures
        !strip(s, i, in_comment).contains('\t'),
    decreases s.len() - i,
{
    let out = strip(s, i, in_comment);
    if i < s.len() {
        let (head, rest) = if in_comment {
            if s[i] == '\n' {
                (seq!['\n'], strip(s, i + 1, true))
            } else if s[i] == '*' && i + 1 < s.len() && s[i + 1] == '/' {
                (Seq::empty(), strip(s, i + 2, false))
            } else {
                (Seq::empty(), strip(s, i + 1, true))
            }
        } else {
            if s[i] == '/' && i + 1 < s.len() && s[i + 1] == '*' {
                (Seq::empty(), strip(s, i + 2, true))
            } else if s[i] == '\t' {
                (seq![' ', ' ', ' ', ' '], strip(s, i + 1, false))
            } else {
                (seq![s[i]], strip(s, i + 1, false))
            }
        };
        assert(out =~= head + rest);
        assert(!head.contains('\t'));
        if in_comment {
            if s[i] == '\n' {
                lemma_strip_leaves_no_tab(s, i + 1, true);
            } else if s[i] == '*' && i + 1 < s.len() && s[i + 1] == '/' {
                lemma_strip_leaves_no_tab(s, i + 2, false);
            } else {
                lemma_strip_leaves_no_tab(s, i + 1, true);
            }
        } else {
            if s[i] == '/' && i + 1 < s.len() && s[i + 1] == '*' {
                lemma_strip_leaves_no_tab(s, i + 2, true);
            } else {
                lemma_strip_leaves_no_tab(s, i + 1, false);
            }
        }
        assert forall|k: int| 0 <= k < out.len() implies out[k] != '\t' by {
            if k < head.len() {
                assert(head.contains(head[k]));
            } else {
                assert(rest.contains(rest[k - head.len()]));
            }
        }
    }
}

/// No tab is left in a preprocessed document.
pub proof fn lemma_preprocess_leaves_no_tab(src: Seq<char>)
    ensures
        !preprocess(src).contains('\t'),
{
    lemma_strip_leaves_no_tab(src, 0, false);
}

/// Removes the block comments of `src` and puts four spaces for each tab.
pub fn strip_comments(src: &[char]) -> (out: Vec<char>)
    ensures
        out@ == preprocess(src@),
{
    let mut out: Vec<char> = Vec::new();
    let mut i: usize = 0;
    let mut in_comment = false;
    assert(out@ + strip(src@, 0, false) =~= preprocess(src@));
    while i < src.len()
        invariant
            i <= src.len(),
            out@ + strip(src@, i as int, in_comment) == preprocess(src@),
        decreases src.len() - i,
    {
        let ghost before = out@;
        let c = src[i];
        if in_comment {
            if c == '\n' {
                out.push('\n');
                assert(out@ + strip(src@, i + 1, true) =~= before + (seq!['\n'] + strip(
                    src@,
                    i + 1,
                    true,
                )));
                i += 1;
            } else if i + 1 < src.len() && c == '*' && src[i + 1] == '/' {
                in_comment = false;
                i += 2;
            } else {
                i += 1;
            }
        } else {
            if i + 1 < src.len() && c == '/' && src[i + 1] == '*' {
                in_comment = true;
                i += 2;
            } else if c == '\t' {
                out.push(' ');
                out.push(' ');
                out.push(' ');
                out.push(' ');
                assert(out@ + strip(src@, i + 1, false) =~= before + (seq![' ', ' ', ' ', ' ']
                    + strip(src@, i + 1, false)));
                i += 1;
            } else {
                out.push(c);
                assert(out@ + strip(src@, i + 1, false) =~= before + (seq![c] + strip(
                    src@,
                    i + 1,
                    false,
                )));
                i += 1;
            }
        }
    }
    assert(out@ + Seq::<char>::empty() =~= out@);
    out
}

/// Removes the block comments of `src` and puts four spaces for each tab.
pub fn preprocess_source(src: &str) -> (out: String)
    ensures
        out@ == preprocess(src@),
{
    let chars = chars_of(src);
    let stripped = strip_comments(chars.as_slice());
    string_of(stripped.as_slice())
}

} // verus!
