//! Splitting a text into its lines.

use vstd::prelude::*;
use vstd::slice::{slice_subrange, slice_to_vec};

use crate::text::{find, find_from, Glyph};

verus! {

/// `l` without the carriage return at its end, if it has one.
pub open spec fn strip_cr(l: Seq<Glyph>) -> Seq<Glyph> {
    if l.len() > 0 && l.last().0 == '\r' {
        l.drop_last()
    } else {
        l
    }
}

/// The lines of `s` from position `from` on.
///
/// A line ends with a newline, or with a carriage return and a newline; these
/// are not part of the line. What stands after the last newline is a line of
/// its own unless it is empty, and it keeps a carriage return at its end.
pub open spec fn lines_from(s: Seq<Glyph>, from: int) -> Seq<Seq<Glyph>>
    decreases s.len() - from,
{
    if from < 0 || from >= s.len() {
        Seq::empty()
    } else {
        let end = find(s, '\n', from);
        if from <= end < s.len() {
            seq![strip_cr(s.subrange(from, end))] + lines_from(s, end + 1)
        } else {
            seq![s.subrange(from, s.len() as int)]
        }
    }
}

/// The lines of `s`.
pub open spec fn split_lines(s: Seq<Glyph>) -> Seq<Seq<Glyph>> {
    lines_from(s, 0)
}

/// The texts that the vectors `v` hold.
pub open spec fn texts(v: Seq<Vec<Glyph>>) -> Seq<Seq<Glyph>> {
    Seq::new(v.len(), |i: int| v[i]@)
}

/// Splits `s` into its lines.
pub fn lines_of(s: &[Glyph]) -> (out: Vec<Vec<Glyph>>)
    ensures
        texts(out@) == split_lines(s@),
{
    let mut out: Vec<Vec<Glyph>> = Vec::new();
    let mut from: usize = 0;
    assert(texts(out@) + lines_from(s@, 0) =~= split_lines(s@));
    while from < s.len()
        invariant
            from <= s.len(),
            texts(out@) + lines_from(s@, from as int) == split_lines(s@),
        decreases s.len() - from,
    {
        let ghost before = texts(out@);
        let end = find_from(s, '\n', from);
        if end < s.len() {
            let mut stop = end;
            if stop > from && s[stop - 1].0 == '\r' {
                stop -= 1;
            }
            let line = slice_to_vec(slice_subrange(s, from, stop));
            assert(line@ =~= strip_cr(s@.subrange(from as int, end as int)));
            out.push(line);
            assert(texts(out@) + lines_from(s@, end + 1) =~= before + (seq![line@] + lines_from(
                s@,
                end + 1,
            )));
            from = end + 1;
        } else {
            let line = slice_to_vec(slice_subrange(s, from, s.len()));
            out.push(line);
            assert(texts(out@) + lines_from(s@, s@.len() as int) =~= before + seq![line@]);
            from = s.len();
        }
    }
    assert(texts(out@) + Seq::<Seq<Glyph>>::empty() =~= texts(out@));
    out
}

} // verus!
