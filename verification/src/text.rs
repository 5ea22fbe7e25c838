//! Text as sequences of classified characters, and the searching, trimming
//! and comparing that line-oriented parsing is made of.
//!
//! Which characters are white space, letters or lowercase is Unicode's matter
//! and the standard library's. Here every character of a text is paired, once,
//! with its class ([`classify`]). All that is done with a text afterwards
//! reads the classes from the text, so that none of it depends on what the
//! tables of Unicode hold.

use vstd::prelude::*;
use vstd::slice::slice_subrange;
use vstd::std_specs::iter::IteratorSpec;

verus! {

/// What `char::is_whitespace` tells of `c`.
pub uninterp spec fn white_space(c: char) -> bool;

/// What `char::is_alphabetic` tells of `c`.
pub uninterp spec fn alphabetic(c: char) -> bool;

/// What `char::is_alphanumeric` tells of `c`.
pub uninterp spec fn alphanumeric(c: char) -> bool;

/// What `char::is_lowercase` tells of `c`.
pub uninterp spec fn lowercase(c: char) -> bool;

/// `char::is_whitespace` decides Unicode's `White_Space` property; its answer
/// is named [`white_space`].
pub assume_specification[ char::is_whitespace ](c: char) -> (b: bool)
    ensures
        b == white_space(c),
;

/// `char::is_alphabetic` decides Unicode's `Alphabetic` property; its answer
/// is named [`alphabetic`].
pub assume_specification[ char::is_alphabetic ](c: char) -> (b: bool)
    ensures
        b == alphabetic(c),
;

/// `char::is_alphanumeric` tells whether a character is alphabetic or
/// numeric; its answer is named [`alphanumeric`].
pub assume_specification[ char::is_alphanumeric ](c: char) -> (b: bool)
    ensures
        b == alphanumeric(c),
;

/// `char::is_lowercase` decides Unicode's `Lowercase` property; its answer is
/// named [`lowercase`].
pub assume_specification[ char::is_lowercase ](c: char) -> (b: bool)
    ensures
        b == lowercase(c),
;

/// `String::push` appends one character to the end of the string.
pub assume_specification[ String::push ](s: &mut String, c: char)
    ensures
        final(s)@ == old(s)@.push(c),
;

/// The class of a character: what the parser asks of it.
#[derive(Debug, PartialEq, Eq, Structural, Clone, Copy)]
pub struct Class {
    pub white_space: bool,
    pub alphabetic: bool,
    pub alphanumeric: bool,
    pub lowercase: bool,
}

/// A character of a text together with its class.
pub type Glyph = (char, Class);

/// The class that Unicode gives `c`.
pub open spec fn class_of(c: char) -> Class {
    Class {
        white_space: white_space(c),
        alphabetic: alphabetic(c),
        alphanumeric: alphanumeric(c),
        lowercase: lowercase(c),
    }
}

/// The characters `s`, each with the class that Unicode gives it.
pub open spec fn classified(s: Seq<char>) -> Seq<Glyph>
    decreases s.len(),
{
    if s.len() == 0 {
        Seq::empty()
    } else {
        classified(s.drop_last()).push((s.last(), class_of(s.last())))
    }
}

/// The characters of the text `t`, without their classes.
pub open spec fn chars(t: Seq<Glyph>) -> Seq<char>
    decreases t.len(),
{
    if t.len() == 0 {
        Seq::empty()
    } else {
        chars(t.drop_last()).push(t.last().0)
    }
}

/// `t` without the white space at its start.
pub open spec fn trim_start(t: Seq<Glyph>) -> Seq<Glyph>
    decreases t.len(),
{
    if t.len() > 0 && t[0].1.white_space {
        trim_start(t.drop_first())
    } else {
        t
    }
}

/// `t` without the white space at its end.
pub open spec fn trim_end(t: Seq<Glyph>) -> Seq<Glyph>
    decreases t.len(),
{
    if t.len() > 0 && t.last().1.white_space {
        trim_end(t.drop_last())
    } else {
        t
    }
}

/// `t` without the white space at its start and at its end.
pub open spec fn trim(t: Seq<Glyph>) -> Seq<Glyph> {
    trim_end(trim_start(t))
}

/// Whether nothing is left of `t` once it is trimmed.
pub open spec fn is_blank(t: Seq<Glyph>) -> bool {
    trim(t).len() == 0
}

/// The first position at or after `from` where `c` stands in `t`, or the
/// length of `t` if there is none.
pub open spec fn find(t: Seq<Glyph>, c: char, from: int) -> int
    decreases t.len() - from,
{
    if from < 0 || from >= t.len() {
        t.len() as int
    } else if t[from].0 == c {
        from
    } else {
        find(t, c, from + 1)
    }
}

/// The last position before `to` where `c` stands in `t`, or `-1` if there is
/// none.
pub open spec fn rfind(t: Seq<Glyph>, c: char, to: int) -> int
    decreases to,
{
    if to <= 0 || to > t.len() {
        -1
    } else if t[to - 1].0 == c {
        to - 1
    } else {
        rfind(t, c, to - 1)
    }
}

/// Whether `t` starts with the characters `p`.
pub open spec fn has_prefix(t: Seq<Glyph>, p: Seq<char>) -> bool {
    &&& p.len() <= t.len()
    &&& forall|i: int| 0 <= i < p.len() ==> (#[trigger] t[i]).0 == p[i]
}

/// Whether `t` ends with the characters `p`.
pub open spec fn has_suffix(t: Seq<Glyph>, p: Seq<char>) -> bool {
    &&& p.len() <= t.len()
    &&& forall|i: int| 0 <= i < p.len() ==> (#[trigger] t[t.len() - p.len() + i]).0 == p[i]
}

/// `c` as an upper-case letter if it is one of `a` to `z`, else `c` itself.
pub open spec fn ascii_upper(c: char) -> char {
    if 'a' <= c <= 'z' {
        ((c as u8) - 32) as char
    } else {
        c
    }
}

/// Whether `t` spells `p` once the letters `a` to `z`, in both, are taken for
/// their upper-case forms.
pub open spec fn spells_ignoring_ascii_case(t: Seq<Glyph>, p: Seq<char>) -> bool {
    &&& t.len() == p.len()
    &&& forall|i: int| 0 <= i < t.len() ==> ascii_upper((#[trigger] t[i]).0) == ascii_upper(p[i])
}

/// Whether `a` and `b` are the same once the letters `a` to `z`, in both, are
/// taken for their upper-case forms.
pub open spec fn eq_ignore_ascii_case(a: Seq<char>, b: Seq<char>) -> bool {
    &&& a.len() == b.len()
    &&& forall|i: int| 0 <= i < a.len() ==> ascii_upper(#[trigger] a[i]) == ascii_upper(b[i])
}

/// Whether a lowercase character stands in `t`.
pub open spec fn has_lowercase(t: Seq<Glyph>) -> bool {
    exists|i: int| 0 <= i < t.len() && (#[trigger] t[i]).1.lowercase
}

/// Whether an alphabetic character stands in `t`.
pub open spec fn has_alphabetic(t: Seq<Glyph>) -> bool {
    exists|i: int| 0 <= i < t.len() && (#[trigger] t[i]).1.alphabetic
}

/// Classifying keeps the characters.
pub proof fn lemma_chars_of_classified(s: Seq<char>)
    ensures
        chars(classified(s)) == s,
        classified(s).len() == s.len(),
    decreases s.len(),
{
    if s.len() > 0 {
        lemma_chars_of_classified(s.drop_last());
        assert(classified(s).drop_last() =~= classified(s.drop_last()));
        assert(s.drop_last().push(s.last()) =~= s);
    }
}

/// The characters of `s`.
pub fn chars_of(s: &str) -> (v: Vec<char>)
    ensures
        v@ == s@,
{
    let mut v: Vec<char> = Vec::new();
    let mut it = s.chars();
    let ghost all = it.remaining();
    loop
        invariant
            it.obeys_prophetic_iter_laws(),
            all == s@,
            v@ + it.remaining() == all,
            it.decrease() is Some,
        ensures
            v@ == all,
        decreases it.decrease()->0,
    {
        match it.next() {
            Some(c) => {
                v.push(c);
            },
            None => {
                break ;
            },
        }
    }
    v
}

/// The string that the characters `cs` spell.
pub fn string_of(cs: &[char]) -> (s: String)
    ensures
        s@ == cs@,
{
    let mut s = String::new();
    let mut i: usize = 0;
    while i < cs.len()
        invariant
            i <= cs.len(),
            s@ == cs@.take(i as int),
        decreases cs.len() - i,
    {
        s.push(cs[i]);
        i += 1;
    }
    s
}

/// The character `c` with the class that Unicode gives it.
pub fn classify(c: char) -> (g: Glyph)
    ensures
        g == (c, class_of(c)),
{
    (
        c,
        Class {
            white_space: c.is_whitespace(),
            alphabetic: c.is_alphabetic(),
            alphanumeric: c.is_alphanumeric(),
            lowercase: c.is_lowercase(),
        },
    )
}

/// The characters `s`, each with the class that Unicode gives it.
pub fn classify_all(s: &[char]) -> (t: Vec<Glyph>)
    ensures
        t@ == classified(s@),
{
    let mut t: Vec<Glyph> = Vec::new();
    let mut i: usize = 0;
    assert(s@.take(0) =~= Seq::empty());
    while i < s.len()
        invariant
            i <= s.len(),
            t@ == classified(s@.take(i as int)),
        decreases s.len() - i,
    {
        assert(s@.take(i + 1).drop_last() =~= s@.take(i as int));
        t.push(classify(s[i]));
        i += 1;
    }
    assert(s@.take(i as int) =~= s@);
    t
}

/// The characters of the text `t`, without their classes.
pub fn chars_from(t: &[Glyph]) -> (s: Vec<char>)
    ensures
        s@ == chars(t@),
{
    let mut s: Vec<char> = Vec::new();
    let mut i: usize = 0;
    assert(t@.take(0) =~= Seq::empty());
    while i < t.len()
        invariant
            i <= t.len(),
            s@ == chars(t@.take(i as int)),
        decreases t.len() - i,
    {
        assert(t@.take(i + 1).drop_last() =~= t@.take(i as int));
        s.push(t[i].0);
        i += 1;
    }
    assert(t@.take(i as int) =~= t@);
    s
}

/// `t` without the white space at its start.
pub fn trimmed_start<'a>(t: &'a [Glyph]) -> (r: &'a [Glyph])
    ensures
        r@ == trim_start(t@),
{
    let mut i: usize = 0;
    assert(t@.skip(0) =~= t@);
    while i < t.len() && t[i].1.white_space
        invariant
            i <= t.len(),
            trim_start(t@) == trim_start(t@.skip(i as int)),
        decreases t.len() - i,
    {
        assert(t@.skip(i as int).drop_first() =~= t@.skip(i + 1));
        i += 1;
    }
    assert(t@.subrange(i as int, t@.len() as int) =~= t@.skip(i as int));
    slice_subrange(t, i, t.len())
}

/// `t` without the white space at its end.
pub fn trimmed_end<'a>(t: &'a [Glyph]) -> (r: &'a [Glyph])
    ensures
        r@ == trim_end(t@),
{
    let mut j: usize = t.len();
    assert(t@.take(t@.len() as int) =~= t@);
    while j > 0 && t[j - 1].1.white_space
        invariant
            j <= t.len(),
            trim_end(t@) == trim_end(t@.take(j as int)),
        decreases j,
    {
        assert(t@.take(j as int).drop_last() =~= t@.take(j - 1));
        j -= 1;
    }
    assert(t@.subrange(0, j as int) =~= t@.take(j as int));
    slice_subrange(t, 0, j)
}

/// `t` without the white space at its start and at its end.
pub fn trimmed<'a>(t: &'a [Glyph]) -> (r: &'a [Glyph])
    ensures
        r@ == trim(t@),
{
    trimmed_end(trimmed_start(t))
}

/// Whether `t` holds nothing but white space.
pub fn blank(t: &[Glyph]) -> (b: bool)
    ensures
        b == is_blank(t@),
{
    trimmed(t).len() == 0
}

/// Whether `t` starts with the text `p`.
pub fn starts_with(t: &[Glyph], p: &str) -> (b: bool)
    ensures
        b == has_prefix(t@, p@),
{
    let pat = chars_of(p);
    if pat.len() > t.len() {
        return false;
    }
    let mut i: usize = 0;
    while i < pat.len()
        invariant
            i <= pat.len() <= t.len(),
            pat@ == p@,
            forall|k: int| 0 <= k < i ==> (#[trigger] t@[k]).0 == pat@[k],
        decreases pat.len() - i,
    {
        if t[i].0 != pat[i] {
            assert(t@[i as int].0 != p@[i as int]);
            return false;
        }
        i += 1;
    }
    true
}

/// Whether `t` ends with the text `p`.
pub fn ends_with(t: &[Glyph], p: &str) -> (b: bool)
    ensures
        b == has_suffix(t@, p@),
{
    let pat = chars_of(p);
    if pat.len() > t.len() {
        return false;
    }
    let off: usize = t.len() - pat.len();
    let mut i: usize = 0;
    while i < pat.len()
        invariant
            i <= pat.len() <= t.len(),
            pat@ == p@,
            off == t.len() - pat.len(),
            forall|k: int| 0 <= k < i ==> (#[trigger] t@[off + k]).0 == pat@[k],
        decreases pat.len() - i,
    {
        if t[off + i].0 != pat[i] {
            assert(t@[t@.len() - p@.len() + i].0 != p@[i as int]);
            return false;
        }
        i += 1;
    }
    true
}

/// The first position at or after `from` where `c` stands in `t`, or the
/// length of `t` if there is none.
pub fn find_from(t: &[Glyph], c: char, from: usize) -> (k: usize)
    ensures
        k == find(t@, c, from as int),
        from <= t.len() ==> from <= k <= t.len(),
        k < t.len() ==> t@[k as int].0 == c,
{
    if from >= t.len() {
        return t.len();
    }
    let mut i: usize = from;
    while i < t.len() && t[i].0 != c
        invariant
            from <= i <= t.len(),
            find(t@, c, i as int) == find(t@, c, from as int),
        decreases t.len() - i,
    {
        i += 1;
    }
    i
}

/// The last position where `c` stands in `t`, if there is one.
pub fn find_last(t: &[Glyph], c: char) -> (r: Option<usize>)
    ensures
        match r {
            Some(k) => k == rfind(t@, c, t@.len() as int) && k < t.len() && t@[k as int].0 == c,
            None => rfind(t@, c, t@.len() as int) == -1,
        },
{
    let mut j: usize = t.len();
    while j > 0 && t[j - 1].0 != c
        invariant
            j <= t.len(),
            rfind(t@, c, j as int) == rfind(t@, c, t@.len() as int),
        decreases j,
    {
        j -= 1;
    }
    if j > 0 {
        Some(j - 1)
    } else {
        None
    }
}

/// `c` as an upper-case letter if it is one of `a` to `z`, else `c` itself.
pub fn to_ascii_upper(c: char) -> (r: char)
    ensures
        r == ascii_upper(c),
{
    if 'a' <= c && c <= 'z' {
        ((c as u8) - 32) as char
    } else {
        c
    }
}

/// Whether `t` spells the text `p`, the case of the letters `a` to `z` left
/// aside.
pub fn spells(t: &[Glyph], p: &str) -> (r: bool)
    ensures
        r == spells_ignoring_ascii_case(t@, p@),
{
    let pat = chars_of(p);
    if t.len() != pat.len() {
        return false;
    }
    let mut i: usize = 0;
    while i < t.len()
        invariant
            i <= t.len() == pat.len(),
            pat@ == p@,
            forall|k: int|
                0 <= k < i ==> ascii_upper((#[trigger] t@[k]).0) == ascii_upper(pat@[k]),
        decreases t.len() - i,
    {
        if to_ascii_upper(t[i].0) != to_ascii_upper(pat[i]) {
            assert(ascii_upper(t@[i as int].0) != ascii_upper(p@[i as int]));
            return false;
        }
        i += 1;
    }
    true
}

/// Whether `a` and `b` are the same text, the case of the letters `a` to `z`
/// left aside.
pub fn same_ignoring_ascii_case(a: &str, b: &str) -> (r: bool)
    ensures
        r == eq_ignore_ascii_case(a@, b@),
{
    let left = chars_of(a);
    let right = chars_of(b);
    if left.len() != right.len() {
        return false;
    }
    let mut i: usize = 0;
    while i < left.len()
        invariant
            i <= left.len() == right.len(),
            left@ == a@,
            right@ == b@,
            forall|k: int|
                0 <= k < i ==> ascii_upper(#[trigger] left@[k]) == ascii_upper(right@[k]),
        decreases left.len() - i,
    {
        if to_ascii_upper(left[i]) != to_ascii_upper(right[i]) {
            assert(ascii_upper(a@[i as int]) != ascii_upper(b@[i as int]));
            return false;
        }
        i += 1;
    }
    true
}

/// Whether a lowercase character stands in `t`.
pub fn any_lowercase(t: &[Glyph]) -> (b: bool)
    ensures
        b == has_lowercase(t@),
{
    let mut i: usize = 0;
    while i < t.len()
        invariant
            i <= t.len(),
            forall|k: int| 0 <= k < i ==> !(#[trigger] t@[k]).1.lowercase,
        decreases t.len() - i,
    {
        if t[i].1.lowercase {
            return true;
        }
        i += 1;
    }
    false
}

/// Whether an alphabetic character stands in `t`.
pub fn any_alphabetic(t: &[Glyph]) -> (b: bool)
    ensures
        b == has_alphabetic(t@),
{
    let mut i: usize = 0;
    while i < t.len()
        invariant
            i <= t.len(),
            forall|k: int| 0 <= k < i ==> !(#[trigger] t@[k]).1.alphabetic,
        decreases t.len() - i,
    {
        if t[i].1.alphabetic {
            return true;
        }
        i += 1;
    }
    false
}

} // verus!
