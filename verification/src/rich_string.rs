//! Rich strings: text split into runs that each carry a set of style
//! attributes (bold, italic, underline).
//!
//! A fragment of inline markup is read in two conceptual steps. Lexing
//! ([`styled`]) pairs every character that survives the markup with the
//! attribute set that is active where it stands. Grouping ([`extend`]) appends
//! those styled characters to a sequence of runs, joining each one to the last
//! run whenever the attribute sets agree.

use vstd::prelude::*;
use vstd::std_specs::convert::FromSpecImpl;
use vstd::string::StringExecFns;

use crate::text::chars_of;

verus! {

/// The set of styles that applies to a run of text.
#[derive(Debug, PartialEq, Eq, Structural, Clone, Copy, Hash)]
pub struct Attributes {
    pub bold: bool,
    pub italic: bool,
    pub underline: bool,
}

impl Attributes {
    /// The empty attribute set.
    pub open spec fn none() -> Attributes {
        Attributes { bold: false, italic: false, underline: false }
    }

    /// This set with bold switched.
    pub open spec fn flip_bold(self) -> Attributes {
        Attributes { bold: !self.bold, ..self }
    }

    /// This set with italic switched.
    pub open spec fn flip_italic(self) -> Attributes {
        Attributes { italic: !self.italic, ..self }
    }

    /// This set with underline switched.
    pub open spec fn flip_underline(self) -> Attributes {
        Attributes { underline: !self.underline, ..self }
    }

    /// This set after a run of `n` asterisks: one switches italic, two switch
    /// bold, three switch both.
    pub open spec fn flip_stars(self, n: int) -> Attributes {
        if n == 1 {
            self.flip_italic()
        } else if n == 2 {
            self.flip_bold()
        } else {
            self.flip_bold().flip_italic()
        }
    }

    /// The empty attribute set.
    pub fn empty() -> (a: Attributes)
        ensures
            a == Attributes::none(),
    {
        Attributes { bold: false, italic: false, underline: false }
    }

    /// Switches underline.
    fn toggle_underline(self) -> (a: Attributes)
        ensures
            a == self.flip_underline(),
    {
        Attributes { bold: self.bold, italic: self.italic, underline: !self.underline }
    }

    /// Switches the styles that a run of `count` asterisks stands for.
    fn toggle_stars(self, count: usize) -> (a: Attributes)
        requires
            1 <= count <= 3,
        ensures
            a == self.flip_stars(count as int),
    {
        if count == 1 {
            Attributes { bold: self.bold, italic: !self.italic, underline: self.underline }
        } else if count == 2 {
            Attributes { bold: !self.bold, italic: self.italic, underline: self.underline }
        } else {
            Attributes { bold: !self.bold, italic: !self.italic, underline: self.underline }
        }
    }
}

impl Default for Attributes {
    fn default() -> (a: Attributes)
        ensures
            a == Attributes::none(),
    {
        Attributes::empty()
    }
}

/// One character of output together with the styles it is shown in.
pub type StyledChar = (char, Attributes);

/// A run of text in one style: the mathematical value of an [`Element`].
pub struct Span {
    pub text: Seq<char>,
    pub attrs: Attributes,
}

/// The length of the run of asterisks that starts at position `i` of `s`,
/// where an asterisk stands; a run counts three asterisks at most.
pub open spec fn star_run(s: Seq<char>, i: int) -> int {
    if i + 1 < s.len() && s[i + 1] == '*' {
        if i + 2 < s.len() && s[i + 2] == '*' {
            3
        } else {
            2
        }
    } else {
        1
    }
}

/// What reading `s` from position `i` on yields when `attrs` is active there:
/// the styled characters, and the attribute set that is active at the end.
pub struct Scan {
    pub chars: Seq<StyledChar>,
    pub attrs: Attributes,
}

/// Reads `s` from position `i` on, starting in the attribute set `a`.
///
/// A run of one to three asterisks and a single underscore switch styles and
/// yield nothing. A backslash is dropped and the character after it is taken
/// as it is. A newline comes out unstyled and clears the attribute set. Any
/// other character comes out in the active set.
pub open spec fn scan(s: Seq<char>, i: int, a: Attributes) -> Scan
    decreases s.len() - i,
{
    if i < 0 || i >= s.len() {
        Scan { chars: Seq::empty(), attrs: a }
    } else if s[i] == '*' {
        scan(s, i + star_run(s, i), a.flip_stars(star_run(s, i)))
    } else if s[i] == '_' {
        scan(s, i + 1, a.flip_underline())
    } else if s[i] == '\n' {
        let rest = scan(s, i + 1, Attributes::none());
        Scan {
            chars: seq![('\n', Attributes::none())] + rest.chars,
            attrs: rest.attrs,
        }
    } else if s[i] == '\\' {
        if i + 1 < s.len() {
            let rest = scan(s, i + 2, a);
            Scan { chars: seq![(s[i + 1], a)] + rest.chars, attrs: rest.attrs }
        } else {
            Scan { chars: Seq::empty(), attrs: a }
        }
    } else {
        let rest = scan(s, i + 1, a);
        Scan { chars: seq![(s[i], a)] + rest.chars, attrs: rest.attrs }
    }
}

/// The styled characters of the fragment `s`, read from the start with no
/// style active.
pub open spec fn styled(s: Seq<char>) -> Seq<StyledChar> {
    scan(s, 0, Attributes::none()).chars
}

/// The characters of `text`, each in the style `a`.
pub open spec fn run(text: Seq<char>, a: Attributes) -> Seq<StyledChar>
    decreases text.len(),
{
    if text.len() == 0 {
        Seq::empty()
    } else {
        run(text.drop_last(), a).push((text.last(), a))
    }
}

/// Appends one styled character to `spans`: to the last run if that run has
/// the character's style, as a new run otherwise.
pub open spec fn push_styled(spans: Seq<Span>, c: StyledChar) -> Seq<Span> {
    if spans.len() > 0 && spans.last().attrs == c.1 {
        spans.drop_last().push(Span { text: spans.last().text.push(c.0), attrs: c.1 })
    } else {
        spans.push(Span { text: seq![c.0], attrs: c.1 })
    }
}

/// Appends the styled characters `cs` to `spans`, one after the other.
pub open spec fn extend(spans: Seq<Span>, cs: Seq<StyledChar>) -> Seq<Span>
    decreases cs.len(),
{
    if cs.len() == 0 {
        spans
    } else {
        push_styled(extend(spans, cs.drop_last()), cs.last())
    }
}

/// The runs that the fragment `s` is split into.
pub open spec fn tokenize(s: Seq<char>) -> Seq<Span> {
    extend(Seq::empty(), styled(s))
}

/// No run is empty, and no two neighbouring runs have the same style.
pub open spec fn well_formed(spans: Seq<Span>) -> bool {
    &&& forall|i: int| 0 <= i < spans.len() ==> (#[trigger] spans[i]).text.len() > 0
    &&& forall|i: int|
        0 <= i < spans.len() - 1 ==> (#[trigger] spans[i]).attrs != spans[i + 1].attrs
}

/// The character `s[i]` is read as it is because a backslash that is not
/// itself escaped stands before it.
pub open spec fn escaped(s: Seq<char>, i: int) -> bool
    decreases i,
{
    0 < i < s.len() && s[i - 1] == '\\' && !escaped(s, i - 1)
}

/// Appending in two steps is appending the concatenation.
pub proof fn lemma_extend_concat(spans: Seq<Span>, a: Seq<StyledChar>, b: Seq<StyledChar>)
    ensures
        extend(spans, a + b) == extend(extend(spans, a), b),
    decreases b.len(),
{
    if b.len() == 0 {
        assert(a + b =~= a);
    } else {
        assert((a + b).drop_last() =~= a + b.drop_last());
        assert((a + b).last() == b.last());
        lemma_extend_concat(spans, a, b.drop_last());
    }
}

/// Appending a whole run of one style either lengthens the last run or adds
/// one run.
pub proof fn lemma_extend_run(spans: Seq<Span>, text: Seq<char>, a: Attributes)
    requires
        text.len() > 0,
    ensures
        extend(spans, run(text, a)) == if spans.len() > 0 && spans.last().attrs == a {
            spans.drop_last().push(Span { text: spans.last().text + text, attrs: a })
        } else {
            spans.push(Span { text: text, attrs: a })
        },
    decreases text.len(),
{
    let cs = run(text, a);
    assert(cs.last() == (text.last(), a));
    assert(cs.drop_last() =~= run(text.drop_last(), a));
    if text.len() == 1 {
        assert(extend(spans, cs.drop_last()) == spans);
        assert(text =~= seq![text.last()]);
        if spans.len() > 0 && spans.last().attrs == a {
            assert(spans.last().text.push(text.last()) =~= spans.last().text + text);
        }
    } else {
        lemma_extend_run(spans, text.drop_last(), a);
        let before = extend(spans, cs.drop_last());
        if spans.len() > 0 && spans.last().attrs == a {
            assert(before.drop_last() =~= spans.drop_last());
            assert((spans.last().text + text.drop_last()).push(text.last()) =~= spans.last().text
                + text);
        } else {
            assert(before.drop_last() =~= spans);
            assert(text.drop_last().push(text.last()) =~= text);
        }
    }
}

/// A run of one character is that character in the run's style.
pub proof fn lemma_run_single(c: char, a: Attributes)
    ensures
        run(seq![c], a) == seq![(c, a)],
{
    reveal_with_fuel(run, 2);
    assert(seq![c].drop_last() =~= Seq::<char>::empty());
    assert(run(seq![c], a) =~= seq![(c, a)]);
}

/// Appending nothing changes nothing.
pub proof fn lemma_extend_empty_run(spans: Seq<Span>, a: Attributes)
    ensures
        extend(spans, run(Seq::empty(), a)) == spans,
{
}

/// Appending one styled character keeps a sequence of runs well formed.
pub proof fn lemma_push_styled_well_formed(spans: Seq<Span>, c: StyledChar)
    requires
        well_formed(spans),
    ensures
        well_formed(push_styled(spans, c)),
{
    let out = push_styled(spans, c);
    if spans.len() > 0 && spans.last().attrs == c.1 {
        assert forall|i: int| 0 <= i < out.len() implies (#[trigger] out[i]).text.len() > 0 by {
            if i < spans.len() - 1 {
                assert(out[i] == spans[i]);
            }
        }
        assert forall|i: int| 0 <= i < out.len() - 1 implies (#[trigger] out[i]).attrs != out[i
            + 1].attrs by {
            assert(out[i] == spans[i]);
            assert(out[i + 1].attrs == spans[i + 1].attrs);
        }
    } else {
        assert forall|i: int| 0 <= i < out.len() implies (#[trigger] out[i]).text.len() > 0 by {
            if i < spans.len() {
                assert(out[i] == spans[i]);
            }
        }
        assert forall|i: int| 0 <= i < out.len() - 1 implies (#[trigger] out[i]).attrs != out[i
            + 1].attrs by {
            assert(out[i] == spans[i]);
            if i + 1 < spans.len() {
                assert(out[i + 1] == spans[i + 1]);
            }
        }
    }
}

/// Appending styled characters keeps a sequence of runs well formed.
pub proof fn lemma_extend_well_formed(spans: Seq<Span>, cs: Seq<StyledChar>)
    requires
        well_formed(spans),
    ensures
        well_formed(extend(spans, cs)),
    decreases cs.len(),
{
    if cs.len() > 0 {
        lemma_extend_well_formed(spans, cs.drop_last());
        lemma_push_styled_well_formed(extend(spans, cs.drop_last()), cs.last());
    }
}

/// Every rich string that comes from a fragment of markup is well formed: it
/// has no empty run and no two neighbouring runs of the same style.
pub proof fn lemma_tokenize_well_formed(s: Seq<char>)
    ensures
        well_formed(tokenize(s)),
{
    lemma_extend_well_formed(Seq::empty(), styled(s));
}

/// The styled characters that the runs `spans` hold, in order.
pub open spec fn flatten(spans: Seq<Span>) -> Seq<StyledChar>
    decreases spans.len(),
{
    if spans.len() == 0 {
        Seq::empty()
    } else {
        flatten(spans.drop_last()) + run(spans.last().text, spans.last().attrs)
    }
}

/// Appending one styled character to runs appends it to what they hold.
pub proof fn lemma_flatten_push_styled(spans: Seq<Span>, c: StyledChar)
    ensures
        flatten(push_styled(spans, c)) == flatten(spans).push(c),
{
    let out = push_styled(spans, c);
    if spans.len() > 0 && spans.last().attrs == c.1 {
        let text = spans.last().text;
        assert(out.drop_last() =~= spans.drop_last());
        assert(text.push(c.0).drop_last() =~= text);
        assert(flatten(out) =~= flatten(spans).push(c));
    } else {
        assert(out.drop_last() =~= spans);
        lemma_run_single(c.0, c.1);
        assert(flatten(out) =~= flatten(spans).push(c));
    }
}

/// Grouping loses nothing: the runs that come of appending styled characters
/// hold what the runs held before, and then those characters.
pub proof fn lemma_flatten_extend(spans: Seq<Span>, cs: Seq<StyledChar>)
    ensures
        flatten(extend(spans, cs)) == flatten(spans) + cs,
    decreases cs.len(),
{
    if cs.len() == 0 {
        assert(flatten(spans) + cs =~= flatten(spans));
    } else {
        lemma_flatten_extend(spans, cs.drop_last());
        lemma_flatten_push_styled(extend(spans, cs.drop_last()), cs.last());
        assert((flatten(spans) + cs.drop_last()).push(cs.last()) =~= flatten(spans) + cs);
    }
}

/// The runs of a fragment hold exactly its styled characters.
pub proof fn lemma_tokenize_flatten(s: Seq<char>)
    ensures
        flatten(tokenize(s)) == styled(s),
{
    lemma_flatten_extend(Seq::empty(), styled(s));
    assert(Seq::<StyledChar>::empty() + styled(s) =~= styled(s));
}

/// Reading `s` from `k` on, where no escaped character stands, reaches an
/// unescaped backslash at `i` in the same way as reading the text before `i`
/// alone, and goes on from there in the style that is active at that point.
proof fn lemma_scan_reaches_escape(s: Seq<char>, k: int, a: Attributes, i: int)
    requires
        0 <= k <= i < s.len(),
        !escaped(s, k),
        s[i] == '\\',
        !escaped(s, i),
    ensures
        scan(s, k, a).chars == scan(s.take(i), k, a).chars + scan(
            s,
            i,
            scan(s.take(i), k, a).attrs,
        ).chars,
        scan(s, k, a).attrs == scan(s, i, scan(s.take(i), k, a).attrs).attrs,
    decreases i - k,
{
    let p = s.take(i);
    if k == i {
        assert(scan(p, k, a).chars + scan(s, i, a).chars =~= scan(s, i, a).chars);
    } else {
        assert(p[k] == s[k]);
        if s[k] == '*' {
            let n = star_run(s, k);
            assert(star_run(p, k) == n);
            lemma_scan_reaches_escape(s, k + n, a.flip_stars(n), i);
        } else if s[k] == '_' {
            lemma_scan_reaches_escape(s, k + 1, a.flip_underline(), i);
        } else if s[k] == '\n' {
            lemma_scan_reaches_escape(s, k + 1, Attributes::none(), i);
            let head = seq![('\n', Attributes::none())];
            let mid = scan(p, k + 1, Attributes::none());
            assert((head + mid.chars) + scan(s, i, mid.attrs).chars =~= head + (mid.chars + scan(
                s,
                i,
                mid.attrs,
            ).chars));
        } else if s[k] == '\\' {
            assert(escaped(s, k + 1));
            assert(!escaped(s, k + 2));
            assert(p[k + 1] == s[k + 1]);
            lemma_scan_reaches_escape(s, k + 2, a, i);
            let head = seq![(s[k + 1], a)];
            let mid = scan(p, k + 2, a);
            assert((head + mid.chars) + scan(s, i, mid.attrs).chars =~= head + (mid.chars + scan(
                s,
                i,
                mid.attrs,
            ).chars));
        } else {
            lemma_scan_reaches_escape(s, k + 1, a, i);
            let head = seq![(s[k], a)];
            let mid = scan(p, k + 1, a);
            assert((head + mid.chars) + scan(s, i, mid.attrs).chars =~= head + (mid.chars + scan(
                s,
                i,
                mid.attrs,
            ).chars));
        }
    }
}

/// A character after a backslash is taken as it is and switches no style.
///
/// Let a backslash that is not itself escaped stand at `i`, with a character
/// after it. Then the fragment's styled characters are those of the text
/// before the backslash, then the character after the backslash in the style
/// that was active before the backslash, then those of the text after that
/// character, read in that same style. This holds of every character,
/// asterisk, underscore and backslash among them.
pub proof fn lemma_escape_is_literal(s: Seq<char>, i: int)
    requires
        0 <= i,
        i + 1 < s.len(),
        s[i] == '\\',
        !escaped(s, i),
    ensures
        ({
            let before = scan(s.take(i), 0, Attributes::none());
            styled(s) == before.chars + seq![(s[i + 1], before.attrs)] + scan(
                s,
                i + 2,
                before.attrs,
            ).chars
        }),
{
    lemma_scan_reaches_escape(s, 0, Attributes::none(), i);
    let before = scan(s.take(i), 0, Attributes::none());
    assert(before.chars + (seq![(s[i + 1], before.attrs)] + scan(s, i + 2, before.attrs).chars)
        =~= before.chars + seq![(s[i + 1], before.attrs)] + scan(s, i + 2, before.attrs).chars);
}

/// The runs of a fragment hold the character after an unescaped backslash as
/// it is, in the style that was active before the backslash.
pub proof fn lemma_escape_in_runs(s: Seq<char>, i: int)
    requires
        0 <= i,
        i + 1 < s.len(),
        s[i] == '\\',
        !escaped(s, i),
    ensures
        ({
            let before = scan(s.take(i), 0, Attributes::none());
            let at = before.chars.len() as int;
            &&& at < flatten(tokenize(s)).len()
            &&& flatten(tokenize(s))[at] == (s[i + 1], before.attrs)
        }),
{
    lemma_escape_is_literal(s, i);
    lemma_tokenize_flatten(s);
}

/// A component of a [`RichString`]: a piece of text and the styles it is
/// shown in.
#[derive(Debug, PartialEq, Eq, Clone, Hash)]
pub struct Element {
    pub text: String,
    pub attributes: Attributes,
}

impl View for Element {
    type V = Span;

    open spec fn view(&self) -> Span {
        Span { text: self.text@, attrs: self.attributes }
    }
}

impl DeepView for Element {
    type V = Span;

    open spec fn deep_view(&self) -> Span {
        self@
    }
}

impl Element {
    /// An element that holds `text` as it is, with no style.
    pub fn new(text: String) -> (e: Element)
        ensures
            e@ == (Span { text: text@, attrs: Attributes::none() }),
            e.text == text,
    {
        Element { text, attributes: Attributes::empty() }
    }

    /// Whether the element is shown bold.
    pub fn is_bold(&self) -> (b: bool)
        ensures
            b == self@.attrs.bold,
    {
        self.attributes.bold
    }

    /// Whether the element is shown underlined.
    pub fn is_underline(&self) -> (b: bool)
        ensures
            b == self@.attrs.underline,
    {
        self.attributes.underline
    }

    /// Whether the element is shown italic.
    pub fn is_italic(&self) -> (b: bool)
        ensures
            b == self@.attrs.italic,
    {
        self.attributes.italic
    }
}

impl Default for Element {
    fn default() -> (e: Element)
        ensures
            e@ == (Span { text: Seq::empty(), attrs: Attributes::none() }),
    {
        Element { text: String::new(), attributes: Attributes::empty() }
    }
}

/// A string whose parts can be styled: a sequence of runs, each in one style.
#[derive(Debug, PartialEq, Eq, Clone, Hash)]
pub struct RichString {
    pub elements: Vec<Element>,
}

impl View for RichString {
    type V = Seq<Span>;

    open spec fn view(&self) -> Seq<Span> {
        self.elements.deep_view()
    }
}

impl DeepView for RichString {
    type V = Seq<Span>;

    open spec fn deep_view(&self) -> Seq<Span> {
        self@
    }
}

impl RichString {
    /// Whether no run is empty and no two neighbouring runs have the same
    /// style.
    pub open spec fn well_formed(&self) -> bool {
        well_formed(self@)
    }

    /// A rich string with no runs.
    pub fn new() -> (r: RichString)
        ensures
            r@ == Seq::<Span>::empty(),
            r.well_formed(),
    {
        let r = RichString { elements: Vec::new() };
        assert(r@ =~= Seq::<Span>::empty());
        r
    }

    /// The rich string that the characters `s`, read as inline markup, stand
    /// for.
    pub fn from_chars(s: &[char]) -> (r: RichString)
        ensures
            r@ == tokenize(s@),
            r.well_formed(),
    {
        let mut out = RichString::new();
        out.push_chars(s);
        out
    }

    /// Reads `s` as inline markup and appends its runs to this rich string.
    /// The first run is joined to the last run already there if their styles
    /// agree.
    pub fn push_str(&mut self, s: &str)
        ensures
            final(self)@ == extend(old(self)@, styled(s@)),
            old(self).well_formed() ==> final(self).well_formed(),
    {
        let cs = chars_of(s);
        self.push_chars(cs.as_slice());
    }

    /// Reads the characters `s` as inline markup and appends their runs to
    /// this rich string.
    pub fn push_chars(&mut self, s: &[char])
        ensures
            final(self)@ == extend(old(self)@, styled(s@)),
            old(self).well_formed() ==> final(self).well_formed(),
    {
        let mut buf = String::new();
        let mut attrs = Attributes::empty();
        let mut i: usize = 0;
        proof {
            lemma_extend_empty_run(self@, attrs);
        }
        while i < s.len()
            invariant
                i <= s.len(),
                extend(extend(self@, run(buf@, attrs)), scan(s@, i as int, attrs).chars) == extend(
                    old(self)@,
                    styled(s@),
                ),
            decreases s.len() - i,
        {
            let ghost before = self@;
            let ghost old_buf = buf@;
            let ghost pending = run(buf@, attrs);
            let c = s[i];
            if c == '*' {
                if !buf.as_str().is_empty() {
                    self.push_run(buf, attrs);
                    buf = String::new();
                }
                let ghost start = i;
                let mut count: usize = 0;
                while i < s.len() && s[i] == '*' && count < 3
                    invariant
                        start <= i <= s.len(),
                        count <= 3,
                        i == start + count,
                        forall|k: int| start <= k < i ==> s@[k] == '*',
                    decreases 3 - count,
                {
                    count += 1;
                    i += 1;
                }
                attrs = attrs.toggle_stars(count);
                proof {
                    lemma_extend_empty_run(self@, attrs);
                }
            } else if c == '_' {
                if !buf.as_str().is_empty() {
                    self.push_run(buf, attrs);
                    buf = String::new();
                }
                attrs = attrs.toggle_underline();
                i += 1;
                proof {
                    lemma_extend_empty_run(self@, attrs);
                }
            } else if c == '\n' {
                if !buf.as_str().is_empty() {
                    self.push_run(buf, attrs);
                    buf = String::new();
                }
                let ghost flushed = self@;
                attrs = Attributes::empty();
                let mut newline = String::new();
                newline.push('\n');
                self.push_run(newline, Attributes::empty());
                i += 1;
                proof {
                    let nl = seq![('\n', Attributes::none())];
                    lemma_run_single('\n', Attributes::none());
                    lemma_extend_concat(flushed, nl, scan(s@, i as int, attrs).chars);
                    lemma_extend_empty_run(self@, attrs);
                }
            } else if c == '\\' {
                i += 1;
                if i < s.len() {
                    let ghost rest = scan(s@, i + 1, attrs).chars;
                    let ghost one = seq![(s@[i as int], attrs)];
                    buf.push(s[i]);
                    i += 1;
                    proof {
                        assert(buf@.drop_last() =~= old_buf);
                        assert(buf@.drop_last() =~= old_buf);
                    assert(run(buf@, attrs) =~= pending + one);
                        lemma_extend_concat(before, pending, one);
                        lemma_extend_concat(extend(before, pending), one, rest);
                    }
                }
            } else {
                let ghost rest = scan(s@, i + 1, attrs).chars;
                let ghost one = seq![(c, attrs)];
                buf.push(c);
                i += 1;
                proof {
                    assert(buf@.drop_last() =~= old_buf);
                    assert(run(buf@, attrs) =~= pending + one);
                    lemma_extend_concat(before, pending, one);
                    lemma_extend_concat(extend(before, pending), one, rest);
                }
            }
        }
        if !buf.as_str().is_empty() {
            self.push_run(buf, attrs);
        }
        proof {
            if old(self).well_formed() {
                lemma_extend_well_formed(old(self)@, styled(s@));
            }
        }
    }

    /// Appends `text` in the style `attributes`: to the last run if that run
    /// has the same style, as a new run otherwise. An empty `text` changes
    /// nothing.
    fn push_run(&mut self, text: String, attributes: Attributes)
        ensures
            final(self)@ == extend(old(self)@, run(text@, attributes)),
    {
        if text.as_str().is_empty() {
            return ;
        }
        proof {
            lemma_extend_run(self@, text@, attributes);
        }
        let n = self.elements.len();
        if n > 0 && self.elements[n - 1].attributes == attributes {
            let mut last = self.elements.pop().unwrap();
            last.text.append(text.as_str());
            self.elements.push(last);
            assert(self@ =~= old(self)@.drop_last().push(
                Span { text: old(self)@.last().text + text@, attrs: attributes },
            ));
        } else {
            self.elements.push(Element { text, attributes });
            assert(self@ =~= old(self)@.push(Span { text: text@, attrs: attributes }));
        }
    }
}

impl Default for RichString {
    fn default() -> (r: RichString)
        ensures
            r@ == Seq::<Span>::empty(),
    {
        RichString::new()
    }
}

impl From<&str> for RichString {
    /// The rich string that the inline markup `s` stands for.
    fn from(s: &str) -> (r: RichString)
        ensures
            r@ == tokenize(s@),
            r.well_formed(),
    {
        let mut out = RichString::new();
        out.push_str(s);
        out
    }
}

impl FromSpecImpl<&str> for RichString {
    open spec fn obeys_from_spec() -> bool {
        false
    }

    open spec fn from_spec(v: &str) -> Self {
        arbitrary()
    }
}

impl From<String> for RichString {
    /// The rich string that the inline markup `s` stands for.
    fn from(s: String) -> (r: RichString)
        ensures
            r@ == tokenize(s@),
            r.well_formed(),
    {
        let mut out = RichString::new();
        out.push_str(s.as_str());
        out
    }
}

impl FromSpecImpl<String> for RichString {
    open spec fn obeys_from_spec() -> bool {
        false
    }

    open spec fn from_spec(v: String) -> Self {
        arbitrary()
    }
}

impl From<&String> for RichString {
    /// The rich string that the inline markup `s` stands for.
    fn from(s: &String) -> (r: RichString)
        ensures
            r@ == tokenize(s@),
            r.well_formed(),
    {
        let mut out = RichString::new();
        out.push_str(s.as_str());
        out
    }
}

impl FromSpecImpl<&String> for RichString {
    open spec fn obeys_from_spec() -> bool {
        false
    }

    open spec fn from_spec(v: &String) -> Self {
        arbitrary()
    }
}

} // verus!
