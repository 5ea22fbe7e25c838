//! From the text of a document to its tree.
//!
//! A document is read in five steps. Block comments and tabs go
//! ([`preprocess`]). Every character is paired with its class
//! ([`crate::text::classify_all`]). The text is split into lines ([`lines`]).
//! The title page is read from the first lines. A state machine classifies
//! what is left, one line at a time. What the last two steps yield is defined
//! in [`grammar`]; the functions here compute it.

pub mod grammar;
pub mod lines;
pub mod preprocess;

use vstd::prelude::*;
use vstd::slice::slice_subrange;

use crate::parser::grammar::{
    action_rule, after_blank, append_line, blank_or_absent, block_values, centered_rule, classify,
    dialogue_of, dialogue_rule, forced_action_rule, heading_of, heading_rule, indented_run,
    is_number_char, is_scene_number, lemma_screenplay_well_formed, line_at, lyrics_rule,
    open_dialogue, page_break_rule, scan_title, screenplay_of, speech_rule,
    starts_with_ignore_ascii_case, title_page_of, transition_rule, with_field, Machine, State,
    Step,
};
use crate::parser::lines::{lines_of, split_lines, texts};
use crate::parser::preprocess::{preprocess, strip_comments};
use crate::rich_string::{tokenize, RichString, Span};
use crate::screenplay::{
    Dialogue, DialogueElement, Element, Screenplay, ScreenplayView, TitlePage, TitlePageView,
};
use crate::text::{
    any_alphabetic, any_lowercase, blank, chars, chars_from, chars_of, classified, classify_all,
    ends_with, find_from, find_last, spells, starts_with, string_of, trim, trimmed, trimmed_end,
    Glyph,
};

verus! {

/// The tree that the classified text `text` stands for: the screenplay of
/// its lines.
pub open spec fn tree(text: Seq<Glyph>) -> ScreenplayView {
    screenplay_of(split_lines(text))
}

/// The tree that the document `src` stands for: that of its text, without
/// comments and tabs, and with every character in the class that Unicode gives
/// it.
pub open spec fn document(src: Seq<char>) -> ScreenplayView {
    tree(classified(preprocess(src)))
}

/// Parses the text of a document into a [`Screenplay`].
///
/// Every text is a document: no line is refused, and a line that is nothing
/// else is action.
pub fn parse(src: &str) -> (screenplay: Screenplay)
    ensures
        screenplay@ == document(src@),
        screenplay@.well_formed(),
{
    let chars = chars_of(src);
    let cleaned = strip_comments(chars.as_slice());
    let text = classify_all(cleaned.as_slice());
    parse_glyphs(text.as_slice())
}

/// Parses a text whose characters come with their classes into a
/// [`Screenplay`].
///
/// The text is taken as it is given. No comment is looked for and no tab is
/// replaced, and what counts as white space, as a letter, as a number or as
/// lowercase is what the classes in the text say.
pub fn parse_glyphs(text: &[Glyph]) -> (screenplay: Screenplay)
    ensures
        screenplay@ == tree(text@),
        screenplay@.well_formed(),
{
    proof {
        lemma_screenplay_well_formed(split_lines(text@));
    }
    let lines = lines_of(text);
    Parser::new(lines.as_slice()).parse()
}

/// Parsing is deterministic: whatever `parse` returns for one text and
/// whatever it returns for the same text again are the same tree.
pub proof fn lemma_parse_deterministic(
    first: &str,
    first_tree: Screenplay,
    second: &str,
    second_tree: Screenplay,
)
    requires
        first@ == second@,
        call_ensures(parse, (first,), first_tree),
        call_ensures(parse, (second,), second_tree),
    ensures
        first_tree@ == second_tree@,
{
}

/// Whether `s` starts with `pat`, the case of the letters `a` to `z` left
/// aside.
fn starts_with_ascii_ci(s: &[Glyph], pat: &str) -> (b: bool)
    ensures
        b == starts_with_ignore_ascii_case(s@, pat@),
{
    let n = chars_of(pat).len();
    if n > s.len() {
        return false;
    }
    let head = slice_subrange(s, 0, n);
    assert(head@ =~= s@.take(pat@.len() as int));
    spells(head, pat)
}

/// Whether every character of `s` may stand in a scene number.
fn scene_number_chars(s: &[Glyph]) -> (b: bool)
    ensures
        b == is_scene_number(s@),
{
    let mut i: usize = 0;
    while i < s.len()
        invariant
            i <= s.len(),
            forall|k: int| 0 <= k < i ==> is_number_char(#[trigger] s@[k]),
        decreases s.len() - i,
    {
        let g = s[i];
        if !(g.1.alphanumeric || g.0 == '-' || g.0 == '.') {
            return false;
        }
        i += 1;
    }
    true
}

/// The rich string that the text `t`, read as inline markup, stands for.
fn rich(t: &[Glyph]) -> (r: RichString)
    ensures
        r@ == tokenize(chars(t@)),
{
    let plain = chars_from(t);
    RichString::from_chars(plain.as_slice())
}

/// The heading element for the text `text`: its slug, and its scene number
/// where it has one.
fn heading(text: &[Glyph]) -> (e: Element)
    ensures
        e@ == heading_of(text@),
{
    let t = trimmed_end(text);
    let n = t.len();
    if n > 0 && t[n - 1].0 == '#' {
        let head = slice_subrange(t, 0, n - 1);
        assert(head@ =~= t@.drop_last());
        match find_last(head, '#') {
            Some(k) => {
                let number = slice_subrange(head, k + 1, head.len());
                assert(number@ =~= head@.skip(k + 1));
                if scene_number_chars(number) {
                    let slug = slice_subrange(head, 0, k);
                    assert(slug@ =~= head@.take(k as int));
                    return Element::Heading {
                        slug: rich(slug),
                        number: Some(string_of(chars_from(number).as_slice())),
                    };
                }
            },
            None => {},
        }
    }
    Element::Heading { slug: rich(text), number: None }
}

/// The dialogue that the cue `name` opens: the character's name, and the
/// extension in parentheses where there is one.
fn dialogue(name: &[Glyph]) -> (d: Dialogue)
    ensures
        d@ == dialogue_of(name@),
{
    let mut d = Dialogue::new();
    let open = find_from(name, '(', 0);
    if open < name.len() {
        let tail = slice_subrange(name, open + 1, name.len());
        assert(tail@ =~= name@.skip(open + 1));
        let close = find_from(tail, ')', 0);
        if close < tail.len() {
            let extension = slice_subrange(tail, 0, close);
            assert(extension@ =~= tail@.take(close as int));
            let head = slice_subrange(name, 0, open);
            assert(head@ =~= name@.take(open as int));
            d.extension = Some(rich(extension));
            d.character = rich(trimmed_end(head));
            return d;
        }
    }
    d.character = rich(name);
    d
}

/// Appends a line break and then `text`, read as inline markup, to `rs`.
fn push_line(rs: &mut RichString, text: &[Glyph])
    ensures
        final(rs)@ == append_line(old(rs)@, chars(text@)),
{
    let mut newline: Vec<char> = Vec::new();
    newline.push('\n');
    assert(newline@ =~= seq!['\n']);
    rs.push_chars(newline.as_slice());
    rs.push_chars(chars_from(text).as_slice());
}

/// Gives the key `key` of the title page `page` the values `values`. A key
/// that is not known changes nothing.
fn set_field(page: &mut TitlePage, key: &[Glyph], values: Vec<RichString>)
    ensures
        final(page)@ == with_field(old(page)@, key@, values.deep_view()),
{
    let k = trimmed(key);
    if spells(k, "TITLE") {
        page.title = values;
    } else if spells(k, "CREDIT") {
        page.credit = values;
    } else if spells(k, "AUTHOR") || spells(k, "AUTHORS") {
        page.authors = values;
    } else if spells(k, "SOURCE") {
        page.source = values;
    } else if spells(k, "DRAFT DATE") {
        page.draft_date = values;
    } else if spells(k, "CONTACT") {
        page.contact = values;
    }
}

/// The state machine that reads the lines of a document: a cursor into the
/// lines, the state, the elements found so far, and the title page.
struct Parser<'a> {
    lines: &'a [Vec<Glyph>],
    pos: usize,
    state: State,
    elements: Vec<Element>,
    title_page: Option<TitlePage>,
}

impl<'a> Parser<'a> {
    /// The lines of the document.
    spec fn texts(&self) -> Seq<Seq<Glyph>> {
        texts(self.lines@)
    }

    /// The state and the elements found so far.
    spec fn machine(&self) -> Machine {
        Machine { state: self.state, elements: self.elements.deep_view() }
    }

    /// The line that the cursor stands at, if it stands at one.
    spec fn peek(&self) -> Option<Seq<Glyph>> {
        line_at(self.texts(), self.pos as int)
    }

    /// The cursor stands at a line or right after the last one.
    spec fn inv(&self) -> bool {
        self.pos <= self.lines@.len()
    }

    /// Whether this parser is `before` after the step `step`: the machine is
    /// the step's, the cursor has moved on where the step consumed a line, and
    /// nothing else has changed.
    spec fn took(&self, before: &Parser<'a>, step: Step) -> bool {
        &&& self.lines == before.lines
        &&& self.title_page == before.title_page
        &&& self.machine() == step.machine
        &&& self.pos == before.pos + if step.skip_next {
            1int
        } else {
            0int
        }
    }

    /// Whether this parser is what trying a rule makes of `before`: where the
    /// rule matches, `before` after the rule's step; else `before` itself.
    spec fn tried(&self, before: &Parser<'a>, rule: Option<Step>, matched: bool) -> bool {
        match rule {
            Some(step) => matched && self.took(before, step),
            None => !matched && *self == *before,
        }
    }

    /// A parser at the first of `lines`.
    fn new(lines: &'a [Vec<Glyph>]) -> (p: Parser<'a>)
        ensures
            p.lines == lines,
            p.pos == 0,
            p.machine() == Machine::start(),
            p.title_page is None,
    {
        let p = Parser {
            lines,
            pos: 0,
            state: State::Default,
            elements: Vec::new(),
            title_page: None,
        };
        assert(p.machine().elements =~= Seq::empty());
        p
    }

    /// Reads the title page and then classifies every line after it.
    fn parse(self) -> (screenplay: Screenplay)
        requires
            self.pos == 0,
            self.machine() == Machine::start(),
        ensures
            screenplay@ == screenplay_of(self.texts()),
    {
        let ghost lines = self.texts();
        let mut p = self;
        p.parse_title();
        let ghost all = classify(lines, p.pos as int, p.machine());
        let ghost title_page = p.title_page;
        while p.pos < p.lines.len()
            invariant
                p.inv(),
                p.title_page == title_page,
                p.texts() == lines,
                p.machine().consistent(),
                classify(lines, p.pos as int, p.machine()) == all,
            decreases p.lines@.len() - p.pos,
        {
            let source = p.lines;
            let line = source[p.pos].as_slice();
            assert(line@ == lines[p.pos as int]);
            p.pos += 1;
            let t = trimmed(line);
            if t.len() == 0 && !starts_with(line, "  ") {
                p.state = State::Default;
            } else {
                match p.state {
                    State::InDialogue => {
                        p.say(t);
                    },
                    _ => {
                        // The first rule that matches ends the search.
                        if p.try_page_break(t) || p.try_forced_action(t) || p.try_centered(t)
                            || p.try_lyrics(t) || p.try_heading(t) || p.try_transition(t)
                            || p.try_dialogue_start(t) || p.try_action(line) {
                        }
                    },
                }
            }
        }
        Screenplay::new(p.title_page, p.elements)
    }

    /// Whether no line is left or the line at the cursor is blank.
    fn next_line_is_empty(&self) -> (b: bool)
        requires
            self.inv(),
        ensures
            b == blank_or_absent(self.peek()),
    {
        if self.pos < self.lines.len() {
            blank(self.lines[self.pos].as_slice())
        } else {
            true
        }
    }

    /// Moves past the line at the cursor if it is blank.
    fn skip_blank(&mut self)
        requires
            old(self).inv(),
        ensures
            final(self).inv(),
            final(self).took(old(self), old(self).machine().skip_blank(old(self).peek())),
            final(self).state == old(self).state,
            final(self).elements == old(self).elements,
    {
        if self.pos < self.lines.len() && blank(self.lines[self.pos].as_slice()) {
            self.pos += 1;
        }
    }

    /// Puts `e` after the last element.
    fn emit(&mut self, e: Element)
        ensures
            final(self).lines == old(self).lines,
            final(self).pos == old(self).pos,
            final(self).title_page == old(self).title_page,
            final(self).machine() == old(self).machine().emit(e@),
    {
        self.elements.push(e);
        assert(self.elements.deep_view() =~= old(self).elements.deep_view().push(e@));
    }

    /// Takes the last element out.
    fn take_last(&mut self) -> (e: Element)
        requires
            old(self).elements@.len() > 0,
        ensures
            final(self).lines == old(self).lines,
            final(self).pos == old(self).pos,
            final(self).state == old(self).state,
            final(self).title_page == old(self).title_page,
            e == old(self).elements@.last(),
            e@ == old(self).machine().elements.last(),
            final(self).elements@ == old(self).elements@.drop_last(),
            final(self).machine().elements == old(self).machine().elements.drop_last(),
    {
        let e = self.elements.pop().unwrap();
        assert(self.elements.deep_view() =~= old(self).elements.deep_view().drop_last());
        e
    }

    /// A page break, where the line asks for one.
    fn try_page_break(&mut self, t: &[Glyph]) -> (matched: bool)
        ensures
            final(self).tried(old(self), page_break_rule(old(self).machine(), t@), matched),
    {
        if starts_with(t, "===") {
            self.emit(Element::PageBreak);
            true
        } else {
            false
        }
    }

    /// Action, where the line is marked as such.
    fn try_forced_action(&mut self, t: &[Glyph]) -> (matched: bool)
        ensures
            final(self).tried(old(self), forced_action_rule(old(self).machine(), t@), matched),
    {
        if t.len() > 0 && t[0].0 == '!' {
            let inner = slice_subrange(t, 1, t.len());
            assert(inner@ =~= t@.drop_first());
            self.emit(Element::Action(rich(inner)));
            self.state = State::Continuation;
            true
        } else {
            false
        }
    }

    /// Centered text, where the line stands between `>` and `<`.
    fn try_centered(&mut self, t: &[Glyph]) -> (matched: bool)
        ensures
            final(self).tried(old(self), centered_rule(old(self).machine(), t@), matched),
    {
        let n = t.len();
        if n >= 2 && t[0].0 == '>' && t[n - 1].0 == '<' {
            let inner = slice_subrange(t, 1, n - 1);
            if self.state == State::Continuation && self.elements.len() > 0 {
                match self.take_last() {
                    Element::CenteredText(rs) => {
                        let mut rs = rs;
                        push_line(&mut rs, inner);
                        self.emit(Element::CenteredText(rs));
                        return true;
                    },
                    other => {
                        self.emit(other);
                        assert(self.machine().elements =~= old(self).machine().elements);
                    },
                }
            }
            self.emit(Element::CenteredText(rich(inner)));
            self.state = State::Continuation;
            true
        } else {
            false
        }
    }

    /// Lyrics, where the line starts with `~`.
    fn try_lyrics(&mut self, t: &[Glyph]) -> (matched: bool)
        ensures
            final(self).tried(old(self), lyrics_rule(old(self).machine(), t@), matched),
    {
        if t.len() > 0 && t[0].0 == '~' {
            let inner = slice_subrange(t, 1, t.len());
            assert(inner@ =~= t@.drop_first());
            if self.state == State::Continuation && self.elements.len() > 0 {
                match self.take_last() {
                    Element::Lyrics(rs) => {
                        let mut rs = rs;
                        push_line(&mut rs, inner);
                        self.emit(Element::Lyrics(rs));
                        return true;
                    },
                    other => {
                        self.emit(other);
                        assert(self.machine().elements =~= old(self).machine().elements);
                    },
                }
            }
            self.emit(Element::Lyrics(rich(inner)));
            self.state = State::Continuation;
            true
        } else {
            false
        }
    }

    /// Action, whatever the line looks like: no line fails to match.
    fn try_action(&mut self, line: &[Glyph]) -> (matched: bool)
        ensures
            matched,
            final(self).took(old(self), action_rule(old(self).machine(), line@)),
    {
        if self.state == State::Continuation && self.elements.len() > 0 {
            match self.take_last() {
                Element::Action(rs) => {
                    let mut rs = rs;
                    push_line(&mut rs, line);
                    self.emit(Element::Action(rs));
                    return true;
                },
                other => {
                    self.emit(other);
                    assert(self.machine().elements =~= old(self).machine().elements);
                },
            }
        }
        self.emit(Element::Action(rich(line)));
        self.state = State::Continuation;
        true
    }

    /// A scene heading, where the line is marked as one, or starts as
    /// headings do and has no text on the line after it.
    fn try_heading(&mut self, t: &[Glyph]) -> (matched: bool)
        requires
            old(self).inv(),
        ensures
            final(self).inv(),
            final(self).tried(
                old(self),
                heading_rule(old(self).machine(), t@, old(self).peek()),
                matched,
            ),
    {
        if t.len() >= 2 && t[0].0 == '.' && t[1].1.alphanumeric {
            let inner = slice_subrange(t, 1, t.len());
            assert(inner@ =~= t@.drop_first());
            self.emit(heading(inner));
            return true;
        }
        let prefixed = starts_with_ascii_ci(t, "INT") || starts_with_ascii_ci(t, "EXT")
            || starts_with_ascii_ci(t, "EST") || starts_with_ascii_ci(t, "I/E");
        if prefixed && self.next_line_is_empty() {
            self.emit(heading(t));
            self.skip_blank();
            true
        } else {
            false
        }
    }

    /// A transition, where the line is marked as one, or reads as one and
    /// has no text on the line after it.
    fn try_transition(&mut self, t: &[Glyph]) -> (matched: bool)
        requires
            old(self).inv(),
        ensures
            final(self).inv(),
            final(self).tried(
                old(self),
                transition_rule(old(self).machine(), t@, old(self).peek()),
                matched,
            ),
    {
        let n = t.len();
        if n > 0 && t[0].0 == '>' && t[n - 1].0 != '<' {
            let inner = slice_subrange(t, 1, n);
            assert(inner@ =~= t@.drop_first());
            self.emit(Element::Transition(rich(inner)));
            self.skip_blank();
            return true;
        }
        let ending = ends_with(t, "TO:");
        if ending && !any_lowercase(t) && self.next_line_is_empty() {
            self.emit(Element::Transition(rich(t)));
            self.skip_blank();
            true
        } else {
            false
        }
    }

    /// Opens the dialogue of the cue `text`, as a dual dialogue where the cue
    /// ends with `^` and the dialogue of one character stands right before it.
    fn start_dialogue(&mut self, text: &[Glyph])
        ensures
            final(self).took(old(self), open_dialogue(old(self).machine(), text@).stay()),
    {
        let t = trimmed_end(text);
        let n = t.len();
        if n > 0 && t[n - 1].0 == '^' && self.elements.len() > 0 {
            match self.take_last() {
                Element::Dialogue(first) => {
                    let name = slice_subrange(t, 0, n - 1);
                    assert(name@ =~= t@.drop_last());
                    self.emit(Element::DualDialogue(first, dialogue(name)));
                    self.state = State::InDialogue;
                    return ;
                },
                other => {
                    self.emit(other);
                    assert(self.machine().elements =~= old(self).machine().elements);
                },
            }
        }
        self.emit(Element::Dialogue(dialogue(text)));
        self.state = State::InDialogue;
    }

    /// A dialogue, where the line starts with `@`, or reads as a character
    /// cue and has text on the line after it.
    fn try_dialogue_start(&mut self, t: &[Glyph]) -> (matched: bool)
        requires
            old(self).inv(),
        ensures
            final(self).inv(),
            final(self).tried(
                old(self),
                dialogue_rule(old(self).machine(), t@, old(self).peek()),
                matched,
            ),
    {
        if t.len() > 0 && t[0].0 == '@' {
            let inner = slice_subrange(t, 1, t.len());
            assert(inner@ =~= t@.drop_first());
            self.start_dialogue(inner);
            return true;
        }
        let open = find_from(t, '(', 0);
        let head = slice_subrange(t, 0, open);
        assert(head@ =~= t@.take(open as int));
        if any_alphabetic(head) && !any_lowercase(head) && !self.next_line_is_empty() {
            self.start_dialogue(t);
            true
        } else {
            false
        }
    }

    /// Adds the line to the dialogue that the last element holds: as a
    /// parenthetical if it starts with `(`, as a line of speech otherwise.
    fn say(&mut self, t: &[Glyph])
        requires
            old(self).machine().in_speech(),
        ensures
            final(self).took(old(self), speech_rule(old(self).machine(), t@)),
            final(self).machine().in_speech(),
    {
        let part = if t.len() > 0 && t[0].0 == '(' {
            DialogueElement::Parenthetical(rich(t))
        } else {
            DialogueElement::Line(rich(t))
        };
        match self.take_last() {
            Element::Dialogue(d) => {
                let mut d = d;
                let ghost parts = d.elements.deep_view();
                d.elements.push(part);
                assert(d.elements.deep_view() =~= parts.push(part@));
                self.emit(Element::Dialogue(d));
            },
            Element::DualDialogue(first, d) => {
                let mut d = d;
                let ghost parts = d.elements.deep_view();
                d.elements.push(part);
                assert(d.elements.deep_view() =~= parts.push(part@));
                self.emit(Element::DualDialogue(first, d));
            },
            other => {
                self.emit(other);
            },
        }
    }

    /// Reads the title page keys at the cursor and the blank line after them.
    fn parse_title(&mut self)
        requires
            old(self).inv(),
        ensures
            final(self).inv(),
            final(self).lines == old(self).lines,
            final(self).state == old(self).state,
            final(self).elements == old(self).elements,
            ({
                let lines = old(self).texts();
                let title = scan_title(lines, old(self).pos as int, TitlePageView::empty());
                &&& final(self).pos == after_blank(lines, title.pos)
                &&& final(self).title_page.deep_view() == title_page_of(title.page)
            }),
    {
        let ghost lines = self.texts();
        let ghost goal = scan_title(lines, self.pos as int, TitlePageView::empty());
        let mut page = TitlePage::new();
        let source = self.lines;
        while self.pos < self.lines.len()
            invariant
                self.inv(),
                self.lines == old(self).lines,
                source == self.lines,
                self.texts() == lines,
                self.state == old(self).state,
                self.elements == old(self).elements,
                self.title_page == old(self).title_page,
                scan_title(lines, self.pos as int, page@) == goal,
            ensures
                self.inv(),
                self.lines == old(self).lines,
                self.state == old(self).state,
                self.elements == old(self).elements,
                goal.page == page@,
                goal.pos == self.pos,
            decreases self.lines@.len() - self.pos,
        {
            let line = source[self.pos].as_slice();
            assert(line@ == lines[self.pos as int]);
            let colon = find_from(line, ':', 0);
            if colon >= line.len() {
                break ;
            }
            self.pos += 1;
            let key = slice_subrange(line, 0, colon);
            assert(key@ =~= line@.take(colon as int));
            let value = slice_subrange(line, colon + 1, line.len());
            assert(value@ =~= line@.skip(colon + 1));
            let values = if blank(value) {
                self.take_indented_block()
            } else {
                let mut one: Vec<RichString> = Vec::new();
                one.push(rich(trimmed(value)));
                assert(one.deep_view() =~= seq![one@[0]@]);
                one
            };
            set_field(&mut page, key, values);
        }
        if self.next_line_is_empty() {
            if self.pos < self.lines.len() {
                self.pos += 1;
            }
        }
        let is_empty = page.title.len() == 0 && page.credit.len() == 0 && page.authors.len() == 0
            && page.source.len() == 0 && page.draft_date.len() == 0 && page.contact.len() == 0;
        if !is_empty {
            self.title_page = Some(page);
        } else {
            self.title_page = None;
        }
    }

    /// Reads the indented lines at the cursor, each as one value.
    fn take_indented_block(&mut self) -> (out: Vec<RichString>)
        requires
            old(self).inv(),
        ensures
            final(self).inv(),
            final(self).lines == old(self).lines,
            final(self).state == old(self).state,
            final(self).elements == old(self).elements,
            final(self).title_page == old(self).title_page,
            final(self).pos == old(self).pos + indented_run(old(self).texts(), old(self).pos as int),
            out.deep_view() == block_values(
                old(self).texts(),
                old(self).pos as int,
                indented_run(old(self).texts(), old(self).pos as int),
            ),
    {
        let ghost lines = self.texts();
        let ghost start = self.pos as int;
        let mut out: Vec<RichString> = Vec::new();
        let source = self.lines;
        while self.pos < self.lines.len() && starts_with(source[self.pos].as_slice(), "   ")
            invariant
                self.inv(),
                self.lines == old(self).lines,
                source == self.lines,
                self.texts() == lines,
                self.state == old(self).state,
                self.elements == old(self).elements,
                self.title_page == old(self).title_page,
                start <= self.pos,
                out@.len() == self.pos - start,
                (self.pos - start) + indented_run(lines, self.pos as int) == indented_run(
                    lines,
                    start,
                ),
                forall|i: int|
                    0 <= i < out@.len() ==> (#[trigger] out@[i])@ == tokenize_trimmed(
                        lines[start + i],
                    ),
            decreases self.lines@.len() - self.pos,
        {
            let line = source[self.pos].as_slice();
            assert(line@ == lines[self.pos as int]);
            out.push(rich(trimmed(line)));
            self.pos += 1;
        }
        assert(out.deep_view() =~= block_values(lines, start, indented_run(lines, start)));
        out
    }
}

/// The value that a line of a title page block gives.
spec fn tokenize_trimmed(line: Seq<Glyph>) -> Seq<Span> {
    tokenize(chars(trim(line)))
}

} // verus!
