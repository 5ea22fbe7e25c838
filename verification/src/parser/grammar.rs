//! What a document means: the rules by which its lines become a title page
//! and a sequence of elements, as functions on sequences of characters.
//!
//! A line is classified by its shape, by the state the classifier is in, and
//! by whether the line after it is blank. The rules are tried in a fixed
//! order and the first that matches decides.

use vstd::prelude::*;

use crate::rich_string::{
    extend, lemma_extend_well_formed, lemma_tokenize_well_formed, styled, tokenize, well_formed,
    Span,
};
use crate::screenplay::{
    all_well_formed, DialogueElementView, DialogueView, ElementView, ScreenplayView,
    TitlePageView,
};
use crate::text::{
    chars, find, has_alphabetic, has_lowercase, has_prefix, has_suffix, is_blank, rfind,
    spells_ignoring_ascii_case, trim, trim_end, Glyph,
};

verus! {

/// The states of the line classifier.
#[derive(Debug, PartialEq, Eq, Structural, Clone, Copy)]
pub enum State {
    /// Between blocks.
    Default,
    /// Inside the dialogue that the last element holds.
    InDialogue,
    /// After a line of action, centered text or lyrics, which the next line
    /// may continue.
    Continuation,
}

/// What the classifier has made of the lines it has read.
pub struct Machine {
    pub state: State,
    pub elements: Seq<ElementView>,
}

/// The classifier after a line, and whether the line after that one was
/// consumed with it.
pub struct Step {
    pub machine: Machine,
    pub skip_next: bool,
}

impl Machine {
    /// The classifier before the first line.
    pub open spec fn start() -> Machine {
        Machine { state: State::Default, elements: Seq::empty() }
    }

    /// With `e` as a new last element.
    pub open spec fn emit(self, e: ElementView) -> Machine {
        Machine { elements: self.elements.push(e), ..self }
    }

    /// With `e` in the place of the last element.
    pub open spec fn replace_last(self, e: ElementView) -> Machine {
        Machine { elements: self.elements.drop_last().push(e), ..self }
    }

    /// In the state `state`.
    pub open spec fn enter(self, state: State) -> Machine {
        Machine { state: state, ..self }
    }

    /// Whether the last element is the dialogue of one character.
    pub open spec fn ends_with_dialogue(self) -> bool {
        self.elements.len() > 0 && self.elements.last() is Dialogue
    }

    /// Whether the last element holds a dialogue that lines can be added to.
    pub open spec fn in_speech(self) -> bool {
        self.elements.len() > 0 && (self.elements.last() is Dialogue
            || self.elements.last() is DualDialogue)
    }

    /// Inside a dialogue, the last element is one.
    pub open spec fn consistent(self) -> bool {
        self.state == State::InDialogue ==> self.in_speech()
    }

    /// The step that leaves the line after this one alone.
    pub open spec fn stay(self) -> Step {
        Step { machine: self, skip_next: false }
    }

    /// The step that consumes the line after this one if it is there and
    /// blank.
    pub open spec fn skip_blank(self, next: Option<Seq<Glyph>>) -> Step {
        Step { machine: self, skip_next: next is Some && is_blank(next->0) }
    }
}

/// Whether there is no line `next`, or a blank one.
pub open spec fn blank_or_absent(next: Option<Seq<Glyph>>) -> bool {
    match next {
        Some(l) => is_blank(l),
        None => true,
    }
}

/// What follows the character `c` at the start of `t`, if `t` starts with it.
pub open spec fn strip_prefix(t: Seq<Glyph>, c: char) -> Option<Seq<Glyph>> {
    if t.len() > 0 && t[0].0 == c {
        Some(t.drop_first())
    } else {
        None
    }
}

/// Whether `t` starts with `p`, the case of the letters `a` to `z` left aside.
pub open spec fn starts_with_ignore_ascii_case(t: Seq<Glyph>, p: Seq<char>) -> bool {
    p.len() <= t.len() && spells_ignoring_ascii_case(t.take(p.len() as int), p)
}

/// Whether the line is blank and not marked, by two spaces at its start, as
/// blank on purpose. Such a line ends whatever block it stands after.
pub open spec fn ends_block(line: Seq<Glyph>) -> bool {
    trim(line).len() == 0 && !has_prefix(line, "  "@)
}

/// Whether the trimmed line `t` asks for a new page.
pub open spec fn is_page_break(t: Seq<Glyph>) -> bool {
    has_prefix(t, "==="@)
}

/// What stands between `>` and `<` if the trimmed line `t` starts with the
/// one and ends with the other.
pub open spec fn centered_text(t: Seq<Glyph>) -> Option<Seq<Glyph>> {
    if t.len() >= 2 && t[0].0 == '>' && t.last().0 == '<' {
        Some(t.subrange(1, t.len() - 1))
    } else {
        None
    }
}

/// Whether the trimmed line `t` is marked as a scene heading: a full stop and
/// then a letter or a number.
pub open spec fn is_forced_heading(t: Seq<Glyph>) -> bool {
    t.len() >= 2 && t[0].0 == '.' && t[1].1.alphanumeric
}

/// Whether the trimmed line `t` starts as scene headings do.
pub open spec fn has_scene_prefix(t: Seq<Glyph>) -> bool {
    ||| starts_with_ignore_ascii_case(t, "INT"@)
    ||| starts_with_ignore_ascii_case(t, "EXT"@)
    ||| starts_with_ignore_ascii_case(t, "EST"@)
    ||| starts_with_ignore_ascii_case(t, "I/E"@)
}

/// Whether `g` may stand in a scene number: a letter, a number, `-` or `.`.
pub open spec fn is_number_char(g: Glyph) -> bool {
    g.1.alphanumeric || g.0 == '-' || g.0 == '.'
}

/// Whether every character of `s` may stand in a scene number.
pub open spec fn is_scene_number(s: Seq<Glyph>) -> bool {
    forall|i: int| 0 <= i < s.len() ==> is_number_char(#[trigger] s[i])
}

/// The heading `text` as its slug and its scene number. A scene number stands
/// between two `#` at the end of the heading; white space may follow it.
pub open spec fn split_scene_number(text: Seq<Glyph>) -> (Seq<Glyph>, Option<Seq<Glyph>>) {
    let t = trim_end(text);
    if t.len() > 0 && t.last().0 == '#' {
        let head = t.drop_last();
        let k = rfind(head, '#', head.len() as int);
        if 0 <= k && is_scene_number(head.skip(k + 1)) {
            (head.take(k), Some(head.skip(k + 1)))
        } else {
            (text, None)
        }
    } else {
        (text, None)
    }
}

/// The heading element for the text `text`.
pub open spec fn heading_of(text: Seq<Glyph>) -> ElementView {
    let (slug, number) = split_scene_number(text);
    ElementView::Heading {
        slug: tokenize(chars(slug)),
        number: match number {
            Some(n) => Some(chars(n)),
            None => None,
        },
    }
}

/// Whether the trimmed line `t` is marked as a transition: it starts with `>`
/// and does not end with `<`.
pub open spec fn is_forced_transition(t: Seq<Glyph>) -> bool {
    t.len() > 0 && t[0].0 == '>' && t.last().0 != '<'
}

/// Whether the trimmed line `t` reads as a transition: it ends with `TO:` and
/// holds no lowercase character.
pub open spec fn looks_like_transition(t: Seq<Glyph>) -> bool {
    has_suffix(t, "TO:"@) && !has_lowercase(t)
}

/// The part of a character cue `t` that stands before its first `(`.
pub open spec fn cue_head(t: Seq<Glyph>) -> Seq<Glyph> {
    t.take(find(t, '(', 0))
}

/// Whether the trimmed line `t` reads as a character cue: before any `(` it
/// holds a letter and no lowercase character.
pub open spec fn looks_like_cue(t: Seq<Glyph>) -> bool {
    has_alphabetic(cue_head(t)) && !has_lowercase(cue_head(t))
}

/// The character cue `name` as the character's name and the extension in
/// parentheses after it. What stands after the closing parenthesis is left
/// out.
pub open spec fn split_extension(name: Seq<Glyph>) -> (Seq<Glyph>, Option<Seq<Glyph>>) {
    let open = find(name, '(', 0);
    if open < name.len() {
        let tail = name.skip(open + 1);
        let close = find(tail, ')', 0);
        if close < tail.len() {
            (trim_end(name.take(open)), Some(tail.take(close)))
        } else {
            (name, None)
        }
    } else {
        (name, None)
    }
}

/// The dialogue that the cue `name` opens.
pub open spec fn dialogue_of(name: Seq<Glyph>) -> DialogueView {
    let (who, extension) = split_extension(name);
    DialogueView {
        character: tokenize(chars(who)),
        extension: match extension {
            Some(e) => Some(tokenize(chars(e))),
            None => None,
        },
        elements: Seq::empty(),
    }
}

/// The rich string `rs` with a line break and then `text` after it.
pub open spec fn append_line(rs: Seq<Span>, text: Seq<char>) -> Seq<Span> {
    extend(extend(rs, styled(seq!['\n'])), styled(text))
}

/// A line of three or more `=` gives a page break and leaves the state as it
/// is.
pub open spec fn page_break_rule(m: Machine, t: Seq<Glyph>) -> Option<Step> {
    if is_page_break(t) {
        Some(m.emit(ElementView::PageBreak).stay())
    } else {
        None
    }
}

/// A line that starts with `!` is action, whatever else it looks like.
pub open spec fn forced_action_rule(m: Machine, t: Seq<Glyph>) -> Option<Step> {
    match strip_prefix(t, '!') {
        Some(inner) => Some(
            m.emit(ElementView::Action(tokenize(chars(inner)))).enter(State::Continuation).stay(),
        ),
        None => None,
    }
}

/// A line between `>` and `<` is centered text. It continues centered text
/// that stands right before it.
pub open spec fn centered_rule(m: Machine, t: Seq<Glyph>) -> Option<Step> {
    match centered_text(t) {
        Some(inner) => Some(
            if m.state == State::Continuation && m.elements.len() > 0
                && m.elements.last() is CenteredText {
                m.replace_last(
                    ElementView::CenteredText(
                        append_line(m.elements.last()->CenteredText_0, chars(inner)),
                    ),
                ).stay()
            } else {
                m.emit(ElementView::CenteredText(tokenize(chars(inner)))).enter(
                    State::Continuation,
                ).stay()
            },
        ),
        None => None,
    }
}

/// A line that starts with `~` is lyrics. It continues lyrics that stand
/// right before it.
pub open spec fn lyrics_rule(m: Machine, t: Seq<Glyph>) -> Option<Step> {
    match strip_prefix(t, '~') {
        Some(inner) => Some(
            if m.state == State::Continuation && m.elements.len() > 0
                && m.elements.last() is Lyrics {
                m.replace_last(
                    ElementView::Lyrics(append_line(m.elements.last()->Lyrics_0, chars(inner))),
                ).stay()
            } else {
                m.emit(ElementView::Lyrics(tokenize(chars(inner)))).enter(State::Continuation).stay()
            },
        ),
        None => None,
    }
}

/// A line that is marked as a heading, or that starts as headings do and has
/// no text on the line after it, is a scene heading. Of the two only the
/// second consumes the blank line after it.
pub open spec fn heading_rule(m: Machine, t: Seq<Glyph>, next: Option<Seq<Glyph>>) -> Option<Step> {
    if is_forced_heading(t) {
        Some(m.emit(heading_of(t.drop_first())).stay())
    } else if has_scene_prefix(t) && blank_or_absent(next) {
        Some(m.emit(heading_of(t)).skip_blank(next))
    } else {
        None
    }
}

/// A line that is marked as a transition, or that reads as one and has no
/// text on the line after it, is a transition. It consumes the blank line
/// after it.
pub open spec fn transition_rule(m: Machine, t: Seq<Glyph>, next: Option<Seq<Glyph>>) -> Option<
    Step,
> {
    if is_forced_transition(t) {
        Some(m.emit(ElementView::Transition(tokenize(chars(t.drop_first())))).skip_blank(next))
    } else if looks_like_transition(t) && blank_or_absent(next) {
        Some(m.emit(ElementView::Transition(tokenize(chars(t)))).skip_blank(next))
    } else {
        None
    }
}

/// The classifier after the cue `text` has opened a dialogue.
///
/// A `^` at the end of the cue, when the dialogue of one character stands
/// right before it, joins the two into a dual dialogue and is left out of the
/// name. In any other place the `^` is part of the name.
pub open spec fn open_dialogue(m: Machine, text: Seq<Glyph>) -> Machine {
    let t = trim_end(text);
    if t.len() > 0 && t.last().0 == '^' && m.ends_with_dialogue() {
        m.replace_last(
            ElementView::DualDialogue(m.elements.last()->Dialogue_0, dialogue_of(t.drop_last())),
        ).enter(State::InDialogue)
    } else {
        m.emit(ElementView::Dialogue(dialogue_of(text))).enter(State::InDialogue)
    }
}

/// A line that starts with `@`, or that reads as a character cue and has text
/// on the line after it, opens a dialogue.
pub open spec fn dialogue_rule(m: Machine, t: Seq<Glyph>, next: Option<Seq<Glyph>>) -> Option<
    Step,
> {
    match strip_prefix(t, '@') {
        Some(inner) => Some(open_dialogue(m, inner).stay()),
        None => if looks_like_cue(t) && !blank_or_absent(next) {
            Some(open_dialogue(m, t).stay())
        } else {
            None
        },
    }
}

/// Any line is action, with the white space around it. It continues action
/// that stands right before it.
pub open spec fn action_rule(m: Machine, line: Seq<Glyph>) -> Step {
    if m.state == State::Continuation && m.elements.len() > 0 && m.elements.last() is Action {
        m.replace_last(
            ElementView::Action(append_line(m.elements.last()->Action_0, chars(line))),
        ).stay()
    } else {
        m.emit(ElementView::Action(tokenize(chars(line)))).enter(State::Continuation).stay()
    }
}

/// The part of a dialogue that the trimmed line `t` is.
pub open spec fn speech_part(t: Seq<Glyph>) -> DialogueElementView {
    if t.len() > 0 && t[0].0 == '(' {
        DialogueElementView::Parenthetical(tokenize(chars(t)))
    } else {
        DialogueElementView::Line(tokenize(chars(t)))
    }
}

/// The dialogue `d` with `part` after its last part.
pub open spec fn with_part(d: DialogueView, part: DialogueElementView) -> DialogueView {
    DialogueView { elements: d.elements.push(part), ..d }
}

/// Inside a dialogue, a line is a parenthetical if it starts with `(` and a
/// line of speech otherwise. It belongs to the dialogue that was opened last:
/// in a dual dialogue, to the second.
pub open spec fn speech_rule(m: Machine, t: Seq<Glyph>) -> Step {
    if m.elements.len() > 0 {
        match m.elements.last() {
            ElementView::Dialogue(d) => m.replace_last(
                ElementView::Dialogue(with_part(d, speech_part(t))),
            ).stay(),
            ElementView::DualDialogue(a, b) => m.replace_last(
                ElementView::DualDialogue(a, with_part(b, speech_part(t))),
            ).stay(),
            _ => m.stay(),
        }
    } else {
        m.stay()
    }
}

/// What the line `line` makes of the classifier outside a dialogue: the first
/// rule that matches decides.
pub open spec fn block_rules(m: Machine, line: Seq<Glyph>, next: Option<Seq<Glyph>>) -> Step {
    let t = trim(line);
    if page_break_rule(m, t) is Some {
        page_break_rule(m, t)->0
    } else if forced_action_rule(m, t) is Some {
        forced_action_rule(m, t)->0
    } else if centered_rule(m, t) is Some {
        centered_rule(m, t)->0
    } else if lyrics_rule(m, t) is Some {
        lyrics_rule(m, t)->0
    } else if heading_rule(m, t, next) is Some {
        heading_rule(m, t, next)->0
    } else if transition_rule(m, t, next) is Some {
        transition_rule(m, t, next)->0
    } else if dialogue_rule(m, t, next) is Some {
        dialogue_rule(m, t, next)->0
    } else {
        action_rule(m, line)
    }
}

/// What the line `line` makes of the classifier, where `next` is the line
/// after it, if there is one.
pub open spec fn step(m: Machine, line: Seq<Glyph>, next: Option<Seq<Glyph>>) -> Step {
    if ends_block(line) {
        m.enter(State::Default).stay()
    } else if m.state == State::InDialogue {
        speech_rule(m, trim(line))
    } else {
        block_rules(m, line, next)
    }
}

/// The line of `lines` at `pos`, if there is one.
pub open spec fn line_at(lines: Seq<Seq<Glyph>>, pos: int) -> Option<Seq<Glyph>> {
    if 0 <= pos < lines.len() {
        Some(lines[pos])
    } else {
        None
    }
}

/// The elements that the classifier `m` ends with once it has read `lines`
/// from `pos` on.
pub open spec fn classify(lines: Seq<Seq<Glyph>>, pos: int, m: Machine) -> Seq<ElementView>
    decreases lines.len() - pos,
{
    if pos < 0 || pos >= lines.len() {
        m.elements
    } else {
        let s = step(m, lines[pos], line_at(lines, pos + 1));
        classify(
            lines,
            if s.skip_next {
                pos + 2
            } else {
                pos + 1
            },
            s.machine,
        )
    }
}

/// Whether `key`, trimmed, is the title page key `name`, whatever the case of
/// its letters.
pub open spec fn is_key(key: Seq<Glyph>, name: Seq<char>) -> bool {
    spells_ignoring_ascii_case(trim(key), name)
}

/// The title page `page` after the key `key` was given the values `values`.
/// A key that is not known changes nothing.
pub open spec fn with_field(page: TitlePageView, key: Seq<Glyph>, values: Seq<Seq<Span>>)
    -> TitlePageView {
    if is_key(key, "TITLE"@) {
        TitlePageView { title: values, ..page }
    } else if is_key(key, "CREDIT"@) {
        TitlePageView { credit: values, ..page }
    } else if is_key(key, "AUTHOR"@) || is_key(key, "AUTHORS"@) {
        TitlePageView { authors: values, ..page }
    } else if is_key(key, "SOURCE"@) {
        TitlePageView { source: values, ..page }
    } else if is_key(key, "DRAFT DATE"@) {
        TitlePageView { draft_date: values, ..page }
    } else if is_key(key, "CONTACT"@) {
        TitlePageView { contact: values, ..page }
    } else {
        page
    }
}

/// Whether the line continues the value of a title page key: it starts with
/// three spaces.
pub open spec fn is_indented(line: Seq<Glyph>) -> bool {
    has_prefix(line, "   "@)
}

/// The number of indented lines that stand in `lines` at `pos` and right
/// after it.
pub open spec fn indented_run(lines: Seq<Seq<Glyph>>, pos: int) -> nat
    decreases lines.len() - pos,
{
    if 0 <= pos < lines.len() && is_indented(lines[pos]) {
        1 + indented_run(lines, pos + 1)
    } else {
        0
    }
}

/// The values that the `count` lines of `lines` from `pos` on give: each line
/// trimmed and read as inline markup.
pub open spec fn block_values(lines: Seq<Seq<Glyph>>, pos: int, count: nat) -> Seq<Seq<Span>> {
    Seq::new(count, |i: int| tokenize(chars(trim(lines[pos + i]))))
}

/// A title page and the position of the first line after it.
pub struct TitleScan {
    pub page: TitlePageView,
    pub pos: int,
}

/// Reads title page keys from `pos` on into `page`.
///
/// A line with a colon is a key and its value. A value that is not blank is
/// the key's one value. After a blank value, the indented lines that follow
/// are the key's values. Reading stops at the first line without a colon.
pub open spec fn scan_title(lines: Seq<Seq<Glyph>>, pos: int, page: TitlePageView) -> TitleScan
    decreases lines.len() - pos,
    via scan_title_terminates
{
    if pos < 0 || pos >= lines.len() {
        TitleScan { page: page, pos: pos }
    } else {
        let line = lines[pos];
        let colon = find(line, ':', 0);
        if colon >= line.len() {
            TitleScan { page: page, pos: pos }
        } else {
            let key = line.take(colon);
            let value = line.skip(colon + 1);
            if is_blank(value) {
                let count = indented_run(lines, pos + 1);
                scan_title(
                    lines,
                    pos + 1 + count,
                    with_field(page, key, block_values(lines, pos + 1, count)),
                )
            } else {
                scan_title(lines, pos + 1, with_field(page, key, seq![tokenize(chars(trim(value)))]))
            }
        }
    }
}

#[via_fn]
proof fn scan_title_terminates(lines: Seq<Seq<Glyph>>, pos: int, page: TitlePageView) {
    if 0 <= pos < lines.len() {
        lemma_indented_run_fits(lines, pos + 1);
    }
}

/// A run of indented lines ends within the lines.
pub proof fn lemma_indented_run_fits(lines: Seq<Seq<Glyph>>, pos: int)
    requires
        0 <= pos <= lines.len(),
    ensures
        pos + indented_run(lines, pos) <= lines.len(),
    decreases lines.len() - pos,
{
    if pos < lines.len() && is_indented(lines[pos]) {
        lemma_indented_run_fits(lines, pos + 1);
    }
}

/// The position after the blank line at `pos`, or `pos` if no blank line
/// stands there.
pub open spec fn after_blank(lines: Seq<Seq<Glyph>>, pos: int) -> int {
    if 0 <= pos < lines.len() && is_blank(lines[pos]) {
        pos + 1
    } else {
        pos
    }
}

/// The title page of a document if any of its fields holds a value.
pub open spec fn title_page_of(page: TitlePageView) -> Option<TitlePageView> {
    if page.is_empty() {
        None
    } else {
        Some(page)
    }
}

/// The screenplay that the lines `lines` stand for: the title page that the
/// first lines give, if they give one, and the elements that the lines after
/// them are classified into.
pub open spec fn screenplay_of(lines: Seq<Seq<Glyph>>) -> ScreenplayView {
    let title = scan_title(lines, 0, TitlePageView::empty());
    ScreenplayView {
        titlepage: title_page_of(title.page),
        elements: classify(lines, after_blank(lines, title.pos), Machine::start()),
    }
}

/// Whether every rich string in `elements` is well formed.
pub open spec fn elements_well_formed(elements: Seq<ElementView>) -> bool {
    forall|i: int| 0 <= i < elements.len() ==> (#[trigger] elements[i]).well_formed()
}

/// A line appended to a well-formed rich string leaves it well formed.
pub proof fn lemma_append_line_well_formed(rs: Seq<Span>, text: Seq<char>)
    requires
        well_formed(rs),
    ensures
        well_formed(append_line(rs, text)),
{
    lemma_extend_well_formed(rs, styled(seq!['\n']));
    lemma_extend_well_formed(extend(rs, styled(seq!['\n'])), styled(text));
}

/// The heading element of any text is well formed.
pub proof fn lemma_heading_well_formed(text: Seq<Glyph>)
    ensures
        heading_of(text).well_formed(),
{
    let (slug, number) = split_scene_number(text);
    lemma_tokenize_well_formed(chars(slug));
}

/// The dialogue that any cue opens is well formed.
pub proof fn lemma_dialogue_well_formed(name: Seq<Glyph>)
    ensures
        dialogue_of(name).well_formed(),
{
    let (who, extension) = split_extension(name);
    lemma_tokenize_well_formed(chars(who));
    if extension is Some {
        lemma_tokenize_well_formed(chars(extension->0));
    }
}

/// A new last element that is well formed keeps the elements well formed.
proof fn lemma_emit_well_formed(m: Machine, e: ElementView)
    requires
        elements_well_formed(m.elements),
        e.well_formed(),
    ensures
        elements_well_formed(m.emit(e).elements),
{
    let out = m.emit(e).elements;
    assert forall|i: int| 0 <= i < out.len() implies (#[trigger] out[i]).well_formed() by {
        if i < m.elements.len() {
            assert(out[i] == m.elements[i]);
        }
    }
}

/// A well-formed element in the place of the last one keeps the elements well
/// formed.
proof fn lemma_replace_last_well_formed(m: Machine, e: ElementView)
    requires
        elements_well_formed(m.elements),
        m.elements.len() > 0,
        e.well_formed(),
    ensures
        elements_well_formed(m.replace_last(e).elements),
{
    let out = m.replace_last(e).elements;
    assert forall|i: int| 0 <= i < out.len() implies (#[trigger] out[i]).well_formed() by {
        if i < m.elements.len() - 1 {
            assert(out[i] == m.elements[i]);
        }
    }
}

/// A part added to a well-formed dialogue leaves it well formed.
proof fn lemma_with_part_well_formed(d: DialogueView, t: Seq<Glyph>)
    requires
        d.well_formed(),
    ensures
        with_part(d, speech_part(t)).well_formed(),
{
    lemma_tokenize_well_formed(chars(t));
    let out = with_part(d, speech_part(t));
    assert forall|i: int| 0 <= i < out.elements.len() implies well_formed(
        (#[trigger] out.elements[i]).text(),
    ) by {
        if i < d.elements.len() {
            assert(out.elements[i] == d.elements[i]);
        }
    }
}

/// Whatever a line is taken for, the rich strings of the elements stay well
/// formed: none has an empty run or two neighbouring runs of one style.
pub proof fn lemma_step_well_formed(m: Machine, line: Seq<Glyph>, next: Option<Seq<Glyph>>)
    requires
        elements_well_formed(m.elements),
    ensures
        elements_well_formed(step(m, line, next).machine.elements),
{
    let t = trim(line);
    if ends_block(line) {
    } else if m.state == State::InDialogue {
        if m.elements.len() > 0 {
            match m.elements.last() {
                ElementView::Dialogue(d) => {
                    lemma_with_part_well_formed(d, t);
                    lemma_replace_last_well_formed(
                        m,
                        ElementView::Dialogue(with_part(d, speech_part(t))),
                    );
                },
                ElementView::DualDialogue(a, b) => {
                    lemma_with_part_well_formed(b, t);
                    lemma_replace_last_well_formed(
                        m,
                        ElementView::DualDialogue(a, with_part(b, speech_part(t))),
                    );
                },
                _ => {},
            }
        }
    } else if page_break_rule(m, t) is Some {
        lemma_emit_well_formed(m, ElementView::PageBreak);
    } else if forced_action_rule(m, t) is Some {
        let inner = strip_prefix(t, '!')->0;
        lemma_tokenize_well_formed(chars(inner));
        lemma_emit_well_formed(m, ElementView::Action(tokenize(chars(inner))));
    } else if centered_rule(m, t) is Some {
        let inner = centered_text(t)->0;
        if m.state == State::Continuation && m.elements.len() > 0
            && m.elements.last() is CenteredText {
            let before = m.elements.last()->CenteredText_0;
            lemma_append_line_well_formed(before, chars(inner));
            lemma_replace_last_well_formed(
                m,
                ElementView::CenteredText(append_line(before, chars(inner))),
            );
        } else {
            lemma_tokenize_well_formed(chars(inner));
            lemma_emit_well_formed(m, ElementView::CenteredText(tokenize(chars(inner))));
        }
    } else if lyrics_rule(m, t) is Some {
        let inner = strip_prefix(t, '~')->0;
        if m.state == State::Continuation && m.elements.len() > 0 && m.elements.last() is Lyrics {
            let before = m.elements.last()->Lyrics_0;
            lemma_append_line_well_formed(before, chars(inner));
            lemma_replace_last_well_formed(
                m,
                ElementView::Lyrics(append_line(before, chars(inner))),
            );
        } else {
            lemma_tokenize_well_formed(chars(inner));
            lemma_emit_well_formed(m, ElementView::Lyrics(tokenize(chars(inner))));
        }
    } else if heading_rule(m, t, next) is Some {
        if is_forced_heading(t) {
            lemma_heading_well_formed(t.drop_first());
            lemma_emit_well_formed(m, heading_of(t.drop_first()));
        } else {
            lemma_heading_well_formed(t);
            lemma_emit_well_formed(m, heading_of(t));
        }
    } else if transition_rule(m, t, next) is Some {
        if is_forced_transition(t) {
            lemma_tokenize_well_formed(chars(t.drop_first()));
            lemma_emit_well_formed(m, ElementView::Transition(tokenize(chars(t.drop_first()))));
        } else {
            lemma_tokenize_well_formed(chars(t));
            lemma_emit_well_formed(m, ElementView::Transition(tokenize(chars(t))));
        }
    } else if dialogue_rule(m, t, next) is Some {
        let text = match strip_prefix(t, '@') {
            Some(inner) => inner,
            None => t,
        };
        let e = trim_end(text);
        if e.len() > 0 && e.last().0 == '^' && m.ends_with_dialogue() {
            lemma_dialogue_well_formed(e.drop_last());
            lemma_replace_last_well_formed(
                m,
                ElementView::DualDialogue(
                    m.elements.last()->Dialogue_0,
                    dialogue_of(e.drop_last()),
                ),
            );
        } else {
            lemma_dialogue_well_formed(text);
            lemma_emit_well_formed(m, ElementView::Dialogue(dialogue_of(text)));
        }
    } else {
        if m.state == State::Continuation && m.elements.len() > 0 && m.elements.last() is Action {
            let before = m.elements.last()->Action_0;
            lemma_append_line_well_formed(before, chars(line));
            lemma_replace_last_well_formed(
                m,
                ElementView::Action(append_line(before, chars(line))),
            );
        } else {
            lemma_tokenize_well_formed(chars(line));
            lemma_emit_well_formed(m, ElementView::Action(tokenize(chars(line))));
        }
    }
}

/// Inside a dialogue there is always a dialogue to add to: whatever a line is
/// taken for, a classifier that is consistent stays so.
pub proof fn lemma_step_consistent(m: Machine, line: Seq<Glyph>, next: Option<Seq<Glyph>>)
    requires
        m.consistent(),
    ensures
        step(m, line, next).machine.consistent(),
{
}

/// The elements keep the order of the document: a line adds an element after
/// the last one or changes the last one, and leaves every element before the
/// last one as it is.
pub proof fn lemma_step_keeps_order(m: Machine, line: Seq<Glyph>, next: Option<Seq<Glyph>>)
    ensures
        step(m, line, next).machine.elements.len() >= m.elements.len(),
        forall|i: int|
            0 <= i < m.elements.len() - 1 ==> step(m, line, next).machine.elements[i]
                == #[trigger] m.elements[i],
{
}

/// The elements that lines are classified into are well formed.
pub proof fn lemma_classify_well_formed(lines: Seq<Seq<Glyph>>, pos: int, m: Machine)
    requires
        elements_well_formed(m.elements),
    ensures
        elements_well_formed(classify(lines, pos, m)),
    decreases lines.len() - pos,
{
    if 0 <= pos < lines.len() {
        let s = step(m, lines[pos], line_at(lines, pos + 1));
        lemma_step_well_formed(m, lines[pos], line_at(lines, pos + 1));
        lemma_classify_well_formed(
            lines,
            if s.skip_next {
                pos + 2
            } else {
                pos + 1
            },
            s.machine,
        );
    }
}

/// A key that is given well-formed values leaves a well-formed title page well
/// formed.
proof fn lemma_with_field_well_formed(page: TitlePageView, key: Seq<Glyph>, values: Seq<Seq<Span>>)
    requires
        page.well_formed(),
        all_well_formed(values),
    ensures
        with_field(page, key, values).well_formed(),
{
}

/// The title page that lines are read into is well formed.
pub proof fn lemma_scan_title_well_formed(lines: Seq<Seq<Glyph>>, pos: int, page: TitlePageView)
    requires
        page.well_formed(),
    ensures
        scan_title(lines, pos, page).page.well_formed(),
    decreases lines.len() - pos,
{
    if 0 <= pos < lines.len() {
        let line = lines[pos];
        let colon = find(line, ':', 0);
        if colon < line.len() {
            let key = line.take(colon);
            let value = line.skip(colon + 1);
            if is_blank(value) {
                let count = indented_run(lines, pos + 1);
                let values = block_values(lines, pos + 1, count);
                assert forall|i: int| 0 <= i < values.len() implies well_formed(
                    #[trigger] values[i],
                ) by {
                    lemma_tokenize_well_formed(chars(trim(lines[pos + 1 + i])));
                }
                lemma_with_field_well_formed(page, key, values);
                lemma_indented_run_fits(lines, pos + 1);
                lemma_scan_title_well_formed(lines, pos + 1 + count, with_field(page, key, values));
            } else {
                let values = seq![tokenize(chars(trim(value)))];
                lemma_tokenize_well_formed(chars(trim(value)));
                lemma_with_field_well_formed(page, key, values);
                lemma_scan_title_well_formed(lines, pos + 1, with_field(page, key, values));
            }
        }
    }
}

/// Every rich string in the screenplay of any lines is well formed: no run is
/// empty, and no two neighbouring runs have the same style.
pub proof fn lemma_screenplay_well_formed(lines: Seq<Seq<Glyph>>)
    ensures
        screenplay_of(lines).well_formed(),
{
    let title = scan_title(lines, 0, TitlePageView::empty());
    lemma_scan_title_well_formed(lines, 0, TitlePageView::empty());
    lemma_classify_well_formed(lines, after_blank(lines, title.pos), Machine::start());
}

} // verus!
