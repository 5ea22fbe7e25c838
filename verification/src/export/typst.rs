//! A screenplay as a Typst document.
//!
//! The document is a template and then one call of a function of the
//! template for each element. The template is the caller's: it defines
//! `screenplay`, `scene`, `dialogue`, `dual_dialogue`, `parenthetical`,
//! `lyrics`, `transition` and `centered`.

use vstd::prelude::*;
use vstd::string::StringExecFns;

use crate::rich_string::{Element as Run, RichString, Span};
use crate::screenplay::{
    DialogueElement, DialogueElementView, Element, ElementView, Screenplay, ScreenplayView,
    TitlePageView,
};
use crate::text::{chars_of, string_of};

verus! {

/// `text` as it stands between the quotes of a Typst string: a backslash
/// before every backslash and every quote.
pub open spec fn escape(text: Seq<char>) -> Seq<char>
    decreases text.len(),
{
    if text.len() == 0 {
        Seq::empty()
    } else if text.last() == '\\' || text.last() == '"' {
        escape(text.drop_last()).push('\\').push(text.last())
    } else {
        escape(text.drop_last()).push(text.last())
    }
}

/// One run: a forced line break for an unstyled newline, else a call of
/// `text` with the run's weight and style, inside a call of `underline`
/// where the run is underlined.
pub open spec fn run_typst(run: Span) -> Seq<char> {
    if run.text == seq!['\n'] {
        "\\ "@
    } else {
        let text = "#text("@ + (if run.attrs.bold {
            "weight: \"bold\","@
        } else {
            ""@
        }) + (if run.attrs.italic {
            "style: \"italic\","@
        } else {
            ""@
        }) + "\""@ + escape(run.text) + "\")"@;
        if run.attrs.underline {
            "#underline["@ + text + "]"@
        } else {
            text
        }
    }
}

/// A rich string: its runs, one after the other.
pub open spec fn rich_typst(runs: Seq<Span>) -> Seq<char>
    decreases runs.len(),
{
    if runs.len() == 0 {
        Seq::empty()
    } else {
        rich_typst(runs.drop_last()) + run_typst(runs.last())
    }
}

/// The values of a title page field, with a forced line break between one and
/// the next.
pub open spec fn values_typst(values: Seq<Seq<Span>>) -> Seq<char>
    decreases values.len(),
{
    if values.len() == 0 {
        Seq::empty()
    } else if values.len() == 1 {
        rich_typst(values[0])
    } else {
        values_typst(values.drop_last()) + "\\ "@ + rich_typst(values.last())
    }
}

/// A title page field: `none` if it has no value, else its values as content.
pub open spec fn field_typst(values: Seq<Seq<Span>>) -> Seq<char> {
    if values.len() == 0 {
        "none"@
    } else {
        "["@ + values_typst(values) + "]"@
    }
}

/// The rule that lays out the whole document, with the title page where there
/// is one.
pub open spec fn title_page_typst(page: Option<TitlePageView>) -> Seq<char> {
    match page {
        Some(p) => "#show: screenplay.with(\n  titlepage: true,\n  title: "@ + field_typst(
            p.title,
        ) + ",\n  credit: "@ + field_typst(p.credit) + ",\n  authors: "@ + field_typst(p.authors)
            + ",\n  source: "@ + field_typst(p.source) + ",\n  draft_date: "@ + field_typst(
            p.draft_date,
        ) + ",\n  contact: "@ + field_typst(p.contact) + ",\n)"@,
        None => "#show: screenplay.with(titlepage: false)"@,
    }
}

/// A part of a dialogue.
pub open spec fn part_typst(part: DialogueElementView) -> Seq<char> {
    match part {
        DialogueElementView::Parenthetical(s) => "#parenthetical["@ + rich_typst(s) + "]"@,
        DialogueElementView::Line(s) => rich_typst(s),
    }
}

/// The parts of a dialogue, with a space between one and the next.
pub open spec fn parts_typst(parts: Seq<DialogueElementView>) -> Seq<char>
    decreases parts.len(),
{
    if parts.len() == 0 {
        Seq::empty()
    } else if parts.len() == 1 {
        part_typst(parts[0])
    } else {
        parts_typst(parts.drop_last()) + " "@ + part_typst(parts.last())
    }
}

/// The extension of a character's name: `none` if there is none, else the
/// extension as content.
pub open spec fn extension_typst(extension: Option<Seq<Span>>) -> Seq<char> {
    match extension {
        Some(e) => "["@ + rich_typst(e) + "]"@,
        None => "none"@,
    }
}

/// An element. A note gives nothing.
pub open spec fn element_typst(e: ElementView) -> Seq<char> {
    match e {
        ElementView::Heading { slug, number } => match number {
            Some(n) => "#scene(number: \""@ + escape(n) + "\")["@ + rich_typst(slug) + "]"@,
            None => "#scene["@ + rich_typst(slug) + "]"@,
        },
        ElementView::Action(s) => rich_typst(s),
        ElementView::Dialogue(d) => "#dialogue(paren: "@ + extension_typst(d.extension) + ")["@
            + rich_typst(d.character) + "]["@ + parts_typst(d.elements) + "]"@,
        ElementView::DualDialogue(a, b) => "#dual_dialogue(paren1: "@ + extension_typst(
            a.extension,
        ) + ", paren2: "@ + extension_typst(b.extension) + ")["@ + rich_typst(a.character)
            + "]["@ + parts_typst(a.elements) + "]["@ + rich_typst(b.character) + "]["@
            + parts_typst(b.elements) + "]"@,
        ElementView::Lyrics(s) => "#lyrics["@ + rich_typst(s) + "]"@,
        ElementView::Transition(s) => "#transition["@ + rich_typst(s) + "]"@,
        ElementView::CenteredText(s) => "#centered["@ + rich_typst(s) + "]"@,
        ElementView::Note(_) => Seq::empty(),
        ElementView::PageBreak => "#pagebreak()"@,
    }
}

/// The elements, with a newline between one and the next.
pub open spec fn elements_typst(elements: Seq<ElementView>) -> Seq<char>
    decreases elements.len(),
{
    if elements.len() == 0 {
        Seq::empty()
    } else if elements.len() == 1 {
        element_typst(elements[0])
    } else {
        elements_typst(elements.drop_last()) + "\n"@ + element_typst(elements.last())
    }
}

/// The whole document: the template, the layout rule, the elements.
pub open spec fn document_typst(screenplay: ScreenplayView, template: Seq<char>) -> Seq<char> {
    template + "\n"@ + title_page_typst(screenplay.titlepage) + "\n"@ + elements_typst(
        screenplay.elements,
    )
}

/// The screenplay as a Typst document that starts with `template`.
pub fn export_typst(screenplay: &Screenplay, template: &str) -> (out: String)
    ensures
        out@ == document_typst(screenplay@, template@),
{
    let mut out = String::from_str(template);
    out.append("\n");
    out.append(export_titlepage(screenplay).as_str());
    out.append("\n");
    let ghost all = screenplay.elements.deep_view();
    let mut body = String::new();
    let mut i: usize = 0;
    assert(all.take(0) =~= Seq::empty());
    while i < screenplay.elements.len()
        invariant
            i <= screenplay.elements.len(),
            all == screenplay.elements.deep_view(),
            body@ == elements_typst(all.take(i as int)),
        decreases screenplay.elements.len() - i,
    {
        if i > 0 {
            body.append("\n");
        }
        body.append(export_element(&screenplay.elements[i]).as_str());
        assert(all.take(i + 1).drop_last() =~= all.take(i as int));
        assert(all.take(i + 1).last() == screenplay.elements[i as int]@);
        assert(all.take(i + 1)[0] == all[0]);
        if i == 0 {
            assert(Seq::<char>::empty() + element_typst(all[0]) =~= element_typst(all[0]));
        }
        i += 1;
    }
    assert(all.take(i as int) =~= all);
    out.append(body.as_str());
    out
}

/// The rule that lays out the whole document, with the title page where there
/// is one.
fn export_titlepage(screenplay: &Screenplay) -> (out: String)
    ensures
        out@ == title_page_typst(screenplay@.titlepage),
{
    match &screenplay.titlepage {
        Some(page) => {
            let mut out = String::from_str(
                "#show: screenplay.with(\n  titlepage: true,\n  title: ",
            );
            out.append(format_titlepage_element(&page.title).as_str());
            out.append(",\n  credit: ");
            out.append(format_titlepage_element(&page.credit).as_str());
            out.append(",\n  authors: ");
            out.append(format_titlepage_element(&page.authors).as_str());
            out.append(",\n  source: ");
            out.append(format_titlepage_element(&page.source).as_str());
            out.append(",\n  draft_date: ");
            out.append(format_titlepage_element(&page.draft_date).as_str());
            out.append(",\n  contact: ");
            out.append(format_titlepage_element(&page.contact).as_str());
            out.append(",\n)");
            out
        },
        None => String::from_str("#show: screenplay.with(titlepage: false)"),
    }
}

/// One element, as a call of the template's function for it.
fn export_element(element: &Element) -> (out: String)
    ensures
        out@ == element_typst(element@),
{
    match element {
        Element::Heading { slug, number } => {
            match number {
                Some(n) => {
                    let mut out = String::from_str("#scene(number: \"");
                    out.append(replace_escaping(n.as_str()).as_str());
                    out.append("\")[");
                    out.append(format_rich_string(slug).as_str());
                    out.append("]");
                    out
                },
                None => {
                    let mut out = String::from_str("#scene[");
                    out.append(format_rich_string(slug).as_str());
                    out.append("]");
                    out
                },
            }
        },
        Element::Action(s) => format_rich_string(s),
        Element::Dialogue(d) => {
            let mut out = String::from_str("#dialogue(paren: ");
            out.append(format_character_extension(&d.extension).as_str());
            out.append(")[");
            out.append(format_rich_string(&d.character).as_str());
            out.append("][");
            out.append(format_dialogue(&d.elements).as_str());
            out.append("]");
            out
        },
        Element::DualDialogue(a, b) => {
            let mut out = String::from_str("#dual_dialogue(paren1: ");
            out.append(format_character_extension(&a.extension).as_str());
            out.append(", paren2: ");
            out.append(format_character_extension(&b.extension).as_str());
            out.append(")[");
            out.append(format_rich_string(&a.character).as_str());
            out.append("][");
            out.append(format_dialogue(&a.elements).as_str());
            out.append("][");
            out.append(format_rich_string(&b.character).as_str());
            out.append("][");
            out.append(format_dialogue(&b.elements).as_str());
            out.append("]");
            out
        },
        Element::Lyrics(s) => {
            let mut out = String::from_str("#lyrics[");
            out.append(format_rich_string(s).as_str());
            out.append("]");
            out
        },
        Element::Transition(s) => {
            let mut out = String::from_str("#transition[");
            out.append(format_rich_string(s).as_str());
            out.append("]");
            out
        },
        Element::CenteredText(s) => {
            let mut out = String::from_str("#centered[");
            out.append(format_rich_string(s).as_str());
            out.append("]");
            out
        },
        Element::Note(_) => String::new(),
        Element::PageBreak => String::from_str("#pagebreak()"),
    }
}

/// The parts of a dialogue, with a space between one and the next.
fn format_dialogue(parts: &Vec<DialogueElement>) -> (out: String)
    ensures
        out@ == parts_typst(parts.deep_view()),
{
    let ghost all = parts.deep_view();
    let mut out = String::new();
    let mut i: usize = 0;
    assert(all.take(0) =~= Seq::empty());
    while i < parts.len()
        invariant
            i <= parts.len(),
            all == parts.deep_view(),
            out@ == parts_typst(all.take(i as int)),
        decreases parts.len() - i,
    {
        if i > 0 {
            out.append(" ");
        }
        out.append(format_dialogue_element(&parts[i]).as_str());
        assert(all.take(i + 1).drop_last() =~= all.take(i as int));
        assert(all.take(i + 1).last() == parts[i as int]@);
        assert(all.take(i + 1)[0] == all[0]);
        if i == 0 {
            assert(Seq::<char>::empty() + part_typst(all[0]) =~= part_typst(all[0]));
        }
        i += 1;
    }
    assert(all.take(i as int) =~= all);
    out
}

/// The extension of a character's name: `none` if there is none, else the
/// extension as content.
fn format_character_extension(extension: &Option<RichString>) -> (out: String)
    ensures
        out@ == extension_typst(extension.deep_view()),
{
    match extension {
        Some(e) => {
            let mut out = String::from_str("[");
            out.append(format_rich_string(e).as_str());
            out.append("]");
            out
        },
        None => String::from_str("none"),
    }
}

/// A part of a dialogue.
fn format_dialogue_element(part: &DialogueElement) -> (out: String)
    ensures
        out@ == part_typst(part@),
{
    match part {
        DialogueElement::Parenthetical(s) => {
            let mut out = String::from_str("#parenthetical[");
            out.append(format_rich_string(s).as_str());
            out.append("]");
            out
        },
        DialogueElement::Line(s) => format_rich_string(s),
    }
}

/// A rich string: its runs, one after the other.
fn format_rich_string(s: &RichString) -> (out: String)
    ensures
        out@ == rich_typst(s@),
{
    let ghost all = s@;
    let mut out = String::new();
    let mut i: usize = 0;
    assert(all.take(0) =~= Seq::empty());
    while i < s.elements.len()
        invariant
            i <= s.elements.len(),
            all == s@,
            out@ == rich_typst(all.take(i as int)),
        decreases s.elements.len() - i,
    {
        out.append(format_rich_element(&s.elements[i]).as_str());
        assert(all.take(i + 1).drop_last() =~= all.take(i as int));
        assert(all.take(i + 1).last() == s.elements[i as int]@);
        i += 1;
    }
    assert(all.take(i as int) =~= all);
    out
}

/// One run.
fn format_rich_element(element: &Run) -> (out: String)
    ensures
        out@ == run_typst(element@),
{
    let text = chars_of(element.text.as_str());
    if text.len() == 1 && text[0] == '\n' {
        assert(element@.text =~= seq!['\n']);
        return String::from_str("\\ ");
    }
    let mut out = String::from_str("#text(");
    out.append(
        if element.is_bold() {
            "weight: \"bold\","
        } else {
            ""
        },
    );
    out.append(
        if element.is_italic() {
            "style: \"italic\","
        } else {
            ""
        },
    );
    out.append("\"");
    out.append(replace_escaping(element.text.as_str()).as_str());
    out.append("\")");
    if element.is_underline() {
        let mut under = String::from_str("#underline[");
        under.append(out.as_str());
        under.append("]");
        under
    } else {
        out
    }
}

/// `s` with a backslash before every backslash and every quote.
fn replace_escaping(s: &str) -> (out: String)
    ensures
        out@ == escape(s@),
{
    let text = chars_of(s);
    let mut escaped: Vec<char> = Vec::new();
    let mut i: usize = 0;
    assert(text@.take(0) =~= Seq::empty());
    while i < text.len()
        invariant
            i <= text.len(),
            escaped@ == escape(text@.take(i as int)),
        decreases text.len() - i,
    {
        let c = text[i];
        assert(text@.take(i + 1).drop_last() =~= text@.take(i as int));
        if c == '\\' || c == '"' {
            escaped.push('\\');
        }
        escaped.push(c);
        i += 1;
    }
    assert(text@.take(i as int) =~= text@);
    string_of(escaped.as_slice())
}

/// A title page field: `none` if it has no value, else its values as content,
/// with a forced line break between one and the next.
fn format_titlepage_element(values: &Vec<RichString>) -> (out: String)
    ensures
        out@ == field_typst(values.deep_view()),
{
    if values.len() == 0 {
        return String::from_str("none");
    }
    let ghost all = values.deep_view();
    let mut content = String::new();
    let mut i: usize = 0;
    assert(all.take(0) =~= Seq::empty());
    while i < values.len()
        invariant
            i <= values.len(),
            all == values.deep_view(),
            content@ == values_typst(all.take(i as int)),
        decreases values.len() - i,
    {
        if i > 0 {
            content.append("\\ ");
        }
        content.append(format_rich_string(&values[i]).as_str());
        assert(all.take(i + 1).drop_last() =~= all.take(i as int));
        assert(all.take(i + 1).last() == values[i as int]@);
        assert(all.take(i + 1)[0] == all[0]);
        if i == 0 {
            assert(Seq::<char>::empty() + rich_typst(all[0]) =~= rich_typst(all[0]));
        }
        i += 1;
    }
    assert(all.take(i as int) =~= all);
    let mut out = String::from_str("[");
    out.append(content.as_str());
    out.append("]");
    out
}

} // verus!
