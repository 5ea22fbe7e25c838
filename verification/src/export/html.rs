//! A screenplay as an HTML document.
//!
//! Text goes into the document as it is: nothing in it is escaped.

use vstd::prelude::*;
use vstd::string::StringExecFns;

use crate::rich_string::{Element as Run, RichString, Span};
use crate::screenplay::{
    Dialogue, DialogueElement, DialogueElementView, DialogueView, Element, ElementView,
    Screenplay, ScreenplayView, TitlePage, TitlePageView,
};
use crate::text::chars_of;

verus! {

/// One run: a line break for an unstyled newline, else the text inside the
/// tags of its styles.
pub open spec fn run_html(run: Span) -> Seq<char> {
    if run.text == seq!['\n'] {
        "<br />"@
    } else {
        (if run.attrs.bold {
            "<strong>"@
        } else {
            ""@
        }) + (if run.attrs.italic {
            "<em>"@
        } else {
            ""@
        }) + (if run.attrs.underline {
            "<u>"@
        } else {
            ""@
        }) + run.text + (if run.attrs.underline {
            "</u>"@
        } else {
            ""@
        }) + (if run.attrs.italic {
            "</em>"@
        } else {
            ""@
        }) + (if run.attrs.bold {
            "</strong>"@
        } else {
            ""@
        })
    }
}

/// A rich string: its runs, one after the other.
pub open spec fn rich_html(runs: Seq<Span>) -> Seq<char>
    decreases runs.len(),
{
    if runs.len() == 0 {
        Seq::empty()
    } else {
        rich_html(runs.drop_last()) + run_html(runs.last())
    }
}

/// The values of a title page field, each as a paragraph.
pub open spec fn paragraphs_html(values: Seq<Seq<Span>>) -> Seq<char>
    decreases values.len(),
{
    if values.len() == 0 {
        Seq::empty()
    } else {
        paragraphs_html(values.drop_last()) + "<p>"@ + rich_html(values.last()) + "</p>"@
    }
}

/// A title page field of the class `class`: nothing if it has no value.
pub open spec fn field_html(class: Seq<char>, values: Seq<Seq<Span>>) -> Seq<char> {
    if values.len() == 0 {
        Seq::empty()
    } else {
        "<div class=\""@ + class + "\">"@ + paragraphs_html(values) + "</div>"@
    }
}

/// The title page.
pub open spec fn title_page_html(page: TitlePageView) -> Seq<char> {
    "\n        <div id=\"title-page\">\n            "@ + field_html("title"@, page.title)
        + "\n            "@ + field_html("credit"@, page.credit) + "\n            "@ + field_html(
        "authors"@,
        page.authors,
    ) + "\n            "@ + field_html("source"@, page.source) + "\n            "@ + field_html(
        "draft-date"@,
        page.draft_date,
    ) + "\n            "@ + field_html("contact"@, page.contact) + "\n        </div>\n    "@
}

/// A part of a dialogue.
pub open spec fn part_html(part: DialogueElementView) -> Seq<char> {
    match part {
        DialogueElementView::Parenthetical(s) => "<p class=\"parenthetical\">"@ + rich_html(s)
            + "</p>"@,
        DialogueElementView::Line(s) => "<p>"@ + rich_html(s) + "</p>"@,
    }
}

/// The parts of a dialogue, with a newline between one and the next.
pub open spec fn parts_html(parts: Seq<DialogueElementView>) -> Seq<char>
    decreases parts.len(),
{
    if parts.len() == 0 {
        Seq::empty()
    } else if parts.len() == 1 {
        part_html(parts[0])
    } else {
        parts_html(parts.drop_last()) + "\n"@ + part_html(parts.last())
    }
}

/// The name of who speaks, with the extension in parentheses after it.
pub open spec fn character_html(d: DialogueView) -> Seq<char> {
    match d.extension {
        Some(e) => rich_html(d.character) + " ("@ + rich_html(e) + ")"@,
        None => rich_html(d.character),
    }
}

/// A scene number in a span of the class `class`: nothing if the scene has
/// none.
pub open spec fn number_html(class: Seq<char>, number: Option<Seq<char>>) -> Seq<char> {
    match number {
        Some(n) => "<span class=\""@ + class + "\">"@ + n + "</span>"@,
        None => Seq::empty(),
    }
}

/// An element. A note is shown where `synopses` asks for it, a page break
/// never.
pub open spec fn element_html(e: ElementView, synopses: bool) -> Seq<char> {
    match e {
        ElementView::Heading { slug, number } => "<h6>"@ + number_html("scnuml"@, number)
            + rich_html(slug) + number_html("scnumr"@, number) + "</h6>"@,
        ElementView::Action(s) => "<div class=\"action\"><p>"@ + rich_html(s) + "</p></div>"@,
        ElementView::Dialogue(d) => "<div class=\"dialog\"><p class=\"character\">"@
            + character_html(d) + "</p>"@ + parts_html(d.elements) + "</div>"@,
        ElementView::DualDialogue(a, b) =>
            "<div class=\"dual\">\n                <div class=\"left\">\n                    <p class=\"character\">"@
            + character_html(a) + "</p>\n                    "@ + parts_html(a.elements)
            + "\n                </div>\n                <div class=\"right\">\n                    <p class=\"character\">"@
            + character_html(b) + "</p>\n                    "@ + parts_html(b.elements)
            + "\n                </div>\n            </div>"@,
        ElementView::Lyrics(s) => "<div class=\"lyrics\"><p>"@ + rich_html(s) + "</p></div>"@,
        ElementView::Transition(s) => "<div class=\"transition\">"@ + rich_html(s) + "</div>"@,
        ElementView::CenteredText(s) => "<div class=\"action centered\"><p>"@ + rich_html(s)
            + "</p></div>"@,
        ElementView::Note(s) => if synopses {
            "<div class=\"synopsis\"><p>"@ + rich_html(s) + "</p></div>"@
        } else {
            Seq::empty()
        },
        ElementView::PageBreak => Seq::empty(),
    }
}

/// The elements, each on a line of its own.
pub open spec fn elements_html(elements: Seq<ElementView>, synopses: bool) -> Seq<char>
    decreases elements.len(),
{
    if elements.len() == 0 {
        Seq::empty()
    } else {
        elements_html(elements.drop_last(), synopses) + element_html(elements.last(), synopses)
            + "\n"@
    }
}

/// The style sheet inside the head of the document: nothing if there is none.
pub open spec fn style_html(stylesheet: Option<Seq<char>>) -> Seq<char> {
    match stylesheet {
        Some(css) => "<style type=\"text/css\">"@ + css + "</style>"@,
        None => Seq::empty(),
    }
}

/// The whole document.
pub open spec fn document_html(
    screenplay: ScreenplayView,
    stylesheet: Option<Seq<char>>,
    synopses: bool,
) -> Seq<char> {
    "<!DOCTYPE html>\n<html>\n    <head>\n        <title>Screenplay</title>\n        "@
        + style_html(stylesheet)
        + "\n    </head>\n    <body>\n        <div id=\"wrapper\" class=\"screenplay\">\n"@
        + (match screenplay.titlepage {
        Some(page) => title_page_html(page) + "\n"@,
        None => Seq::empty(),
    }) + elements_html(screenplay.elements, synopses) + "</div>\n    </body>\n</html>\n"@
}

/// The screenplay as an HTML document. With a style sheet, the document holds
/// it in its head. `synopses` tells whether notes are shown.
pub fn export_html(screenplay: &Screenplay, stylesheet: Option<&str>, synopses: bool) -> (out:
    String)
    ensures
        out@ == document_html(
            screenplay@,
            match stylesheet {
                Some(css) => Some(css@),
                None => None,
            },
            synopses,
        ),
{
    let mut out = String::from_str(
        "<!DOCTYPE html>\n<html>\n    <head>\n        <title>Screenplay</title>\n        ",
    );
    match stylesheet {
        Some(css) => {
            let mut style = String::from_str("<style type=\"text/css\">");
            style.append(css);
            style.append("</style>");
            out.append(style.as_str());
        },
        None => {
            assert(out@ + Seq::<char>::empty() =~= out@);
        },
    }
    out.append("\n    </head>\n    <body>\n        <div id=\"wrapper\" class=\"screenplay\">\n");
    match &screenplay.titlepage {
        Some(page) => {
            let mut title = export_titlepage(page);
            title.append("\n");
            out.append(title.as_str());
        },
        None => {
            assert(out@ + Seq::<char>::empty() =~= out@);
        },
    }
    let ghost head = out@;
    let ghost all = screenplay.elements.deep_view();
    let mut body = String::new();
    let mut i: usize = 0;
    assert(all.take(0) =~= Seq::empty());
    while i < screenplay.elements.len()
        invariant
            i <= screenplay.elements.len(),
            all == screenplay.elements.deep_view(),
            body@ == elements_html(all.take(i as int), synopses),
        decreases screenplay.elements.len() - i,
    {
        let ghost before = body@;
        body.append(export_element(&screenplay.elements[i], synopses).as_str());
        body.append("\n");
        assert(all.take(i + 1).drop_last() =~= all.take(i as int));
        assert(all.take(i + 1).last() == screenplay.elements[i as int]@);
        i += 1;
    }
    assert(all.take(i as int) =~= all);
    out.append(body.as_str());
    out.append("</div>\n    </body>\n</html>\n");
    out
}

/// The title page.
fn export_titlepage(page: &TitlePage) -> (out: String)
    ensures
        out@ == title_page_html(page@),
{
    let mut out = String::from_str("\n        <div id=\"title-page\">\n            ");
    out.append(export_titlepage_element("title", &page.title).as_str());
    out.append("\n            ");
    out.append(export_titlepage_element("credit", &page.credit).as_str());
    out.append("\n            ");
    out.append(export_titlepage_element("authors", &page.authors).as_str());
    out.append("\n            ");
    out.append(export_titlepage_element("source", &page.source).as_str());
    out.append("\n            ");
    out.append(export_titlepage_element("draft-date", &page.draft_date).as_str());
    out.append("\n            ");
    out.append(export_titlepage_element("contact", &page.contact).as_str());
    out.append("\n        </div>\n    ");
    out
}

/// One field of the title page, of the class `class`: nothing if it has no
/// value.
fn export_titlepage_element(class: &str, values: &Vec<RichString>) -> (out: String)
    ensures
        out@ == field_html(class@, values.deep_view()),
{
    if values.len() == 0 {
        return String::new();
    }
    let ghost all = values.deep_view();
    let mut content = String::new();
    let mut i: usize = 0;
    assert(all.take(0) =~= Seq::empty());
    while i < values.len()
        invariant
            i <= values.len(),
            all == values.deep_view(),
            content@ == paragraphs_html(all.take(i as int)),
        decreases values.len() - i,
    {
        content.append("<p>");
        content.append(format_rich_string(&values[i]).as_str());
        content.append("</p>");
        assert(all.take(i + 1).drop_last() =~= all.take(i as int));
        assert(all.take(i + 1).last() == values[i as int]@);
        i += 1;
    }
    assert(all.take(i as int) =~= all);
    let mut out = String::from_str("<div class=\"");
    out.append(class);
    out.append("\">");
    out.append(content.as_str());
    out.append("</div>");
    out
}

/// A scene number in a span of the class `class`: nothing if the scene has
/// none.
fn format_scene_number(class: &str, number: &Option<String>) -> (out: String)
    ensures
        out@ == number_html(class@, number.deep_view()),
{
    match number {
        Some(n) => {
            let mut out = String::from_str("<span class=\"");
            out.append(class);
            out.append("\">");
            out.append(n.as_str());
            out.append("</span>");
            out
        },
        None => String::new(),
    }
}

/// One element.
fn export_element(element: &Element, synopses: bool) -> (out: String)
    ensures
        out@ == element_html(element@, synopses),
{
    match element {
        Element::Heading { slug, number } => {
            let mut out = String::from_str("<h6>");
            out.append(format_scene_number("scnuml", number).as_str());
            out.append(format_rich_string(slug).as_str());
            out.append(format_scene_number("scnumr", number).as_str());
            out.append("</h6>");
            out
        },
        Element::Action(s) => {
            let mut out = String::from_str("<div class=\"action\"><p>");
            out.append(format_rich_string(s).as_str());
            out.append("</p></div>");
            out
        },
        Element::Dialogue(d) => {
            let mut out = String::from_str("<div class=\"dialog\"><p class=\"character\">");
            out.append(format_character(d).as_str());
            out.append("</p>");
            out.append(format_dialogue(&d.elements).as_str());
            out.append("</div>");
            out
        },
        Element::DualDialogue(a, b) => {
            let mut out = String::from_str(
                "<div class=\"dual\">\n                <div class=\"left\">\n                    <p class=\"character\">",
            );
            out.append(format_character(a).as_str());
            out.append("</p>\n                    ");
            out.append(format_dialogue(&a.elements).as_str());
            out.append(
                "\n                </div>\n                <div class=\"right\">\n                    <p class=\"character\">",
            );
            out.append(format_character(b).as_str());
            out.append("</p>\n                    ");
            out.append(format_dialogue(&b.elements).as_str());
            out.append("\n                </div>\n            </div>");
            out
        },
        Element::Lyrics(s) => {
            let mut out = String::from_str("<div class=\"lyrics\"><p>");
            out.append(format_rich_string(s).as_str());
            out.append("</p></div>");
            out
        },
        Element::Transition(s) => {
            let mut out = String::from_str("<div class=\"transition\">");
            out.append(format_rich_string(s).as_str());
            out.append("</div>");
            out
        },
        Element::CenteredText(s) => {
            let mut out = String::from_str("<div class=\"action centered\"><p>");
            out.append(format_rich_string(s).as_str());
            out.append("</p></div>");
            out
        },
        Element::Note(s) => {
            if synopses {
                let mut out = String::from_str("<div class=\"synopsis\"><p>");
                out.append(format_rich_string(s).as_str());
                out.append("</p></div>");
                out
            } else {
                String::new()
            }
        },
        Element::PageBreak => String::new(),
    }
}

/// The name of who speaks, with the extension in parentheses after it.
fn format_character(dialogue: &Dialogue) -> (out: String)
    ensures
        out@ == character_html(dialogue@),
{
    match &dialogue.extension {
        Some(extension) => {
            let mut out = format_rich_string(&dialogue.character);
            out.append(" (");
            out.append(format_rich_string(extension).as_str());
            out.append(")");
            out
        },
        None => format_rich_string(&dialogue.character),
    }
}

/// A rich string: its runs, one after the other.
fn format_rich_string(s: &RichString) -> (out: String)
    ensures
        out@ == rich_html(s@),
{
    let ghost all = s@;
    let mut out = String::new();
    let mut i: usize = 0;
    assert(all.take(0) =~= Seq::empty());
    while i < s.elements.len()
        invariant
            i <= s.elements.len(),
            all == s@,
            out@ == rich_html(all.take(i as int)),
        decreases s.elements.len() - i,
    {
        out.append(format_rich_element(&s.elements[i]).as_str());
        assert(all.take(i + 1).drop_last() =~= all.take(i as int));
        assert(all.take(i + 1).last() == s.elements[i as int]@);
        i += 1;
    }
    assert(all.take(i as int) =~= all);
    out
}

/// One run.
fn format_rich_element(element: &Run) -> (out: String)
    ensures
        out@ == run_html(element@),
{
    let text = chars_of(element.text.as_str());
    if text.len() == 1 && text[0] == '\n' {
        assert(element@.text =~= seq!['\n']);
        return String::from_str("<br />");
    }
    let mut out = String::from_str(
        if element.is_bold() {
            "<strong>"
        } else {
            ""
        },
    );
    out.append(
        if element.is_italic() {
            "<em>"
        } else {
            ""
        },
    );
    out.append(
        if element.is_underline() {
            "<u>"
        } else {
            ""
        },
    );
    out.append(element.text.as_str());
    out.append(
        if element.is_underline() {
            "</u>"
        } else {
            ""
        },
    );
    out.append(
        if element.is_italic() {
            "</em>"
        } else {
            ""
        },
    );
    out.append(
        if element.is_bold() {
            "</strong>"
        } else {
            ""
        },
    );
    out
}

/// The parts of a dialogue, with a newline between one and the next.
fn format_dialogue(parts: &Vec<DialogueElement>) -> (out: String)
    ensures
        out@ == parts_html(parts.deep_view()),
{
    let ghost all = parts.deep_view();
    let mut out = String::new();
    let mut i: usize = 0;
    assert(all.take(0) =~= Seq::empty());
    while i < parts.len()
        invariant
            i <= parts.len(),
            all == parts.deep_view(),
            out@ == parts_html(all.take(i as int)),
        decreases parts.len() - i,
    {
        let ghost before = out@;
        if i > 0 {
            out.append("\n");
        }
        out.append(format_dialogue_element(&parts[i]).as_str());
        assert(all.take(i + 1).drop_last() =~= all.take(i as int));
        assert(all.take(i + 1).last() == parts[i as int]@);
        assert(all.take(i + 1)[0] == all[0]);
        if i == 0 {
            assert(Seq::<char>::empty() + part_html(all[0]) =~= part_html(all[0]));
        }
        i += 1;
    }
    assert(all.take(i as int) =~= all);
    out
}

/// A part of a dialogue.
fn format_dialogue_element(part: &DialogueElement) -> (out: String)
    ensures
        out@ == part_html(part@),
{
    match part {
        DialogueElement::Parenthetical(s) => {
            let mut out = String::from_str("<p class=\"parenthetical\">");
            out.append(format_rich_string(s).as_str());
            out.append("</p>");
            out
        },
        DialogueElement::Line(s) => {
            let mut out = String::from_str("<p>");
            out.append(format_rich_string(s).as_str());
            out.append("</p>");
            out
        },
    }
}

} // verus!
