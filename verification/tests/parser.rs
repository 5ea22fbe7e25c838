use rustwell::parse;
use rustwell::parser::lines::lines_of;
use rustwell::parser::parse_glyphs;
use rustwell::parser::preprocess::{preprocess_source, strip_comments};
use rustwell::rich_string::RichString;
use rustwell::screenplay::{Dialogue, DialogueElement, Element, Screenplay, TitlePage};
use rustwell::text::{classify_all, Class, Glyph};

fn rich(s: &str) -> RichString {
    RichString::from(s)
}

fn plain(rs: &RichString) -> String {
    rs.elements.iter().map(|e| e.text.as_str()).collect()
}

fn heading(slug: &str, number: Option<&str>) -> Element {
    Element::Heading {
        slug: rich(slug),
        number: number.map(|n| n.to_string()),
    }
}

fn action(s: &str) -> Element {
    Element::Action(rich(s))
}

fn speech(character: &str, extension: Option<&str>, parts: Vec<DialogueElement>) -> Dialogue {
    Dialogue {
        character: rich(character),
        extension: extension.map(rich),
        elements: parts,
    }
}

fn line(s: &str) -> DialogueElement {
    DialogueElement::Line(rich(s))
}

fn parenthetical(s: &str) -> DialogueElement {
    DialogueElement::Parenthetical(rich(s))
}

fn elements(src: &str) -> Vec<Element> {
    parse(src).elements
}

/// The elements of `src` where it stands after an empty first line, so that
/// none of its lines is read as a title page key.
fn body(src: &str) -> Vec<Element> {
    parse(&format!("\n{}", src)).elements
}

fn is_well_formed(rs: &RichString) -> bool {
    rs.elements.iter().all(|e| !e.text.is_empty())
        && rs
            .elements
            .windows(2)
            .all(|w| w[0].attributes != w[1].attributes)
}

fn dialogue_is_well_formed(d: &Dialogue) -> bool {
    is_well_formed(&d.character)
        && d.extension.iter().all(is_well_formed)
        && d.elements.iter().all(|p| match p {
            DialogueElement::Parenthetical(s) => is_well_formed(s),
            DialogueElement::Line(s) => is_well_formed(s),
        })
}

fn screenplay_is_well_formed(s: &Screenplay) -> bool {
    let page = s.titlepage.iter().all(|p| {
        [&p.title, &p.credit, &p.authors, &p.source, &p.draft_date, &p.contact]
            .iter()
            .all(|values| values.iter().all(is_well_formed))
    });
    page && s.elements.iter().all(|e| match e {
        Element::Heading { slug, .. } => is_well_formed(slug),
        Element::Action(s)
        | Element::Lyrics(s)
        | Element::Transition(s)
        | Element::CenteredText(s)
        | Element::Note(s) => is_well_formed(s),
        Element::Dialogue(d) => dialogue_is_well_formed(d),
        Element::DualDialogue(a, b) => dialogue_is_well_formed(a) && dialogue_is_well_formed(b),
        Element::PageBreak => true,
    })
}

fn lines(s: &str) -> Vec<String> {
    let chars: Vec<char> = s.chars().collect();
    lines_of(&classify_all(&chars))
        .into_iter()
        .map(|l| l.into_iter().map(|g| g.0).collect())
        .collect()
}

/// `s` in classes made up for the test: `_` is white space, `x` is a
/// lowercase letter, `Q` is a letter that is not lowercase, `9` is a number,
/// and no other character is anything.
fn made_up(s: &str) -> Vec<Glyph> {
    s.chars()
        .map(|c| {
            (
                c,
                Class {
                    white_space: c == '_',
                    alphabetic: c == 'x' || c == 'Q',
                    alphanumeric: c == 'x' || c == 'Q' || c == '9',
                    lowercase: c == 'x',
                },
            )
        })
        .collect()
}

#[test]
fn heading_then_action() {
    let s = parse("INT. HOUSE - DAY\n\nJohn enters.");
    assert_eq!(s.titlepage, None);
    assert_eq!(s.elements.len(), 2);
    assert_eq!(s.elements[0], heading("INT. HOUSE - DAY", None));
    assert_eq!(s.elements[1], action("John enters."));
    match &s.elements[0] {
        Element::Heading { slug, number } => {
            assert_eq!(plain(slug), "INT. HOUSE - DAY");
            assert_eq!(*number, None);
        }
        other => panic!("not a heading: {:?}", other),
    }
}

#[test]
fn dialogue_with_extension() {
    let s = parse("JOHN (V.O.)\nHello.\n\n");
    assert_eq!(
        s.elements,
        vec![Element::Dialogue(speech("JOHN", Some("V.O."), vec![line("Hello.")]))]
    );
    match &s.elements[0] {
        Element::Dialogue(d) => {
            assert_eq!(plain(&d.character), "JOHN");
            assert_eq!(d.extension.as_ref().map(plain), Some("V.O.".to_string()));
            assert_eq!(d.elements.len(), 1);
        }
        other => panic!("not a dialogue: {:?}", other),
    }
}

#[test]
fn title_page_then_heading() {
    let s = parse("Title: My Play\n\nINT. ROOM\n\nA man stands alone.");
    let page = s.titlepage.expect("a title page");
    assert_eq!(page.title, vec![rich("My Play")]);
    assert_eq!(plain(&page.title[0]), "My Play");
    assert!(page.credit.is_empty());
    assert!(page.authors.is_empty());
    assert!(page.source.is_empty());
    assert!(page.draft_date.is_empty());
    assert!(page.contact.is_empty());
    assert_eq!(
        s.elements,
        vec![heading("INT. ROOM", None), action("A man stands alone.")]
    );
}

#[test]
fn caret_on_the_second_cue_gives_dual_dialogue() {
    let got = elements("STEEL\nThe man's a myth!\n\nBRICK ^\nAnd a liar!\n");
    assert_eq!(
        got,
        vec![Element::DualDialogue(
            speech("STEEL", None, vec![line("The man's a myth!")]),
            speech("BRICK ", None, vec![line("And a liar!")]),
        )]
    );
}

#[test]
fn caret_without_a_dialogue_before_it_stays_in_the_name() {
    let got = elements("STEEL ^\nThe man's a myth!\n\nBRICK\nAnd a liar!\n");
    assert_eq!(
        got,
        vec![
            Element::Dialogue(speech("STEEL ^", None, vec![line("The man's a myth!")])),
            Element::Dialogue(speech("BRICK", None, vec![line("And a liar!")])),
        ]
    );
}

#[test]
fn caret_after_a_dual_dialogue_opens_a_plain_dialogue() {
    let got = elements("A\none\n\nB ^\ntwo\n\nC ^\nthree\n");
    assert_eq!(
        got,
        vec![
            Element::DualDialogue(
                speech("A", None, vec![line("one")]),
                speech("B ", None, vec![line("two")]),
            ),
            Element::Dialogue(speech("C ^", None, vec![line("three")])),
        ]
    );
}

#[test]
fn dual_dialogue_keeps_the_extension_of_the_second_cue() {
    let got = elements("A\none\n\nB (O.S.) ^\n(softly)\ntwo\n");
    assert_eq!(
        got,
        vec![Element::DualDialogue(
            speech("A", None, vec![line("one")]),
            speech("B", Some("O.S."), vec![parenthetical("(softly)"), line("two")]),
        )]
    );
}

#[test]
fn parsing_is_deterministic() {
    let src = "Title: T\nAuthor: A\n\nINT. X\n\nText *here*.\n\nBOB\n(low)\nHi.\n\n> CUT TO:\n\n===\n";
    assert_eq!(parse(src), parse(src));
    let copy = src.to_string();
    assert_eq!(parse(&copy), parse(src));
}

#[test]
fn empty_document() {
    assert_eq!(parse(""), Screenplay::new(None, Vec::new()));
    assert_eq!(parse("\n\n\n"), Screenplay::new(None, Vec::new()));
}

#[test]
fn page_break() {
    assert_eq!(elements("==="), vec![Element::PageBreak]);
    assert_eq!(elements("  ======  "), vec![Element::PageBreak]);
    assert_eq!(elements("== ="), vec![action("== =")]);
}

#[test]
fn page_break_leaves_the_state_as_it_is() {
    // After the page break the classifier still continues a block, but the
    // last element is no action, so a new action starts.
    assert_eq!(
        elements("one\n===\ntwo"),
        vec![action("one"), Element::PageBreak, action("two")]
    );
}

#[test]
fn forced_action() {
    assert_eq!(elements("!INT. HOUSE"), vec![action("INT. HOUSE")]);
    assert_eq!(elements("  !BOB  \nline"), vec![action("BOB\nline")]);
    assert_eq!(elements("!"), vec![action("")]);
}

#[test]
fn forced_action_always_starts_a_new_element() {
    assert_eq!(
        elements("one\n!two\nthree"),
        vec![action("one"), action("two\nthree")]
    );
}

#[test]
fn consecutive_lines_are_one_action() {
    assert_eq!(elements("one\ntwo\nthree"), vec![action("one\ntwo\nthree")]);
    match &elements("one\ntwo")[0] {
        Element::Action(rs) => assert_eq!(plain(rs), "one\ntwo"),
        other => panic!("not an action: {:?}", other),
    }
}

#[test]
fn a_blank_line_ends_an_action() {
    assert_eq!(elements("one\n\ntwo"), vec![action("one"), action("two")]);
    assert_eq!(elements("one\n \ntwo"), vec![action("one"), action("two")]);
}

#[test]
fn action_keeps_the_white_space_around_the_line() {
    assert_eq!(elements("   indented  "), vec![action("   indented  ")]);
}

#[test]
fn a_line_of_two_spaces_is_blank_on_purpose() {
    assert_eq!(elements("one\n  \ntwo"), vec![action("one\n  \ntwo")]);
    assert_eq!(elements("x\n\n   "), vec![action("x"), action("   ")]);
}

#[test]
fn styles_end_with_the_line_in_a_joined_action() {
    let got = elements("*one\ntwo");
    let mut expected = RichString::new();
    expected.push_str("*one");
    expected.push_str("\n");
    expected.push_str("two");
    assert_eq!(got, vec![Element::Action(expected)]);
    match &got[0] {
        Element::Action(rs) => {
            assert_eq!(rs.elements.len(), 2);
            assert!(rs.elements[0].is_italic());
            assert_eq!(rs.elements[1].text, "\ntwo");
            assert!(!rs.elements[1].is_italic());
        }
        other => panic!("not an action: {:?}", other),
    }
}

#[test]
fn centered_text() {
    assert_eq!(
        elements("> THE END <"),
        vec![Element::CenteredText(rich(" THE END "))]
    );
    assert_eq!(elements("><"), vec![Element::CenteredText(rich(""))]);
}

#[test]
fn centered_lines_are_joined() {
    let mut both = rich("one");
    both.push_str("\n");
    both.push_str("two");
    assert_eq!(elements(">one<\n>two<"), vec![Element::CenteredText(both)]);
    assert_eq!(
        elements(">one<\n\n>two<"),
        vec![
            Element::CenteredText(rich("one")),
            Element::CenteredText(rich("two")),
        ]
    );
}

#[test]
fn lyrics() {
    assert_eq!(elements("~la la"), vec![Element::Lyrics(rich("la la"))]);
    let mut both = rich("la");
    both.push_str("\n");
    both.push_str("lo");
    assert_eq!(elements("~la\n~lo"), vec![Element::Lyrics(both)]);
}

#[test]
fn blocks_of_different_kinds_are_not_joined() {
    assert_eq!(
        elements("~la\n>mid<\ntext\n~lo"),
        vec![
            Element::Lyrics(rich("la")),
            Element::CenteredText(rich("mid")),
            action("text"),
            Element::Lyrics(rich("lo")),
        ]
    );
}

#[test]
fn forced_heading() {
    assert_eq!(elements(".KITCHEN\ntext"), vec![heading("KITCHEN", None), action("text")]);
    assert_eq!(elements(".7\n\ntext"), vec![heading("7", None), action("text")]);
}

#[test]
fn forced_heading_leaves_the_next_line_alone() {
    // The line after the heading is classified like any other.
    assert_eq!(
        elements(".KITCHEN\n> CUT TO:"),
        vec![heading("KITCHEN", None), Element::Transition(rich(" CUT TO:"))]
    );
}

#[test]
fn a_full_stop_alone_is_no_heading() {
    assert_eq!(elements("..."), vec![action("...")]);
    assert_eq!(elements(". x"), vec![action(". x")]);
    assert_eq!(elements("."), vec![action(".")]);
}

#[test]
fn heading_prefixes() {
    for prefix in ["INT", "EXT", "EST", "I/E", "int", "Ext", "eSt", "i/e", "INT./EXT", "INTERIOR"] {
        let src = format!("{} PLACE\n\nafter", prefix);
        assert_eq!(
            elements(&src),
            vec![heading(&format!("{} PLACE", prefix), None), action("after")],
            "prefix {:?}",
            prefix
        );
    }
}

#[test]
fn heading_needs_a_blank_line_after_it() {
    assert_eq!(elements("int. house\nmore"), vec![action("int. house\nmore")]);
    assert_eq!(elements("int. house"), vec![heading("int. house", None)]);
    assert_eq!(elements("int. house\n   \t \nmore"), vec![heading("int. house", None), action("more")]);
}

#[test]
fn heading_consumes_the_blank_line_after_it() {
    // The blank line does not end the block that the classifier is in.
    assert_eq!(
        elements("text\nINT. A\n\nmore"),
        vec![action("text"), heading("INT. A", None), action("more")]
    );
}

#[test]
fn scene_numbers() {
    assert_eq!(elements("INT. HOUSE #1#"), vec![heading("INT. HOUSE ", Some("1"))]);
    assert_eq!(elements("INT. HOUSE #1A-2.b#  "), vec![heading("INT. HOUSE ", Some("1A-2.b"))]);
    assert_eq!(elements(".HOUSE#12#"), vec![heading("HOUSE", Some("12"))]);
    assert_eq!(elements("INT. HOUSE ##"), vec![heading("INT. HOUSE ", Some(""))]);
    assert_eq!(elements("INT. #1# HOUSE #2#"), vec![heading("INT. #1# HOUSE ", Some("2"))]);
}

#[test]
fn what_is_no_scene_number_stays_in_the_slug() {
    assert_eq!(elements("INT. HOUSE #1 2#"), vec![heading("INT. HOUSE #1 2#", None)]);
    assert_eq!(elements("INT. HOUSE 1#"), vec![heading("INT. HOUSE 1#", None)]);
    assert_eq!(elements("INT. HOUSE #1"), vec![heading("INT. HOUSE #1", None)]);
    assert_eq!(elements("INT. HOUSE #a_b#"), vec![heading("INT. HOUSE #a_b#", None)]);
}

#[test]
fn forced_transition() {
    assert_eq!(elements("> Burn to white"), vec![Element::Transition(rich(" Burn to white"))]);
    assert_eq!(elements(">"), vec![Element::Transition(rich(""))]);
}

#[test]
fn transition_by_its_looks() {
    assert_eq!(
        body("CUT TO:\n\nafter"),
        vec![Element::Transition(rich("CUT TO:")), action("after")]
    );
    assert_eq!(body("FADE TO:"), vec![Element::Transition(rich("FADE TO:"))]);
    assert_eq!(body("  FADE TO:  \n   "), vec![Element::Transition(rich("FADE TO:"))]);
}

#[test]
fn what_only_looks_like_a_transition() {
    // Lowercase letters, or text on the next line, make it something else.
    assert_eq!(body("Cut TO:\n\nafter"), vec![action("Cut TO:"), action("after")]);
    assert_eq!(body("CUT TO\n\nafter"), vec![action("CUT TO"), action("after")]);
    assert_eq!(
        body("CUT TO:\nafter"),
        vec![Element::Dialogue(speech("CUT TO:", None, vec![line("after")]))]
    );
}

#[test]
fn transition_consumes_a_blank_line_only() {
    assert_eq!(
        elements("one\n> CUT\n\ntwo\nthree"),
        vec![action("one"), Element::Transition(rich(" CUT")), action("two\nthree")]
    );
    assert_eq!(
        elements("> CUT\ntwo"),
        vec![Element::Transition(rich(" CUT")), action("two")]
    );
}

#[test]
fn forced_dialogue() {
    assert_eq!(
        elements("@McCLANE\nYippee."),
        vec![Element::Dialogue(speech("McCLANE", None, vec![line("Yippee.")]))]
    );
    assert_eq!(elements("@bob"), vec![Element::Dialogue(speech("bob", None, vec![]))]);
}

#[test]
fn dialogue_by_its_looks() {
    assert_eq!(
        elements("BOB\nHello.\nAgain.\n\nBye."),
        vec![
            Element::Dialogue(speech("BOB", None, vec![line("Hello."), line("Again.")])),
            action("Bye."),
        ]
    );
}

#[test]
fn a_cue_needs_text_on_the_next_line() {
    assert_eq!(elements("BOB"), vec![action("BOB")]);
    assert_eq!(elements("BOB\n\nHello."), vec![action("BOB"), action("Hello.")]);
}

#[test]
fn a_cue_holds_a_letter_and_no_lowercase_before_the_parenthesis() {
    assert_eq!(elements("Bob\nHello."), vec![action("Bob\nHello.")]);
    assert_eq!(elements("123\nHello."), vec![action("123\nHello.")]);
    assert_eq!(
        elements("BOB (on the phone)\nHello."),
        vec![Element::Dialogue(speech("BOB", Some("on the phone"), vec![line("Hello.")]))]
    );
    assert_eq!(
        elements("R2-D2\nBeep."),
        vec![Element::Dialogue(speech("R2-D2", None, vec![line("Beep.")]))]
    );
}

#[test]
fn extension_of_a_cue() {
    assert_eq!(
        elements("@BOB   (O.S.) and more\nx"),
        vec![Element::Dialogue(speech("BOB", Some("O.S."), vec![line("x")]))]
    );
    assert_eq!(
        elements("@BOB (unclosed\nx"),
        vec![Element::Dialogue(speech("BOB (unclosed", None, vec![line("x")]))]
    );
    assert_eq!(
        elements("@BOB ()\nx"),
        vec![Element::Dialogue(speech("BOB", Some(""), vec![line("x")]))]
    );
}

#[test]
fn parentheticals_and_lines() {
    assert_eq!(
        elements("BOB\n(quietly)\nHello.\n  (aside)  \n  Bye.  "),
        vec![Element::Dialogue(speech(
            "BOB",
            None,
            vec![
                parenthetical("(quietly)"),
                line("Hello."),
                parenthetical("(aside)"),
                line("Bye."),
            ],
        ))]
    );
}

#[test]
fn inside_a_dialogue_no_other_rule_applies() {
    assert_eq!(
        elements("BOB\n===\n.HEADING\n> CUT TO:\n~la\n!x"),
        vec![Element::Dialogue(speech(
            "BOB",
            None,
            vec![line("==="), line(".HEADING"), line("> CUT TO:"), line("~la"), line("!x")],
        ))]
    );
}

#[test]
fn a_line_of_two_spaces_stays_in_the_dialogue() {
    assert_eq!(
        elements("BOB\none\n  \ntwo\n\nthree"),
        vec![
            Element::Dialogue(speech("BOB", None, vec![line("one"), line(""), line("two")])),
            action("three"),
        ]
    );
}

#[test]
fn rules_apply_in_the_middle_of_a_block() {
    assert_eq!(
        elements("one\nBOB\nHi.\n\ntwo\n.PLACE\nthree\n===\nfour"),
        vec![
            action("one"),
            Element::Dialogue(speech("BOB", None, vec![line("Hi.")])),
            action("two"),
            heading("PLACE", None),
            action("three"),
            Element::PageBreak,
            action("four"),
        ]
    );
}

#[test]
fn the_first_rule_that_matches_decides() {
    // A page break before anything else.
    assert_eq!(elements("===<"), vec![Element::PageBreak]);
    // Centered text before a transition.
    assert_eq!(body("> TO: <"), vec![Element::CenteredText(rich(" TO: "))]);
    // Lyrics before a heading.
    assert_eq!(elements("~INT. X"), vec![Element::Lyrics(rich("INT. X"))]);
    // A heading before a transition and a dialogue.
    assert_eq!(body("EXT. CUT TO:"), vec![heading("EXT. CUT TO:", None)]);
    // A transition before a dialogue.
    assert_eq!(body("BOB TO:"), vec![Element::Transition(rich("BOB TO:"))]);
    // A forced transition before a dialogue.
    assert_eq!(body("> BOB\nHi."), vec![Element::Transition(rich(" BOB")), action("Hi.")]);
}

#[test]
fn title_page_keys() {
    let s = parse(
        "Title: The Title\nCredit: written by\nAuthor: Me\nSource: a novel\nDraft date: today\nContact: me@example.org\n\nText.",
    );
    assert_eq!(
        s.titlepage,
        Some(TitlePage {
            title: vec![rich("The Title")],
            credit: vec![rich("written by")],
            authors: vec![rich("Me")],
            source: vec![rich("a novel")],
            draft_date: vec![rich("today")],
            contact: vec![rich("me@example.org")],
        })
    );
    assert_eq!(s.elements, vec![action("Text.")]);
}

#[test]
fn title_page_keys_in_any_case() {
    let s = parse("tItLe: a\nAUTHORS: b\n  draft DATE  : c\n");
    let page = s.titlepage.expect("a title page");
    assert_eq!(page.title, vec![rich("a")]);
    assert_eq!(page.authors, vec![rich("b")]);
    assert_eq!(page.draft_date, vec![rich("c")]);
    assert!(s.elements.is_empty());
}

#[test]
fn title_page_values_on_indented_lines() {
    let s = parse("Title:\n   _**BRICK & STEEL**_\n   _**FULL RETIRED**_\nAuthor: Stu\n\nText.");
    let page = s.titlepage.expect("a title page");
    assert_eq!(
        page.title,
        vec![rich("_**BRICK & STEEL**_"), rich("_**FULL RETIRED**_")]
    );
    assert!(page.title[0].elements[0].is_bold());
    assert!(page.title[0].elements[0].is_underline());
    assert_eq!(page.title[0].elements[0].text, "BRICK & STEEL");
    assert_eq!(page.authors, vec![rich("Stu")]);
    assert_eq!(s.elements, vec![action("Text.")]);
}

#[test]
fn title_page_block_needs_three_spaces() {
    // Two spaces do not continue the value: the line ends the title page.
    let s = parse("Title:\n  two\nmore");
    assert_eq!(s.titlepage, None);
    assert_eq!(s.elements, vec![action("  two\nmore")]);
}

#[test]
fn title_page_key_given_twice() {
    let s = parse("Title: one\nTitle: two\n");
    assert_eq!(s.titlepage.expect("a title page").title, vec![rich("two")]);
    let t = parse("Title: one\nTitle:\n");
    assert_eq!(t.titlepage, None);
}

#[test]
fn unknown_title_page_keys_are_dropped() {
    let s = parse("Notes: nothing\nRevision:\n   first\n   second\n\nText.");
    assert_eq!(s.titlepage, None);
    assert_eq!(s.elements, vec![action("Text.")]);
}

#[test]
fn title_page_takes_one_blank_line() {
    let s = parse("Title: T\n\n\nBOB\nHi.");
    assert_eq!(
        s.elements,
        vec![Element::Dialogue(speech("BOB", None, vec![line("Hi.")]))]
    );
    // Without a title page the first blank line is taken all the same.
    assert_eq!(elements("  \ntext"), vec![action("text")]);
}

#[test]
fn any_line_with_a_colon_at_the_start_is_a_key() {
    let s = parse("INT. HOUSE: DAY\n\nText.");
    assert_eq!(s.titlepage, None);
    assert_eq!(s.elements, vec![action("Text.")]);
    assert_eq!(elements("CUT TO:\n\nafter"), vec![action("after")]);
    assert_eq!(elements("CUT TO:"), Vec::new());
}

#[test]
fn comments_are_removed() {
    assert_eq!(preprocess_source("a/* b */c"), "ac");
    assert_eq!(preprocess_source("a/* b\nc\n*/d"), "a\n\nd");
    assert_eq!(preprocess_source("a/* /* b */c*/"), "ac*/");
    assert_eq!(preprocess_source("a/*/b*/c"), "ac");
    assert_eq!(preprocess_source("a*/b"), "a*/b");
    assert_eq!(preprocess_source("a/"), "a/");
    assert_eq!(preprocess_source("/"), "/");
    assert_eq!(preprocess_source(""), "");
}

#[test]
fn a_comment_that_is_not_closed_runs_to_the_end() {
    assert_eq!(preprocess_source("a/* b\nc\nd"), "a\n\n");
    assert_eq!(preprocess_source("a/*"), "a");
    assert_eq!(preprocess_source("a/* b *"), "a");
    assert_eq!(elements("one\n/* two\nthree"), vec![action("one")]);
}

#[test]
fn tabs_become_four_spaces() {
    assert_eq!(preprocess_source("\ta\tb"), "    a    b");
    assert_eq!(preprocess_source("/*\t*/\t"), "    ");
}

#[test]
fn preprocessing_keeps_every_newline() {
    for s in ["a\nb\n", "/*\n\n*/\n", "a/*\n", "\n/*x*/\n/*\ny*/z\n\t\n"] {
        let out = preprocess_source(s);
        assert_eq!(
            out.matches('\n').count(),
            s.matches('\n').count(),
            "for {:?}",
            s
        );
        assert!(!out.contains('\t'));
    }
}

#[test]
fn preprocessing_keeps_characters_outside_ascii() {
    assert_eq!(preprocess_source("é/*ü*/✓\tß"), "é✓    ß");
    let chars: Vec<char> = "é/*ü*/✓".chars().collect();
    assert_eq!(strip_comments(&chars), vec!['é', '✓']);
}

#[test]
fn a_comment_can_blank_a_line() {
    assert_eq!(
        elements("one\n/* gone */\ntwo"),
        vec![action("one"), action("two")]
    );
    assert_eq!(
        elements("BOB /* who? */\nHi."),
        vec![Element::Dialogue(speech("BOB", None, vec![line("Hi.")]))]
    );
}

#[test]
fn a_tab_marks_a_title_page_value() {
    let s = parse("Title:\n\tIndented\n");
    assert_eq!(s.titlepage.expect("a title page").title, vec![rich("Indented")]);
}

#[test]
fn splitting_into_lines() {
    assert_eq!(lines(""), Vec::<String>::new());
    assert_eq!(lines("a"), vec!["a"]);
    assert_eq!(lines("a\n"), vec!["a"]);
    assert_eq!(lines("a\nb"), vec!["a", "b"]);
    assert_eq!(lines("a\n\nb\n"), vec!["a", "", "b"]);
    assert_eq!(lines("\n"), vec![""]);
    assert_eq!(lines("\n\n"), vec!["", ""]);
}

#[test]
fn carriage_returns_before_newlines_are_dropped() {
    assert_eq!(lines("a\r\nb\r\n"), vec!["a", "b"]);
    assert_eq!(lines("a\r\n\r\nb"), vec!["a", "", "b"]);
    assert_eq!(lines("a\rb\n"), vec!["a\rb"]);
    assert_eq!(lines("a\r"), vec!["a\r"]);
    assert_eq!(lines("a\r\r\n"), vec!["a\r"]);
    assert_eq!(lines("\r\n"), vec![""]);
}

#[test]
fn lines_are_split_as_the_standard_library_splits_them() {
    for s in ["", "a", "a\n", "\na", "a\r\nb", "a\r", "\r", "\r\n\r\n", "x\n\ny\r\r\n\r"] {
        let expected: Vec<String> = s.lines().map(|l| l.to_string()).collect();
        assert_eq!(lines(s), expected, "for {:?}", s);
    }
}

#[test]
fn documents_with_carriage_returns() {
    assert_eq!(
        parse("Title: T\r\n\r\nINT. A\r\n\r\nText.\r\n"),
        parse("Title: T\n\nINT. A\n\nText.\n")
    );
}

#[test]
fn a_whole_document() {
    let src = "Title: Big Fish\nCredit: written by\nAuthor: John August\n\nFADE IN:\n\nINT. WILL'S BEDROOM - NIGHT #1#\n\nEdward sits on the bed.\nHe *smiles*.\n\nEDWARD (V.O.)\n(whispering)\nThere are some fish\nthat cannot be caught.\n\nWILL ^\nI know.\n\n> THE END <\n~goodbye\n===\n";
    let s = parse(src);
    let page = s.titlepage.as_ref().expect("a title page");
    assert_eq!(page.title, vec![rich("Big Fish")]);
    assert_eq!(page.credit, vec![rich("written by")]);
    assert_eq!(page.authors, vec![rich("John August")]);
    let mut act = rich("Edward sits on the bed.");
    act.push_str("\n");
    act.push_str("He *smiles*.");
    assert_eq!(
        s.elements,
        vec![
            action("FADE IN:"),
            heading("INT. WILL'S BEDROOM - NIGHT ", Some("1")),
            Element::Action(act),
            Element::DualDialogue(
                speech(
                    "EDWARD",
                    Some("V.O."),
                    vec![
                        parenthetical("(whispering)"),
                        line("There are some fish"),
                        line("that cannot be caught."),
                    ],
                ),
                speech("WILL ", None, vec![line("I know.")]),
            ),
            Element::CenteredText(rich(" THE END ")),
            Element::Lyrics(rich("goodbye")),
            Element::PageBreak,
        ]
    );
}

#[test]
fn constructors() {
    assert_eq!(
        Dialogue::new(),
        Dialogue { character: RichString::new(), extension: None, elements: Vec::new() }
    );
    assert_eq!(Dialogue::default(), Dialogue::new());
    let page = TitlePage::new();
    assert!(page.title.is_empty() && page.credit.is_empty() && page.authors.is_empty());
    assert!(page.source.is_empty() && page.draft_date.is_empty() && page.contact.is_empty());
    assert_eq!(TitlePage::default(), TitlePage::new());
    let s = Screenplay::new(Some(TitlePage::new()), vec![Element::PageBreak]);
    assert_eq!(s.titlepage, Some(TitlePage::new()));
    assert_eq!(s.elements, vec![Element::PageBreak]);
}

#[test]
fn set_titlepage_replaces_the_title_page_only() {
    let mut s = parse("Title: T\n\nText.");
    assert!(s.titlepage.is_some());
    s.set_titlepage(None);
    assert_eq!(s.titlepage, None);
    assert_eq!(s.elements, vec![action("Text.")]);
    let mut page = TitlePage::new();
    page.contact.push(rich("x"));
    s.set_titlepage(Some(page));
    assert_eq!(s.titlepage.as_ref().map(|p| p.contact.len()), Some(1));
    assert_eq!(s.elements, vec![action("Text.")]);
}

#[test]
fn parsing_classified_text_is_parsing() {
    for src in ["", "INT. A\n\nText.\n", "Title: T\n\nBOB (V.O.)\n(low)\nHi.\n\n> CUT\n===\n"] {
        let chars: Vec<char> = preprocess_source(src).chars().collect();
        assert_eq!(parse_glyphs(&classify_all(&chars)), parse(src), "for {:?}", src);
    }
}

#[test]
fn the_classes_given_decide() {
    // `_` is white space here and the space is not: the first line is blank,
    // the second is not, and the third is trimmed of its `_`.
    assert_eq!(
        parse_glyphs(&made_up("__\n \n_!a_")).elements,
        vec![action(" "), action("a")]
    );
    // `Q` is the only letter that is not lowercase: `QQ` reads as a cue, `AB`
    // holds no letter at all, and `Qx` holds a lowercase one.
    assert_eq!(
        parse_glyphs(&made_up("\nQQ\nhi\n\nAB\nhi\n\nQx\nhi")).elements,
        vec![
            Element::Dialogue(speech("QQ", None, vec![line("hi")])),
            action("AB\nhi"),
            action("Qx\nhi"),
        ]
    );
    // Only `x`, `Q` and `9` may stand in a scene number or after the full stop
    // of a forced heading.
    assert_eq!(
        parse_glyphs(&made_up("\n.9#Q9x#\n.a\n.Q#1#")).elements,
        vec![heading("9", Some("Q9x")), action(".a"), heading("Q#1#", None)]
    );
    // A transition holds no lowercase character: `x` is the only one.
    assert_eq!(
        parse_glyphs(&made_up("\ncut TO:\n\nx TO:")).elements,
        vec![Element::Transition(rich("cut TO:")), action("x TO:")]
    );
}

#[test]
fn every_rich_string_of_a_screenplay_is_well_formed() {
    let sources = [
        "",
        "Title:\n   *a*\n   b**\n   \nAuthor: _x_ y\n\ntext",
        "one\n*two\nthree*\n\n> a <\n> *b <\n~la\n~*lo\n",
        "BOB (*V.O.*)\n(**low**)\n*Hi*.\n  \n__\n\nANN ^\n\\*x\n",
        ".A **B** #1#\n\n> *CUT*\n\n!_x_\n===\n",
    ];
    for src in sources {
        assert!(screenplay_is_well_formed(&parse(src)), "for {:?}", src);
    }
}

#[test]
fn the_elements_keep_the_order_of_the_document() {
    let got = elements("\n.ONE\none\n\n.TWO\ntwo\n\n.THREE\nthree\n");
    assert_eq!(
        got,
        vec![
            heading("ONE", None),
            action("one"),
            heading("TWO", None),
            action("two"),
            heading("THREE", None),
            action("three"),
        ]
    );
}
