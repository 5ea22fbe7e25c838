use rustwell::rich_string::{Attributes, Element, RichString};

fn runs(rs: &RichString) -> Vec<(String, bool, bool, bool)> {
    rs.elements
        .iter()
        .map(|e| (e.text.clone(), e.is_bold(), e.is_italic(), e.is_underline()))
        .collect()
}

fn run(text: &str, bold: bool, italic: bool, underline: bool) -> (String, bool, bool, bool) {
    (text.to_string(), bold, italic, underline)
}

fn tokens(s: &str) -> Vec<(String, bool, bool, bool)> {
    runs(&RichString::from(s))
}

fn is_well_formed(rs: &RichString) -> bool {
    rs.elements.iter().all(|e| !e.text.is_empty())
        && rs
            .elements
            .windows(2)
            .all(|w| w[0].attributes != w[1].attributes)
}

#[test]
fn parses_bold() {
    let mut rs = RichString::new();
    rs.push_str("**text**");

    assert!(rs.elements[0].is_bold());
    assert_eq!(rs.elements[0].text, "text".to_string());
}

#[test]
fn parses_italic() {
    let mut rs = RichString::new();
    rs.push_str("*text*");

    assert!(rs.elements[0].is_italic());
    assert_eq!(rs.elements[0].text, "text".to_string());
}

#[test]
fn parses_underline() {
    let mut rs = RichString::new();
    rs.push_str("_text_");

    assert!(rs.elements[0].is_underline());
    assert_eq!(rs.elements[0].text, "text".to_string());
}

#[test]
fn parses_overlapping_styles() {
    let mut rs = RichString::new();
    rs.push_str("t_e**x**t_");

    assert!(!rs.elements[0].is_bold());
    assert!(!rs.elements[0].is_italic());
    assert!(!rs.elements[0].is_underline());
    assert_eq!(rs.elements[0].text, "t".to_string());

    assert!(!rs.elements[1].is_bold());
    assert!(!rs.elements[1].is_italic());
    assert!(rs.elements[1].is_underline());
    assert_eq!(rs.elements[1].text, "e".to_string());

    assert!(rs.elements[2].is_bold());
    assert!(!rs.elements[2].is_italic());
    assert!(rs.elements[2].is_underline());
    assert_eq!(rs.elements[2].text, "x".to_string());

    assert!(!rs.elements[3].is_bold());
    assert!(!rs.elements[3].is_italic());
    assert!(rs.elements[3].is_underline());
    assert_eq!(rs.elements[3].text, "t".to_string());
}

#[test]
fn parser_ignores_backslash() {
    let mut rs = RichString::new();
    rs.push_str(r#"\*text\*"#);

    assert!(!rs.elements[0].is_italic());
    assert_eq!(rs.elements[0].text, "*text*".to_string());
}

#[test]
fn bold_and_italic_in_one_fragment() {
    assert_eq!(
        tokens("**bold** and *italic*"),
        vec![
            run("bold", true, false, false),
            run(" and ", false, false, false),
            run("italic", false, true, false),
        ]
    );
}

#[test]
fn escaped_asterisks_are_one_plain_run() {
    assert_eq!(
        tokens("\\*not italic\\*"),
        vec![run("*not italic*", false, false, false)]
    );
}

#[test]
fn three_asterisks_switch_bold_and_italic() {
    assert_eq!(tokens("***both***"), vec![run("both", true, true, false)]);
}

#[test]
fn a_run_of_asterisks_counts_three_at_most() {
    // Three switch bold and italic on, the fourth switches italic off again.
    assert_eq!(tokens("****x"), vec![run("x", true, false, false)]);
    // Three and then two: bold and italic on, bold off.
    assert_eq!(tokens("*****x"), vec![run("x", false, true, false)]);
    // Three and three: everything on and off again.
    assert_eq!(tokens("******x"), vec![run("x", false, false, false)]);
}

#[test]
fn an_unmatched_marker_stays_active() {
    assert_eq!(
        tokens("plain *italic to the end"),
        vec![
            run("plain ", false, false, false),
            run("italic to the end", false, true, false),
        ]
    );
    assert_eq!(tokens("_under"), vec![run("under", false, false, true)]);
}

#[test]
fn the_same_marker_switches_off_again() {
    assert_eq!(
        tokens("a*b*c*d"),
        vec![
            run("a", false, false, false),
            run("b", false, true, false),
            run("c", false, false, false),
            run("d", false, true, false),
        ]
    );
    assert_eq!(
        tokens("**a**b"),
        vec![run("a", true, false, false), run("b", false, false, false)]
    );
}

#[test]
fn runs_of_one_style_are_joined() {
    // The two underscores between `a` and `b` cancel.
    assert_eq!(tokens("a__b"), vec![run("ab", false, false, false)]);
    assert_eq!(tokens("_a__b_"), vec![run("ab", false, false, true)]);
    assert_eq!(
        tokens("*a**b"),
        vec![run("a", false, true, false), run("b", true, true, false)]
    );
}

#[test]
fn styles_overlap_in_any_order() {
    assert_eq!(
        tokens("*a**b*c**"),
        vec![
            run("a", false, true, false),
            run("b", true, true, false),
            run("c", true, false, false),
        ]
    );
    assert_eq!(
        tokens("a**b"),
        vec![run("a", false, false, false), run("b", true, false, false)]
    );
    assert_eq!(
        tokens("a****b"),
        vec![run("a", false, false, false), run("b", true, false, false)]
    );
}

#[test]
fn a_newline_clears_the_styles() {
    assert_eq!(
        tokens("*a\nb"),
        vec![run("a", false, true, false), run("\nb", false, false, false)]
    );
    assert_eq!(
        tokens("**a**\n_b_"),
        vec![
            run("a", true, false, false),
            run("\n", false, false, false),
            run("b", false, false, true),
        ]
    );
}

#[test]
fn a_newline_joins_plain_text_around_it() {
    assert_eq!(tokens("a\nb"), vec![run("a\nb", false, false, false)]);
    assert_eq!(tokens("\n"), vec![run("\n", false, false, false)]);
}

#[test]
fn a_backslash_escapes_any_character() {
    assert_eq!(tokens("\\_x\\_"), vec![run("_x_", false, false, false)]);
    assert_eq!(tokens("a\\\\b"), vec![run("a\\b", false, false, false)]);
    assert_eq!(tokens("\\a"), vec![run("a", false, false, false)]);
    // The second backslash is escaped, so the asterisk after it is a marker.
    assert_eq!(
        tokens("\\\\*x"),
        vec![run("\\", false, false, false), run("x", false, true, false)]
    );
}

#[test]
fn an_escaped_marker_keeps_the_active_style() {
    assert_eq!(tokens("*a\\*b*c"), vec![
        run("a*b", false, true, false),
        run("c", false, false, false),
    ]);
    assert_eq!(tokens("_a\\_b"), vec![run("a_b", false, false, true)]);
}

#[test]
fn an_escaped_newline_is_plain_text_in_the_active_style() {
    assert_eq!(tokens("*a\\\nb"), vec![run("a\nb", false, true, false)]);
}

#[test]
fn a_backslash_at_the_end_is_dropped() {
    assert_eq!(tokens("abc\\"), vec![run("abc", false, false, false)]);
    assert_eq!(tokens("\\"), Vec::new());
}

#[test]
fn markers_alone_give_no_run() {
    assert_eq!(tokens(""), Vec::new());
    assert_eq!(tokens("**"), Vec::new());
    assert_eq!(tokens("*_*_"), Vec::new());
}

#[test]
fn characters_outside_ascii_are_kept() {
    assert_eq!(
        tokens("héllo **wörld** ✓"),
        vec![
            run("héllo ", false, false, false),
            run("wörld", true, false, false),
            run(" ✓", false, false, false),
        ]
    );
    assert_eq!(tokens("\\é*ü*"), vec![
        run("é", false, false, false),
        run("ü", false, true, false),
    ]);
}

#[test]
fn push_str_appends_to_what_is_there() {
    let mut rs = RichString::new();
    rs.push_str("Hello ");
    rs.push_str("**world!**");
    assert_eq!(
        runs(&rs),
        vec![run("Hello ", false, false, false), run("world!", true, false, false)]
    );
}

#[test]
fn push_str_joins_its_first_run_to_the_last_one() {
    let mut rs = RichString::new();
    rs.push_str("ab");
    rs.push_str("cd");
    assert_eq!(runs(&rs), vec![run("abcd", false, false, false)]);

    let mut styled = RichString::new();
    styled.push_str("*ab*");
    styled.push_str("*cd*");
    assert_eq!(runs(&styled), vec![run("abcd", false, true, false)]);
}

#[test]
fn styles_do_not_carry_over_to_the_next_call() {
    let mut rs = RichString::new();
    rs.push_str("*a");
    rs.push_str("b");
    assert_eq!(
        runs(&rs),
        vec![run("a", false, true, false), run("b", false, false, false)]
    );
}

#[test]
fn pushing_nothing_changes_nothing() {
    let mut rs = RichString::from("a*b*");
    let before = rs.clone();
    rs.push_str("");
    assert_eq!(rs, before);
    rs.push_str("__");
    assert_eq!(rs, before);
}

#[test]
fn new_and_default_are_empty() {
    assert!(RichString::new().elements.is_empty());
    assert!(RichString::default().elements.is_empty());
    assert_eq!(RichString::new(), RichString::default());
}

#[test]
fn from_reads_inline_markup() {
    let rs = RichString::from("_Hello _**world!**");
    assert_eq!(rs.elements[0].text, "Hello ".to_string());
    assert!(rs.elements[0].is_underline());
    assert_eq!(rs.elements[1].text, "world!".to_string());
    assert!(rs.elements[1].is_bold());
    assert!(!rs.elements[1].is_underline());
}

#[test]
fn from_takes_strings_too() {
    let text = "a *b* _c_".to_string();
    assert_eq!(RichString::from(&text), RichString::from("a *b* _c_"));
    assert_eq!(RichString::from(text), RichString::from("a *b* _c_"));
    let rs: RichString = "**x**".into();
    assert!(rs.elements[0].is_bold());
}

#[test]
fn from_chars_is_from_on_the_same_text() {
    let text = "a **b** _c_\\*";
    let chars: Vec<char> = text.chars().collect();
    assert_eq!(RichString::from_chars(&chars), RichString::from(text));
    let mut pushed = RichString::new();
    pushed.push_chars(&chars);
    assert_eq!(pushed, RichString::from(text));
}

#[test]
fn element_new_keeps_the_text_unstyled() {
    let e = Element::new("**not parsed**".to_string());
    assert_eq!(e.text, "**not parsed**".to_string());
    assert!(!e.is_bold());
    assert!(!e.is_italic());
    assert!(!e.is_underline());
    assert_eq!(e.attributes, Attributes::empty());
}

#[test]
fn element_default_is_empty_and_unstyled() {
    let e = Element::default();
    assert_eq!(e.text, String::new());
    assert_eq!(e.attributes, Attributes::default());
    assert_eq!(e, Element::new(String::new()));
}

#[test]
fn empty_attributes() {
    let none = Attributes::empty();
    assert_eq!(none, Attributes { bold: false, italic: false, underline: false });
    assert_eq!(none, Attributes::default());
}

#[test]
fn tokenizing_is_deterministic() {
    let text = "a *b* **c** _d_ \\* e\nf";
    assert_eq!(RichString::from(text), RichString::from(text));
}

#[test]
fn tokenized_text_has_no_empty_run_and_no_equal_neighbours() {
    let samples = [
        "",
        "plain",
        "**bold** and *italic*",
        "a**b**c__d*e*",
        "*a**b***c****d*****e",
        "_a_\n_b_\n\nc",
        "\\*\\_\\\\ x *\\** y",
        "* * * _ _ _",
        "a\n\n\nb*c\n*d",
    ];
    for s in samples {
        let rs = RichString::from(s);
        assert!(is_well_formed(&rs), "{:?} gave {:?}", s, rs);
    }
}

#[test]
fn pushing_keeps_a_rich_string_well_formed() {
    let mut rs = RichString::new();
    for s in ["a", "*b*", "*c", "\n", "d_e_", "", "_f_", "g"] {
        rs.push_str(s);
        assert!(is_well_formed(&rs), "after {:?}: {:?}", s, rs);
    }
    assert_eq!(
        runs(&rs),
        vec![
            run("a", false, false, false),
            run("bc", false, true, false),
            run("\nd", false, false, false),
            run("ef", false, false, true),
            run("g", false, false, false),
        ]
    );
}
