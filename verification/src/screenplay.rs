//! The tree that a screenplay is parsed into, and the mathematical values
//! that its contracts speak of.

use vstd::prelude::*;

use crate::rich_string::{well_formed, RichString, Span};

verus! {

/// The value of a [`DialogueElement`].
pub enum DialogueElementView {
    Parenthetical(Seq<Span>),
    Line(Seq<Span>),
}

/// The value of a [`Dialogue`].
pub struct DialogueView {
    pub character: Seq<Span>,
    pub extension: Option<Seq<Span>>,
    pub elements: Seq<DialogueElementView>,
}

/// The value of an [`Element`].
pub enum ElementView {
    Heading { slug: Seq<Span>, number: Option<Seq<char>> },
    Action(Seq<Span>),
    Dialogue(DialogueView),
    DualDialogue(DialogueView, DialogueView),
    Lyrics(Seq<Span>),
    Transition(Seq<Span>),
    CenteredText(Seq<Span>),
    Note(Seq<Span>),
    PageBreak,
}

/// The value of a [`TitlePage`].
pub struct TitlePageView {
    pub title: Seq<Seq<Span>>,
    pub credit: Seq<Seq<Span>>,
    pub authors: Seq<Seq<Span>>,
    pub source: Seq<Seq<Span>>,
    pub draft_date: Seq<Seq<Span>>,
    pub contact: Seq<Seq<Span>>,
}

/// The value of a [`Screenplay`].
pub struct ScreenplayView {
    pub titlepage: Option<TitlePageView>,
    pub elements: Seq<ElementView>,
}

impl DialogueElementView {
    /// The rich string that this part holds.
    pub open spec fn text(self) -> Seq<Span> {
        match self {
            DialogueElementView::Parenthetical(s) => s,
            DialogueElementView::Line(s) => s,
        }
    }
}

/// Whether every rich string of `values` is well formed.
pub open spec fn all_well_formed(values: Seq<Seq<Span>>) -> bool {
    forall|i: int| 0 <= i < values.len() ==> well_formed(#[trigger] values[i])
}

impl ElementView {
    /// Whether every rich string in this element is well formed: none has an
    /// empty run or two neighbouring runs of one style.
    pub open spec fn well_formed(self) -> bool {
        match self {
            ElementView::Heading { slug, number } => well_formed(slug),
            ElementView::Action(s) => well_formed(s),
            ElementView::Dialogue(d) => d.well_formed(),
            ElementView::DualDialogue(a, b) => a.well_formed() && b.well_formed(),
            ElementView::Lyrics(s) => well_formed(s),
            ElementView::Transition(s) => well_formed(s),
            ElementView::CenteredText(s) => well_formed(s),
            ElementView::Note(s) => well_formed(s),
            ElementView::PageBreak => true,
        }
    }
}

impl ScreenplayView {
    /// Whether every rich string in this screenplay is well formed.
    pub open spec fn well_formed(self) -> bool {
        &&& self.titlepage matches Some(page) ==> page.well_formed()
        &&& forall|i: int|
            0 <= i < self.elements.len() ==> (#[trigger] self.elements[i]).well_formed()
    }
}

impl TitlePageView {
    /// Whether every rich string on this title page is well formed.
    pub open spec fn well_formed(self) -> bool {
        &&& all_well_formed(self.title)
        &&& all_well_formed(self.credit)
        &&& all_well_formed(self.authors)
        &&& all_well_formed(self.source)
        &&& all_well_formed(self.draft_date)
        &&& all_well_formed(self.contact)
    }

    /// The title page with no value in any field.
    pub open spec fn empty() -> TitlePageView {
        TitlePageView {
            title: Seq::empty(),
            credit: Seq::empty(),
            authors: Seq::empty(),
            source: Seq::empty(),
            draft_date: Seq::empty(),
            contact: Seq::empty(),
        }
    }

    /// Whether no field holds a value.
    pub open spec fn is_empty(self) -> bool {
        &&& self.title.len() == 0
        &&& self.credit.len() == 0
        &&& self.authors.len() == 0
        &&& self.source.len() == 0
        &&& self.draft_date.len() == 0
        &&& self.contact.len() == 0
    }
}

impl DialogueView {
    /// Whether every rich string in this dialogue is well formed.
    pub open spec fn well_formed(self) -> bool {
        &&& well_formed(self.character)
        &&& self.extension matches Some(e) ==> well_formed(e)
        &&& forall|i: int|
            0 <= i < self.elements.len() ==> well_formed((#[trigger] self.elements[i]).text())
    }

    /// The dialogue of nobody: no name, no extension, nothing said.
    pub open spec fn empty() -> DialogueView {
        DialogueView { character: Seq::empty(), extension: None, elements: Seq::empty() }
    }
}

/// Either a parenthetical or a line of a [`Dialogue`].
#[derive(Debug, PartialEq, Eq)]
pub enum DialogueElement {
    Parenthetical(RichString),
    Line(RichString),
}

impl View for DialogueElement {
    type V = DialogueElementView;

    open spec fn view(&self) -> DialogueElementView {
        match *self {
            DialogueElement::Parenthetical(r) => DialogueElementView::Parenthetical(r@),
            DialogueElement::Line(r) => DialogueElementView::Line(r@),
        }
    }
}

impl DeepView for DialogueElement {
    type V = DialogueElementView;

    open spec fn deep_view(&self) -> DialogueElementView {
        self@
    }
}

/// What one character says: a name, an extension after the name where there
/// is one, and the parentheticals and lines in the order in which they stand.
#[derive(Debug, PartialEq, Eq)]
pub struct Dialogue {
    pub character: RichString,
    pub extension: Option<RichString>,
    pub elements: Vec<DialogueElement>,
}

impl View for Dialogue {
    type V = DialogueView;

    open spec fn view(&self) -> DialogueView {
        DialogueView {
            character: self.character@,
            extension: self.extension.deep_view(),
            elements: self.elements.deep_view(),
        }
    }
}

impl DeepView for Dialogue {
    type V = DialogueView;

    open spec fn deep_view(&self) -> DialogueView {
        self@
    }
}

impl Dialogue {
    /// An empty dialogue.
    pub fn new() -> (d: Dialogue)
        ensures
            d@ == DialogueView::empty(),
    {
        let d = Dialogue { character: RichString::new(), extension: None, elements: Vec::new() };
        assert(d@.elements =~= Seq::empty());
        d
    }
}

impl Default for Dialogue {
    fn default() -> (d: Dialogue)
        ensures
            d@ == DialogueView::empty(),
    {
        Dialogue::new()
    }
}

/// A component of a [`Screenplay`].
#[derive(Debug, PartialEq, Eq)]
pub enum Element {
    Heading { slug: RichString, number: Option<String> },
    Action(RichString),
    Dialogue(Dialogue),
    DualDialogue(Dialogue, Dialogue),
    Lyrics(RichString),
    Transition(RichString),
    CenteredText(RichString),
    Note(RichString),
    PageBreak,
}

impl View for Element {
    type V = ElementView;

    open spec fn view(&self) -> ElementView {
        match *self {
            Element::Heading { slug, number } => ElementView::Heading {
                slug: slug@,
                number: number.deep_view(),
            },
            Element::Action(r) => ElementView::Action(r@),
            Element::Dialogue(d) => ElementView::Dialogue(d@),
            Element::DualDialogue(a, b) => ElementView::DualDialogue(a@, b@),
            Element::Lyrics(r) => ElementView::Lyrics(r@),
            Element::Transition(r) => ElementView::Transition(r@),
            Element::CenteredText(r) => ElementView::CenteredText(r@),
            Element::Note(r) => ElementView::Note(r@),
            Element::PageBreak => ElementView::PageBreak,
        }
    }
}

impl DeepView for Element {
    type V = ElementView;

    open spec fn deep_view(&self) -> ElementView {
        self@
    }
}

/// What a title page tells. Any field may be empty, and any field may hold
/// several values.
#[derive(Debug, PartialEq, Eq)]
pub struct TitlePage {
    pub title: Vec<RichString>,
    pub credit: Vec<RichString>,
    pub authors: Vec<RichString>,
    pub source: Vec<RichString>,
    pub draft_date: Vec<RichString>,
    pub contact: Vec<RichString>,
}

impl View for TitlePage {
    type V = TitlePageView;

    open spec fn view(&self) -> TitlePageView {
        TitlePageView {
            title: self.title.deep_view(),
            credit: self.credit.deep_view(),
            authors: self.authors.deep_view(),
            source: self.source.deep_view(),
            draft_date: self.draft_date.deep_view(),
            contact: self.contact.deep_view(),
        }
    }
}

impl DeepView for TitlePage {
    type V = TitlePageView;

    open spec fn deep_view(&self) -> TitlePageView {
        self@
    }
}

impl TitlePage {
    /// A title page with no value in any field.
    pub fn new() -> (t: TitlePage)
        ensures
            t@ == TitlePageView::empty(),
    {
        let t = TitlePage {
            title: Vec::new(),
            credit: Vec::new(),
            authors: Vec::new(),
            source: Vec::new(),
            draft_date: Vec::new(),
            contact: Vec::new(),
        };
        assert(t@.title =~= Seq::empty());
        assert(t@.credit =~= Seq::empty());
        assert(t@.authors =~= Seq::empty());
        assert(t@.source =~= Seq::empty());
        assert(t@.draft_date =~= Seq::empty());
        assert(t@.contact =~= Seq::empty());
        t
    }
}

impl Default for TitlePage {
    fn default() -> (t: TitlePage)
        ensures
            t@ == TitlePageView::empty(),
    {
        TitlePage::new()
    }
}

/// A whole screenplay: the title page, where there is one, and the elements
/// in the order of the document.
#[derive(Debug, PartialEq, Eq)]
pub struct Screenplay {
    pub titlepage: Option<TitlePage>,
    pub elements: Vec<Element>,
}

impl View for Screenplay {
    type V = ScreenplayView;

    open spec fn view(&self) -> ScreenplayView {
        ScreenplayView {
            titlepage: self.titlepage.deep_view(),
            elements: self.elements.deep_view(),
        }
    }
}

impl DeepView for Screenplay {
    type V = ScreenplayView;

    open spec fn deep_view(&self) -> ScreenplayView {
        self@
    }
}

impl Screenplay {
    /// The screenplay with the given title page and elements.
    pub fn new(titlepage: Option<TitlePage>, elements: Vec<Element>) -> (s: Screenplay)
        ensures
            s.titlepage == titlepage,
            s.elements == elements,
            s@ == (ScreenplayView {
                titlepage: titlepage.deep_view(),
                elements: elements.deep_view(),
            }),
    {
        Screenplay { titlepage, elements }
    }

    /// Replaces the title page and leaves the elements as they are.
    pub fn set_titlepage(&mut self, titlepage: Option<TitlePage>)
        ensures
            final(self).titlepage == titlepage,
            final(self).elements == old(self).elements,
            final(self)@ == (ScreenplayView {
                titlepage: titlepage.deep_view(),
                elements: old(self)@.elements,
            }),
    {
        self.titlepage = titlepage;
    }
}

} // verus!
