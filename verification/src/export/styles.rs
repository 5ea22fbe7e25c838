//! Styles that an element forces on its text, whatever the text's own.

use vstd::prelude::*;

use crate::screenplay::Element;

verus! {

/// A style that an exporter forces on the text of an element. For each of
/// bold, italic and underline: `None` leaves the text's own style in force,
/// `Some` puts the given value in its place.
#[derive(Debug, PartialEq, Eq, Structural, Clone, Copy)]
pub struct Style {
    pub bold: Option<bool>,
    pub italic: Option<bool>,
    pub underline: Option<bool>,
}

impl Style {
    /// The style that forces nothing.
    pub open spec fn none() -> Style {
        Style { bold: None, italic: None, underline: None }
    }

    /// The style of scene headings: bold.
    pub open spec fn heading() -> Style {
        Style { bold: Some(true), italic: None, underline: None }
    }
}

/// The style that `element` forces on its text: bold for a scene heading,
/// nothing for any other element.
pub fn element_style(element: &Element) -> (style: Style)
    ensures
        style == if element is Heading {
            Style::heading()
        } else {
            Style::none()
        },
{
    match element {
        Element::Heading { slug: _, number: _ } => Style {
            bold: Some(true),
            italic: None,
            underline: None,
        },
        _ => Style { bold: None, italic: None, underline: None },
    }
}

} // verus!
