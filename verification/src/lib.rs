//! A compiler front end for the Fountain screenplay markup language: it turns
//! plain screenplay text into a structured tree of screenplay elements whose
//! text is split into style-annotated runs.
//!
//! [`parse`] is the way in. The tree is described in [`screenplay`], the styled
//! text that it holds in [`rich_string`], and what a text means, line by line,
//! in [`parser::grammar`]. [`export`] turns a tree into the text of an HTML or
//! a Typst document.

pub mod export;
pub mod parser;
pub mod rich_string;
pub mod screenplay;
pub mod target;
pub mod text;

pub use export::export_html;
pub use export::export_typst;
pub use screenplay::Screenplay;

use vstd::prelude::*;

verus! {

/// Parses the text of a Fountain document into a [`Screenplay`].
pub fn parse(src: &str) -> (screenplay: Screenplay)
    ensures
        screenplay@ == parser::document(src@),
        screenplay@.well_formed(),
{
    parser::parse(src)
}

} // verus!
