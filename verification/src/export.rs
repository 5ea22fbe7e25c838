//! A parsed screenplay as the text of a document in another format.
//!
//! The functions here compute the whole text of the document. Writing it
//! somewhere is left to the caller.

pub mod html;
pub mod styles;
pub mod typst;

pub use html::export_html;
pub use typst::export_typst;
