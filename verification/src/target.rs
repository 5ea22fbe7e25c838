//! The formats that a screenplay can be exported to, and how one is chosen.

use vstd::prelude::*;

use crate::text::{eq_ignore_ascii_case, same_ignoring_ascii_case};

verus! {

/// A format that a screenplay can be exported to.
#[derive(Debug, PartialEq, Eq, Structural, Clone, Copy)]
pub enum Target {
    /// Typst markup.
    Typ,
    /// An HTML document.
    Html,
    /// A PDF document.
    Pdf,
}

/// The file extension of the files of the format `target`.
pub open spec fn extension_of(target: Target) -> Seq<char> {
    match target {
        Target::Typ => "typ"@,
        Target::Html => "html"@,
        Target::Pdf => "pdf"@,
    }
}

/// The format that files with the extension `extension` hold, whatever the
/// case of its letters, if it is a known one.
pub open spec fn target_of(extension: Seq<char>) -> Option<Target> {
    if eq_ignore_ascii_case(extension, "typ"@) {
        Some(Target::Typ)
    } else if eq_ignore_ascii_case(extension, "html"@) || eq_ignore_ascii_case(
        extension,
        "htm"@,
    ) {
        Some(Target::Html)
    } else if eq_ignore_ascii_case(extension, "pdf"@) {
        Some(Target::Pdf)
    } else {
        None
    }
}

/// The format to export to: the one asked for, else the one that the
/// extension of the output file tells, else PDF.
pub open spec fn decided(explicit: Option<Target>, extension: Option<Seq<char>>) -> Target {
    match explicit {
        Some(target) => target,
        None => match extension {
            Some(e) => match target_of(e) {
                Some(target) => target,
                None => Target::Pdf,
            },
            None => Target::Pdf,
        },
    }
}

/// The file extension of the files of the format `target`.
pub fn extension_from_target(target: &Target) -> (extension: &'static str)
    ensures
        extension@ == extension_of(*target),
{
    match target {
        Target::Typ => "typ",
        Target::Html => "html",
        Target::Pdf => "pdf",
    }
}

/// The format that files with the extension `extension` hold, if it is a
/// known one.
pub fn target_from_extension(extension: &str) -> (target: Option<Target>)
    ensures
        target == target_of(extension@),
{
    if same_ignoring_ascii_case(extension, "typ") {
        Some(Target::Typ)
    } else if same_ignoring_ascii_case(extension, "html") || same_ignoring_ascii_case(
        extension,
        "htm",
    ) {
        Some(Target::Html)
    } else if same_ignoring_ascii_case(extension, "pdf") {
        Some(Target::Pdf)
    } else {
        None
    }
}

/// Decides the format to export to. `explicit` is the format that was asked
/// for, if one was; `extension` is the extension of the output file, if the
/// output goes to a file.
pub fn decide_target(explicit: Option<Target>, extension: Option<&str>) -> (target: Target)
    ensures
        target == decided(
            explicit,
            match extension {
                Some(e) => Some(e@),
                None => None,
            },
        ),
{
    match explicit {
        Some(target) => target,
        None => match extension {
            Some(e) => match target_from_extension(e) {
                Some(target) => target,
                None => Target::Pdf,
            },
            None => Target::Pdf,
        },
    }
}

} // verus!
