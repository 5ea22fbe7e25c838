use rustwell::target::{decide_target, extension_from_target, target_from_extension, Target};

#[test]
fn extensions_of_targets() {
    assert_eq!(extension_from_target(&Target::Typ), "typ");
    assert_eq!(extension_from_target(&Target::Html), "html");
    assert_eq!(extension_from_target(&Target::Pdf), "pdf");
}

#[test]
fn targets_of_extensions() {
    assert_eq!(target_from_extension("typ"), Some(Target::Typ));
    assert_eq!(target_from_extension("html"), Some(Target::Html));
    assert_eq!(target_from_extension("htm"), Some(Target::Html));
    assert_eq!(target_from_extension("pdf"), Some(Target::Pdf));
    assert_eq!(target_from_extension("PDF"), Some(Target::Pdf));
    assert_eq!(target_from_extension("HtMl"), Some(Target::Html));
    assert_eq!(target_from_extension(""), None);
    assert_eq!(target_from_extension("txt"), None);
    assert_eq!(target_from_extension("pdfs"), None);
    assert_eq!(target_from_extension("pd"), None);
}

#[test]
fn every_extension_leads_back_to_its_target() {
    for t in [Target::Typ, Target::Html, Target::Pdf] {
        assert_eq!(target_from_extension(extension_from_target(&t)), Some(t));
    }
}

#[test]
fn the_target_asked_for_wins() {
    assert_eq!(decide_target(Some(Target::Typ), Some("html")), Target::Typ);
    assert_eq!(decide_target(Some(Target::Html), None), Target::Html);
}

#[test]
fn the_extension_decides_where_no_target_is_asked_for() {
    assert_eq!(decide_target(None, Some("html")), Target::Html);
    assert_eq!(decide_target(None, Some("TYP")), Target::Typ);
    assert_eq!(decide_target(None, Some("pdf")), Target::Pdf);
}

#[test]
fn pdf_is_the_target_where_nothing_else_decides() {
    assert_eq!(decide_target(None, None), Target::Pdf);
    assert_eq!(decide_target(None, Some("doc")), Target::Pdf);
    assert_eq!(decide_target(None, Some("")), Target::Pdf);
}
