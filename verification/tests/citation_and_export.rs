use zoro_desktop::citation::{
    candidate_identifiers, citation_accept_header, citation_route, doi_citation_source, local_ris_source,
    refresh_follow_up, CitationRoute,
};
use zoro_desktop::html_export::{html_annotation_from_row, inject_html_annotations, HtmlAnnotation, HtmlRowKind, ANNOTATION_CSS};

fn s(x: &str) -> String {
    x.to_string()
}

#[test]
fn citation_routes() {
    assert!(matches!(citation_route("ris", false, None), Ok(CitationRoute::Local)));
    assert!(matches!(citation_route("apa", true, None), Ok(CitationRoute::Cached)));
    assert!(matches!(citation_route("apa", false, Some(s("10.1/x"))), Ok(CitationRoute::Fetch(d)) if d == "10.1/x"));
    assert!(matches!(citation_route("bibtex", false, None), Err(e) if e == "No DOI available for citation lookup"));
}

#[test]
fn citation_sources() {
    assert_eq!(citation_accept_header("bibtex", "apa"), "application/x-bibtex");
    assert_eq!(citation_accept_header("apa", "apa"), "text/x-bibliography; style=apa");
    let src = doi_citation_source("10.1/x", s("https://doi.org/10.1/x"), "chicago", "chicago-author-date");
    assert_eq!(src.provider, "DOI Content Negotiation");
    assert_eq!(src.doi, Some(s("10.1/x")));
    assert_eq!(src.accept_header, Some(s("text/x-bibliography; style=chicago-author-date")));
    assert_eq!(src.style, "chicago");
    let bib = doi_citation_source("10.1/x", s("u"), "bibtex", "ignored");
    assert_eq!(bib.accept_header, Some(s("application/x-bibtex")));
    let ris = local_ris_source(None);
    assert_eq!(ris.provider, "Local");
    assert_eq!(ris.style, "ris");
    assert_eq!(ris.request_url, None);
}

#[test]
fn refresh_follow_ups() {
    let r = refresh_follow_up(0, Some(3), None, Some(s("2401.1")), None, Some(s("p.pdf")), false);
    assert!(r.set_authors);
    assert_eq!(r.fetch_arxiv_html, Some(s("2401.1")));
    assert_eq!(r.download_pdf, Some(s("p.pdf")));
    let q = refresh_follow_up(2, Some(3), Some(s("1111.1")), None, Some(s("own.pdf")), Some(s("p.pdf")), true);
    assert!(!q.set_authors);
    assert_eq!(q.fetch_arxiv_html, Some(s("1111.1")));
    assert_eq!(q.download_pdf, None);
}

#[test]
fn chosen_candidate_overrides_identifiers() {
    let (d, a) = candidate_identifiers(Some(Some(s("old"))), None, Some(s("new")), None);
    assert_eq!(d, Some(Some(s("new"))));
    assert_eq!(a, None);
    let (d, a) = candidate_identifiers(None, Some(None), None, Some(s("2401.1")));
    assert_eq!(d, None);
    assert_eq!(a, Some(Some(s("2401.1"))));
}

fn ann(kind: &str, color: &str, comment: Option<&str>, quote: &str) -> HtmlAnnotation {
    HtmlAnnotation {
        annotation_type: s(kind),
        color: s(color),
        comment: comment.map(s),
        quote: s(quote),
        prefix: s(""),
        suffix: s(""),
    }
}

fn export(html: &str, anns: &Vec<HtmlAnnotation>, ink: &str) -> Option<String> {
    inject_html_annotations(html, anns, ink).map(|b| String::from_utf8(b).unwrap())
}

const PAGE: &str = "<html><head><title>T</title></head><body><p>Hello world and more</p></body></html>";

#[test]
fn highlight_with_comment_is_marked_and_listed() {
    let anns = vec![ann("highlight", "#ff0", Some("nice & <b>"), "world")];
    let mark = "<mark class=\"zr-export-highlight\" style=\"background-color:#ff0;\" title=\"nice &amp; &lt;b&gt;\">world<sup class=\"zr-note-ref\">1</sup></mark>";
    let notes = "<div class=\"zr-notes-section\"><h2>Notes &amp; Comments</h2>\n<div class=\"zr-note-entry\" style=\"border-left-color:#ff0;\"><div class=\"zr-note-quote\">[1] \"world\"</div><div class=\"zr-note-comment\">nice &amp; &lt;b&gt;</div></div>\n</div>";
    let expected = format!(
        "<html><head><title>T</title>{}</head><body><p>Hello {} and more</p>{}</body></html>",
        ANNOTATION_CSS, mark, notes
    );
    assert_eq!(export(PAGE, &anns, ""), Some(expected));
}

#[test]
fn notes_are_numbered_from_the_end_of_the_page() {
    let anns = vec![ann("note", "#0f0", Some("a"), "Hello"), ann("underline", "red", Some("b"), "and")];
    let out = export(PAGE, &anns, "").unwrap();
    assert!(out.contains(
        "<mark class=\"zr-export-underline\" style=\"border-bottom:2px solid red;\">and<sup class=\"zr-note-ref\">1</sup></mark>"
    ));
    assert!(out.contains("Hello<sup class=\"zr-note-ref\" style=\"background:#0f0;\" title=\"a\">2</sup>"));
    let first = out.find("[1] \"and\"").unwrap();
    let second = out.find("[2] \"Hello\"").unwrap();
    assert!(first < second);
}

#[test]
fn a_quote_ending_the_text_runs_to_the_end_of_the_page() {
    let anns = vec![ann("highlight", "blue", None, "more")];
    let out = export(PAGE, &anns, "").unwrap();
    assert!(out.ends_with(
        "<p>Hello world and <mark class=\"zr-export-highlight\" style=\"background-color:blue;\">more</p></body></html></mark>"
    ));
}

#[test]
fn plain_highlight_and_unknown_kinds() {
    let anns = vec![ann("highlight", "blue", None, "Hello"), ann("ink", "x", None, "world"), ann("note", "c", None, "")];
    let out = export(PAGE, &anns, "").unwrap();
    assert!(out.contains("<p><mark class=\"zr-export-highlight\" style=\"background-color:blue;\">Hello</mark> world and more</p>"));
    assert!(!out.contains("zr-notes-section\">"));
}

#[test]
fn quote_not_found_leaves_text_alone() {
    let anns = vec![ann("highlight", "blue", None, "absent")];
    let expected = format!(
        "<html><head><title>T</title>{}</head><body><p>Hello world and more</p></body></html>",
        ANNOTATION_CSS
    );
    assert_eq!(export(PAGE, &anns, ""), Some(expected));
}

#[test]
fn style_and_overlay_placement_without_head_or_body() {
    assert_eq!(
        export("<body>x</body>", &vec![], "<svg/>"),
        Some(format!("<head>{}</head><body>x<svg/></body>", ANNOTATION_CSS))
    );
    assert_eq!(
        export("plain", &vec![], "<svg/>"),
        Some(format!("<head>{}</head>plain<svg/>", ANNOTATION_CSS))
    );
}

#[test]
fn export_fails_when_a_character_would_be_cut() {
    let mut a = ann("highlight", "c", None, "ab");
    a.prefix = s("z");
    assert_eq!(export("<p>é0123456789ab</p>", &vec![a], ""), None);
}

#[test]
fn stored_annotations_for_html_export() {
    let pos = r#"{"format": "html", "textQuote": "q", "textPrefix": "p"}"#;
    match html_annotation_from_row("highlight", "#ff0", Some("c"), pos) {
        HtmlRowKind::Text(a) => {
            assert_eq!(a.quote, "q");
            assert_eq!(a.prefix, "p");
            assert_eq!(a.suffix, "");
            assert_eq!(a.color, "#ff0");
            assert_eq!(a.comment, Some("c".to_string()));
        }
        _ => panic!("expected a text annotation"),
    }
    assert!(matches!(html_annotation_from_row("ink", "#000", None, pos), HtmlRowKind::Ink));
    assert!(matches!(html_annotation_from_row("area", "#000", None, pos), HtmlRowKind::Skipped));
    assert!(matches!(
        html_annotation_from_row("highlight", "#000", None, r#"{"format": "pdf"}"#),
        HtmlRowKind::Skipped
    ));
    assert!(matches!(html_annotation_from_row("note", "#000", None, "oops"), HtmlRowKind::Skipped));
}
