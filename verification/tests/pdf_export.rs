use zoro_desktop::pdf_export::{
    channels_readable, color_channels, export_page, plan_pdf_annotation, PdfAnnotKind,
};

fn s(x: &str) -> Option<String> {
    Some(x.to_string())
}

#[test]
fn colour_codes_are_read_per_channel() {
    assert_eq!(color_channels("#ffe28f"), (255, 226, 143));
    assert_eq!(color_channels("##00Ff0a"), (0, 255, 10));
    assert_eq!(color_channels("zz1234"), (255, 0x12, 0x34));
    assert_eq!(color_channels("+f+f+f"), (15, 15, 15));
    assert_eq!(color_channels("#é12345"), (255, 0x12, 0x34));
    assert_eq!(color_channels("#a1b2c3d4"), (0xa1, 0xb2, 0xc3));
}

#[test]
fn colour_codes_that_cannot_be_cut() {
    assert!(channels_readable("#ffe28f"));
    assert!(!channels_readable("#abc"));
    assert!(!channels_readable("#1é2345"));
    assert!(!channels_readable(""));
}

#[test]
fn annotation_pages() {
    assert_eq!(export_page(3), 3);
    assert_eq!(export_page(0), 1);
    assert_eq!(export_page(-4), 1);
}

#[test]
fn highlight_contents_and_signature() {
    let p = plan_pdf_annotation("highlight", &s("text"), &s("why"), false).unwrap();
    assert!(matches!(p.kind, PdfAnnotKind::Highlight));
    assert_eq!(p.contents, s("why"));
    assert!(p.signed);
    let q = plan_pdf_annotation("underline", &s("text"), &None, false).unwrap();
    assert!(matches!(q.kind, PdfAnnotKind::Underline));
    assert_eq!(q.contents, s("text"));
    assert!(!q.signed);
    let r = plan_pdf_annotation("highlight", &None, &s("why"), false).unwrap();
    assert_eq!(r.contents, None);
    assert!(r.signed);
}

#[test]
fn notes_ink_and_areas() {
    let n = plan_pdf_annotation("note", &s("sel"), &None, false).unwrap();
    assert!(matches!(n.kind, PdfAnnotKind::Text));
    assert_eq!(n.contents, s("sel"));
    assert_eq!(plan_pdf_annotation("note", &None, &None, false).unwrap().contents, s(""));
    assert!(plan_pdf_annotation("ink", &None, &s("c"), false).is_none());
    let i = plan_pdf_annotation("ink", &None, &s("c"), true).unwrap();
    assert!(matches!(i.kind, PdfAnnotKind::Ink));
    assert_eq!(i.contents, s("c"));
    let a = plan_pdf_annotation("area", &None, &None, false).unwrap();
    assert!(matches!(a.kind, PdfAnnotKind::Square));
    assert!(plan_pdf_annotation("image", &None, &None, true).is_none());
}
