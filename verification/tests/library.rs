use zoro_desktop::library::{local_import_enrichment, merge_attachments_typed, paper_file_location, reader_file_source, ReaderFile};
use zoro_desktop::library::local_import_skip;
use zoro_desktop::library::{
    attachment_file_type, check_local_import, created_collection_changes, enrichment_follow_up, files_on_disk,
    import_title, link_entity_id, lowercase_extension, merge_attachments, mime_from_ext, paper_dir_path,
    paper_identifier, paper_row_to_response, plan_attachment, scan_flag_updates, unique_attachment_name,
    updated_collection_changes, AttachmentRecord, ChangeValue, DiskFile, PaperRecord, TagRecord,
    UpdateCollectionInput,
};

fn s(x: &str) -> String {
    x.to_string()
}

fn strs(xs: &[&str]) -> Vec<String> {
    xs.iter().map(|x| s(x)).collect()
}

#[test]
fn mime_types_and_kinds() {
    assert_eq!(mime_from_ext("pdf"), "application/pdf");
    assert_eq!(mime_from_ext("htm"), "text/html");
    assert_eq!(mime_from_ext("jpeg"), "image/jpeg");
    assert_eq!(mime_from_ext("docx"), "application/vnd.openxmlformats-officedocument.wordprocessingml.document");
    assert_eq!(mime_from_ext("PDF"), "application/octet-stream");
    assert_eq!(mime_from_ext(""), "application/octet-stream");
    assert_eq!(attachment_file_type("pdf"), "pdf");
    assert_eq!(attachment_file_type("html"), "html");
    assert_eq!(attachment_file_type("epub"), "epub");
    assert_eq!(attachment_file_type("svg"), "image");
    assert_eq!(attachment_file_type("txt"), "other");
}

#[test]
fn lowercase_extensions() {
    assert_eq!(lowercase_extension("Report.PDF"), "pdf");
    assert_eq!(lowercase_extension("noext"), "");
    assert_eq!(lowercase_extension(".bashrc"), "");
    assert_eq!(lowercase_extension("notes.ÄÖ"), "äö");
}

#[test]
fn identifier_preference() {
    let doi = Some(s("10.1/x"));
    let arxiv = Some(s("2401.1"));
    assert_eq!(paper_identifier(&doi, &arxiv, "T"), "10.1/x");
    assert_eq!(paper_identifier(&None, &arxiv, "T"), "2401.1");
    assert_eq!(paper_identifier(&None, &None, "T"), "T");
    assert_eq!(paper_dir_path("my-slug"), "papers/my-slug");
}

#[test]
fn local_import_checks() {
    let missing = check_local_import("/a/b.pdf", "b.pdf", false).unwrap();
    assert_eq!(missing.path, "/a/b.pdf");
    assert_eq!(missing.reason, "File not found");
    assert!(check_local_import("/a/B.PDF", "B.PDF", true).is_none());
    let other = check_local_import("/a/c.txt", "c.txt", true).unwrap();
    assert_eq!(other.reason, "Unsupported file type: .txt");
    let none = check_local_import("/a/c", "c", true).unwrap();
    assert_eq!(none.reason, "Unsupported file type: .");
}

#[test]
fn import_titles() {
    assert_eq!(import_title(Some(s("From PDF")), Some("file.pdf")), "From PDF");
    assert_eq!(import_title(None, Some("my paper.pdf")), "my paper");
    assert_eq!(import_title(None, None), "Untitled");
}

#[test]
fn enrichment_follow_ups() {
    let f = enrichment_follow_up(false, Some(s("http://x/p.pdf")), false, 0, Some(2), None, Some(s("2401.1")));
    assert_eq!(f.download_pdf, Some(s("http://x/p.pdf")));
    assert!(f.set_authors);
    assert_eq!(f.fetch_arxiv_html, Some(s("2401.1")));
    let g = enrichment_follow_up(true, Some(s("http://x/p.pdf")), false, 3, Some(2), Some(s("1111.1")), Some(s("2")));
    assert_eq!(g.download_pdf, None);
    assert!(!g.set_authors);
    assert_eq!(g.fetch_arxiv_html, Some(s("1111.1")));
    let h = enrichment_follow_up(false, Some(s("u")), true, 0, Some(0), None, None);
    assert_eq!(h.download_pdf, None);
    assert!(!h.set_authors);
    assert_eq!(h.fetch_arxiv_html, None);
}

#[test]
fn disk_flags() {
    assert_eq!(files_on_disk(&strs(&["notes.txt", "x.PDF"]), false, false), (true, false));
    assert_eq!(files_on_disk(&strs(&["page.htm", "abs.html"]), false, false), (false, false));
    assert_eq!(files_on_disk(&strs(&["paper.zh.html"]), false, false), (false, true));
    assert_eq!(files_on_disk(&vec![], true, true), (true, true));
    assert_eq!(scan_flag_updates(true, false, true, true, true), (None, Some(true)));
    assert_eq!(scan_flag_updates(true, true, false, true, true), (Some(false), Some(false)));
    assert_eq!(scan_flag_updates(false, false, false, true, true), (None, None));
}

fn text_of(v: &ChangeValue) -> Option<String> {
    match v {
        ChangeValue::Text(t) => Some(t.clone()),
        _ => None,
    }
}

#[test]
fn collection_change_lists() {
    let c = created_collection_changes("Reading", &Some(s("p")), &None);
    assert_eq!(c.len(), 2);
    assert_eq!(c[0].0, "name");
    assert_eq!(text_of(&c[0].1), Some(s("Reading")));
    assert_eq!(c[1].0, "parent_id");
    assert_eq!(text_of(&c[1].1), Some(s("p")));
    let u = updated_collection_changes(&UpdateCollectionInput {
        name: None,
        parent_id: Some(None),
        description: Some(Some(s("d"))),
        position: Some(3),
    });
    assert_eq!(u.len(), 3);
    assert_eq!(u[0].0, "parent_id");
    assert!(matches!(u[0].1, ChangeValue::Null));
    assert_eq!(u[1].0, "description");
    assert_eq!(text_of(&u[1].1), Some(s("d")));
    assert_eq!(u[2].0, "position");
    assert!(matches!(u[2].1, ChangeValue::Number(3)));
    let none = updated_collection_changes(&UpdateCollectionInput {
        name: None,
        parent_id: None,
        description: None,
        position: None,
    });
    assert!(none.is_empty());
    assert_eq!(link_entity_id("p1", "c2"), "p1::c2");
}

fn rec(id: &str, name: &str, ty: &str) -> AttachmentRecord {
    AttachmentRecord {
        id: s(id),
        filename: s(name),
        file_type: s(ty),
        file_size: Some(10),
        source: s("manual"),
        relative_path: s(name),
        created_date: s("2024-01-01"),
    }
}

fn disk(dir: Option<&str>, name: &str) -> DiskFile {
    DiskFile { dir: dir.map(s), name: s(name), size: Some(5) }
}

#[test]
fn attachments_merge_database_and_disk() {
    let db = vec![rec("a1", "paper.pdf", "pdf"), rec("a2", "paper.pdf", "pdf"), rec("a3", "abs.html", "html")];
    let local = vec![true, false, false];
    let files = vec![
        disk(None, "paper.pdf"),
        disk(None, "metadata.json"),
        disk(None, ".hidden"),
        disk(Some("notes"), "n.md"),
        disk(Some("attachments"), "Fig.PNG"),
        disk(None, "Thumbs.db"),
    ];
    let r = merge_attachments(&db, &local, &files);
    assert_eq!(r.len(), 3);
    assert_eq!(r[0].id, "a1");
    assert!(r[0].is_local);
    assert_eq!(r[1].id, "a3");
    assert!(!r[1].is_local);
    assert_eq!(r[2].id, "fs-attachments/Fig.PNG");
    assert_eq!(r[2].file_type, "png");
    assert_eq!(r[2].source, "filesystem");
    assert_eq!(r[2].created_date, "");
    assert_eq!(r[2].file_size, Some(5));
}

fn record() -> PaperRecord {
    PaperRecord {
        id: s("p1"),
        slug: s("slug"),
        title: s("Title"),
        short_title: None,
        abstract_text: Some(s("abs")),
        doi: None,
        arxiv_id: Some(s("2401.1")),
        url: None,
        pdf_url: None,
        html_url: None,
        thumbnail_url: None,
        published_date: None,
        added_date: s("a"),
        modified_date: s("m"),
        source: None,
        read_status: s("unread"),
        rating: Some(4),
        dir_path: s("papers/slug"),
        extra_json: None,
        entry_type: Some(s("article")),
        journal: None,
        volume: None,
        issue: None,
        pages: None,
        publisher: None,
        issn: None,
        isbn: None,
        pdf_downloaded: true,
        html_downloaded: false,
    }
}

#[test]
fn paper_response_from_record() {
    let db = vec![rec("a3", "abs.html", "html")];
    let r = paper_row_to_response(
        &record(),
        vec![(s("Ada"), Some(s("ACM")), Some(s("ignored")))],
        vec![TagRecord { id: s("t1"), name: s("ml"), color: None }],
        &db,
        &vec![true],
        &vec![disk(None, "paper.pdf")],
        strs(&["note one"]),
    );
    assert_eq!(r.id, "p1");
    assert_eq!(r.rating, Some(4));
    assert_eq!(r.entry_type, Some(s("article")));
    assert_eq!(r.authors.len(), 1);
    assert_eq!(r.authors[0].affiliation, Some(s("ACM")));
    assert_eq!(r.tags[0].name, "ml");
    assert_eq!(r.attachments.len(), 2);
    assert!(r.has_pdf);
    assert!(!r.has_html);
    assert_eq!(r.notes, strs(&["note one"]));
    assert!(r.pdf_downloaded);
}

#[test]
fn html_attachment_counts_as_full_text() {
    let r = paper_row_to_response(&record(), vec![], vec![], &vec![], &vec![], &vec![disk(None, "paper.html")], vec![]);
    assert!(r.has_html);
    assert!(!r.has_pdf);
}

#[test]
fn attachment_names_avoid_collisions() {
    assert_eq!(unique_attachment_name(Some("fig.png"), &strs(&["a.png"])), "fig.png");
    assert_eq!(unique_attachment_name(Some("fig.png"), &strs(&["fig.png", "fig (1).png"])), "fig (2).png");
    assert_eq!(unique_attachment_name(None, &strs(&["attachment"])), "attachment (1)");
    assert_eq!(unique_attachment_name(Some(".env"), &strs(&[".env"])), ".env (1)");
}

#[test]
fn attachment_plan() {
    let p = plan_attachment(Some("Data.CSV"), &strs(&["Data.CSV"]));
    assert_eq!(p.dest_name, "Data (1).CSV");
    assert_eq!(p.relative_path, "attachments/Data (1).CSV");
    assert_eq!(p.file_type, "other");
    assert_eq!(p.mime_type, "text/csv");
}

#[test]
fn import_checks_for_a_given_extension() {
    assert!(local_import_skip("/a.PDF", "pdf", true).is_none());
    assert_eq!(local_import_skip("/a.PDF", "PDF", true).unwrap().reason, "Unsupported file type: .PDF");
    assert_eq!(local_import_skip("/a.pdf", "pdf", false).unwrap().reason, "File not found");
}

#[test]
fn attachments_with_given_kinds() {
    let files = vec![disk(None, "Notes.TXT"), disk(None, "x.bin")];
    let r = merge_attachments_typed(&vec![], &vec![], &files, &strs(&["kind-a", "kind-b"]));
    assert_eq!(r.len(), 2);
    assert_eq!(r[0].file_type, "kind-a");
    assert_eq!(r[1].file_type, "kind-b");
    assert_eq!(r[1].id, "fs-x.bin");
}

#[test]
fn reader_file_lookup() {
    let atts = vec![
        ("html".to_string(), true),
        ("pdf".to_string(), false),
        ("pdf".to_string(), true),
    ];
    assert_eq!(reader_file_source(ReaderFile::Pdf, "/d/paper.pdf", true, &atts), Ok(None));
    assert_eq!(reader_file_source(ReaderFile::Pdf, "/d/paper.pdf", false, &atts), Ok(Some(2)));
    assert_eq!(reader_file_source(ReaderFile::Html, "/d/paper.html", false, &atts), Ok(Some(0)));
    assert_eq!(
        reader_file_source(ReaderFile::Pdf, "/d/paper.pdf", false, &Vec::new()),
        Err("PDF file not found: /d/paper.pdf".to_string())
    );
    assert_eq!(
        reader_file_source(ReaderFile::Html, "/d/paper.html", false, &vec![("pdf".to_string(), true)]),
        Err("HTML file not found: /d/paper.html".to_string())
    );
    assert_eq!(paper_file_location(true, true, "a.txt"), Ok(false));
    assert_eq!(paper_file_location(false, true, "a.txt"), Ok(true));
    assert_eq!(paper_file_location(false, false, "a.txt"), Err("File not found: a.txt".to_string()));
}

#[test]
fn local_import_enrichment_decision() {
    assert_eq!(local_import_enrichment(false, Some("10.1/x"), None, Some("u")), None);
    assert_eq!(local_import_enrichment(true, Some("10.1/x"), None, Some("u")), Some(true));
    assert_eq!(local_import_enrichment(true, None, Some("2401.1"), Some("u")), Some(false));
    assert_eq!(local_import_enrichment(true, Some("10.1/x"), None, None), Some(false));
    assert_eq!(local_import_enrichment(true, None, None, Some("u")), None);
}
