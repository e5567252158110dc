use zoro_desktop::collections_import::{CollectionImport, ZoteroCollectionData};
use zoro_desktop::zotero::{
    prefs_data_dir, zotero_dir_candidates, zotero_dir_verdict,
    extract_arxiv_from_fields, format_creator_name, get_field, map_zotero_item_type, zotero_creator,
    ZoteroCreatorData,
};

fn creator(first: Option<&str>, last: Option<&str>, name: Option<&str>) -> ZoteroCreatorData {
    ZoteroCreatorData {
        first_name: first.map(|s| s.to_string()),
        last_name: last.map(|s| s.to_string()),
        name: name.map(|s| s.to_string()),
        creator_type: "author".to_string(),
    }
}

fn fields(rows: &[(&str, &str)]) -> Vec<(String, String)> {
    rows.iter().map(|(k, v)| (k.to_string(), v.to_string())).collect()
}

#[test]
fn creator_name_prefers_full_name() {
    assert_eq!(format_creator_name(&creator(Some("Ada"), Some("Lovelace"), Some("ACM"))), "ACM");
}

#[test]
fn creator_name_first_and_last() {
    assert_eq!(format_creator_name(&creator(Some("Ada"), Some("Lovelace"), None)), "Ada Lovelace");
}

#[test]
fn creator_name_partial_forms() {
    assert_eq!(format_creator_name(&creator(Some(""), Some("Lovelace"), None)), "Lovelace");
    assert_eq!(format_creator_name(&creator(None, Some("Lovelace"), None)), "Lovelace");
    assert_eq!(format_creator_name(&creator(Some("Ada"), Some(""), None)), "");
    assert_eq!(format_creator_name(&creator(Some("Ada"), None, None)), "Ada");
    assert_eq!(format_creator_name(&creator(None, None, None)), "Unknown");
}

#[test]
fn institutional_creator_gets_full_name() {
    let c = zotero_creator(Some(String::new()), Some("CERN".to_string()), "author".to_string());
    assert_eq!(c.name, Some("CERN".to_string()));
    assert_eq!(format_creator_name(&c), "CERN");
    let p = zotero_creator(Some("Ada".to_string()), Some("Lovelace".to_string()), "editor".to_string());
    assert_eq!(p.name, None);
    assert_eq!(p.creator_type, "editor");
}

#[test]
fn item_types_map_to_entry_types() {
    assert_eq!(map_zotero_item_type("journalArticle"), "article");
    assert_eq!(map_zotero_item_type("bookSection"), "incollection");
    assert_eq!(map_zotero_item_type("conferencePaper"), "inproceedings");
    assert_eq!(map_zotero_item_type("book"), "book");
    assert_eq!(map_zotero_item_type("thesis"), "thesis");
    assert_eq!(map_zotero_item_type("report"), "techreport");
    assert_eq!(map_zotero_item_type("patent"), "patent");
    assert_eq!(map_zotero_item_type("webpage"), "webpage");
    assert_eq!(map_zotero_item_type("preprint"), "article");
    assert_eq!(map_zotero_item_type("podcast"), "article");
}

#[test]
fn last_field_row_wins() {
    let f = fields(&[("title", "A"), ("url", "u"), ("title", "B")]);
    assert_eq!(get_field(&f, "title"), Some("B".to_string()));
    assert_eq!(get_field(&f, "DOI"), None);
}

#[test]
fn arxiv_id_from_abs_url() {
    let f = fields(&[("url", "https://arxiv.org/abs/2401.01234v2?context=cs")]);
    assert_eq!(extract_arxiv_from_fields(&f), Some("2401.01234v2".to_string()));
}

#[test]
fn arxiv_id_from_pdf_url() {
    let f = fields(&[("url", "http://arxiv.org/pdf/1706.03762#page=2")]);
    assert_eq!(extract_arxiv_from_fields(&f), Some("1706.03762".to_string()));
}

#[test]
fn arxiv_id_from_extra_field() {
    let f = fields(&[("extra", "Citation Key: x\n  arXiv: 2101.00001 \nmore")]);
    assert_eq!(extract_arxiv_from_fields(&f), Some("2101.00001".to_string()));
    let g = fields(&[("extra", "arxiv:2202.2")]);
    assert_eq!(extract_arxiv_from_fields(&g), Some("2202.2".to_string()));
}

#[test]
fn arxiv_url_with_empty_id_falls_back_to_extra() {
    let f = fields(&[("url", "https://arxiv.org/abs/?x"), ("extra", "arXiv:1234.5678")]);
    assert_eq!(extract_arxiv_from_fields(&f), Some("1234.5678".to_string()));
}

#[test]
fn no_arxiv_id() {
    let f = fields(&[("url", "https://example.org"), ("extra", "nothing here")]);
    assert_eq!(extract_arxiv_from_fields(&f), None);
    assert_eq!(extract_arxiv_from_fields(&Vec::new()), None);
}

fn coll(key: &str, parent: Option<&str>) -> ZoteroCollectionData {
    ZoteroCollectionData {
        key: key.to_string(),
        name: format!("name-{}", key),
        parent_key: parent.map(|p| p.to_string()),
    }
}

/// Runs an import where the collections listed in `failing` fail to be created, and
/// returns the actions as `(index, parent)` in the order they were handed out.
fn run_import(cols: &[ZoteroCollectionData], failing: &[usize]) -> Vec<(usize, Option<usize>)> {
    let v: Vec<ZoteroCollectionData> = cols
        .iter()
        .map(|c| ZoteroCollectionData { key: c.key.clone(), name: c.name.clone(), parent_key: c.parent_key.clone() })
        .collect();
    let mut imp = CollectionImport::new(&v);
    let mut out = Vec::new();
    while let Some(act) = imp.next_action() {
        out.push((act.index, act.parent));
        imp.record(!failing.contains(&act.index));
    }
    out
}

#[test]
fn children_wait_for_their_parents() {
    let cols = vec![coll("c", Some("b")), coll("b", Some("a")), coll("a", None)];
    assert_eq!(run_import(&cols, &[]), vec![(2, None), (1, Some(2)), (0, Some(1))]);
}

#[test]
fn orphans_end_at_the_top_level() {
    let cols = vec![coll("x", Some("missing")), coll("r", None), coll("y", Some("r"))];
    assert_eq!(run_import(&cols, &[]), vec![(1, None), (2, Some(1)), (0, None)]);
}

#[test]
fn a_failed_parent_sends_its_children_to_the_top_level() {
    let cols = vec![coll("p", None), coll("k", Some("p"))];
    assert_eq!(run_import(&cols, &[0]), vec![(0, None), (1, None)]);
}

#[test]
fn every_collection_is_handed_out_once() {
    let cols = vec![coll("a", None), coll("b", Some("a")), coll("c", Some("zz")), coll("d", Some("c"))];
    let acts = run_import(&cols, &[]);
    let mut idx: Vec<usize> = acts.iter().map(|a| a.0).collect();
    idx.sort();
    assert_eq!(idx, vec![0, 1, 2, 3]);
}

#[test]
fn empty_import_has_nothing_to_do() {
    assert!(run_import(&[], &[]).is_empty());
}

use zoro_desktop::text::parse_i64;
use zoro_desktop::zotero_items::{paper_match_lookups, ImportEvent, ImportPhase, ZoteroImportOptions, 
    annotation_color, annotation_kind, annotation_page, attachment_origin, duplicate_lookups, named_error,
    note_to_import, plan_zotero_paper, record_annotation_error, storage_file_name, AttachmentImport,
    AttachmentOrigin, AttachmentStep, ZoteroImportResult,
};

#[test]
fn duplicate_checks_use_present_identifiers_in_order() {
    let l = duplicate_lookups(Some("10.1/x"), Some(""), Some("http://u"));
    assert_eq!(l, vec![("doi", "10.1/x".to_string()), ("url", "http://u".to_string())]);
    assert!(duplicate_lookups(None, None, Some("")).is_empty());
    assert_eq!(duplicate_lookups(None, Some("2401.1"), None), vec![("arxiv_id", "2401.1".to_string())]);
}

#[test]
fn zotero_item_becomes_a_paper_plan() {
    let f = fields(&[
        ("title", "Attention"),
        ("url", "https://arxiv.org/abs/1706.03762"),
        ("date", "2017"),
        ("publicationTitle", "NeurIPS"),
        ("ISBN", "978"),
    ]);
    let creators = vec![
        creator(Some("Ashish"), Some("Vaswani"), None),
        ZoteroCreatorData { first_name: None, last_name: Some("Ed".to_string()), name: None, creator_type: "editor".to_string() },
        creator(None, None, Some("Google Brain")),
    ];
    let p = plan_zotero_paper("conferencePaper", &f, &creators);
    assert_eq!(p.title, "Attention");
    assert_eq!(p.identifier, "1706.03762");
    assert_eq!(p.arxiv_id, Some("1706.03762".to_string()));
    assert_eq!(p.doi, None);
    assert_eq!(p.published_date, Some("2017".to_string()));
    assert_eq!(p.journal, Some("NeurIPS".to_string()));
    assert_eq!(p.isbn, Some("978".to_string()));
    assert_eq!(p.entry_type, "inproceedings");
    assert_eq!(p.authors, vec!["Ashish Vaswani".to_string(), "Google Brain".to_string()]);
    assert_eq!(p.other_creators, vec![1]);
}

#[test]
fn untitled_item_is_identified_by_its_title() {
    let p = plan_zotero_paper("book", &Vec::new(), &Vec::new());
    assert_eq!(p.title, "Untitled");
    assert_eq!(p.identifier, "Untitled");
    assert_eq!(p.entry_type, "book");
    assert!(p.authors.is_empty());
    let q = plan_zotero_paper("webpage", &fields(&[("DOI", ""), ("url", "u")]), &Vec::new());
    assert_eq!(q.identifier, "");
}

#[test]
fn attachment_origins() {
    assert!(matches!(attachment_origin(0), AttachmentOrigin::Stored));
    assert!(matches!(attachment_origin(1), AttachmentOrigin::Stored));
    assert!(matches!(attachment_origin(2), AttachmentOrigin::Linked));
    assert!(matches!(attachment_origin(3), AttachmentOrigin::Remote));
    assert_eq!(storage_file_name("storage:paper v2.pdf"), "paper v2.pdf");
    assert_eq!(storage_file_name("/abs/path.pdf"), "/abs/path.pdf");
}

fn ct(x: &str) -> Option<String> {
    Some(x.to_string())
}

#[test]
fn first_pdf_becomes_paper_pdf() {
    let mut imp = AttachmentImport::new();
    match imp.step(&ct("text/html"), Some("snap.html".to_string())) {
        AttachmentStep::Copy { dest_name, into_attachments, register } => {
            assert_eq!(dest_name, "snap.html");
            assert!(into_attachments);
            assert_eq!(register, Some(("attachments/snap.html".to_string(), "html")));
        }
        _ => panic!("expected a copy"),
    }
    match imp.step(&ct("application/pdf"), Some("Vaswani.pdf".to_string())) {
        AttachmentStep::Copy { dest_name, into_attachments, register } => {
            assert_eq!(dest_name, "paper.pdf");
            assert!(!into_attachments);
            assert_eq!(register, None);
        }
        _ => panic!("expected a copy"),
    }
    assert!(!imp.first_pdf);
    match imp.step(&ct("application/pdf"), Some("supp.pdf".to_string())) {
        AttachmentStep::Copy { dest_name, into_attachments, register } => {
            assert_eq!(dest_name, "supp.pdf");
            assert!(into_attachments);
            assert_eq!(register, Some(("attachments/supp.pdf".to_string(), "pdf")));
        }
        _ => panic!("expected a copy"),
    }
    assert!(matches!(imp.step(&ct("application/pdf"), None), AttachmentStep::Missing { counts_as_missing_pdf: false }));
    match imp.step(&None, Some("data.csv".to_string())) {
        AttachmentStep::Copy { register, .. } => assert_eq!(register, Some(("attachments/data.csv".to_string(), "other"))),
        _ => panic!("expected a copy"),
    }
}

#[test]
fn a_missing_first_pdf_is_counted() {
    let mut imp = AttachmentImport::new();
    assert!(matches!(imp.step(&ct("application/pdf"), None), AttachmentStep::Missing { counts_as_missing_pdf: true }));
    assert!(imp.first_pdf);
    assert!(matches!(imp.step(&ct("text/plain"), None), AttachmentStep::Missing { counts_as_missing_pdf: false }));
}

#[test]
fn notes_annotations_and_errors() {
    assert_eq!(note_to_import("<p>Hi</p>"), Some("Hi".to_string()));
    assert_eq!(note_to_import("<p> </p><br>"), None);
    assert_eq!(annotation_kind("image"), "area");
    assert_eq!(annotation_kind("ink"), "ink");
    assert_eq!(annotation_kind("text"), "highlight");
    assert_eq!(annotation_color(None), "#ffe28f");
    assert_eq!(annotation_color(Some("#000")), "#000");
    assert_eq!(annotation_page(Some("12")), 12);
    assert_eq!(annotation_page(Some("iv")), 1);
    assert_eq!(annotation_page(None), 1);
    let mut errs: Vec<String> = Vec::new();
    for i in 0..60 {
        record_annotation_error(&mut errs, &format!("e{}", i));
    }
    assert_eq!(errs.len(), 50);
    assert_eq!(errs[0], "Annotation: e0");
    assert_eq!(named_error("Paper", "T", "boom"), "Paper 'T': boom");
    let r = ZoteroImportResult::new();
    assert_eq!(r.papers_imported + r.annotations_imported, 0);
    assert!(r.errors.is_empty());
}

#[test]
fn integer_parsing_follows_std() {
    for s in ["0", "42", "-7", "+7", "007", "9223372036854775807", "-9223372036854775808"] {
        assert_eq!(parse_i64(s), s.parse::<i64>().ok(), "{}", s);
    }
    for s in ["", "-", "+", "1a", " 1", "9223372036854775808", "-9223372036854775809", "99999999999999999999999", "--1"] {
        assert_eq!(parse_i64(s), None, "{}", s);
        assert!(s.parse::<i64>().is_err());
    }
}

#[test]
fn zotero_dir_verdicts() {
    assert_eq!(zotero_dir_verdict(true, true, true), Ok(true));
    assert_eq!(zotero_dir_verdict(false, true, true), Err("Directory does not exist".to_string()));
    assert_eq!(
        zotero_dir_verdict(true, false, true),
        Err("zotero.sqlite not found in this directory".to_string())
    );
    assert_eq!(
        zotero_dir_verdict(true, true, false),
        Err("storage/ directory not found — this may not be a Zotero data directory".to_string())
    );
}

#[test]
fn zotero_dir_candidate_paths() {
    assert_eq!(zotero_dir_candidates("/home/ann", false), vec!["/home/ann/Zotero".to_string()]);
    assert_eq!(
        zotero_dir_candidates("/Users/ann/", true),
        vec![
            "/Users/ann/Zotero".to_string(),
            "/Users/ann/Library/Application Support/Zotero/Profiles".to_string()
        ]
    );
}

#[test]
fn data_dir_from_prefs_line() {
    assert_eq!(
        prefs_data_dir(r#"user_pref("extensions.zotero.dataDir", "/Volumes/Data/Zotero");"#),
        Some("/Volumes/Data/Zotero".to_string())
    );
    assert_eq!(
        prefs_data_dir(r#"user_pref("extensions.zotero.lastDataDir", "/tmp/z");"#),
        Some("/tmp/z".to_string())
    );
    assert_eq!(prefs_data_dir(r#"user_pref("extensions.zotero.sync", "x");"#), None);
    assert_eq!(prefs_data_dir(r#"extensions.zotero.dataDir only one " quote"#), None);
    assert_eq!(prefs_data_dir("extensions.zotero.dataDir"), None);
}

#[test]
fn annotation_paper_lookups() {
    let all = paper_match_lookups(Some("10.1/x"), Some("2401.1"), Some("https://u"), Some("T"));
    let conds: Vec<&str> = all.iter().map(|(c, _)| *c).collect();
    assert_eq!(
        conds,
        vec!["doi = ?1", "arxiv_id = ?1", "url = ?1", "title = ?1 AND source = 'zotero-import'"]
    );
    let values: Vec<&str> = all.iter().map(|(_, v)| v.as_str()).collect();
    assert_eq!(values, vec!["10.1/x", "2401.1", "https://u", "T"]);
    let some = paper_match_lookups(None, Some(""), None, Some("Title"));
    assert_eq!(
        some,
        vec![("arxiv_id = ?1", "".to_string()), ("title = ?1 AND source = 'zotero-import'", "Title".to_string())]
    );
    assert!(paper_match_lookups(None, None, None, None).is_empty());
}

#[test]
fn import_outcomes_are_counted() {
    let mut r = ZoteroImportResult::new();
    r.record(ImportEvent::PaperImported);
    r.record(ImportEvent::PaperImported);
    r.record(ImportEvent::PaperSkipped);
    r.record(ImportEvent::CollectionCreated);
    r.record(ImportEvent::NoteImported);
    r.record(ImportEvent::AttachmentCopied);
    r.record(ImportEvent::AttachmentMissing);
    r.record(ImportEvent::AnnotationImported);
    r.record(ImportEvent::PaperFailed { title: "T".to_string(), error: "db".to_string() });
    r.record(ImportEvent::NoteFailed { title: "T".to_string(), error: "x".to_string() });
    r.record(ImportEvent::CollectionFailed { name: "C".to_string(), error: "y".to_string() });
    r.record(ImportEvent::AttachmentFailed { title: "T".to_string(), error: "io".to_string() });
    r.record(ImportEvent::AnnotationFailed { error: "z".to_string() });
    assert_eq!(
        (r.papers_imported, r.papers_skipped, r.collections_imported, r.notes_imported),
        (2, 1, 1, 1)
    );
    assert_eq!((r.attachments_copied, r.attachments_missing, r.annotations_imported), (1, 1, 1));
    assert_eq!(
        r.errors,
        vec![
            "Paper 'T': db".to_string(),
            "Note for 'T': x".to_string(),
            "Collection 'C': y".to_string(),
            "Copy attachment for 'T': io".to_string(),
            "Annotation: z".to_string(),
        ]
    );
}

#[test]
fn import_phases_follow_options() {
    let o = ZoteroImportOptions {
        zotero_dir: "/z".to_string(),
        import_collections: true,
        import_notes: false,
        import_attachments: true,
        import_annotations: false,
    };
    assert!(o.runs(ImportPhase::Collections));
    assert!(!o.runs(ImportPhase::Notes));
    assert!(o.runs(ImportPhase::Attachments));
    assert!(!o.runs(ImportPhase::Annotations));
}
