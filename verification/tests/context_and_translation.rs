use zoro_desktop::translation::{babeldoc_check_report, command_not_found_message, located_path_of, pick_translated_pdf, printed_path_of, unix_tool_paths, windows_tool_paths};
use zoro_desktop::paper_context::{build_paper_context, ContextAnnotation, PaperContextData};
use zoro_desktop::translation::{
    babeldoc_args, babeldoc_lang_out, batch_lookup_wanted, choose_pdf_source, find_translated_pdf, first_existing,
    has_pdf_extension, mask_api_key_args, pair_translations, pdf_translation_endpoint, pdf_translation_preflight,
    plan_field_translation, selection_translation_wanted, server_failure_message, translated_output_name,
    BabeldocRun, Endpoint, PdfSource, TranslationRecord,
};

fn s(x: &str) -> String {
    x.to_string()
}

fn strs(xs: &[&str]) -> Vec<String> {
    xs.iter().map(|x| s(x)).collect()
}

fn pairs(rows: &[(&str, &str)]) -> Vec<(String, String)> {
    rows.iter().map(|(a, b)| (s(a), s(b))).collect()
}

fn plain(html: &str) -> String {
    zoro_desktop::paper_context::strip_html_tags(html)
}

#[test]
fn chat_plain_text_drops_scripts_styles_and_tags() {
    let html = "<html><head><style>p{}</style><SCRIPT>x()</script></head><body><p>Hello&nbsp;&amp; <b>world</b></p><div>Line2</div></body></html>";
    assert_eq!(plain(html), "Hello & world\nLine2");
}

#[test]
fn chat_plain_text_block_tags_any_case() {
    assert_eq!(plain("<P>x</P><BR>y<li>z"), "x\ny\nz");
}

#[test]
fn chat_plain_text_matches_tags_in_the_lowercased_text() {
    // The dotted capital I lowercases to two characters, so the block tag after it is
    // looked up one position late in the lowercased text and is not seen.
    assert_eq!(plain("\u{130}<p>x"), "\u{130}x");
    assert_eq!(plain("<DIV>a</DIV>b"), "a\nb");
}

#[test]
fn chat_plain_text_unclosed_bracket_is_dropped() {
    assert_eq!(plain("a < b"), "a b");
}

#[test]
fn chat_plain_text_entities_and_whitespace() {
    assert_eq!(plain("  it&#39;s   &lt;ok&gt;  \n\n  &quot;q&quot; "), "it's <ok> \n\"q\"");
}

fn paper() -> PaperContextData {
    PaperContextData {
        id: s("p1"),
        title: s("T"),
        authors: strs(&["A", "B"]),
        published_date: Some(s("2024")),
        doi: None,
        arxiv_id: Some(s("1234")),
        read_status: s("unread"),
        tags: strs(&["ml"]),
        abstract_text: Some(s("Abs")),
        html: Some(s("<p>Body</p>")),
        notes: strs(&["n1\nline2"]),
        annotations: vec![
            ContextAnnotation {
                page_number: 3,
                annotation_type: s("highlight"),
                selected_text: Some(s("sel")),
                comment: Some(s("")),
            },
            ContextAnnotation { page_number: -1, annotation_type: s("note"), selected_text: None, comment: Some(s("c")) },
        ],
    }
}

#[test]
fn paper_context_lists_everything_in_order() {
    let expected = "## Current Paper Context\n\n**Title:** T\n**Authors:** A, B\n**Published:** 2024\n\
**arXiv ID:** 1234\n**Read Status:** unread\n**Paper ID:** p1\n**Tags:** ml\n\n### Abstract\nAbs\n\n\
### Full Text\nBody\n\n### Notes\n- n1 line2\n\n### Annotations\n- [Page 3, highlight] — \"sel\"\n\
- [Page -1, note] — Comment: c\n";
    assert_eq!(build_paper_context(&paper()), expected);
}

#[test]
fn paper_context_minimal() {
    let d = PaperContextData {
        id: s("x"),
        title: s("Only"),
        authors: vec![],
        published_date: None,
        doi: Some(s("10.1/2")),
        arxiv_id: None,
        read_status: s("read"),
        tags: vec![],
        abstract_text: None,
        html: Some(s("<script>only()</script>")),
        notes: vec![],
        annotations: vec![],
    };
    assert_eq!(
        build_paper_context(&d),
        "## Current Paper Context\n\n**Title:** Only\n**DOI:** 10.1/2\n**Read Status:** read\n**Paper ID:** x\n"
    );
}

#[test]
fn paper_context_caps_long_full_text() {
    let mut d = paper();
    d.html = Some(format!("<p>{}</p>", "a".repeat(70000)));
    let ctx = build_paper_context(&d);
    let marker = format!("### Full Text\n{}\n\n[Content truncated — showing first ~60k characters]\n", "a".repeat(60000));
    assert!(ctx.contains(&marker));
    assert!(!ctx.contains(&"a".repeat(60001)));
}

#[test]
fn paper_context_caps_multibyte_text_by_characters() {
    let mut d = paper();
    d.html = Some(format!("<p>{}</p>", "论".repeat(60001)));
    let ctx = build_paper_context(&d);
    let marker = format!("### Full Text\n{}\n\n[Content truncated — showing first ~60k characters]\n", "论".repeat(60000));
    assert!(ctx.contains(&marker));
    let mut short = paper();
    short.html = Some(format!("<p>{}</p>", "论".repeat(60000)));
    let full = build_paper_context(&short);
    assert!(full.contains(&format!("### Full Text\n{}\n", "论".repeat(60000))));
    assert!(!full.contains("[Content truncated"));
}

fn record(field: &str, text: &str) -> TranslationRecord {
    TranslationRecord { field: s(field), translated_text: s(text), model: Some(s("m")), created_date: s("d") }
}

#[test]
fn translations_are_paired_with_their_originals() {
    let originals = pairs(&[("title", "Orig T"), ("abstract_text", "Orig A")]);
    let r = pair_translations(vec![record("title", "T2"), record("ai_summary", "S2")], &originals);
    assert_eq!(r.len(), 2);
    assert_eq!(r[0].original_text, "Orig T");
    assert_eq!(r[0].translated_text, "T2");
    assert_eq!(r[0].model, Some(s("m")));
    assert_eq!(r[1].field, "ai_summary");
    assert_eq!(r[1].original_text, "");
}

#[test]
fn batch_lookup_needs_language_and_ids() {
    assert!(batch_lookup_wanted("zh", &strs(&["a"])));
    assert!(!batch_lookup_wanted("", &strs(&["a"])));
    assert!(!batch_lookup_wanted("zh", &vec![]));
}

#[test]
fn field_translation_plan() {
    let originals = pairs(&[("title", "Deep Nets"), ("abstract_text", ""), ("ai_summary", "Sum")]);
    let p = plan_field_translation("zh", &strs(&["abstract_text", "ai_summary", "title", "missing"]), &originals, true)
        .unwrap();
    assert_eq!(p.items, pairs(&[("ai_summary", "Sum"), ("title", "Deep Nets")]));
    assert!(p.extract_glossary);
    let q = plan_field_translation("zh", &strs(&["title"]), &originals, false).unwrap();
    assert!(!q.extract_glossary);
    let r = plan_field_translation("zh", &strs(&["abstract_text"]), &originals, true).unwrap();
    assert!(r.items.is_empty());
    assert!(!r.extract_glossary);
    let e = plan_field_translation("", &strs(&["title"]), &originals, true);
    assert_eq!(e.err(), Some(s("Native language not configured. Set it in Settings > AI / Translation.")));
}

#[test]
fn whitespace_only_originals_skip_the_glossary() {
    let originals = pairs(&[("title", "  \n ")]);
    let p = plan_field_translation("de", &strs(&["title"]), &originals, true).unwrap();
    assert_eq!(p.items.len(), 1);
    assert!(!p.extract_glossary);
}

#[test]
fn selection_translation() {
    assert_eq!(selection_translation_wanted("zh", " word "), Ok(true));
    assert_eq!(selection_translation_wanted("zh", "  \t"), Ok(false));
    assert!(selection_translation_wanted("", "word").is_err());
}

#[test]
fn babeldoc_language_codes() {
    assert_eq!(babeldoc_lang_out("zh"), "zh-CN");
    assert_eq!(babeldoc_lang_out("ja"), "ja");
    assert_eq!(babeldoc_lang_out("zh-TW"), "zh-TW");
}

#[test]
fn pdf_translation_preconditions() {
    assert_eq!(pdf_translation_preflight(true, "zh"), Ok(()));
    assert_eq!(
        pdf_translation_preflight(false, ""),
        Err(s("PDF translation is not enabled. Enable it in Settings > AI / Translation."))
    );
    assert_eq!(
        pdf_translation_preflight(true, ""),
        Err(s("Native language not configured. Set it in Settings > AI / Translation."))
    );
}

#[test]
fn pdf_source_choice() {
    let atts = vec![(s("html"), true), (s("pdf"), false), (s("pdf"), true)];
    assert!(matches!(choose_pdf_source(Some("a.pdf"), true, true, true, &atts), Ok(PdfSource::Requested)));
    assert!(matches!(
        choose_pdf_source(Some("a.pdf"), false, true, true, &atts),
        Ok(PdfSource::RequestedInAttachments)
    ));
    assert!(matches!(choose_pdf_source(Some("a.pdf"), false, false, true, &atts),
        Err(e) if e == "PDF file not found: a.pdf"));
    assert!(matches!(choose_pdf_source(None, false, false, true, &atts), Ok(PdfSource::PaperPdf)));
    assert!(matches!(choose_pdf_source(None, false, false, false, &atts), Ok(PdfSource::Attachment(2))));
    assert!(matches!(choose_pdf_source(None, false, false, false, &vec![]),
        Err(e) if e == "No PDF file found for this paper."));
    assert_eq!(first_existing(&atts, "html"), Some(0));
    assert_eq!(first_existing(&atts, "epub"), None);
}

#[test]
fn translated_file_names() {
    assert_eq!(translated_output_name(Some("paper.pdf"), "zh"), "paper.zh.pdf");
    assert_eq!(translated_output_name(Some("a.b.pdf"), "de"), "a.b.de.pdf");
    assert_eq!(translated_output_name(None, "ja"), "paper.ja.pdf");
}

fn ep(k: &str, u: &str, m: &str) -> Endpoint {
    Endpoint { api_key: s(k), base_url: s(u), model: s(m) }
}

#[test]
fn pdf_endpoint_selection() {
    let r = pdf_translation_endpoint(true, ep("k", "u", "m"), ep("", "", "")).unwrap();
    assert_eq!((r.api_key, r.base_url, r.model), (s("k"), s("u"), s("m")));
    let r = pdf_translation_endpoint(false, ep("k", "u", "m"), ep("k2", "u2", "m2")).unwrap();
    assert_eq!(r.model, "m2");
    let e = pdf_translation_endpoint(false, ep("k", "u", "m"), ep("k2", "", "m2"));
    assert_eq!(
        e.err(),
        Some(s("AI API not configured for PDF translation. Set API key, base URL, and model."))
    );
}

fn run(extra: &str, debug: bool) -> BabeldocRun {
    BabeldocRun {
        model: s("m"),
        base_url: s("u"),
        api_key: s("k"),
        pdf_path: s("/p/a.pdf"),
        output_dir: s("/out"),
        lang_out: s("zh-CN"),
        qps: 4,
        extra_args: s(extra),
        debug,
    }
}

#[test]
fn babeldoc_argument_list() {
    let base = strs(&[
        "--openai", "--openai-model", "m", "--openai-base-url", "u", "--openai-api-key", "k", "--files", "/p/a.pdf",
        "--output", "/out", "--lang-out", "zh-CN", "--qps", "4", "--watermark-output-mode", "no_watermark",
    ]);
    assert_eq!(babeldoc_args(&run("", false)), base);
    let mut with_extra = base.clone();
    with_extra.extend(strs(&["--pages", "1-3", "--debug", "--ignore-cache"]));
    assert_eq!(babeldoc_args(&run("  --pages   1-3 ", true)), with_extra);
}

#[test]
fn api_key_is_masked_in_logs() {
    let args = strs(&["--openai-api-key", "SECRET-REDACTED", "--x", "y"]);
    assert_eq!(mask_api_key_args(&args), strs(&["--openai-api-key", "***", "--x", "y"]));
    let twice = strs(&["--openai-api-key", "--openai-api-key", "z"]);
    assert_eq!(mask_api_key_args(&twice), strs(&["--openai-api-key", "***", "z"]));
    let last = strs(&["a", "--openai-api-key"]);
    assert_eq!(mask_api_key_args(&last), last);
}

#[test]
fn translated_pdf_is_found_in_the_output() {
    assert_eq!(find_translated_pdf(&strs(&["log.txt", "a.PDF", "a.zh.mono-Translated.pdf"])), Some(2));
    assert_eq!(find_translated_pdf(&strs(&["log.txt", "b.pdf", "c.pdf"])), Some(1));
    assert_eq!(find_translated_pdf(&strs(&["translate.txt", ".pdf"])), None);
    assert_eq!(find_translated_pdf(&strs(&["a.pdf", "paper_dual.pdf"])), Some(1));
    assert_eq!(find_translated_pdf(&strs(&["a.pdf", "paper.no_watermark.zh.DUAL.pdf", "b.pdf"])), Some(1));
    assert!(has_pdf_extension("x.Pdf"));
    assert!(!has_pdf_extension("pdf"));
}

#[test]
fn server_failure_is_cut_after_300_bytes() {
    assert_eq!(server_failure_message("1", "boom"), "PDF translation server exited with code 1: boom");
    let long = "x".repeat(350);
    assert_eq!(
        server_failure_message("2", &long),
        format!("PDF translation server exited with code 2: {}…", "x".repeat(300))
    );
}

#[test]
fn logged_babeldoc_arguments_hide_the_key() {
    let logged = mask_api_key_args(&babeldoc_args(&run("--x y", false)));
    assert_eq!(logged[5], "--openai-api-key");
    assert_eq!(logged[6], "***");
    assert!(!logged.contains(&s("k")));
    let mut odd = run("", false);
    odd.base_url = s("--openai-api-key");
    let shown = mask_api_key_args(&babeldoc_args(&odd));
    assert_eq!(shown[6], "k");
}

#[test]
fn translated_pdf_from_given_lowercase_names() {
    let names = strs(&["A.pdf", "B.pdf"]);
    assert_eq!(pick_translated_pdf(&names, &strs(&["a.pdf", "b-translated.pdf"])), Some(1));
    assert_eq!(pick_translated_pdf(&names, &strs(&["a.pdf", "b-translate.pdf"])), Some(0));
    assert_eq!(pick_translated_pdf(&names, &strs(&["a.pdf", "b.pdf"])), Some(0));
    assert_eq!(pick_translated_pdf(&strs(&["a.txt"]), &strs(&["translate"])), None);
}

#[test]
fn tool_install_locations() {
    assert_eq!(
        unix_tool_paths("babeldoc", "/home/ann"),
        vec![
            "/home/ann/.local/bin/babeldoc".to_string(),
            "/home/ann/.cargo/bin/babeldoc".to_string(),
            "/usr/local/bin/babeldoc".to_string(),
            "/opt/homebrew/bin/babeldoc".to_string(),
        ]
    );
    let w = windows_tool_paths("babeldoc", "C:\\Users\\ann", "C:\\Users\\ann\\AppData\\Local");
    assert_eq!(w.len(), 7);
    assert_eq!(w[0], "C:\\Users\\ann\\AppData\\Local\\Programs\\Python\\Scripts\\babeldoc.exe");
    assert_eq!(w[5], "C:\\Users\\ann\\AppData\\Local\\pipx\\venvs\\babeldoc\\Scripts\\babeldoc.exe");
    assert_eq!(w[6], "C:\\Users\\ann\\AppData\\Local\\uv\\tools\\babeldoc\\Scripts\\babeldoc.exe");
}

#[test]
fn located_paths() {
    assert_eq!(located_path_of("/usr/bin/babeldoc\n"), Some("/usr/bin/babeldoc".to_string()));
    assert_eq!(located_path_of("  C:\\x\\a.exe\r\nC:\\y\\a.exe\r\n"), Some("C:\\x\\a.exe".to_string()));
    assert_eq!(located_path_of(""), None);
    assert_eq!(located_path_of("\n/usr/bin/x\n"), None);
    assert_eq!(printed_path_of("\n/usr/bin/x\n"), Some("/usr/bin/x".to_string()));
    assert_eq!(printed_path_of(" \n "), None);
}

#[test]
fn babeldoc_check_messages() {
    assert_eq!(
        command_not_found_message("babeldoc"),
        "Command 'babeldoc' not found. Make sure BabelDOC is installed and the path is correct.\n\nInstall with: uv tool install --python 3.12 BabelDOC\nOr specify the full path in the settings."
    );
    assert_eq!(
        babeldoc_check_report("/bin/babeldoc", true, " 0.5.1\n", "warn"),
        Ok("PDF translation server is working!\nPath: /bin/babeldoc\n0.5.1".to_string())
    );
    assert_eq!(
        babeldoc_check_report("/bin/babeldoc", true, "  ", " v2 "),
        Ok("PDF translation server is working!\nPath: /bin/babeldoc\nv2".to_string())
    );
    assert_eq!(
        babeldoc_check_report("/bin/babeldoc", false, "x", " boom\n"),
        Err("PDF translation server command found at /bin/babeldoc but exited with error:\nboom".to_string())
    );
}
