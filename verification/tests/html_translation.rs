use zoro_desktop::html_translation::{
    custom_prompt, html_attachments_replaced, html_glossary_prompt, html_translation_preflight,
    html_translation_report, resolve_html_source, ActiveTranslations, HtmlSource,
};

fn s(x: &str) -> String {
    x.to_string()
}

#[test]
fn one_translation_per_paper() {
    let mut active = ActiveTranslations::new();
    assert_eq!(active.try_start("p1"), Ok(()));
    assert_eq!(active.try_start("p2"), Ok(()));
    assert_eq!(active.try_start("p1"), Err(s("Translation already in progress for this paper")));
    assert!(active.contains("p1"));
    assert_eq!(active.list(), vec![s("p1"), s("p2")]);
    active.finish("p1");
    assert!(!active.contains("p1"));
    assert_eq!(active.list(), vec![s("p2")]);
    assert_eq!(active.try_start("p1"), Ok(()));
}

#[test]
fn finishing_an_unknown_paper_changes_nothing() {
    let mut active = ActiveTranslations::new();
    active.try_start("a").unwrap();
    active.finish("zzz");
    assert_eq!(active.list(), vec![s("a")]);
}

#[test]
fn start_then_finish_restores_the_set() {
    let mut active = ActiveTranslations::new();
    active.try_start("a").unwrap();
    let before = active.list();
    active.try_start("b").unwrap();
    active.finish("b");
    assert_eq!(active.list(), before);
}

#[test]
fn html_source_order() {
    let atts = vec![(s("pdf"), true), (s("html"), false), (s("html"), true)];
    assert!(matches!(resolve_html_source("p", true, true, &atts), Ok(HtmlSource::PaperHtml)));
    assert!(matches!(resolve_html_source("p", false, true, &atts), Ok(HtmlSource::AbsHtml)));
    assert!(matches!(resolve_html_source("p", false, false, &atts), Ok(HtmlSource::Attachment(2))));
    assert!(matches!(resolve_html_source("p9", false, false, &vec![]),
        Err(e) if e == "HTML file not found for paper p9"));
}

#[test]
fn html_translation_checks() {
    assert_eq!(html_translation_preflight("zh", "u", "k", "m"), Ok(()));
    assert_eq!(
        html_translation_preflight("", "", "", ""),
        Err(s("Native language not configured. Set it in Settings > AI / Translation."))
    );
    assert_eq!(
        html_translation_preflight("zh", "u", "", "m"),
        Err(s("AI not configured. Set base URL, API key, and model in Settings."))
    );
}

#[test]
fn glossary_prompt_lines() {
    let terms = vec![(s("transformer"), s("变换器")), (s("loss"), s("损失"))];
    assert_eq!(
        html_glossary_prompt(true, &terms),
        Some(s("\n\nUse the following glossary for consistent terminology translation:\n- transformer → 变换器\n- loss → 损失\n"))
    );
    assert_eq!(html_glossary_prompt(false, &terms), None);
    assert_eq!(html_glossary_prompt(true, &vec![]), None);
}

#[test]
fn prompts_and_reports() {
    assert_eq!(custom_prompt(s("")), None);
    assert_eq!(custom_prompt(s("Translate.")), Some(s("Translate.")));
    assert_eq!(html_translation_report(8, 10, 2), ("partial", s("8/10 paragraphs")));
    assert_eq!(html_translation_report(10, 10, 0), ("done", s("10/10 paragraphs")));
}

#[test]
fn fetched_html_replaces_html_attachments() {
    let types = vec![s("pdf"), s("html"), s("other"), s("html")];
    assert_eq!(html_attachments_replaced(&types), vec![1, 3]);
}

#[test]
fn concluded_translation_frees_the_paper() {
    let mut a = ActiveTranslations::new();
    assert!(a.try_start("p1").is_ok());
    assert!(a.try_start("p2").is_ok());
    assert_eq!(a.conclude("p1", Ok((8, 10, 2))), Ok(("partial", "8/10 paragraphs".to_string())));
    assert!(!a.contains("p1"));
    assert!(a.contains("p2"));
    assert!(a.try_start("p1").is_ok());
    assert_eq!(a.conclude("p1", Err("boom".to_string())), Err("boom".to_string()));
    assert_eq!(a.conclude("p2", Ok((3, 3, 0))), Ok(("done", "3/3 paragraphs".to_string())));
    assert!(a.list().is_empty());
}
