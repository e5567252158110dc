use zoro_desktop::feeds::{plan_feed_paper_from_json, plan_watch_paper_from_json, pdf_cache_name_for_hash, thumbnail_path_for_hash, update_subscription_settings, SubscriptionsConfigResponse};
use std::collections::hash_map::DefaultHasher;
use std::hash::{Hash, Hasher};
use zoro_desktop::feeds::{
    affiliations_note, arxiv_cache_key, cache_ttl, feed_extra_keys, fill_missing, is_date_today, is_today,
    items_of_date, looks_like_pdf, order_by_upvotes, plan_feed_paper, plan_watch_paper, push_hex16, refresh_date,
    remote_pdf_cache_name, search_cache_key, search_semantic_scholar, stable_order_desc, thumbnail_cache_path,
    thumbnail_downloads, use_feed_cache, venue_cache_key, watch_list_api_keys, CoolPage, EnrichableFields,
    FeedItemData, WatchResultData,
};

fn s(x: &str) -> String {
    x.to_string()
}

fn strs(xs: &[&str]) -> Vec<String> {
    xs.iter().map(|x| s(x)).collect()
}

fn std_hash(url: &str) -> String {
    let mut h = DefaultHasher::new();
    url.hash(&mut h);
    format!("{:016x}", h.finish())
}

#[test]
fn thumbnail_paths_use_the_url_hash_and_extension() {
    let url = "https://cdn.example/thumb/abc.png";
    assert_eq!(
        thumbnail_cache_path("/data", url),
        format!("/data/cache/thumbnails/{}.png", std_hash(url))
    );
    let odd = "https://cdn.example/thumb?id=1.jpeg2x";
    assert_eq!(
        thumbnail_cache_path("/data/", odd),
        format!("/data/cache/thumbnails/{}.jpg", std_hash(odd))
    );
    let nodot = "https://cdn/x";
    assert!(thumbnail_cache_path("d", nodot).ends_with(".jpg"));
}

#[test]
fn thumbnail_paths_are_deterministic_and_distinct() {
    let a = thumbnail_cache_path("/d", "https://a/1.webp");
    let b = thumbnail_cache_path("/d", "https://a/1.webp");
    let c = thumbnail_cache_path("/d", "https://a/2.webp");
    assert_eq!(a, b);
    assert_ne!(a, c);
}

#[test]
fn remote_pdf_names() {
    let url = "https://arxiv.org/pdf/2401.1";
    assert_eq!(remote_pdf_cache_name(url), format!("{}.pdf", std_hash(url)));
}

#[test]
fn hex_digits() {
    let mut v = Vec::new();
    push_hex16(&mut v, 0xdead_beef);
    assert_eq!(v.iter().collect::<String>(), "00000000deadbeef");
    let mut w = Vec::new();
    push_hex16(&mut w, u64::MAX);
    assert_eq!(w.iter().collect::<String>(), "ffffffffffffffff");
}

#[test]
fn pdf_magic_bytes() {
    assert!(looks_like_pdf(b"%PDF-1.7 ..."));
    assert!(!looks_like_pdf(b"<html>"));
    assert!(!looks_like_pdf(b"%PD"));
}

#[test]
fn stable_descending_orders() {
    assert_eq!(stable_order_desc(&vec![1, 5, 3, 5, -2]), vec![1, 3, 2, 0, 4]);
    assert_eq!(stable_order_desc(&vec![]), Vec::<usize>::new());
    assert_eq!(order_by_upvotes(&vec![Some(3), None, Some(10), Some(0), Some(-1)]), vec![2, 0, 1, 3, 4]);
}

#[test]
fn thumbnails_to_download() {
    let items = vec![(Some(s("u1")), false), (None, false), (Some(s("u2")), true), (Some(s("u3")), false)];
    assert_eq!(thumbnail_downloads(&items), strs(&["u1", "u3"]));
}

#[test]
fn feed_cache_use() {
    assert!(use_feed_cache(None, 3));
    assert!(use_feed_cache(Some(false), 1));
    assert!(!use_feed_cache(Some(true), 3));
    assert!(!use_feed_cache(None, 0));
}

#[test]
fn items_of_a_fetched_date() {
    let stored = strs(&["a", "b", "c", "d"]);
    let fetched = strs(&["d", "b", "x"]);
    assert_eq!(items_of_date(&stored, &fetched), vec![1, 3]);
}

#[test]
fn dates_and_cache_keys() {
    assert!(is_date_today(None, "2024-05-01"));
    assert!(is_date_today(Some("2024-05-01"), "2024-05-01"));
    assert!(!is_date_today(Some("2024-04-30"), "2024-05-01"));
    assert!(is_today(None));
    assert!(!is_today(Some("1999-01-01")));
    assert!(!is_today(Some("today")));
    assert!(!is_today(Some("")));
    assert_eq!(refresh_date(Some(s("2024-05-01"))), "2024-05-01");
    assert_eq!(refresh_date(None).len(), 10);
    assert_eq!(arxiv_cache_key("cs.AI", Some("2024-05-01")), "arxiv:cs.AI:2024-05-01");
    assert_eq!(arxiv_cache_key("cs.AI", None), "arxiv:cs.AI:latest");
    assert_eq!(venue_cache_key("ICML.2024", Some("Oral")), "venue:ICML.2024:Oral");
    assert_eq!(venue_cache_key("ICML.2024", None), "venue:ICML.2024");
    assert_eq!(search_cache_key("graph nets"), "search:graph nets");
}

#[test]
fn cache_lifetimes() {
    assert_eq!(cache_ttl(CoolPage::Index), 86400);
    assert_eq!(cache_ttl(CoolPage::ArxivToday), 1800);
    assert_eq!(cache_ttl(CoolPage::ArxivPast), 604800);
    assert_eq!(cache_ttl(CoolPage::Venue), 604800);
    assert_eq!(cache_ttl(CoolPage::Search), 3600);
}

fn fields(doi: Option<&str>, journal: Option<&str>) -> EnrichableFields {
    EnrichableFields {
        abstract_text: None,
        doi: doi.map(s),
        published_date: None,
        entry_type: None,
        journal: journal.map(s),
        volume: None,
        issue: None,
        pages: None,
        publisher: None,
        issn: None,
        isbn: None,
    }
}

#[test]
fn enrichment_fills_only_missing_fields() {
    let u = fill_missing(&fields(Some("10.1/old"), None), fields(Some("10.1/new"), Some("Nature")));
    assert_eq!(u.doi, None);
    assert_eq!(u.journal, Some(Some(s("Nature"))));
    assert_eq!(u.abstract_text, None);
}

fn item() -> FeedItemData {
    FeedItemData {
        url: None,
        pdf_url: Some(s("https://arxiv.org/pdf/2401.1v2")),
        html_url: None,
        abstract_text: None,
        thumbnail: None,
        published_at: None,
        authors: vec![(Some(s("Ada")), Some(s("ACM"))), (None, Some(s("x"))), (Some(s("Bob")), None)],
    }
}

#[test]
fn feed_item_becomes_a_paper() {
    let p = plan_feed_paper("2401.1", false, &item()).ok().unwrap();
    assert_eq!(p.url, "https://arxiv.org/abs/2401.1");
    assert_eq!(p.pdf_url, "https://arxiv.org/pdf/2401.1v2");
    assert_eq!(p.html_url, "https://arxiv.org/html/2401.1");
    assert_eq!(p.metadata_url, "https://arxiv.org/abs/2401.1v2");
    assert_eq!(p.authors, vec![(s("Ada"), Some(s("ACM"))), (s("Bob"), None)]);
    assert_eq!(plan_feed_paper("2401.1", true, &item()).err(), Some(s("Item already added to library")));
    let keys = feed_extra_keys();
    assert_eq!(keys[0], ("upvotes", "hf_upvotes"));
    assert_eq!(keys[5], ("num_comments", "hf_num_comments"));
}

fn result(doi: Option<&str>, arxiv: Option<&str>) -> WatchResultData {
    WatchResultData {
        external_id: s("ext-1"),
        added_to_library: false,
        published_date: None,
        doi: doi.map(s),
        arxiv_id: arxiv.map(s),
        pdf_url: None,
        data_published_date: Some(s("2023")),
        authors: vec![Some(s("A")), None, Some(s("B"))],
    }
}

#[test]
fn watch_result_becomes_a_paper() {
    let p = plan_watch_paper(&result(Some("10.1/x"), Some("2401.1"))).ok().unwrap();
    assert_eq!(p.identifier, "10.1/x");
    assert_eq!(p.published_date, Some(s("2023")));
    assert_eq!(p.authors, strs(&["A", "B"]));
    assert!(!p.download_pdf);
    assert!(p.enrich);
    let q = plan_watch_paper(&result(None, None)).ok().unwrap();
    assert_eq!(q.identifier, "ext-1");
    assert!(!q.enrich);
    let mut added = result(None, Some("1"));
    added.added_to_library = true;
    assert_eq!(plan_watch_paper(&added).err(), Some(s("Result already added to library")));
}

#[test]
fn watch_list_helpers() {
    assert_eq!(affiliations_note(&strs(&["MIT", "CMU"])), Some(s("MIT, CMU")));
    assert_eq!(affiliations_note(&vec![]), None);
    assert!(search_semantic_scholar("k"));
    assert!(!search_semantic_scholar(""));
    let k = watch_list_api_keys("", "me@example.org");
    assert!(!k.semantic_scholar_set);
    assert_eq!(k.openalex_email, "me@example.org");
}

#[test]
fn cache_names_for_a_given_hash() {
    assert_eq!(thumbnail_path_for_hash("/d", "https://x/a.gif", 0xabc), "/d/cache/thumbnails/0000000000000abc.gif");
    assert_eq!(thumbnail_path_for_hash("", "https://x/a", 1), "cache/thumbnails/0000000000000001.jpg");
    assert_eq!(pdf_cache_name_for_hash(u64::MAX), "ffffffffffffffff.pdf");
}

#[test]
fn subscription_settings_update() {
    let mut c = SubscriptionsConfigResponse { feed_cache_retention_days: 7, poll_interval_minutes: 60 };
    update_subscription_settings(&mut c, Some(30));
    assert_eq!(c.feed_cache_retention_days, 30);
    assert_eq!(c.poll_interval_minutes, 60);
    update_subscription_settings(&mut c, None);
    assert_eq!(c.feed_cache_retention_days, 30);
}

#[test]
fn feed_item_from_stored_json() {
    let json = r#"{"pdf_url": "https://arxiv.org/pdf/2401.1v2", "abstract_text": "A", "upvotes": 4,
        "authors": [{"name": "Ann", "affiliation": "MIT"}, {"affiliation": "X"}, {"name": "Bo"}]}"#;
    let (data, plan) = plan_feed_paper_from_json("2401.1", false, Some(json));
    assert_eq!(data.abstract_text, Some("A".to_string()));
    assert_eq!(data.url, None);
    let plan = plan.unwrap();
    assert_eq!(plan.url, "https://arxiv.org/abs/2401.1");
    assert_eq!(plan.pdf_url, "https://arxiv.org/pdf/2401.1v2");
    assert_eq!(plan.metadata_url, "https://arxiv.org/abs/2401.1v2");
    assert_eq!(plan.authors, vec![("Ann".to_string(), Some("MIT".to_string())), ("Bo".to_string(), None)]);
    let (empty, plan) = plan_feed_paper_from_json("2401.2", false, Some("not json"));
    assert!(empty.authors.is_empty());
    assert_eq!(plan.unwrap().html_url, "https://arxiv.org/html/2401.2");
    let (_, refused) = plan_feed_paper_from_json("2401.2", true, None);
    assert_eq!(refused.err(), Some("Item already added to library".to_string()));
}

#[test]
fn watch_result_from_stored_json() {
    let json = r#"{"arxiv_id": "2401.3", "published_date": "2024-01-02", "pdf_url": "https://x/p.pdf",
        "authors": [{"name": "Ann"}, "Bo", 7]}"#;
    let (data, plan) = plan_watch_paper_from_json("ext-1".to_string(), false, None, Some(json));
    assert_eq!(data.arxiv_id, Some("2401.3".to_string()));
    let plan = plan.unwrap();
    assert_eq!(plan.identifier, "2401.3");
    assert_eq!(plan.published_date, Some("2024-01-02".to_string()));
    assert_eq!(plan.authors, vec!["Ann".to_string(), "Bo".to_string()]);
    assert!(plan.download_pdf);
    assert!(plan.enrich);
    let (_, plan) = plan_watch_paper_from_json("ext-2".to_string(), false, Some("2020".to_string()), None);
    let plan = plan.unwrap();
    assert_eq!(plan.identifier, "ext-2");
    assert_eq!(plan.published_date, Some("2020".to_string()));
    assert!(!plan.enrich);
}

#[test]
fn remote_pdf_answered_with_html_is_refused() {
    assert_eq!(
        zoro_desktop::feeds::check_remote_pdf("Text/HTML; charset=UTF-8", b"%PDF-1.7"),
        Err("Remote server returned HTML instead of PDF (Content-Type: text/html; charset=utf-8)".to_string())
    );
}

#[test]
fn remote_pdf_with_magic_bytes_is_kept() {
    assert_eq!(zoro_desktop::feeds::check_remote_pdf("application/pdf", b"%PDF-1.7\n"), Ok(()));
    assert_eq!(zoro_desktop::feeds::check_remote_pdf("", b"%PDF"), Ok(()));
}

#[test]
fn remote_pdf_without_magic_bytes_shows_a_preview() {
    assert_eq!(
        zoro_desktop::feeds::check_remote_pdf("application/octet-stream", b"<h\x01 i"),
        Err("Downloaded content is not a valid PDF. Content-Type was 'application/octet-stream'. First bytes: <h. i".to_string())
    );
    let long = vec![b'a'; 300];
    let err = zoro_desktop::feeds::check_remote_pdf("", &long).unwrap_err();
    assert_eq!(err, format!("Downloaded content is not a valid PDF. Content-Type was ''. First bytes: {}", "a".repeat(200)));
}
