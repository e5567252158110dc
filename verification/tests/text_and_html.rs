use zoro_desktop::annotate::{context_search, find_bytes_from, find_text_with_context, ContextSearch};
use zoro_desktop::html::{html_escape, strip_html_for_note, strip_html_tags};
use zoro_desktop::paths::{file_extension, file_stem};
use zoro_desktop::text::{
    decimal_string, split_whitespace, str_contains, str_eq,
};

#[test]
fn escapes_the_four_special_characters() {
    assert_eq!(html_escape("a & b < c > d \"e\" 'f'"), "a &amp; b &lt; c &gt; d &quot;e&quot; 'f'");
}

#[test]
fn escape_leaves_plain_text_alone() {
    assert_eq!(html_escape("plain text"), "plain text");
    assert_eq!(html_escape(""), "");
}

#[test]
fn escape_does_not_double_escape_in_one_pass() {
    assert_eq!(html_escape("&amp;"), "&amp;amp;");
}

#[test]
fn strips_tags_keeping_text() {
    assert_eq!(strip_html_tags("<p>Hello <b>world</b></p>"), "Hello world");
    assert_eq!(strip_html_tags("<a href=\"x\">link</a> after"), "link after");
}

#[test]
fn empty_or_unclosed_brackets_are_not_tags() {
    assert_eq!(strip_html_tags("a <> b"), "a <> b");
    assert_eq!(strip_html_tags("x < y"), "x < y");
    assert_eq!(strip_html_tags("1 > 0"), "1 > 0");
}

#[test]
fn strip_runs_to_the_first_closing_bracket() {
    assert_eq!(strip_html_tags("<<b>>text"), ">text");
}

#[test]
fn zotero_note_becomes_markdown() {
    let html = "<div class=\"zotero-note znv1\"><p>Hello <strong>world</strong></p><p>Second &amp; more</p></div>";
    assert_eq!(strip_html_for_note(html), "Hello **world**\n\nSecond & more");
}

#[test]
fn zotero_note_lists_and_headings() {
    let html = "<h1>Title</h1><ul><li>one</li><li>two</li></ul>";
    assert_eq!(strip_html_for_note(html), "# Title\n- one\n- two");
}

#[test]
fn zotero_note_collapses_blank_lines() {
    let html = "<p>a</p><p></p><p></p><p>b</p>";
    assert_eq!(strip_html_for_note(html), "a\n\nb");
}

#[test]
fn zotero_note_entities_and_breaks() {
    assert_eq!(strip_html_for_note("x&lt;y<br/>z&nbsp;w"), "x<y\nz w");
}

#[test]
fn context_search_finds_plain_match() {
    assert_eq!(find_text_with_context("the cat sat", "cat", "", ""), Some((4, 7)));
}

#[test]
fn context_search_empty_needle_is_not_found() {
    assert_eq!(find_text_with_context("abc", "", "", ""), None);
}

#[test]
fn context_search_absent_needle() {
    assert_eq!(find_text_with_context("abc", "z", "", ""), None);
}

#[test]
fn context_search_uses_prefix_to_pick_occurrence() {
    let hay = "one apple here and two apple there";
    assert_eq!(find_text_with_context(hay, "apple", "two ", "zzzz"), Some((23, 28)));
}

#[test]
fn context_search_suffix_alone_is_enough() {
    let hay = "x apple y apple z";
    assert_eq!(find_text_with_context(hay, "apple", "qqqq", "qq z"), Some((10, 15)));
}

#[test]
fn context_search_empty_window_counts_as_context() {
    assert_eq!(find_text_with_context("apple pie", "apple", "zzz", "qqq"), Some((0, 5)));
}

#[test]
fn context_search_no_context_match() {
    let hay = "x apple y";
    assert_eq!(find_text_with_context(hay, "apple", "qqqq", "wwww"), None);
}

#[test]
fn context_search_reports_a_cut_character() {
    // The prefix window would start inside the two-byte 'é'.
    match context_search("é0123456789ab", "ab", "z", "") {
        ContextSearch::Panics => {}
        _ => panic!("expected a cut character"),
    }
}

#[test]
fn context_search_restart_inside_a_character_is_reported() {
    match context_search("aé b", "é", "zz", "qq") {
        ContextSearch::Panics => {}
        _ => panic!("expected a cut character"),
    }
}

#[test]
fn byte_search_from_offset() {
    assert_eq!(find_bytes_from(b"abcabc", b"bc", 0), Some(1));
    assert_eq!(find_bytes_from(b"abcabc", b"bc", 2), Some(4));
    assert_eq!(find_bytes_from(b"abcabc", b"bc", 5), None);
}

#[test]
fn file_stem_and_extension_follow_path_rules() {
    assert_eq!(file_stem("paper.tar.gz"), "paper.tar");
    assert_eq!(file_extension("paper.tar.gz"), Some("gz".to_string()));
    assert_eq!(file_stem(".hidden"), ".hidden");
    assert_eq!(file_extension(".hidden"), None);
    assert_eq!(file_stem("noext"), "noext");
    assert_eq!(file_extension("noext"), None);
    assert_eq!(file_stem("a."), "a");
    assert_eq!(file_extension("a."), Some(String::new()));
    assert_eq!(file_stem(".."), "..");
    assert_eq!(file_extension(".."), None);
}

#[test]
fn small_string_helpers() {
    assert_eq!(zoro_desktop::text::concat("ab", "cd"), "abcd");
    assert!(str_contains("hello world", "lo w"));
    assert!(!str_contains("hello", "world"));
    assert!(str_contains("hello", ""));
    assert!(str_eq("x", "x"));
    assert!(!str_eq("x", "y"));
    assert_eq!(decimal_string(0), "0");
    assert_eq!(decimal_string(1234567890), "1234567890");
    assert_eq!(decimal_string(u64::MAX), "18446744073709551615");
}

#[test]
fn whitespace_split_drops_empty_words() {
    assert_eq!(split_whitespace("  a  bc\td\n"), vec!["a".to_string(), "bc".to_string(), "d".to_string()]);
    assert!(split_whitespace("   ").is_empty());
}

#[test]
fn escaped_text_decodes_back() {
    for text in ["a & b < c > d \"e\"", "&amp; already", "&&<<>>\"\"", "", "日本 & <x>"] {
        let e = html_escape(text);
        assert!(!e.contains('<') && !e.contains('>') && !e.contains('"'));
        let back = e.replace("&quot;", "\"").replace("&gt;", ">").replace("&lt;", "<").replace("&amp;", "&");
        assert_eq!(back, text);
    }
}
