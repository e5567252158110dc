//! The paper context that the chat adds to its system prompt, and the plain text it
//! extracts from a paper's HTML for that context.
use vstd::prelude::*;
use vstd::string::StringSliceAdditionalSpecFns;
use crate::text::{
    chars_of, find_char_from, find_chars_from, first_occurrence_from, is_white,
    is_whitespace_char, lemma_first_occurrence, lemma_next_index_bounds, next_index_of,
    occurs_at, chars_occur_at, push_all, push_range, push_signed_decimal, push_str,
    replace_all, replace_all_chars, signed_decimal, string_from_chars, trim, trim_bounds,
    copy_range, lowercase_of, to_lowercase,
};

verus! {

broadcast use vstd::string::group_string_axioms;

/// `c` with an ASCII capital letter made small.
pub open spec fn ascii_lower(c: char) -> char {
    if 'A' <= c && c <= 'Z' {
        ((c as u32) + 32) as char
    } else {
        c
    }
}

/// `c` with an ASCII capital letter made small (`char::to_ascii_lowercase`).
pub fn to_ascii_lower(c: char) -> (r: char)
    ensures
        r == ascii_lower(c),
{
    if 'A' <= c && c <= 'Z' {
        let b: u8 = (c as u8) + 32;
        b as char
    } else {
        c
    }
}

/// The characters of `str::to_lowercase` applied to the text `v` holds.
fn lowercase_vec(v: &Vec<char>) -> (r: Vec<char>)
    ensures
        r@ == lowercase_of(v@),
{
    let s = string_from_chars(v);
    let l = to_lowercase(s.as_str());
    chars_of(l.as_str())
}

/// `s` with every block from an occurrence of `open` to the next occurrence of `close`
/// after it replaced by one space, repeatedly from the first `open`. Both are looked up in
/// the lowercased text (`str::to_lowercase`), and the positions found there are applied to
/// `s` itself, counted in characters. It stops at the first `open` that has no `close`
/// after it, or whose block would end past the end of `s`.
pub open spec fn blocks_removed(s: Seq<char>, open: Seq<char>, close: Seq<char>) -> Seq<char>
    decreases s.len(),
{
    let l = lowercase_of(s);
    let st = first_occurrence_from(l, open, 0);
    if st < 0 || close.len() < 2 {
        s
    } else {
        let e = first_occurrence_from(l, close, st);
        if e < 0 || e + close.len() > s.len() {
            s
        } else {
            proof {
                lemma_first_occurrence(l, open, 0);
                lemma_first_occurrence(l, close, st);
            }
            blocks_removed(
                s.subrange(0, st) + seq![' '] + s.subrange(e + close.len(), s.len() as int),
                open,
                close,
            )
        }
    }
}

fn remove_blocks(s: Vec<char>, open: &str, close: &str) -> (r: Vec<char>)
    requires
        close@.len() >= 2,
    ensures
        r@ == blocks_removed(s@, open@, close@),
{
    let o = chars_of(open);
    let c = chars_of(close);
    let mut cur = s;
    loop
        invariant
            o@ == open@,
            c@ == close@,
            c@.len() >= 2,
            blocks_removed(s@, open@, close@) == blocks_removed(cur@, open@, close@),
        decreases cur@.len(),
    {
        let l = lowercase_vec(&cur);
        let st = match find_chars_from(&l, &o, 0) {
            Some(st) => st,
            None => {
                return cur;
            },
        };
        let e = match find_chars_from(&l, &c, st) {
            Some(e) => e,
            None => {
                return cur;
            },
        };
        proof {
            lemma_first_occurrence(l@, o@, 0);
            lemma_first_occurrence(l@, c@, st as int);
            assert(occurs_at(l@, c@, e as int));
        }
        assert(c.len() == c@.len());
        if e > cur.len() || c.len() > cur.len() - e {
            return cur;
        }
        let mut next: Vec<char> = Vec::new();
        push_range(&mut next, &cur, 0, st);
        next.push(' ');
        assert(c.len() == c@.len());
        assert(cur.len() == cur@.len());
        let end = e + c.len();
        push_range(&mut next, &cur, end, cur.len());
        assert(next@ =~= cur@.subrange(0, st as int) + seq![' '] + cur@.subrange(
            e + c@.len(),
            cur@.len() as int,
        ));
        cur = next;
    }
}

/// The tags after which the extracted text starts a new line.
pub open spec fn block_tags() -> Seq<Seq<char>> {
    seq![
        "<br"@, "<p "@, "<p>"@, "</p>"@, "<div"@, "</div>"@, "<h1"@, "<h2"@, "<h3"@, "<h4"@,
        "<h5"@, "<h6"@, "</h1>"@, "</h2>"@, "</h3>"@, "</h4>"@, "</h5>"@, "</h6>"@, "<li"@,
        "</li>"@, "<tr"@, "</tr>"@,
    ]
}

fn block_tag_list() -> (r: Vec<&'static str>)
    ensures
        r@.len() == block_tags().len(),
        forall|k: int| 0 <= k < r@.len() ==> (#[trigger] r@[k])@ == block_tags()[k],
{
    let r = vec![
        "<br", "<p ", "<p>", "</p>", "<div", "</div>", "<h1", "<h2", "<h3", "<h4", "<h5", "<h6",
        "</h1>", "</h2>", "</h3>", "</h4>", "</h5>", "</h6>", "<li", "</li>", "<tr", "</tr>",
    ];
    assert(r@.len() == 22);
    r
}

/// Whether a block-level tag starts at character `i` of the lowercased text
/// (`str::to_lowercase`).
pub open spec fn block_at(s: Seq<char>, i: int) -> bool {
    exists|k: int| 0 <= k < block_tags().len() && occurs_at(lowercase_of(s), #[trigger] block_tags()[k], i)
}

fn is_block_at(l: &Vec<char>, i: usize, tags: &Vec<&'static str>) -> (r: bool)
    requires
        tags@.len() == block_tags().len(),
        forall|k: int| 0 <= k < tags@.len() ==> (#[trigger] tags@[k])@ == block_tags()[k],
    ensures
        r == exists|k: int| 0 <= k < block_tags().len() && occurs_at(l@, #[trigger] block_tags()[k], i as int),
{
    let mut k: usize = 0;
    while k < tags.len()
        invariant
            k <= tags@.len(),
            tags@.len() == block_tags().len(),
            forall|j: int| 0 <= j < tags@.len() ==> (#[trigger] tags@[j])@ == block_tags()[j],
            forall|j: int| 0 <= j < k ==> !occurs_at(l@, #[trigger] block_tags()[j], i as int),
        decreases tags.len() - k,
    {
        let t = chars_of(tags[k]);
        if chars_occur_at(l, &t, i) {
            assert(occurs_at(l@, block_tags()[k as int], i as int));
            return true;
        }
        k = k + 1;
    }
    false
}

/// The text of `s` from `i` on with its tags removed: a `<` up to the next `>` is dropped
/// and leaves a line break when it is a block-level tag; a `<` with no `>` after it is
/// dropped alone.
pub open spec fn tags_dropped_from(s: Seq<char>, i: int) -> Seq<char>
    decreases s.len() - i,
{
    if i < 0 || i >= s.len() {
        Seq::empty()
    } else if s[i] == '<' {
        let gt = next_index_of(s, i, '>');
        if gt < s.len() {
            proof {
                lemma_next_index_bounds(s, i, '>');
            }
            (if block_at(s, i) {
                seq!['\n']
            } else {
                Seq::empty()
            }) + tags_dropped_from(s, gt + 1)
        } else {
            tags_dropped_from(s, i + 1)
        }
    } else {
        seq![s[i]] + tags_dropped_from(s, i + 1)
    }
}

fn drop_tags(s: &Vec<char>) -> (r: Vec<char>)
    ensures
        r@ == tags_dropped_from(s@, 0),
{
    let l = lowercase_vec(s);
    let tags = block_tag_list();
    let mut out: Vec<char> = Vec::new();
    let mut i: usize = 0;
    while i < s.len()
        invariant
            i <= s.len(),
            l@ == lowercase_of(s@),
            tags@.len() == block_tags().len(),
            forall|k: int| 0 <= k < tags@.len() ==> (#[trigger] tags@[k])@ == block_tags()[k],
            tags_dropped_from(s@, 0) == out@ + tags_dropped_from(s@, i as int),
        decreases s.len() - i,
    {
        if s[i] == '<' {
            let gt = find_char_from(s, i, '>');
            if gt < s.len() {
                if is_block_at(&l, i, &tags) {
                    out.push('\n');
                }
                i = gt + 1;
            } else {
                i = i + 1;
            }
        } else {
            out.push(s[i]);
            i = i + 1;
        }
    }
    assert(tags_dropped_from(s@, i as int) == Seq::<char>::empty());
    assert(out@ =~= out@ + Seq::<char>::empty());
    out
}

/// The common HTML entities decoded, one after another.
pub open spec fn entities_decoded(s: Seq<char>) -> Seq<char> {
    let s1 = replace_all(s, "&amp;"@, "&"@);
    let s2 = replace_all(s1, "&lt;"@, "<"@);
    let s3 = replace_all(s2, "&gt;"@, ">"@);
    let s4 = replace_all(s3, "&quot;"@, "\""@);
    let s5 = replace_all(s4, "&#39;"@, "'"@);
    replace_all(s5, "&nbsp;"@, " "@)
}

fn decode_entities(s: &Vec<char>) -> (r: Vec<char>)
    ensures
        r@ == entities_decoded(s@),
{
    let s1 = replace_all_chars(s, &chars_of("&amp;"), &chars_of("&"));
    let s2 = replace_all_chars(&s1, &chars_of("&lt;"), &chars_of("<"));
    let s3 = replace_all_chars(&s2, &chars_of("&gt;"), &chars_of(">"));
    let s4 = replace_all_chars(&s3, &chars_of("&quot;"), &chars_of("\""));
    let s5 = replace_all_chars(&s4, &chars_of("&#39;"), &chars_of("'"));
    replace_all_chars(&s5, &chars_of("&nbsp;"), &chars_of(" "))
}

/// The text from `i` on with runs of line breaks made one line break and runs of other
/// whitespace one space (none right after a line break); `nl` and `sp` say whether the
/// text before `i` ended in a line break or in other whitespace.
pub open spec fn collapsed_from(s: Seq<char>, i: int, nl: bool, sp: bool) -> Seq<char>
    decreases s.len() - i,
{
    if i < 0 || i >= s.len() {
        Seq::empty()
    } else if s[i] == '\n' {
        (if !nl {
            seq!['\n']
        } else {
            Seq::empty()
        }) + collapsed_from(s, i + 1, true, false)
    } else if is_white(s[i]) {
        (if !sp && !nl {
            seq![' ']
        } else {
            Seq::empty()
        }) + collapsed_from(s, i + 1, nl, true)
    } else {
        seq![s[i]] + collapsed_from(s, i + 1, false, false)
    }
}

fn collapse(s: &Vec<char>) -> (r: Vec<char>)
    ensures
        r@ == collapsed_from(s@, 0, false, false),
{
    let mut out: Vec<char> = Vec::new();
    let mut nl = false;
    let mut sp = false;
    let mut i: usize = 0;
    while i < s.len()
        invariant
            i <= s.len(),
            collapsed_from(s@, 0, false, false) == out@ + collapsed_from(s@, i as int, nl, sp),
        decreases s.len() - i,
    {
        let ch = s[i];
        if ch == '\n' {
            if !nl {
                out.push('\n');
            }
            nl = true;
            sp = false;
        } else if is_whitespace_char(ch) {
            if !sp && !nl {
                out.push(' ');
            }
            sp = true;
        } else {
            out.push(ch);
            nl = false;
            sp = false;
        }
        i = i + 1;
    }
    assert(out@ =~= out@ + Seq::<char>::empty());
    out
}

/// The plain text the chat extracts from a paper's HTML: `<script>` and `<style>` blocks
/// removed, tags dropped (block-level ones leaving a line break), entities decoded,
/// whitespace collapsed and the ends trimmed.
pub open spec fn plain_text(html: Seq<char>) -> Seq<char> {
    let a = blocks_removed(html, "<script"@, "</script>"@);
    let b = blocks_removed(a, "<style"@, "</style>"@);
    trim(collapsed_from(entities_decoded(tags_dropped_from(b, 0)), 0, false, false))
}

/// Extracts the plain text of an HTML page (see [`plain_text`]). Tag names are matched
/// in the text's lowercase form.
pub fn strip_html_tags(html: &str) -> (r: String)
    ensures
        r@ == plain_text(html@),
{
    proof {
        reveal_strlit("</script>");
        reveal_strlit("</style>");
    }
    let v = chars_of(html);
    let a = remove_blocks(v, "<script", "</script>");
    let b = remove_blocks(a, "<style", "</style>");
    let t = drop_tags(&b);
    let d = decode_entities(&t);
    let c = collapse(&d);
    let (lo, hi) = trim_bounds(&c, 0, c.len());
    assert(c@.subrange(0, c@.len() as int) =~= c@);
    let mut out: Vec<char> = Vec::new();
    push_range(&mut out, &c, lo, hi);
    assert(out@ =~= c@.subrange(lo as int, hi as int));
    string_from_chars(&out)
}

/// An annotation as the paper context lists it.
pub struct ContextAnnotation {
    pub page_number: i64,
    pub annotation_type: String,
    pub selected_text: Option<String>,
    pub comment: Option<String>,
}

/// What the chat knows of the paper it talks about; `html` is the paper's full-text
/// HTML when the library has it.
pub struct PaperContextData {
    pub id: String,
    pub title: String,
    pub authors: Vec<String>,
    pub published_date: Option<String>,
    pub doi: Option<String>,
    pub arxiv_id: Option<String>,
    pub read_status: String,
    pub tags: Vec<String>,
    pub abstract_text: Option<String>,
    pub html: Option<String>,
    pub notes: Vec<String>,
    pub annotations: Vec<ContextAnnotation>,
}

/// The texts of `xs` joined with `sep` between neighbours.
pub open spec fn joined_with(xs: Seq<String>, sep: Seq<char>) -> Seq<char>
    decreases xs.len(),
{
    if xs.len() == 0 {
        Seq::empty()
    } else if xs.len() == 1 {
        xs[0]@
    } else {
        joined_with(xs.drop_last(), sep) + sep + xs.last()@
    }
}

/// Appends the texts of `xs` joined with `sep`.
pub fn push_joined(dst: &mut Vec<char>, xs: &Vec<String>, sep: &str)
    ensures
        final(dst)@ == old(dst)@ + joined_with(xs@, sep@),
{
    let mut i: usize = 0;
    while i < xs.len()
        invariant
            i <= xs@.len(),
            dst@ == old(dst)@ + joined_with(xs@.take(i as int), sep@),
        decreases xs.len() - i,
    {
        assert(xs@.take(i + 1).drop_last() =~= xs@.take(i as int));
        if i > 0 {
            push_str(dst, sep);
        }
        push_str(dst, xs[i].as_str());
        i = i + 1;
        assert(dst@ =~= old(dst)@ + joined_with(xs@.take(i as int), sep@));
    }
    assert(xs@.take(xs@.len() as int) =~= xs@);
}

/// A labelled line for an optional value, or nothing.
pub open spec fn optional_line(label: Seq<char>, v: Option<String>) -> Seq<char> {
    match v {
        Some(x) => label + x@ + "\n"@,
        None => Seq::empty(),
    }
}

fn push_optional_line(dst: &mut Vec<char>, label: &str, v: &Option<String>)
    ensures
        final(dst)@ == old(dst)@ + optional_line(label@, *v),
{
    if let Some(x) = v {
        push_str(dst, label);
        push_str(dst, x.as_str());
        push_str(dst, "\n");
    }
    assert(dst@ =~= old(dst)@ + optional_line(label@, *v));
}

/// The most characters of full text the context holds.
pub const MAX_CONTENT_CHARS: usize = 60000;

/// The full text as the context holds it: its first 60 000 characters, and a note when it
/// is longer.
pub open spec fn capped_text(t: Seq<char>) -> Seq<char> {
    if t.len() > MAX_CONTENT_CHARS {
        t.take(MAX_CONTENT_CHARS as int) + "\n\n[Content truncated — showing first ~60k characters]"@
    } else {
        t
    }
}

/// The full text as the context holds it (see [`capped_text`]).
fn cap_text(t: &Vec<char>) -> (r: Vec<char>)
    ensures
        r@ == capped_text(t@),
{
    if t.len() > MAX_CONTENT_CHARS {
        let mut head = copy_range(t, 0, MAX_CONTENT_CHARS);
        assert(head@ =~= t@.take(MAX_CONTENT_CHARS as int));
        push_str(&mut head, "\n\n[Content truncated — showing first ~60k characters]");
        head
    } else {
        copy_range(t, 0, t.len())
    }
}

/// The full-text section of the context: present when the paper has HTML whose plain
/// text is not empty.
pub open spec fn full_text_section(html: Option<String>) -> Seq<char> {
    match html {
        Some(h) => if plain_text(h@).len() > 0 {
            "\n### Full Text\n"@ + capped_text(plain_text(h@)) + "\n"@
        } else {
            Seq::empty()
        },
        None => Seq::empty(),
    }
}

fn push_full_text(dst: &mut Vec<char>, html: &Option<String>)
    ensures
        final(dst)@ == old(dst)@ + full_text_section(*html),
{
    if let Some(h) = html {
        let t = chars_of(strip_html_tags(h.as_str()).as_str());
        if t.len() > 0 {
            push_str(dst, "\n### Full Text\n");
            let capped = cap_text(&t);
            push_all(dst, &capped);
            push_str(dst, "\n");
        }
    }
    assert(dst@ =~= old(dst)@ + full_text_section(*html));
}

/// A note as the context lists it: on one line.
pub open spec fn note_item(n: String) -> Seq<char> {
    "- "@ + replace_all(n@, "\n"@, " "@) + "\n"@
}

/// The notes section of the context.
pub open spec fn notes_from(ns: Seq<String>) -> Seq<char>
    decreases ns.len(),
{
    if ns.len() == 0 {
        Seq::empty()
    } else {
        notes_from(ns.drop_last()) + note_item(ns.last())
    }
}

/// The parts of an annotation's line: page and kind, the quoted text, a non-empty comment.
pub open spec fn annotation_line(a: ContextAnnotation) -> Seq<char> {
    let head = "[Page "@ + signed_decimal(a.page_number as int) + ", "@ + a.annotation_type@ + "]"@;
    let quoted = match a.selected_text {
        Some(t) => " — "@ + "\""@ + t@ + "\""@,
        None => Seq::empty(),
    };
    let comment = match a.comment {
        Some(c) => if c@.len() > 0 {
            " — "@ + "Comment: "@ + c@
        } else {
            Seq::empty()
        },
        None => Seq::empty(),
    };
    "- "@ + head + quoted + comment + "\n"@
}

/// The annotations section of the context.
pub open spec fn annotations_from(anns: Seq<ContextAnnotation>) -> Seq<char>
    decreases anns.len(),
{
    if anns.len() == 0 {
        Seq::empty()
    } else {
        annotations_from(anns.drop_last()) + annotation_line(anns.last())
    }
}

/// The start of the context: heading, title and authors.
pub open spec fn context_head(d: PaperContextData) -> Seq<char> {
    "## Current Paper Context\n\n"@ + "**Title:** "@ + d.title@ + "\n"@ + if d.authors@.len() > 0 {
        "**Authors:** "@ + joined_with(d.authors@, ", "@) + "\n"@
    } else {
        Seq::empty()
    }
}

/// The identifying lines of the context: date, DOI, arXiv id, read status, id and tags.
pub open spec fn context_ids(d: PaperContextData) -> Seq<char> {
    optional_line("**Published:** "@, d.published_date) + optional_line("**DOI:** "@, d.doi)
        + optional_line("**arXiv ID:** "@, d.arxiv_id) + "**Read Status:** "@ + d.read_status@
        + "\n"@ + "**Paper ID:** "@ + d.id@ + "\n"@ + if d.tags@.len() > 0 {
        "**Tags:** "@ + joined_with(d.tags@, ", "@) + "\n"@
    } else {
        Seq::empty()
    }
}

/// The abstract section of the context.
pub open spec fn abstract_section(a: Option<String>) -> Seq<char> {
    match a {
        Some(a) => "\n### Abstract\n"@ + a@ + "\n"@,
        None => Seq::empty(),
    }
}

/// The sections of the context: abstract, full text, notes and annotations.
pub open spec fn context_sections(d: PaperContextData) -> Seq<char> {
    abstract_section(d.abstract_text) + full_text_section(d.html) + notes_section(d.notes@)
        + annotations_section(d.annotations@)
}

/// The context text for the paper `d`, in the order the chat presents it.
pub open spec fn paper_context(d: PaperContextData) -> Seq<char> {
    context_head(d) + context_ids(d) + context_sections(d)
}

fn push_head(dst: &mut Vec<char>, d: &PaperContextData)
    ensures
        final(dst)@ == old(dst)@ + context_head(*d),
{
    push_str(dst, "## Current Paper Context\n\n");
    push_str(dst, "**Title:** ");
    push_str(dst, d.title.as_str());
    push_str(dst, "\n");
    if d.authors.len() > 0 {
        push_str(dst, "**Authors:** ");
        push_joined(dst, &d.authors, ", ");
        push_str(dst, "\n");
    }
    assert(dst@ =~= old(dst)@ + context_head(*d));
}

fn push_ids(dst: &mut Vec<char>, d: &PaperContextData)
    ensures
        final(dst)@ == old(dst)@ + context_ids(*d),
{
    push_optional_line(dst, "**Published:** ", &d.published_date);
    push_optional_line(dst, "**DOI:** ", &d.doi);
    push_optional_line(dst, "**arXiv ID:** ", &d.arxiv_id);
    push_str(dst, "**Read Status:** ");
    push_str(dst, d.read_status.as_str());
    push_str(dst, "\n");
    push_str(dst, "**Paper ID:** ");
    push_str(dst, d.id.as_str());
    push_str(dst, "\n");
    if d.tags.len() > 0 {
        push_str(dst, "**Tags:** ");
        push_joined(dst, &d.tags, ", ");
        push_str(dst, "\n");
    }
    assert(dst@ =~= old(dst)@ + context_ids(*d));
}

fn push_abstract(dst: &mut Vec<char>, a: &Option<String>)
    ensures
        final(dst)@ == old(dst)@ + abstract_section(*a),
{
    if let Some(x) = a {
        push_str(dst, "\n### Abstract\n");
        push_str(dst, x.as_str());
        push_str(dst, "\n");
    }
    assert(dst@ =~= old(dst)@ + abstract_section(*a));
}

/// The notes section of the context: present when the paper has notes.
pub open spec fn notes_section(ns: Seq<String>) -> Seq<char> {
    if ns.len() > 0 {
        "\n### Notes\n"@ + notes_from(ns)
    } else {
        Seq::empty()
    }
}

fn push_notes_section(dst: &mut Vec<char>, ns: &Vec<String>)
    ensures
        final(dst)@ == old(dst)@ + notes_section(ns@),
{
    if ns.len() > 0 {
        push_str(dst, "\n### Notes\n");
        push_notes(dst, ns);
    }
    assert(dst@ =~= old(dst)@ + notes_section(ns@));
}

/// The annotations section of the context: present when the paper has annotations.
pub open spec fn annotations_section(anns: Seq<ContextAnnotation>) -> Seq<char> {
    if anns.len() > 0 {
        "\n### Annotations\n"@ + annotations_from(anns)
    } else {
        Seq::empty()
    }
}

fn push_annotations_section(dst: &mut Vec<char>, anns: &Vec<ContextAnnotation>)
    ensures
        final(dst)@ == old(dst)@ + annotations_section(anns@),
{
    if anns.len() > 0 {
        push_str(dst, "\n### Annotations\n");
        push_annotations(dst, anns);
    }
    assert(dst@ =~= old(dst)@ + annotations_section(anns@));
}

fn push_sections(dst: &mut Vec<char>, d: &PaperContextData)
    ensures
        final(dst)@ == old(dst)@ + context_sections(*d),
{
    let ghost start = dst@;
    push_abstract(dst, &d.abstract_text);
    push_full_text(dst, &d.html);
    push_notes_section(dst, &d.notes);
    push_annotations_section(dst, &d.annotations);
    assert(dst@ =~= start + context_sections(*d));
}

fn push_notes(dst: &mut Vec<char>, ns: &Vec<String>)
    ensures
        final(dst)@ == old(dst)@ + notes_from(ns@),
{
    let nl = chars_of("\n");
    let sp = chars_of(" ");
    let mut i: usize = 0;
    while i < ns.len()
        invariant
            i <= ns@.len(),
            nl@ == "\n"@,
            sp@ == " "@,
            dst@ == old(dst)@ + notes_from(ns@.take(i as int)),
        decreases ns.len() - i,
    {
        assert(ns@.take(i + 1).drop_last() =~= ns@.take(i as int));
        push_str(dst, "- ");
        let one_line = replace_all_chars(&chars_of(ns[i].as_str()), &nl, &sp);
        push_all(dst, &one_line);
        push_str(dst, "\n");
        i = i + 1;
        assert(dst@ =~= old(dst)@ + notes_from(ns@.take(i as int)));
    }
    assert(ns@.take(ns@.len() as int) =~= ns@);
}

fn push_annotation(dst: &mut Vec<char>, a: &ContextAnnotation)
    ensures
        final(dst)@ == old(dst)@ + annotation_line(*a),
{
    push_str(dst, "- [Page ");
    push_signed_decimal(dst, a.page_number);
    push_str(dst, ", ");
    push_str(dst, a.annotation_type.as_str());
    push_str(dst, "]");
    if let Some(t) = &a.selected_text {
        push_str(dst, " — \"");
        push_str(dst, t.as_str());
        push_str(dst, "\"");
    }
    if let Some(c) = &a.comment {
        if !c.as_str().is_empty() {
            push_str(dst, " — Comment: ");
            push_str(dst, c.as_str());
        }
    }
    push_str(dst, "\n");
    proof {
        reveal_strlit(" — \"");
        reveal_strlit(" — ");
        reveal_strlit("\"");
        reveal_strlit(" — Comment: ");
        reveal_strlit("Comment: ");
        reveal_strlit("- [Page ");
        reveal_strlit("- ");
        reveal_strlit("[Page ");
    }
    assert(dst@ =~= old(dst)@ + annotation_line(*a));
}

fn push_annotations(dst: &mut Vec<char>, anns: &Vec<ContextAnnotation>)
    ensures
        final(dst)@ == old(dst)@ + annotations_from(anns@),
{
    let mut i: usize = 0;
    while i < anns.len()
        invariant
            i <= anns@.len(),
            dst@ == old(dst)@ + annotations_from(anns@.take(i as int)),
        decreases anns.len() - i,
    {
        assert(anns@.take(i + 1).drop_last() =~= anns@.take(i as int));
        push_annotation(dst, &anns[i]);
        i = i + 1;
        assert(dst@ =~= old(dst)@ + annotations_from(anns@.take(i as int)));
    }
    assert(anns@.take(anns@.len() as int) =~= anns@);
}

/// Builds the paper context that the chat adds to its system prompt (see
/// [`paper_context`]).
pub fn build_paper_context(d: &PaperContextData) -> (r: String)
    ensures
        r@ == paper_context(*d),
{
    let mut v: Vec<char> = Vec::new();
    push_head(&mut v, d);
    push_ids(&mut v, d);
    push_sections(&mut v, d);
    assert(v@ =~= paper_context(*d));
    string_from_chars(&v)
}

} // verus!
