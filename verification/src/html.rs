//! HTML text helpers: escaping, tag stripping, Zotero note conversion and the
//! context-disambiguated text search used when exporting annotations.
use vstd::prelude::*;
use crate::text::{
    chars_of, find_char_from, is_white, lemma_next_index_bounds, next_index_of, push_range,
    replace_all, replace_all_chars, string_from_chars, trim, trim_bounds, trim_end, trim_start,
};

verus! {

broadcast use vstd::string::group_string_axioms;

/// The escape of one character: `& < > "` become entities, everything else stays.
pub open spec fn escape_char(c: char) -> Seq<char> {
    if c == '&' {
        seq!['&', 'a', 'm', 'p', ';']
    } else if c == '<' {
        seq!['&', 'l', 't', ';']
    } else if c == '>' {
        seq!['&', 'g', 't', ';']
    } else if c == '"' {
        seq!['&', 'q', 'u', 'o', 't', ';']
    } else {
        seq![c]
    }
}

/// `s` with every character escaped by [`escape_char`].
pub open spec fn html_escaped(s: Seq<char>) -> Seq<char>
    decreases s.len(),
{
    if s.len() == 0 {
        seq![]
    } else {
        html_escaped(s.drop_last()) + escape_char(s.last())
    }
}

/// Escapes `&`, `<`, `>` and `"` for inclusion in HTML text and attribute values.
pub fn html_escape(s: &str) -> (r: String)
    ensures
        r@ == html_escaped(s@),
{
    let v = chars_of(s);
    let mut out: Vec<char> = Vec::new();
    let mut i: usize = 0;
    while i < v.len()
        invariant
            i <= v.len(),
            out@ == html_escaped(v@.take(i as int)),
        decreases v.len() - i,
    {
        let c = v[i];
        assert(v@.take(i + 1).drop_last() =~= v@.take(i as int));
        if c == '&' {
            out.push('&');
            out.push('a');
            out.push('m');
            out.push('p');
            out.push(';');
        } else if c == '<' {
            out.push('&');
            out.push('l');
            out.push('t');
            out.push(';');
        } else if c == '>' {
            out.push('&');
            out.push('g');
            out.push('t');
            out.push(';');
        } else if c == '"' {
            out.push('&');
            out.push('q');
            out.push('u');
            out.push('o');
            out.push('t');
            out.push(';');
        } else {
            out.push(c);
        }
        assert(out@ =~= html_escaped(v@.take(i as int)) + escape_char(c));
        i = i + 1;
    }
    assert(v@.take(v@.len() as int) =~= v@);
    string_from_chars(&out)
}

/// `&amp;`, the first of the entities that [`escape_char`] writes.
pub open spec fn amp_entity() -> Seq<char> {
    seq!['&', 'a', 'm', 'p', ';']
}

/// `&lt;`.
pub open spec fn lt_entity() -> Seq<char> {
    seq!['&', 'l', 't', ';']
}

/// `&gt;`.
pub open spec fn gt_entity() -> Seq<char> {
    seq!['&', 'g', 't', ';']
}

/// `&quot;`.
pub open spec fn quot_entity() -> Seq<char> {
    seq!['&', 'q', 'u', 'o', 't', ';']
}

/// HTML text with the entities `&amp; &lt; &gt; &quot;` decoded, read from the left;
/// any other character is kept.
pub open spec fn html_unescaped(e: Seq<char>) -> Seq<char>
    decreases e.len(),
{
    if e.len() == 0 {
        seq![]
    } else if e.len() >= 5 && e.take(5) == amp_entity() {
        seq!['&'] + html_unescaped(e.skip(5))
    } else if e.len() >= 4 && e.take(4) == lt_entity() {
        seq!['<'] + html_unescaped(e.skip(4))
    } else if e.len() >= 4 && e.take(4) == gt_entity() {
        seq!['>'] + html_unescaped(e.skip(4))
    } else if e.len() >= 6 && e.take(6) == quot_entity() {
        seq!['"'] + html_unescaped(e.skip(6))
    } else {
        seq![e[0]] + html_unescaped(e.skip(1))
    }
}

/// Escaping a character in front of a text escapes it in front of the text's escape.
proof fn lemma_escaped_cons(c: char, s: Seq<char>)
    ensures
        html_escaped(seq![c] + s) == escape_char(c) + html_escaped(s),
    decreases s.len(),
{
    let t = seq![c] + s;
    if s.len() == 0 {
        assert(t =~= seq![c]);
        assert(t.drop_last() =~= Seq::<char>::empty());
        assert(t.last() == c);
        assert(html_escaped(t.drop_last()) =~= Seq::<char>::empty());
        assert(html_escaped(s) =~= Seq::<char>::empty());
        assert(html_escaped(t) =~= escape_char(c) + html_escaped(s));
    } else {
        assert(t.drop_last() =~= seq![c] + s.drop_last());
        assert(t.last() == s.last());
        lemma_escaped_cons(c, s.drop_last());
        assert(escape_char(c) + html_escaped(s) =~= escape_char(c) + html_escaped(s.drop_last())
            + escape_char(s.last()));
    }
}

/// Decoding reads one escaped character off the front.
proof fn lemma_unescape_step(c: char, rest: Seq<char>)
    ensures
        html_unescaped(escape_char(c) + rest) == seq![c] + html_unescaped(rest),
{
    let e = escape_char(c) + rest;
    let n = escape_char(c).len() as int;
    assert(e.skip(n) =~= rest);
    assert(e.take(n) =~= escape_char(c));
    assert(e[0] == escape_char(c)[0]);
    if c != '&' && c != '<' && c != '>' && c != '"' {
        assert(e[0] == c);
        assert(e.len() >= 5 ==> e.take(5)[0] != amp_entity()[0]);
        assert(e.len() >= 4 ==> e.take(4)[0] != lt_entity()[0]);
        assert(e.len() >= 4 ==> e.take(4)[0] != gt_entity()[0]);
        assert(e.len() >= 6 ==> e.take(6)[0] != quot_entity()[0]);
    } else if c == '<' {
        assert(e.len() >= 5 ==> e.take(5)[1] != amp_entity()[1]);
    } else if c == '>' {
        assert(e.len() >= 5 ==> e.take(5)[1] != amp_entity()[1]);
        assert(e.take(4)[1] != lt_entity()[1]);
    } else if c == '"' {
        assert(e.len() >= 5 ==> e.take(5)[1] != amp_entity()[1]);
        assert(e.take(4)[1] != lt_entity()[1]);
        assert(e.take(4)[1] != gt_entity()[1]);
    }
}

/// Decoding an escaped text gives the text back.
pub proof fn lemma_unescape_escaped(s: Seq<char>)
    ensures
        html_unescaped(html_escaped(s)) == s,
    decreases s.len(),
{
    if s.len() > 0 {
        let c = s[0];
        let rest = s.drop_first();
        assert(s =~= seq![c] + rest);
        lemma_escaped_cons(c, rest);
        lemma_unescape_step(c, html_escaped(rest));
        lemma_unescape_escaped(rest);
        assert(seq![c] + rest =~= s);
    } else {
        assert(html_escaped(s) =~= Seq::<char>::empty());
    }
}

/// Whether every `&` of `e` begins one of the four entities.
pub open spec fn ampersands_begin_entities(e: Seq<char>) -> bool {
    forall|i: int|
        0 <= i < e.len() && #[trigger] e[i] == '&' ==> crate::text::occurs_at(e, amp_entity(), i)
            || crate::text::occurs_at(e, lt_entity(), i) || crate::text::occurs_at(e, gt_entity(), i)
            || crate::text::occurs_at(e, quot_entity(), i)
}

/// Whether `e` holds no raw `<`, `>` or `"`.
pub open spec fn no_raw_markup(e: Seq<char>) -> bool {
    forall|i: int| 0 <= i < e.len() ==> #[trigger] e[i] != '<' && e[i] != '>' && e[i] != '"'
}

/// Escaped text holds no raw `<`, `>` or `"`, and each of its `&` begins `&amp;`, `&lt;`,
/// `&gt;` or `&quot;`.
pub proof fn lemma_escaped_is_safe(s: Seq<char>)
    ensures
        no_raw_markup(html_escaped(s)),
        ampersands_begin_entities(html_escaped(s)),
    decreases s.len(),
{
    if s.len() > 0 {
        let a = html_escaped(s.drop_last());
        let b = escape_char(s.last());
        lemma_escaped_is_safe(s.drop_last());
        let e = a + b;
        assert(e == html_escaped(s));
        assert forall|i: int| 0 <= i < e.len() implies #[trigger] e[i] != '<' && e[i] != '>' && e[i]
            != '"' by {
            if i >= a.len() {
                assert(e[i] == b[i - a.len()]);
            } else {
                assert(e[i] == a[i]);
            }
        }
        assert forall|i: int|
            0 <= i < e.len() && #[trigger] e[i] == '&' implies crate::text::occurs_at(e, amp_entity(), i)
                || crate::text::occurs_at(e, lt_entity(), i) || crate::text::occurs_at(e, gt_entity(), i)
                || crate::text::occurs_at(e, quot_entity(), i) by {
            if i >= a.len() {
                assert(e[i] == b[i - a.len()]);
                assert(i == a.len());
                assert(e.subrange(i, e.len() as int) =~= b);
                let c = s.last();
                if c == '&' {
                    assert(e.subrange(i, i + 5) =~= amp_entity());
                } else if c == '<' {
                    assert(e.subrange(i, i + 4) =~= lt_entity());
                } else if c == '>' {
                    assert(e.subrange(i, i + 4) =~= gt_entity());
                } else {
                    assert(e.subrange(i, i + 6) =~= quot_entity());
                }
            } else {
                assert(e[i] == a[i]);
                if crate::text::occurs_at(a, amp_entity(), i) {
                    assert(e.subrange(i, i + 5) =~= a.subrange(i, i + 5));
                } else if crate::text::occurs_at(a, lt_entity(), i) {
                    assert(e.subrange(i, i + 4) =~= a.subrange(i, i + 4));
                } else if crate::text::occurs_at(a, gt_entity(), i) {
                    assert(e.subrange(i, i + 4) =~= a.subrange(i, i + 4));
                } else {
                    assert(e.subrange(i, i + 6) =~= a.subrange(i, i + 6));
                }
            }
        }
    }
}

/// Escaped text decoded by replacing, in this order, every `&quot;` by `"`, every
/// `&gt;` by `>`, every `&lt;` by `<` and last every `&amp;` by `&` (each with
/// `str::replace`).
pub open spec fn replace_unescaped(e: Seq<char>) -> Seq<char> {
    replace_all(
        replace_all(
            replace_all(replace_all(e, quot_entity(), seq!['"']), gt_entity(), seq!['>']),
            lt_entity(),
            seq!['<'],
        ),
        amp_entity(),
        seq!['&'],
    )
}

/// The entity decoded at step `k` of [`replace_unescaped`].
pub open spec fn step_entity(k: int) -> Seq<char> {
    if k == 0 {
        quot_entity()
    } else if k == 1 {
        gt_entity()
    } else if k == 2 {
        lt_entity()
    } else {
        amp_entity()
    }
}

/// The character that step `k` of [`replace_unescaped`] puts back.
pub open spec fn step_char(k: int) -> char {
    if k == 0 {
        '"'
    } else if k == 1 {
        '>'
    } else if k == 2 {
        '<'
    } else {
        '&'
    }
}

/// How character `c` of the original text stands after `k` steps of decoding.
pub open spec fn staged_char(c: char, k: int) -> Seq<char> {
    if (k >= 1 && c == '"') || (k >= 2 && c == '>') || (k >= 3 && c == '<') || (k >= 4 && c == '&') {
        seq![c]
    } else {
        escape_char(c)
    }
}

/// The escaped text `s` after `k` steps of decoding.
pub open spec fn staged_text(s: Seq<char>, k: int) -> Seq<char>
    decreases s.len(),
{
    if s.len() == 0 {
        seq![]
    } else {
        staged_char(s[0], k) + staged_text(s.drop_first(), k)
    }
}

/// Replacing leaves a text that cannot start a match alone.
proof fn lemma_replace_skips(x: Seq<char>, y: Seq<char>, pat: Seq<char>, rep: Seq<char>)
    requires
        pat.len() > 0,
        forall|i: int| 0 <= i < x.len() ==> x[i] != pat[0],
    ensures
        replace_all(x + y, pat, rep) == x + replace_all(y, pat, rep),
    decreases x.len(),
{
    let z = x + y;
    if x.len() == 0 {
        assert(z =~= y);
    } else if z.len() < pat.len() {
        assert(y.len() < pat.len());
    } else {
        assert(z.subrange(0, pat.len() as int)[0] == x[0]);
        assert(z.subrange(0, pat.len() as int) != pat);
        assert(z.drop_first() =~= x.drop_first() + y);
        lemma_replace_skips(x.drop_first(), y, pat, rep);
        assert(seq![z[0]] + (x.drop_first() + replace_all(y, pat, rep)) =~= x + replace_all(y, pat, rep));
    }
}

/// One step of [`replace_unescaped`] turns the text after `k` steps into the text after
/// `k + 1`.
proof fn lemma_decode_step(s: Seq<char>, k: int)
    requires
        0 <= k < 4,
    ensures
        replace_all(staged_text(s, k), step_entity(k), seq![step_char(k)]) == staged_text(s, k + 1),
    decreases s.len(),
{
    let pat = step_entity(k);
    let rep = seq![step_char(k)];
    if s.len() > 0 {
        let c = s[0];
        let rest = s.drop_first();
        let p = staged_char(c, k);
        let t = staged_text(rest, k);
        let e = p + t;
        assert(staged_text(s, k) == e);
        lemma_decode_step(rest, k);
        if c == step_char(k) {
            assert(p =~= pat);
            assert(e.subrange(0, pat.len() as int) =~= pat);
            assert(e.subrange(pat.len() as int, e.len() as int) =~= t);
            assert(staged_char(c, k + 1) =~= rep);
        } else if p.len() == 1 {
            assert(p[0] == c);
            assert(c != '&');
            lemma_replace_skips(p, t, pat, rep);
            assert(staged_char(c, k + 1) == p);
        } else {
            assert(p[0] == '&');
            assert(p[1] != pat[1]);
            assert(staged_char(c, k + 1) == p);
            if e.len() < pat.len() {
                assert(t.len() < pat.len());
                assert(replace_all(t, pat, rep) == t);
            } else {
                assert(e.subrange(0, pat.len() as int)[1] == p[1]);
                assert(e.subrange(0, pat.len() as int) != pat);
                assert(e.drop_first() =~= p.drop_first() + t);
                lemma_replace_skips(p.drop_first(), t, pat, rep);
                assert(seq![e[0]] + (p.drop_first() + replace_all(t, pat, rep)) =~= p + replace_all(t, pat, rep));
            }
        }
    }
}

/// Before any decoding, the staged text is the escaped text.
proof fn lemma_staged_escaped(s: Seq<char>)
    ensures
        staged_text(s, 0) == html_escaped(s),
    decreases s.len(),
{
    if s.len() == 0 {
        assert(html_escaped(s) =~= Seq::<char>::empty());
    } else {
        lemma_staged_escaped(s.drop_first());
        assert(s =~= seq![s[0]] + s.drop_first());
        lemma_escaped_cons(s[0], s.drop_first());
    }
}

/// After all four steps, the staged text is the original text.
proof fn lemma_staged_decoded(s: Seq<char>)
    ensures
        staged_text(s, 4) == s,
    decreases s.len(),
{
    if s.len() > 0 {
        lemma_staged_decoded(s.drop_first());
        assert(seq![s[0]] + s.drop_first() =~= s);
    }
}

/// Decoding escaped text by `str::replace` of `&quot;`, `&gt;`, `&lt;` and last `&amp;`
/// gives the text back.
pub proof fn lemma_replace_unescape_escaped(s: Seq<char>)
    ensures
        replace_unescaped(html_escaped(s)) == s,
{
    lemma_staged_escaped(s);
    lemma_decode_step(s, 0);
    lemma_decode_step(s, 1);
    lemma_decode_step(s, 2);
    lemma_decode_step(s, 3);
    lemma_staged_decoded(s);
}

/// The text from index `i` on with every tag removed, where a tag is what the pattern
/// `<[^>]+>` matches: a `<`, at least one character other than `>`, then `>`.
/// Matches are taken leftmost first and do not overlap.
pub open spec fn tags_stripped_from(s: Seq<char>, i: int) -> Seq<char>
    decreases s.len() - i,
{
    if i < 0 || i >= s.len() {
        seq![]
    } else {
        let j = next_index_of(s, i + 1, '>');
        if s[i] == '<' && i + 1 < j && j < s.len() {
            tags_stripped_from(s, j + 1)
        } else {
            seq![s[i]] + tags_stripped_from(s, i + 1)
        }
    }
}

/// `s` with every tag removed (see [`tags_stripped_from`]).
pub open spec fn tags_stripped(s: Seq<char>) -> Seq<char> {
    tags_stripped_from(s, 0)
}

/// Replaces the matches of a regular expression with the `regex` crate:
/// `Regex::new(pattern)`, then `replace_all(text, rep)`. The library uses it only with the
/// pattern `<[^>]+>` and an empty replacement (which the `requires` fixes, so that the
/// pattern compiles); the contract claims that the result is `text` with the regex's
/// leftmost-first, non-overlapping matches of that pattern removed, as
/// [`tags_stripped`] states them.
#[verifier::external_body]
fn regex_replace_all(pattern: &str, text: &str, rep: &str) -> (r: String)
    requires
        pattern@ == "<[^>]+>"@,
        rep@ == ""@,
    ensures
        r@ == tags_stripped(text@),
{
    regex::Regex::new(pattern).unwrap().replace_all(text, rep).into_owned()
}

/// Removes every HTML tag (each match of `<[^>]+>`), keeping all other text.
pub fn strip_html_tags(html: &str) -> (r: String)
    ensures
        r@ == tags_stripped(html@),
{
    regex_replace_all("<[^>]+>", html, "")
}

/// The markup rewriting applied to a Zotero note before its tags are stripped:
/// the Zotero wrapper `div` goes, block and inline elements become line breaks and
/// Markdown marks, and the common entities are decoded, in this order.
pub open spec fn note_markup_rewritten(html: Seq<char>) -> Seq<char> {
    let s = html;
    let s = replace_all(s, "<div class=\"zotero-note znv1\">"@, ""@);
    let s = replace_all(s, "</div>"@, "\n"@);
    let s = replace_all(s, "<p>"@, ""@);
    let s = replace_all(s, "</p>"@, "\n\n"@);
    let s = replace_all(s, "<br>"@, "\n"@);
    let s = replace_all(s, "<br/>"@, "\n"@);
    let s = replace_all(s, "<br />"@, "\n"@);
    let s = replace_all(s, "<strong>"@, "**"@);
    let s = replace_all(s, "</strong>"@, "**"@);
    let s = replace_all(s, "<b>"@, "**"@);
    let s = replace_all(s, "</b>"@, "**"@);
    let s = replace_all(s, "<em>"@, "*"@);
    let s = replace_all(s, "</em>"@, "*"@);
    let s = replace_all(s, "<i>"@, "*"@);
    let s = replace_all(s, "</i>"@, "*"@);
    let s = replace_all(s, "<h1>"@, "# "@);
    let s = replace_all(s, "</h1>"@, "\n"@);
    let s = replace_all(s, "<h2>"@, "## "@);
    let s = replace_all(s, "</h2>"@, "\n"@);
    let s = replace_all(s, "<h3>"@, "### "@);
    let s = replace_all(s, "</h3>"@, "\n"@);
    let s = replace_all(s, "<li>"@, "- "@);
    let s = replace_all(s, "</li>"@, "\n"@);
    let s = replace_all(s, "<ul>"@, ""@);
    let s = replace_all(s, "</ul>"@, "\n"@);
    let s = replace_all(s, "<ol>"@, ""@);
    let s = replace_all(s, "</ol>"@, "\n"@);
    let s = replace_all(s, "&amp;"@, "&"@);
    let s = replace_all(s, "&lt;"@, "<"@);
    let s = replace_all(s, "&gt;"@, ">"@);
    let s = replace_all(s, "&quot;"@, "\""@);
    let s = replace_all(s, "&nbsp;"@, " "@);
    s
}

/// How character `c` of a text without `&` stands after the first `m` of the note's
/// decoding passes for `&lt;`, `&gt;` and `&quot;`.
spec fn note_staged_char(c: char, m: int) -> Seq<char> {
    if (m >= 1 && c == '<') || (m >= 2 && c == '>') || (m >= 3 && c == '"') {
        seq![c]
    } else {
        escape_char(c)
    }
}

/// The escape of a text without `&` after the first `m` of those passes.
spec fn note_staged(s: Seq<char>, m: int) -> Seq<char>
    decreases s.len(),
{
    if s.len() == 0 {
        seq![]
    } else {
        note_staged_char(s[0], m) + note_staged(s.drop_first(), m)
    }
}

/// The entity that decoding pass `m` replaces.
spec fn note_step_entity(m: int) -> Seq<char> {
    if m == 0 {
        lt_entity()
    } else if m == 1 {
        gt_entity()
    } else {
        quot_entity()
    }
}

/// The character that decoding pass `m` puts back.
spec fn note_step_char(m: int) -> char {
    if m == 0 {
        '<'
    } else if m == 1 {
        '>'
    } else {
        '"'
    }
}

/// Whether the text holds no `&`.
spec fn no_ampersand(s: Seq<char>) -> bool {
    forall|i: int| 0 <= i < s.len() ==> s[i] != '&'
}

/// A replacement whose pattern starts with a character the text lacks changes nothing.
proof fn lemma_tag_pass(e: Seq<char>, pat: Seq<char>, rep: Seq<char>)
    requires
        pat.len() > 0,
        forall|i: int| 0 <= i < e.len() ==> e[i] != pat[0],
    ensures
        replace_all(e, pat, rep) == e,
{
    lemma_replace_skips(e, seq![], pat, rep);
    assert(e + Seq::<char>::empty() =~= e);
    assert(replace_all(Seq::<char>::empty(), pat, rep) == Seq::<char>::empty());
}

/// A decoding pass of the note turns the text after `m` passes into the text after
/// `m + 1`.
proof fn lemma_note_decode_step(s: Seq<char>, m: int)
    requires
        0 <= m < 3,
        no_ampersand(s),
    ensures
        replace_all(note_staged(s, m), note_step_entity(m), seq![note_step_char(m)]) == note_staged(s, m + 1),
    decreases s.len(),
{
    let pat = note_step_entity(m);
    let rep = seq![note_step_char(m)];
    if s.len() > 0 {
        let c = s[0];
        let rest = s.drop_first();
        assert(no_ampersand(rest)) by {
            assert forall|i: int| 0 <= i < rest.len() implies rest[i] != '&' by {
                assert(rest[i] == s[i + 1]);
            }
        }
        assert(c != '&') by {
            assert(s[0] == c);
        }
        let p = note_staged_char(c, m);
        let t = note_staged(rest, m);
        let e = p + t;
        assert(note_staged(s, m) == e);
        lemma_note_decode_step(rest, m);
        if c == note_step_char(m) {
            assert(p =~= pat);
            assert(e.subrange(0, pat.len() as int) =~= pat);
            assert(e.subrange(pat.len() as int, e.len() as int) =~= t);
            assert(note_staged_char(c, m + 1) =~= rep);
        } else if p.len() == 1 {
            assert(p[0] == c);
            lemma_replace_skips(p, t, pat, rep);
            assert(note_staged_char(c, m + 1) == p);
        } else {
            assert(p[0] == '&');
            assert(p[1] != pat[1]);
            assert(note_staged_char(c, m + 1) == p);
            if e.len() < pat.len() {
                assert(t.len() < pat.len());
                assert(replace_all(t, pat, rep) == t);
            } else {
                assert(e.subrange(0, pat.len() as int)[1] == p[1]);
                assert(e.subrange(0, pat.len() as int) != pat);
                assert(e.drop_first() =~= p.drop_first() + t);
                lemma_replace_skips(p.drop_first(), t, pat, rep);
                assert(seq![e[0]] + (p.drop_first() + replace_all(t, pat, rep)) =~= p + replace_all(t, pat, rep));
            }
        }
    }
}

/// A pass for an entity the text cannot hold (`&amp;` or `&nbsp;`: an `&` followed by
/// neither `l`, `g` nor `q`) changes nothing.
proof fn lemma_note_absent_entity(s: Seq<char>, m: int, pat: Seq<char>, rep: Seq<char>)
    requires
        no_ampersand(s),
        pat.len() >= 2,
        pat[0] == '&',
        pat[1] != 'l' && pat[1] != 'g' && pat[1] != 'q',
    ensures
        replace_all(note_staged(s, m), pat, rep) == note_staged(s, m),
    decreases s.len(),
{
    if s.len() == 0 {
        assert(note_staged(s, m) =~= Seq::<char>::empty());
    } else {
        let c = s[0];
        let rest = s.drop_first();
        assert(no_ampersand(rest)) by {
            assert forall|i: int| 0 <= i < rest.len() implies rest[i] != '&' by {
                assert(rest[i] == s[i + 1]);
            }
        }
        assert(c != '&') by {
            assert(s[0] == c);
        }
        let p = note_staged_char(c, m);
        let t = note_staged(rest, m);
        let e = p + t;
        assert(note_staged(s, m) == e);
        lemma_note_absent_entity(rest, m, pat, rep);
        if p.len() == 1 {
            assert(p[0] == c);
            lemma_replace_skips(p, t, pat, rep);
        } else {
            assert(p[0] == '&');
            assert(p[1] != pat[1]);
            if e.len() < pat.len() {
                assert(replace_all(e, pat, rep) == e);
            } else {
                assert(e.subrange(0, pat.len() as int)[1] == p[1]);
                assert(e.subrange(0, pat.len() as int) != pat);
                assert(e.drop_first() =~= p.drop_first() + t);
                lemma_replace_skips(p.drop_first(), t, pat, rep);
                assert(seq![e[0]] + (p.drop_first() + replace_all(t, pat, rep)) =~= p + replace_all(t, pat, rep));
            }
        }
    }
}

/// Before any decoding pass, the staged text is the escaped text.
proof fn lemma_note_staged_escaped(s: Seq<char>)
    ensures
        note_staged(s, 0) == html_escaped(s),
    decreases s.len(),
{
    if s.len() == 0 {
        assert(html_escaped(s) =~= Seq::<char>::empty());
    } else {
        lemma_note_staged_escaped(s.drop_first());
        assert(s =~= seq![s[0]] + s.drop_first());
        lemma_escaped_cons(s[0], s.drop_first());
    }
}

/// After the three passes, a text without `&` is back.
proof fn lemma_note_staged_decoded(s: Seq<char>)
    requires
        no_ampersand(s),
    ensures
        note_staged(s, 3) == s,
    decreases s.len(),
{
    if s.len() > 0 {
        let rest = s.drop_first();
        assert(no_ampersand(rest)) by {
            assert forall|i: int| 0 <= i < rest.len() implies rest[i] != '&' by {
                assert(rest[i] == s[i + 1]);
            }
        }
        assert(s[0] != '&');
        lemma_note_staged_decoded(rest);
        assert(seq![s[0]] + rest =~= s);
    }
}

/// The entity passes of the note's rewriting: `&amp;`, `&lt;`, `&gt;`, `&quot;` and
/// `&nbsp;` decoded in this order.
spec fn note_entities_replaced(s: Seq<char>) -> Seq<char> {
    replace_all(
        replace_all(
            replace_all(replace_all(replace_all(s, "&amp;"@, "&"@), "&lt;"@, "<"@), "&gt;"@, ">"@),
            "&quot;"@,
            "\""@,
        ),
        "&nbsp;"@,
        " "@,
    )
}

/// On a text without `<`, the tag passes of the note's rewriting change nothing.
proof fn lemma_note_tag_passes(e: Seq<char>)
    requires
        forall|i: int| 0 <= i < e.len() ==> e[i] != '<',
    ensures
        note_markup_rewritten(e) == note_entities_replaced(e),
{
    reveal_strlit("<div class=\"zotero-note znv1\">");
    lemma_tag_pass(e, "<div class=\"zotero-note znv1\">"@, ""@);
    reveal_strlit("</div>");
    lemma_tag_pass(e, "</div>"@, "\n"@);
    reveal_strlit("<p>");
    lemma_tag_pass(e, "<p>"@, ""@);
    reveal_strlit("</p>");
    lemma_tag_pass(e, "</p>"@, "\n\n"@);
    reveal_strlit("<br>");
    lemma_tag_pass(e, "<br>"@, "\n"@);
    reveal_strlit("<br/>");
    lemma_tag_pass(e, "<br/>"@, "\n"@);
    reveal_strlit("<br />");
    lemma_tag_pass(e, "<br />"@, "\n"@);
    reveal_strlit("<strong>");
    lemma_tag_pass(e, "<strong>"@, "**"@);
    reveal_strlit("</strong>");
    lemma_tag_pass(e, "</strong>"@, "**"@);
    reveal_strlit("<b>");
    lemma_tag_pass(e, "<b>"@, "**"@);
    reveal_strlit("</b>");
    lemma_tag_pass(e, "</b>"@, "**"@);
    reveal_strlit("<em>");
    lemma_tag_pass(e, "<em>"@, "*"@);
    reveal_strlit("</em>");
    lemma_tag_pass(e, "</em>"@, "*"@);
    reveal_strlit("<i>");
    lemma_tag_pass(e, "<i>"@, "*"@);
    reveal_strlit("</i>");
    lemma_tag_pass(e, "</i>"@, "*"@);
    reveal_strlit("<h1>");
    lemma_tag_pass(e, "<h1>"@, "# "@);
    reveal_strlit("</h1>");
    lemma_tag_pass(e, "</h1>"@, "\n"@);
    reveal_strlit("<h2>");
    lemma_tag_pass(e, "<h2>"@, "## "@);
    reveal_strlit("</h2>");
    lemma_tag_pass(e, "</h2>"@, "\n"@);
    reveal_strlit("<h3>");
    lemma_tag_pass(e, "<h3>"@, "### "@);
    reveal_strlit("</h3>");
    lemma_tag_pass(e, "</h3>"@, "\n"@);
    reveal_strlit("<li>");
    lemma_tag_pass(e, "<li>"@, "- "@);
    reveal_strlit("</li>");
    lemma_tag_pass(e, "</li>"@, "\n"@);
    reveal_strlit("<ul>");
    lemma_tag_pass(e, "<ul>"@, ""@);
    reveal_strlit("</ul>");
    lemma_tag_pass(e, "</ul>"@, "\n"@);
    reveal_strlit("<ol>");
    lemma_tag_pass(e, "<ol>"@, ""@);
    reveal_strlit("</ol>");
    lemma_tag_pass(e, "</ol>"@, "\n"@);
}

/// A Zotero note whose HTML is the escaped form of a text without `&` comes back as that
/// text from the note's markup rewriting: its entities `&lt;`, `&gt;` and `&quot;` decode
/// to `<`, `>` and `"`, and nothing else changes.
pub proof fn lemma_note_entities_decoded(t: Seq<char>)
    requires
        forall|i: int| 0 <= i < t.len() ==> t[i] != '&',
    ensures
        note_markup_rewritten(html_escaped(t)) == t,
{
    lemma_escaped_is_safe(t);
    lemma_note_tag_passes(html_escaped(t));
    lemma_note_entity_passes(t);
}

/// The `&amp;` pass of the note's rewriting decodes an escaped text whose only escaped
/// character is `&`.
proof fn lemma_note_amp_pass(t: Seq<char>)
    requires
        forall|i: int| 0 <= i < t.len() ==> t[i] != '<' && t[i] != '>' && t[i] != '"',
    ensures
        replace_all(html_escaped(t), "&amp;"@, "&"@) == t,
    decreases t.len(),
{
    reveal_strlit("&amp;");
    reveal_strlit("&");
    let pat = "&amp;"@;
    let rep = "&"@;
    if t.len() == 0 {
        assert(html_escaped(t) =~= Seq::<char>::empty());
    } else {
        let c = t[0];
        let rest = t.drop_first();
        assert(t =~= seq![c] + rest);
        lemma_escaped_cons(c, rest);
        lemma_note_amp_pass(rest);
        let er = html_escaped(rest);
        let e = escape_char(c) + er;
        assert(html_escaped(t) == e);
        if c == '&' {
            assert(e.subrange(0, 5) =~= pat);
            assert(e.subrange(5, e.len() as int) =~= er);
            assert(rep + rest =~= t);
        } else {
            assert(escape_char(c) =~= seq![c]);
            lemma_replace_skips(seq![c], er, pat, rep);
        }
    }
}

/// A replacement whose pattern holds a character the text lacks changes nothing.
proof fn lemma_pass_missing_char(x: Seq<char>, pat: Seq<char>, rep: Seq<char>, k: int)
    requires
        0 <= k < pat.len(),
        forall|i: int| 0 <= i < x.len() ==> x[i] != pat[k],
    ensures
        replace_all(x, pat, rep) == x,
{
    assert forall|i: int| 0 <= i && i + pat.len() <= x.len() implies #[trigger] x.subrange(i, i + pat.len()) != pat by {
        assert(x.subrange(i, i + pat.len())[k] == x[i + k]);
    }
    lemma_pass_absent(x, pat, rep);
}

/// A Zotero note whose HTML is the escaped form of a text without `<`, `>`, `"` or `;`
/// comes back as that text from the note's markup rewriting: `&amp;` decodes to `&`.
pub proof fn lemma_note_ampersands_decoded(t: Seq<char>)
    requires
        forall|i: int| 0 <= i < t.len() ==> t[i] != '<' && t[i] != '>' && t[i] != '"' && t[i] != ';',
    ensures
        note_markup_rewritten(html_escaped(t)) == t,
{
    lemma_escaped_is_safe(t);
    lemma_note_tag_passes(html_escaped(t));
    lemma_note_amp_pass(t);
    reveal_strlit("&lt;");
    reveal_strlit("&gt;");
    reveal_strlit("&quot;");
    reveal_strlit("&nbsp;");
    assert("&lt;"@[3] == ';' && "&gt;"@[3] == ';' && "&quot;"@[5] == ';' && "&nbsp;"@[5] == ';');
    lemma_pass_missing_char(t, "&lt;"@, "<"@, 3);
    lemma_pass_missing_char(t, "&gt;"@, ">"@, 3);
    lemma_pass_missing_char(t, "&quot;"@, "\""@, 5);
    lemma_pass_missing_char(t, "&nbsp;"@, " "@, 5);
}

/// A replacement whose pattern starts with `&` but not `&n` passes over a leading
/// `&nbsp;`.
proof fn lemma_nbsp_prefix_skip(x: Seq<char>, pat: Seq<char>, rep: Seq<char>)
    requires
        2 <= pat.len() <= 6,
        pat[0] == '&',
        pat[1] != 'n',
    ensures
        replace_all("&nbsp;"@ + x, pat, rep) == "&nbsp;"@ + replace_all(x, pat, rep),
{
    reveal_strlit("&nbsp;");
    let nb = "&nbsp;"@;
    assert(nb =~= seq!['&', 'n', 'b', 's', 'p', ';']);
    let y = nb + x;
    assert(y.subrange(0, pat.len() as int)[1] == 'n');
    assert(y.subrange(0, pat.len() as int) != pat);
    let tail = seq!['n', 'b', 's', 'p', ';'];
    assert(y.drop_first() =~= tail + x);
    lemma_replace_skips(tail, x, pat, rep);
    assert(seq![y[0]] + (tail + replace_all(x, pat, rep)) =~= nb + replace_all(x, pat, rep));
}

/// A non-breaking space entity in front of an escaped text without `&` becomes a space
/// in the note's markup rewriting, and the text comes back.
pub proof fn lemma_note_nbsp_decoded(t: Seq<char>)
    requires
        forall|i: int| 0 <= i < t.len() ==> t[i] != '&',
    ensures
        note_markup_rewritten("&nbsp;"@ + html_escaped(t)) == " "@ + t,
{
    reveal_strlit("&nbsp;");
    reveal_strlit("&amp;");
    reveal_strlit("&lt;");
    reveal_strlit("&gt;");
    reveal_strlit("&quot;");
    reveal_strlit("&");
    reveal_strlit("<");
    reveal_strlit(">");
    reveal_strlit("\"");
    reveal_strlit(" ");
    let e = html_escaped(t);
    lemma_escaped_is_safe(t);
    let h = "&nbsp;"@ + e;
    assert("&nbsp;"@ =~= seq!['&', 'n', 'b', 's', 'p', ';']);
    assert forall|i: int| 0 <= i < h.len() implies h[i] != '<' by {
        if i >= 6 {
            assert(h[i] == e[i - 6]);
        }
    }
    lemma_note_tag_passes(h);
    lemma_note_staged_escaped(t);
    assert(no_ampersand(t));
    lemma_nbsp_prefix_skip(e, "&amp;"@, "&"@);
    lemma_note_absent_entity(t, 0, "&amp;"@, "&"@);
    assert("&lt;"@ =~= note_step_entity(0));
    assert("<"@ =~= seq![note_step_char(0)]);
    lemma_nbsp_prefix_skip(note_staged(t, 0), "&lt;"@, "<"@);
    lemma_note_decode_step(t, 0);
    assert("&gt;"@ =~= note_step_entity(1));
    assert(">"@ =~= seq![note_step_char(1)]);
    lemma_nbsp_prefix_skip(note_staged(t, 1), "&gt;"@, ">"@);
    lemma_note_decode_step(t, 1);
    assert("&quot;"@ =~= note_step_entity(2));
    assert("\""@ =~= seq![note_step_char(2)]);
    lemma_nbsp_prefix_skip(note_staged(t, 2), "&quot;"@, "\""@);
    lemma_note_decode_step(t, 2);
    lemma_note_staged_decoded(t);
    let y = "&nbsp;"@ + t;
    assert(y.subrange(0, 6) =~= "&nbsp;"@);
    assert(y.subrange(6, y.len() as int) =~= t);
    lemma_tag_pass(t, "&nbsp;"@, " "@);
}

/// The line-by-line cleanup of note text from index `i` on: each line (split at
/// `\n`, a final empty line after a trailing `\n` not counted) is trimmed; a non-empty
/// line is kept followed by `\n`; a run of empty lines becomes a single `\n`, none
/// when the line before was already empty.
pub open spec fn note_lines_from(s: Seq<char>, i: int, prev_empty: bool) -> Seq<char>
    decreases s.len() - i,
    via note_lines_from_decreases
{
    if i < 0 || i >= s.len() {
        seq![]
    } else {
        let k = next_index_of(s, i, '\n');
        let t = trim(s.subrange(i, k));
        let here = if t.len() == 0 {
            if prev_empty {
                seq![]
            } else {
                seq!['\n']
            }
        } else {
            t + seq!['\n']
        };
        if k >= s.len() {
            here
        } else {
            here + note_lines_from(s, k + 1, t.len() == 0)
        }
    }
}

#[via_fn]
proof fn note_lines_from_decreases(s: Seq<char>, i: int, prev_empty: bool) {
    if 0 <= i < s.len() {
        lemma_next_index_bounds(s, i, '\n');
    }
}

/// The plain text / basic Markdown that a Zotero note's HTML becomes on import.
pub open spec fn note_text(html: Seq<char>) -> Seq<char> {
    trim(note_lines_from(tags_stripped(note_markup_rewritten(html)), 0, false))
}

/// Text without `<` has no tag to strip.
proof fn lemma_no_tags_kept(s: Seq<char>, i: int)
    requires
        0 <= i <= s.len(),
        forall|k: int| 0 <= k < s.len() ==> s[k] != '<',
    ensures
        tags_stripped_from(s, i) == s.subrange(i, s.len() as int),
    decreases s.len() - i,
{
    if i < s.len() {
        lemma_no_tags_kept(s, i + 1);
        assert(s.subrange(i, s.len() as int) =~= seq![s[i]] + s.subrange(i + 1, s.len() as int));
    } else {
        assert(s.subrange(i, s.len() as int) =~= Seq::<char>::empty());
    }
}

/// Without a line break from `i` on, the next one is looked for up to the end.
proof fn lemma_no_line_break(s: Seq<char>, i: int)
    requires
        0 <= i <= s.len(),
        forall|k: int| 0 <= k < s.len() ==> s[k] != '\n',
    ensures
        next_index_of(s, i, '\n') == s.len(),
    decreases s.len() - i,
{
    if i < s.len() {
        lemma_no_line_break(s, i + 1);
    }
}

/// What `trim_start` leaves starts with a non-whitespace character.
proof fn lemma_trim_start_front(s: Seq<char>)
    ensures
        trim_start(s).len() > 0 ==> !is_white(trim_start(s)[0]),
    decreases s.len(),
{
    if s.len() > 0 && is_white(s[0]) {
        lemma_trim_start_front(s.drop_first());
    }
}

/// What `trim_end` leaves is a prefix of the text that ends with a non-whitespace
/// character.
proof fn lemma_trim_end_prefix(s: Seq<char>)
    ensures
        trim_end(s).len() <= s.len(),
        trim_end(s) == s.subrange(0, trim_end(s).len() as int),
        trim_end(s).len() > 0 ==> !is_white(trim_end(s).last()),
    decreases s.len(),
{
    if s.len() > 0 && is_white(s.last()) {
        lemma_trim_end_prefix(s.drop_last());
        assert(s.drop_last().subrange(0, trim_end(s).len() as int) =~= s.subrange(0, trim_end(s).len() as int));
    } else {
        assert(s.subrange(0, s.len() as int) =~= s);
    }
}

/// Trimming a trimmed text with a line break after it gives the trimmed text.
proof fn lemma_trim_line(x: Seq<char>)
    ensures
        trim(trim(x) + seq!['\n']) == trim(x),
{
    let y = trim(x);
    let u = trim_start(x);
    lemma_trim_start_front(x);
    lemma_trim_end_prefix(u);
    let z = y + seq!['\n'];
    assert(is_white('\n'));
    if y.len() == 0 {
        assert(z =~= seq!['\n']);
        assert(z.drop_first() =~= Seq::<char>::empty());
        assert(trim_start(z) == trim_start(z.drop_first()));
        assert(trim_start(Seq::<char>::empty()) =~= Seq::<char>::empty());
        assert(trim_end(Seq::<char>::empty()) =~= Seq::<char>::empty());
    } else {
        assert(y[0] == u[0]);
        assert(z[0] == y[0]);
        assert(trim_start(z) == z);
        assert(z.last() == '\n');
        assert(z.drop_last() =~= y);
        assert(trim_end(z) == trim_end(y));
        assert(y.last() == trim_end(u).last());
        assert(trim_end(y) == y);
    }
}

/// A Zotero note whose HTML is the escaped form of a one-line text without `&` or `<`
/// imports as that text, trimmed: escaping and the import's decoding undo each other,
/// so `&gt;` comes back as `>` and `&quot;` as `"`.
pub proof fn lemma_note_text_of_escaped(t: Seq<char>)
    requires
        forall|i: int| 0 <= i < t.len() ==> t[i] != '&' && t[i] != '<' && t[i] != '\n',
    ensures
        note_text(html_escaped(t)) == trim(t),
{
    lemma_note_entities_decoded(t);
    lemma_no_tags_kept(t, 0);
    assert(t.subrange(0, t.len() as int) =~= t);
    assert(tags_stripped(note_markup_rewritten(html_escaped(t))) == t);
    if t.len() == 0 {
        assert(note_lines_from(t, 0, false) =~= Seq::<char>::empty());
        assert(trim_start(t) =~= t);
        assert(trim_end(t) =~= t);
    } else {
        lemma_no_line_break(t, 0);
        assert(t.subrange(0, t.len() as int) =~= t);
        lemma_trim_line(t);
        if trim(t).len() == 0 {
            assert(note_lines_from(t, 0, false) =~= seq!['\n']);
            assert(trim(t) + seq!['\n'] =~= seq!['\n']);
        } else {
            assert(note_lines_from(t, 0, false) =~= trim(t) + seq!['\n']);
        }
    }
}

/// The entity passes of the note's rewriting give back a text without `&` from its
/// escape.
proof fn lemma_note_entity_passes(u: Seq<char>)
    requires
        forall|i: int| 0 <= i < u.len() ==> u[i] != '&',
    ensures
        note_entities_replaced(html_escaped(u)) == u,
{
    lemma_note_staged_escaped(u);
    assert(no_ampersand(u));
    reveal_strlit("&amp;");
    reveal_strlit("&lt;");
    reveal_strlit("&gt;");
    reveal_strlit("&quot;");
    reveal_strlit("&nbsp;");
    reveal_strlit("&");
    reveal_strlit("<");
    reveal_strlit(">");
    reveal_strlit("\"");
    reveal_strlit(" ");
    lemma_note_absent_entity(u, 0, "&amp;"@, "&"@);
    assert("&lt;"@ =~= note_step_entity(0));
    assert("<"@ =~= seq![note_step_char(0)]);
    lemma_note_decode_step(u, 0);
    assert("&gt;"@ =~= note_step_entity(1));
    assert(">"@ =~= seq![note_step_char(1)]);
    lemma_note_decode_step(u, 1);
    assert("&quot;"@ =~= note_step_entity(2));
    assert("\""@ =~= seq![note_step_char(2)]);
    lemma_note_decode_step(u, 2);
    lemma_note_absent_entity(u, 3, "&nbsp;"@, " "@);
    lemma_note_staged_decoded(u);
}

/// A replacement whose pattern occurs nowhere in the text changes nothing.
proof fn lemma_pass_absent(x: Seq<char>, pat: Seq<char>, rep: Seq<char>)
    requires
        pat.len() > 0,
        forall|i: int| 0 <= i && i + pat.len() <= x.len() ==> #[trigger] x.subrange(i, i + pat.len()) != pat,
    ensures
        replace_all(x, pat, rep) == x,
    decreases x.len(),
{
    if x.len() >= pat.len() {
        let i0: int = 0;
        assert(x.subrange(i0, i0 + pat.len()) != pat);
        assert(x.subrange(i0, i0 + pat.len()) == x.subrange(0, pat.len() as int));
        let y = x.drop_first();
        assert forall|i: int| 0 <= i && i + pat.len() <= y.len() implies #[trigger] y.subrange(i, i + pat.len()) != pat by {
            assert(y.subrange(i, i + pat.len()) =~= x.subrange(i + 1, i + 1 + pat.len()));
        }
        lemma_pass_absent(y, pat, rep);
        assert(seq![x[0]] + y =~= x);
    }
}

/// The first line break of a text `t` followed by line breaks, looked for from within
/// `t`, is the one right after `t`.
proof fn lemma_line_break_after(t: Seq<char>, w: Seq<char>, i: int)
    requires
        0 <= i <= t.len(),
        w.len() > 0,
        w[0] == '\n',
        forall|k: int| 0 <= k < t.len() ==> t[k] != '\n',
    ensures
        next_index_of(t + w, i, '\n') == t.len(),
    decreases t.len() - i,
{
    if i < t.len() {
        lemma_line_break_after(t, w, i + 1);
    } else {
        assert((t + w)[i] == w[0]);
    }
}

/// A Zotero note made of one paragraph, `<p>` and the escaped form of a one-line text
/// without `&` or `<`, then `</p>`, imports as that text, trimmed: the paragraph tags go
/// and the import's decoding undoes the escaping, so `&gt;` comes back as `>`.
pub proof fn lemma_note_paragraph_of_escaped(t: Seq<char>)
    requires
        forall|i: int| 0 <= i < t.len() ==> t[i] != '&' && t[i] != '<' && t[i] != '\n',
    ensures
        note_text("<p>"@ + html_escaped(t) + "</p>"@) == trim(t),
{
    reveal_strlit("<p>");
    reveal_strlit("</p>");
    reveal_strlit("<div class=\"zotero-note znv1\">");
    reveal_strlit("</div>");
    reveal_strlit("");
    reveal_strlit("\n");
    reveal_strlit("\n\n");
    let e = html_escaped(t);
    lemma_escaped_is_safe(t);
    let h = "<p>"@ + e + "</p>"@;
    let l = e.len() as int;
    assert(h.len() == l + 7);
    assert forall|k: int| 0 <= k < h.len() && h[k] == '<' implies k == 0 || k == l + 3 by {
        if 3 <= k < l + 3 {
            assert(h[k] == e[k - 3]);
        }
    }
    let div = "<div class=\"zotero-note znv1\">"@;
    assert forall|i: int| 0 <= i && i + div.len() <= h.len() implies #[trigger] h.subrange(i, i + div.len()) != div by {
        if h.subrange(i, i + div.len()) == div {
            assert(h.subrange(i, i + div.len())[0] == h[i]);
            assert(h.subrange(i, i + div.len())[1] == h[i + 1]);
            if i == 0 {
                assert(h[1] == 'p');
            } else {
                assert(i == l + 3);
            }
        }
    }
    lemma_pass_absent(h, div, ""@);
    let cdiv = "</div>"@;
    assert forall|i: int| 0 <= i && i + cdiv.len() <= h.len() implies #[trigger] h.subrange(i, i + cdiv.len()) != cdiv by {
        if h.subrange(i, i + cdiv.len()) == cdiv {
            assert(h.subrange(i, i + cdiv.len())[0] == h[i]);
            assert(h.subrange(i, i + cdiv.len())[1] == h[i + 1]);
            if i == 0 {
                assert(h[1] == 'p');
            } else {
                assert(i == l + 3);
            }
        }
    }
    lemma_pass_absent(h, cdiv, "\n"@);
    // `<p>` goes.
    let tail = e + "</p>"@;
    assert(h.subrange(0, 3) =~= "<p>"@);
    assert(h.subrange(3, h.len() as int) =~= tail);
    assert forall|i: int| 0 <= i && i + 3 <= "</p>"@.len() implies #[trigger] "</p>"@.subrange(i, i + 3) != "<p>"@ by {
        assert("</p>"@.subrange(i, i + 3)[1] != "<p>"@[1] || "</p>"@.subrange(i, i + 3)[0] != "<p>"@[0]);
    }
    lemma_pass_absent("</p>"@, "<p>"@, ""@);
    lemma_replace_skips(e, "</p>"@, "<p>"@, ""@);
    assert(replace_all(h, "<p>"@, ""@) =~= tail);
    // `</p>` becomes two line breaks.
    assert("</p>"@.subrange(0, 4) =~= "</p>"@);
    assert("</p>"@.subrange(4, 4) =~= Seq::<char>::empty());
    assert("</p>"@.len() == 4);
    assert(replace_all(Seq::<char>::empty(), "</p>"@, "\n\n"@) == Seq::<char>::empty());
    assert(replace_all("</p>"@, "</p>"@, "\n\n"@) == "\n\n"@ + replace_all("</p>"@.subrange(4, 4), "</p>"@, "\n\n"@));
    assert(replace_all("</p>"@, "</p>"@, "\n\n"@) =~= "\n\n"@);
    lemma_replace_skips(e, "</p>"@, "</p>"@, "\n\n"@);
    let u = t + "\n\n"@;
    assert(u.drop_last() =~= t + "\n"@);
    assert((t + "\n"@).drop_last() =~= t);
    assert("\n\n"@ =~= seq!['\n', '\n']);
    assert("\n"@ =~= seq!['\n']);
    assert(u.last() == '\n');
    assert((t + "\n"@).last() == '\n');
    assert(escape_char('\n') =~= seq!['\n']);
    assert(html_escaped(t + "\n"@) =~= e + seq!['\n']);
    assert(html_escaped(u) =~= e + "\n\n"@);
    let x = html_escaped(u);
    assert(replace_all(tail, "</p>"@, "\n\n"@) == x);
    lemma_escaped_is_safe(u);
    reveal_strlit("<br>");
    lemma_tag_pass(x, "<br>"@, "\n"@);
    reveal_strlit("<br/>");
    lemma_tag_pass(x, "<br/>"@, "\n"@);
    reveal_strlit("<br />");
    lemma_tag_pass(x, "<br />"@, "\n"@);
    reveal_strlit("<strong>");
    lemma_tag_pass(x, "<strong>"@, "**"@);
    reveal_strlit("</strong>");
    lemma_tag_pass(x, "</strong>"@, "**"@);
    reveal_strlit("<b>");
    lemma_tag_pass(x, "<b>"@, "**"@);
    reveal_strlit("</b>");
    lemma_tag_pass(x, "</b>"@, "**"@);
    reveal_strlit("<em>");
    lemma_tag_pass(x, "<em>"@, "*"@);
    reveal_strlit("</em>");
    lemma_tag_pass(x, "</em>"@, "*"@);
    reveal_strlit("<i>");
    lemma_tag_pass(x, "<i>"@, "*"@);
    reveal_strlit("</i>");
    lemma_tag_pass(x, "</i>"@, "*"@);
    reveal_strlit("<h1>");
    lemma_tag_pass(x, "<h1>"@, "# "@);
    reveal_strlit("</h1>");
    lemma_tag_pass(x, "</h1>"@, "\n"@);
    reveal_strlit("<h2>");
    lemma_tag_pass(x, "<h2>"@, "## "@);
    reveal_strlit("</h2>");
    lemma_tag_pass(x, "</h2>"@, "\n"@);
    reveal_strlit("<h3>");
    lemma_tag_pass(x, "<h3>"@, "### "@);
    reveal_strlit("</h3>");
    lemma_tag_pass(x, "</h3>"@, "\n"@);
    reveal_strlit("<li>");
    lemma_tag_pass(x, "<li>"@, "- "@);
    reveal_strlit("</li>");
    lemma_tag_pass(x, "</li>"@, "\n"@);
    reveal_strlit("<ul>");
    lemma_tag_pass(x, "<ul>"@, ""@);
    reveal_strlit("</ul>");
    lemma_tag_pass(x, "</ul>"@, "\n"@);
    reveal_strlit("<ol>");
    lemma_tag_pass(x, "<ol>"@, ""@);
    reveal_strlit("</ol>");
    lemma_tag_pass(x, "</ol>"@, "\n"@);
    assert forall|i: int| 0 <= i < u.len() implies u[i] != '&' by {
        if i >= t.len() {
            assert(u[i] == '\n');
        }
    }
    lemma_note_entity_passes(u);
    assert(note_markup_rewritten(h) == u);
    assert forall|i: int| 0 <= i < u.len() implies u[i] != '<' by {
        if i >= t.len() {
            assert(u[i] == '\n');
        }
    }
    lemma_no_tags_kept(u, 0);
    assert(u.subrange(0, u.len() as int) =~= u);
    let n = t.len() as int;
    lemma_line_break_after(t, "\n\n"@, 0);
    assert(u.subrange(0, n) =~= t);
    assert(next_index_of(u, n + 1, '\n') == n + 1);
    assert(u.subrange(n + 1, n + 1) =~= Seq::<char>::empty());
    assert(trim_start(Seq::<char>::empty()) =~= Seq::<char>::empty());
    assert(trim_end(Seq::<char>::empty()) =~= Seq::<char>::empty());
    assert(note_lines_from(u, n + 2, true) =~= Seq::<char>::empty());
    lemma_trim_line(t);
    let y = trim(t);
    if y.len() == 0 {
        assert(note_lines_from(u, n + 1, true) =~= Seq::<char>::empty());
        assert(note_lines_from(u, 0, false) =~= seq!['\n']);
        assert(seq!['\n'] =~= y + seq!['\n']);
    } else {
        assert(note_lines_from(u, n + 1, false) =~= seq!['\n']);
        assert(note_lines_from(u, 0, false) =~= y + seq!['\n'] + seq!['\n']);
        lemma_trim_line(y + seq!['\n']);
        lemma_trim_start_front(t);
        lemma_trim_end_prefix(trim_start(t));
        let z = y + seq!['\n'] + seq!['\n'];
        assert(z[0] == y[0]);
        assert(trim_start(z) == z);
        assert(z.drop_last() =~= y + seq!['\n']);
        assert((y + seq!['\n']).drop_last() =~= y);
        assert(trim_end(z) == trim_end(y + seq!['\n']));
        assert(trim_end(y + seq!['\n']) == trim_end(y));
        assert(trim_end(y) == y);
    }
}

/// Converts the HTML of a Zotero note into plain text with basic Markdown.
pub fn strip_html_for_note(html: &str) -> (r: String)
    ensures
        r@ == note_text(html@),
{
    let v = chars_of(html);
    let v = replace_all_chars(&v, &chars_of("<div class=\"zotero-note znv1\">"), &chars_of(""));
    let v = replace_all_chars(&v, &chars_of("</div>"), &chars_of("\n"));
    let v = replace_all_chars(&v, &chars_of("<p>"), &chars_of(""));
    let v = replace_all_chars(&v, &chars_of("</p>"), &chars_of("\n\n"));
    let v = replace_all_chars(&v, &chars_of("<br>"), &chars_of("\n"));
    let v = replace_all_chars(&v, &chars_of("<br/>"), &chars_of("\n"));
    let v = replace_all_chars(&v, &chars_of("<br />"), &chars_of("\n"));
    let v = replace_all_chars(&v, &chars_of("<strong>"), &chars_of("**"));
    let v = replace_all_chars(&v, &chars_of("</strong>"), &chars_of("**"));
    let v = replace_all_chars(&v, &chars_of("<b>"), &chars_of("**"));
    let v = replace_all_chars(&v, &chars_of("</b>"), &chars_of("**"));
    let v = replace_all_chars(&v, &chars_of("<em>"), &chars_of("*"));
    let v = replace_all_chars(&v, &chars_of("</em>"), &chars_of("*"));
    let v = replace_all_chars(&v, &chars_of("<i>"), &chars_of("*"));
    let v = replace_all_chars(&v, &chars_of("</i>"), &chars_of("*"));
    let v = replace_all_chars(&v, &chars_of("<h1>"), &chars_of("# "));
    let v = replace_all_chars(&v, &chars_of("</h1>"), &chars_of("\n"));
    let v = replace_all_chars(&v, &chars_of("<h2>"), &chars_of("## "));
    let v = replace_all_chars(&v, &chars_of("</h2>"), &chars_of("\n"));
    let v = replace_all_chars(&v, &chars_of("<h3>"), &chars_of("### "));
    let v = replace_all_chars(&v, &chars_of("</h3>"), &chars_of("\n"));
    let v = replace_all_chars(&v, &chars_of("<li>"), &chars_of("- "));
    let v = replace_all_chars(&v, &chars_of("</li>"), &chars_of("\n"));
    let v = replace_all_chars(&v, &chars_of("<ul>"), &chars_of(""));
    let v = replace_all_chars(&v, &chars_of("</ul>"), &chars_of("\n"));
    let v = replace_all_chars(&v, &chars_of("<ol>"), &chars_of(""));
    let v = replace_all_chars(&v, &chars_of("</ol>"), &chars_of("\n"));
    let v = replace_all_chars(&v, &chars_of("&amp;"), &chars_of("&"));
    let v = replace_all_chars(&v, &chars_of("&lt;"), &chars_of("<"));
    let v = replace_all_chars(&v, &chars_of("&gt;"), &chars_of(">"));
    let v = replace_all_chars(&v, &chars_of("&quot;"), &chars_of("\""));
    let v = replace_all_chars(&v, &chars_of("&nbsp;"), &chars_of(" "));
    let stripped = regex_replace_all("<[^>]+>", string_from_chars(&v).as_str(), "");
    let v = chars_of(stripped.as_str());
    let mut out: Vec<char> = Vec::new();
    let mut prev_empty = false;
    let mut i: usize = 0;
    while i < v.len()
        invariant
            i <= v.len(),
            note_lines_from(v@, 0, false) == out@ + note_lines_from(v@, i as int, prev_empty),
        decreases v.len() - i,
    {
        let k = find_char_from(&v, i, '\n');
        let (a, b) = trim_bounds(&v, i, k);
        proof {
            lemma_next_index_bounds(v@, i as int, '\n');
        }
        if a == b {
            if !prev_empty {
                out.push('\n');
            }
            prev_empty = true;
        } else {
            push_range(&mut out, &v, a, b);
            out.push('\n');
            prev_empty = false;
        }
        i = if k < v.len() {
            k + 1
        } else {
            k
        };
    }
    let (a, b) = trim_bounds(&out, 0, out.len());
    assert(out@.subrange(0, out@.len() as int) =~= out@);
    let mut res: Vec<char> = Vec::new();
    push_range(&mut res, &out, a, b);
    string_from_chars(&res)
}

} // verus!
