//! Exporting a paper's HTML with its annotations: highlights and underlines become
//! marked text, notes become numbered markers, comments are listed in a notes section,
//! and the export's style sheet is added.
//!
//! The work is done on the UTF-8 bytes of the page, as the export addresses the page by
//! byte offsets. Cutting the page where no character starts makes the export fail.
use vstd::prelude::*;
use crate::json::{json_text_field, json_text_field_of};
use vstd::string::StringSliceAdditionalSpecFns;
use vstd::utf8::{encode_scalar, encode_utf8};
use crate::annotate::{context_search, context_search_spec, ContextSearch};
use crate::feeds::{stable_desc, stable_order_desc};
use crate::html::{html_escape, html_escaped, strip_html_tags, tags_stripped};
use crate::text::{decimal, decimal_string, first_occurrence_from, lemma_first_occurrence, occurs_at, opt_view, str_eq};
use crate::annotate::{bytes_occur_at, find_bytes_from};

verus! {

broadcast use vstd::string::group_string_axioms;

/// A text annotation of a paper's HTML: its kind, colour and comment, and the quoted
/// text with the text expected before and after it.
pub struct HtmlAnnotation {
    pub annotation_type: String,
    pub color: String,
    pub comment: Option<String>,
    pub quote: String,
    pub prefix: String,
    pub suffix: String,
}

/// What the HTML export makes of a stored annotation.
pub enum HtmlRowKind {
    /// A highlight, underline or note, marked in the text.
    Text(HtmlAnnotation),
    /// An ink drawing, drawn over the page.
    Ink,
    /// Not exported: not made on the HTML page, or of another type.
    Skipped,
}

/// A text value of an annotation's position, empty when absent.
pub open spec fn position_text(position_json: Seq<char>, key: Seq<char>) -> Seq<char> {
    match json_text_field(position_json, key) {
        Some(t) => t,
        None => Seq::empty(),
    }
}

fn position_text_of(position_json: &str, key: &str) -> (r: String)
    ensures
        r@ == position_text(position_json@, key@),
{
    match json_text_field_of(position_json, key) {
        Some(t) => t,
        None => String::new(),
    }
}

/// What the HTML export makes of a stored annotation with type `annotation_type` and
/// position `position_json`: only annotations whose position's `format` is `html` are
/// exported; highlights, underlines and notes are marked in the text by the quote, prefix
/// and suffix of their position (`textQuote`, `textPrefix`, `textSuffix`, each empty when
/// absent), ink drawings are drawn over the page, and other types are left out.
pub fn html_annotation_from_row(annotation_type: &str, color: &str, comment: Option<&str>, position_json: &str) -> (r: HtmlRowKind)
    ensures
        json_text_field(position_json@, "format"@) != Some("html"@) ==> r is Skipped,
        json_text_field(position_json@, "format"@) == Some("html"@) ==> {
            if annotation_type@ == "highlight"@ || annotation_type@ == "underline"@ || annotation_type@ == "note"@ {
                r matches HtmlRowKind::Text(a) && {
                    &&& a.annotation_type@ == annotation_type@
                    &&& a.color@ == color@
                    &&& opt_view(a.comment) == match comment {
                        Some(c) => Some(c@),
                        None => None,
                    }
                    &&& a.quote@ == position_text(position_json@, "textQuote"@)
                    &&& a.prefix@ == position_text(position_json@, "textPrefix"@)
                    &&& a.suffix@ == position_text(position_json@, "textSuffix"@)
                }
            } else if annotation_type@ == "ink"@ {
                r is Ink
            } else {
                r is Skipped
            }
        },
{
    let format = json_text_field_of(position_json, "format");
    let is_html = match &format {
        Some(f) => str_eq(f.as_str(), "html"),
        None => false,
    };
    if !is_html {
        return HtmlRowKind::Skipped;
    }
    if str_eq(annotation_type, "highlight") || str_eq(annotation_type, "underline") || str_eq(annotation_type, "note") {
        HtmlRowKind::Text(
            HtmlAnnotation {
                annotation_type: annotation_type.to_owned(),
                color: color.to_owned(),
                comment: match comment {
                    Some(c) => Some(c.to_owned()),
                    None => None,
                },
                quote: position_text_of(position_json, "textQuote"),
                prefix: position_text_of(position_json, "textPrefix"),
                suffix: position_text_of(position_json, "textSuffix"),
            },
        )
    } else if str_eq(annotation_type, "ink") {
        HtmlRowKind::Ink
    } else {
        HtmlRowKind::Skipped
    }
}

/// The UTF-8 bytes of a text.
pub open spec fn enc(s: Seq<char>) -> Seq<u8> {
    encode_utf8(s)
}

/// The kinds of annotation that mark text.
pub open spec fn marks_text(t: Seq<char>) -> bool {
    t == "highlight"@ || t == "underline"@ || t == "note"@
}

/// Where the first `n` annotations were found in the page's plain text `pb`: the byte
/// range and the annotation's index, for each text annotation with a quote that was
/// found; `None` when a search would cut a character apart.
pub open spec fn placements(pb: Seq<u8>, anns: Seq<HtmlAnnotation>, n: int) -> Option<Seq<(int, int, int)>>
    decreases n,
{
    if n <= 0 {
        Some(Seq::empty())
    } else {
        match placements(pb, anns, n - 1) {
            None => None,
            Some(prev) => {
                let a = anns[n - 1];
                if !marks_text(a.annotation_type@) || a.quote@.len() == 0 {
                    Some(prev)
                } else {
                    match context_search_spec(pb, enc(a.quote@), enc(a.prefix@), enc(a.suffix@)) {
                        ContextSearch::Panics => None,
                        ContextSearch::NotFound => Some(prev),
                        ContextSearch::Found(s, e) => Some(prev.push((s as int, e as int, n - 1))),
                    }
                }
            },
        }
    }
}

/// Whether the search for annotation `a` in the page's plain text `pb` finds it.
pub open spec fn quote_found(pb: Seq<u8>, a: HtmlAnnotation) -> bool {
    context_search_spec(pb, enc(a.quote@), enc(a.prefix@), enc(a.suffix@)) is Found
}

/// The placements made for the first `n` annotations name only those annotations.
proof fn lemma_placements_indices(pb: Seq<u8>, anns: Seq<HtmlAnnotation>, n: int)
    requires
        placements(pb, anns, n) is Some,
    ensures
        forall|j: int|
            0 <= j < placements(pb, anns, n)->0.len() ==> 0 <= (#[trigger] placements(pb, anns, n)->0[j]).2 < n,
    decreases n,
{
    if n > 0 {
        lemma_placements_indices(pb, anns, n - 1);
    }
}

/// Which annotations are placed in the page: among the first `n`, annotation `i` is
/// placed exactly when it is a highlight, an underline or a note, has a quote, and its
/// quote is found in the page's text.
pub proof fn lemma_placed_iff_found(pb: Seq<u8>, anns: Seq<HtmlAnnotation>, n: int, i: int)
    requires
        0 <= i < n,
        placements(pb, anns, n) is Some,
    ensures
        (exists|j: int| 0 <= j < placements(pb, anns, n)->0.len() && (#[trigger] placements(pb, anns, n)->0[j]).2 == i)
            <==> ((anns[i].annotation_type@ == "highlight"@ || anns[i].annotation_type@ == "underline"@
            || anns[i].annotation_type@ == "note"@) && anns[i].quote@.len() > 0 && quote_found(pb, anns[i])),
    decreases n,
{
    let prev = placements(pb, anns, n - 1);
    assert(prev is Some);
    let p = prev->0;
    let cur = placements(pb, anns, n)->0;
    lemma_placements_indices(pb, anns, n - 1);
    if i < n - 1 {
        lemma_placed_iff_found(pb, anns, n - 1, i);
        if cur.len() > p.len() {
            assert(cur =~= p.push(cur[p.len() as int]));
            assert(cur[p.len() as int].2 == n - 1);
            if exists|j: int| 0 <= j < cur.len() && (#[trigger] cur[j]).2 == i {
                let j = choose|j: int| 0 <= j < cur.len() && (#[trigger] cur[j]).2 == i;
                assert(j < p.len());
                assert(p[j].2 == i);
            }
            if exists|j: int| 0 <= j < p.len() && (#[trigger] p[j]).2 == i {
                let j = choose|j: int| 0 <= j < p.len() && (#[trigger] p[j]).2 == i;
                assert(cur[j] == p[j]);
            }
        } else {
            assert(cur == p);
        }
    } else {
        let a = anns[n - 1];
        if exists|j: int| 0 <= j < p.len() && (#[trigger] p[j]).2 == i {
            let j = choose|j: int| 0 <= j < p.len() && (#[trigger] p[j]).2 == i;
            assert(p[j].2 < n - 1);
        }
        if marks_text(a.annotation_type@) && a.quote@.len() > 0 && quote_found(pb, a) {
            let k = p.len() as int;
            assert(cur[k].2 == i);
        } else {
            assert(cur == p);
        }
    }
}

/// Whether a tag is open after the first `n` bytes of `hb` (`<` opens one, `>` closes it).
pub open spec fn in_tag_after(hb: Seq<u8>, n: int) -> bool
    decreases n,
{
    if n <= 0 {
        false
    } else if hb[n - 1] == 0x3Cu8 {
        true
    } else if hb[n - 1] == 0x3Eu8 {
        false
    } else {
        in_tag_after(hb, n - 1)
    }
}

/// The offsets of the first `n` bytes of `hb` that lie outside tags: where each byte of
/// the plain text is in the page.
pub open spec fn text_offsets(hb: Seq<u8>, n: int) -> Seq<int>
    decreases n,
{
    if n <= 0 {
        Seq::empty()
    } else if hb[n - 1] == 0x3Cu8 || hb[n - 1] == 0x3Eu8 || in_tag_after(hb, n - 1) {
        text_offsets(hb, n - 1)
    } else {
        text_offsets(hb, n - 1).push(n - 1)
    }
}

/// The map from plain-text offsets to page offsets, ending with the page's length.
pub open spec fn offset_map(hb: Seq<u8>) -> Seq<int> {
    text_offsets(hb, hb.len() as int).push(hb.len() as int)
}

/// Whether byte offset `i` of `b` starts a character or is its end
/// (`str::is_char_boundary`: no continuation byte is there).
pub open spec fn byte_boundary(b: Seq<u8>, i: int) -> bool {
    i == 0 || i == b.len() || (0 <= i < b.len() && (b[i] & 0xC0u8) != 0x80u8)
}

/// A numbered comment of the export: its number, quote, comment and colour.
pub type NoteView = (int, Seq<char>, Seq<char>, Seq<char>);

/// The markup that annotation `a` puts around the text `orig`, with the number of notes
/// and the note list before and after it.
#[verifier::opaque]
pub open spec fn wrapped(a: HtmlAnnotation, orig: Seq<u8>, idx: int, notes: Seq<NoteView>) -> (Seq<u8>, int, Seq<NoteView>) {
    let t = a.annotation_type@;
    let color = enc(a.color@);
    if t == "highlight"@ {
        match a.comment {
            Some(c) => (
                enc("<mark class=\"zr-export-highlight\" style=\"background-color:"@) + color + enc(
                    ";\" title=\""@,
                ) + enc(html_escaped(c@)) + enc("\">"@) + orig + enc("<sup class=\"zr-note-ref\">"@)
                    + enc(decimal((idx + 1) as nat)) + enc("</sup></mark>"@),
                idx + 1,
                notes.push((idx + 1, a.quote@, c@, a.color@)),
            ),
            None => (
                enc("<mark class=\"zr-export-highlight\" style=\"background-color:"@) + color + enc(
                    ";\">"@,
                ) + orig + enc("</mark>"@),
                idx,
                notes,
            ),
        }
    } else if t == "underline"@ {
        let head = enc("<mark class=\"zr-export-underline\" style=\"border-bottom:2px solid "@) + color
            + enc(";\">"@) + orig;
        match a.comment {
            Some(c) => (
                head + enc("<sup class=\"zr-note-ref\">"@) + enc(decimal((idx + 1) as nat)) + enc(
                    "</sup>"@,
                ) + enc("</mark>"@),
                idx + 1,
                notes.push((idx + 1, a.quote@, c@, a.color@)),
            ),
            None => (head + enc("</mark>"@), idx, notes),
        }
    } else if t == "note"@ {
        let c = match a.comment {
            Some(c) => c@,
            None => Seq::empty(),
        };
        (
            orig + enc("<sup class=\"zr-note-ref\" style=\"background:"@) + color + enc(
                ";\" title=\""@,
            ) + enc(html_escaped(c)) + enc("\">"@) + enc(decimal((idx + 1) as nat)) + enc("</sup>"@),
            idx + 1,
            notes.push((idx + 1, a.quote@, c, a.color@)),
        )
    } else {
        (orig, idx, notes)
    }
}

/// An underline marks the quoted text: its markup is the underline mark in the
/// annotation's colour, then the text itself, then, only when the annotation has a
/// comment, the numbered note reference, then the end of the mark. Without a comment the
/// markup is the one with a comment less its note reference.
pub proof fn lemma_underline_marks_text(a: HtmlAnnotation, orig: Seq<u8>, idx: int, notes: Seq<NoteView>)
    requires
        a.annotation_type@ == "underline"@,
    ensures
        ({
            let head = enc("<mark class=\"zr-export-underline\" style=\"border-bottom:2px solid "@) + enc(
                a.color@,
            ) + enc(";\">"@) + orig;
            let out = wrapped(a, orig, idx, notes).0;
            &&& out.len() > head.len()
            &&& out.subrange(0, head.len() as int) == head
            &&& a.comment is None ==> out == head + enc("</mark>"@)
            &&& a.comment is Some ==> out == head + enc("<sup class=\"zr-note-ref\">"@) + enc(
                decimal((idx + 1) as nat),
            ) + enc("</sup>"@) + enc("</mark>"@)
        }),
{
    reveal(wrapped);
    reveal_strlit("underline");
    reveal_strlit("highlight");
    reveal_strlit("</mark>");
    assert("underline"@[0] != "highlight"@[0]);
    let head = enc("<mark class=\"zr-export-underline\" style=\"border-bottom:2px solid "@) + enc(a.color@)
        + enc(";\">"@) + orig;
    let close = enc("</mark>"@);
    assert(close.len() > 0) by {
        assert("</mark>"@.len() > 0);
        crate::text::lemma_width_positive("</mark>"@[0]);
    }
    let out = wrapped(a, orig, idx, notes).0;
    match a.comment {
        Some(c) => {
            let mid = enc("<sup class=\"zr-note-ref\">"@) + enc(decimal((idx + 1) as nat)) + enc("</sup>"@);
            assert(out == head + mid + close);
            assert(out.subrange(0, head.len() as int) =~= head);
        },
        None => {
            assert(out == head + close);
            assert(out.subrange(0, head.len() as int) =~= head);
        },
    }
}

/// A highlight marks the quoted text with its colour as the mark's background: without a
/// comment the markup is the mark around the text; with one, the comment (escaped) is the
/// mark's title and the numbered note reference follows the text inside the mark.
pub proof fn lemma_highlight_marks_text(a: HtmlAnnotation, orig: Seq<u8>, idx: int, notes: Seq<NoteView>)
    requires
        a.annotation_type@ == "highlight"@,
    ensures
        ({
            let open = enc("<mark class=\"zr-export-highlight\" style=\"background-color:"@) + enc(a.color@);
            let out = wrapped(a, orig, idx, notes).0;
            &&& out.len() >= open.len()
            &&& out.subrange(0, open.len() as int) == open
            &&& a.comment is None ==> out == open + enc(";\">"@) + orig + enc("</mark>"@)
            &&& (a.comment matches Some(c) ==> out == open + enc(";\" title=\""@) + enc(html_escaped(c@)) + enc(
                "\">"@,
            ) + orig + enc("<sup class=\"zr-note-ref\">"@) + enc(decimal((idx + 1) as nat)) + enc(
                "</sup></mark>"@,
            ))
        }),
{
    reveal(wrapped);
    let open = enc("<mark class=\"zr-export-highlight\" style=\"background-color:"@) + enc(a.color@);
    let out = wrapped(a, orig, idx, notes).0;
    match a.comment {
        Some(c) => {
            let rest = enc(";\" title=\""@) + enc(html_escaped(c@)) + enc("\">"@) + orig + enc(
                "<sup class=\"zr-note-ref\">"@,
            ) + enc(decimal((idx + 1) as nat)) + enc("</sup></mark>"@);
            assert(out =~= open + rest);
            assert(out.subrange(0, open.len() as int) =~= open);
        },
        None => {
            let rest = enc(";\">"@) + orig + enc("</mark>"@);
            assert(out =~= open + rest);
            assert(out.subrange(0, open.len() as int) =~= open);
        },
    }
}

/// Encoding two texts one after the other encodes their concatenation.
proof fn lemma_enc_concat(x: Seq<char>, y: Seq<char>)
    ensures
        enc(x + y) == enc(x) + enc(y),
    decreases x.len(),
{
    if x.len() == 0 {
        assert(x + y =~= y);
        assert(enc(x) =~= Seq::<u8>::empty());
        assert(enc(x) + enc(y) =~= enc(y));
    } else {
        lemma_enc_concat(x.drop_first(), y);
        assert((x + y).drop_first() =~= x.drop_first() + y);
        assert((x + y)[0] == x[0]);
        assert(enc(x + y) =~= encode_scalar(x[0] as u32) + enc(x.drop_first() + y));
        assert(enc(x) =~= encode_scalar(x[0] as u32) + enc(x.drop_first()));
    }
}

/// Whether `part` occurs in `whole` at some position.
pub open spec fn bytes_within(whole: Seq<u8>, part: Seq<u8>) -> bool {
    exists|k: int| 0 <= k && k + part.len() <= whole.len() && #[trigger] whole.subrange(k, k + part.len()) == part
}

/// Every annotation keeps its quoted text in the page: a highlight or an underline puts
/// it inside a mark that the markup closes with `</mark>`, a note keeps it in front of
/// its reference, any other kind leaves it as it was. A highlight or an underline takes
/// the next note number, and adds its comment to the notes, exactly when it has a
/// comment; a note always does.
pub proof fn lemma_wrapped_keeps_quote(a: HtmlAnnotation, orig: Seq<u8>, idx: int, notes: Seq<NoteView>)
    ensures
        ({
            let r = wrapped(a, orig, idx, notes);
            let t = a.annotation_type@;
            let close = enc("</mark>"@);
            &&& (t == "highlight"@ || t == "underline"@) ==> {
                &&& bytes_within(r.0, orig)
                &&& r.0.len() >= close.len()
                &&& r.0.subrange(r.0.len() - close.len(), r.0.len() as int) == close
                &&& match a.comment {
                    Some(c) => r.1 == idx + 1 && r.2 == notes.push((idx + 1, a.quote@, c@, a.color@)),
                    None => r.1 == idx && r.2 == notes,
                }
            }
            &&& t == "note"@ ==> {
                &&& r.0.len() >= orig.len()
                &&& r.0.subrange(0, orig.len() as int) == orig
                &&& r.1 == idx + 1
                &&& r.2.len() == notes.len() + 1
                &&& r.2.subrange(0, notes.len() as int) == notes
            }
            &&& !(t == "highlight"@ || t == "underline"@ || t == "note"@) ==> r == (orig, idx, notes)
        }),
{
    reveal(wrapped);
    reveal_strlit("highlight");
    reveal_strlit("underline");
    reveal_strlit("note");
    assert("highlight"@[0] == 'h' && "underline"@[0] == 'u' && "note"@[0] == 'n');
    assert("highlight"@.len() == 9 && "underline"@.len() == 9 && "note"@.len() == 4);
    let t = a.annotation_type@;
    let r = wrapped(a, orig, idx, notes);
    let close = enc("</mark>"@);
    let color = enc(a.color@);
    if t == "highlight"@ {
        match a.comment {
            Some(c) => {
                let pre = enc("<mark class=\"zr-export-highlight\" style=\"background-color:"@) + color + enc(
                    ";\" title=\""@,
                ) + enc(html_escaped(c@)) + enc("\">"@);
                let post = enc("<sup class=\"zr-note-ref\">"@) + enc(decimal((idx + 1) as nat)) + enc("</sup></mark>"@);
                assert(r.0 == pre + orig + post);
                assert(r.0.subrange(pre.len() as int, (pre.len() + orig.len()) as int) =~= orig);
                assert(enc("</sup></mark>"@) == enc("</sup>"@) + close) by {
                    reveal_strlit("</sup></mark>");
                    reveal_strlit("</sup>");
                    reveal_strlit("</mark>");
                    assert("</sup></mark>"@ =~= "</sup>"@ + "</mark>"@);
                    lemma_enc_concat("</sup>"@, "</mark>"@);
                }
                assert(r.0.subrange(r.0.len() - close.len(), r.0.len() as int) =~= close);
            },
            None => {
                let pre = enc("<mark class=\"zr-export-highlight\" style=\"background-color:"@) + color + enc(";\">"@);
                assert(r.0 == pre + orig + close);
                assert(r.0.subrange(pre.len() as int, (pre.len() + orig.len()) as int) =~= orig);
                assert(r.0.subrange(r.0.len() - close.len(), r.0.len() as int) =~= close);
            },
        }
    } else if t == "underline"@ {
        let pre = enc("<mark class=\"zr-export-underline\" style=\"border-bottom:2px solid "@) + color + enc(";\">"@);
        let mid = match a.comment {
            Some(c) => enc("<sup class=\"zr-note-ref\">"@) + enc(decimal((idx + 1) as nat)) + enc("</sup>"@),
            None => Seq::<u8>::empty(),
        };
        assert(r.0 =~= pre + orig + mid + close);
        assert(r.0.subrange(pre.len() as int, (pre.len() + orig.len()) as int) =~= orig);
        assert(r.0.subrange(r.0.len() - close.len(), r.0.len() as int) =~= close);
    } else if t == "note"@ {
        assert(r.0.subrange(0, orig.len() as int) =~= orig);
        assert(r.2.subrange(0, notes.len() as int) =~= notes);
    }
}

/// The state of the export while annotations are applied: the page, the number of notes
/// and the notes.
pub type ExportState = (Seq<u8>, int, Seq<NoteView>);

/// Applies one placed annotation: its plain-text range is mapped to the page; an empty or
/// out-of-range mapping leaves the page, a cut inside a character fails (`None`).
#[verifier::opaque]
pub open spec fn apply_one(st: ExportState, map: Seq<int>, place: (int, int, int), anns: Seq<HtmlAnnotation>) -> Option<
    ExportState,
> {
    let (res, idx, notes) = st;
    let (s, e, ai) = place;
    if s >= map.len() || e > map.len() {
        Some(st)
    } else {
        let hs = map[s];
        let he = if e < map.len() {
            map[e]
        } else {
            res.len() as int
        };
        if hs >= he || he > res.len() {
            Some(st)
        } else if !byte_boundary(res, hs) || !byte_boundary(res, he) {
            None
        } else {
            let w = wrapped(anns[ai], res.subrange(hs, he), idx, notes);
            Some((res.subrange(0, hs) + w.0 + res.subrange(he, res.len() as int), w.1, w.2))
        }
    }
}

/// The export state after the first `k` placements in `order`.
pub open spec fn apply_all(
    st0: ExportState,
    map: Seq<int>,
    places: Seq<(int, int, int)>,
    order: Seq<usize>,
    anns: Seq<HtmlAnnotation>,
    k: int,
) -> Option<ExportState>
    decreases k,
{
    if k <= 0 {
        Some(st0)
    } else {
        match apply_all(st0, map, places, order, anns, k - 1) {
            None => None,
            Some(st) => apply_one(st, map, places[order[k - 1] as int], anns),
        }
    }
}

/// Whether the notes of an export state are numbered 1, 2, … in the order they are
/// listed, and the state's count is their number.
pub open spec fn numbered_in_order(st: ExportState) -> bool {
    st.1 == st.2.len() && forall|i: int| 0 <= i < st.2.len() ==> (#[trigger] st.2[i]).0 == i + 1
}

proof fn lemma_apply_one_numbering(st: ExportState, map: Seq<int>, place: (int, int, int), anns: Seq<HtmlAnnotation>)
    requires
        numbered_in_order(st),
        0 <= place.2 < anns.len(),
    ensures
        apply_one(st, map, place, anns) matches Some(next) ==> numbered_in_order(next),
{
    reveal(apply_one);
    reveal(wrapped);
    if let Some(next) = apply_one(st, map, place, anns) {
        assert forall|i: int| 0 <= i < next.2.len() implies (#[trigger] next.2[i]).0 == i + 1 by {
            if i < st.2.len() {
                assert(next.2[i] == st.2[i]);
            }
        }
    }
}

/// However many annotations are applied, the notes are numbered 1, 2, … in the order
/// they are listed: the notes section needs no sorting.
pub proof fn lemma_notes_numbered(
    st0: ExportState,
    map: Seq<int>,
    places: Seq<(int, int, int)>,
    order: Seq<usize>,
    anns: Seq<HtmlAnnotation>,
    k: int,
)
    requires
        numbered_in_order(st0),
        forall|i: int| 0 <= i < order.len() ==> (#[trigger] order[i]) < places.len(),
        forall|i: int| 0 <= i < places.len() ==> 0 <= (#[trigger] places[i]).2 < anns.len(),
        k <= order.len(),
    ensures
        apply_all(st0, map, places, order, anns, k) matches Some(st) ==> numbered_in_order(st),
    decreases k,
{
    if k > 0 {
        lemma_notes_numbered(st0, map, places, order, anns, k - 1);
        if let Some(st) = apply_all(st0, map, places, order, anns, k - 1) {
            let p = places[order[k - 1] as int];
            lemma_apply_one_numbering(st, map, p, anns);
        }
    }
}

/// One entry of the notes section.
pub open spec fn note_entry(n: NoteView) -> Seq<u8> {
    enc("<div class=\"zr-note-entry\" style=\"border-left-color:"@) + enc(n.3) + enc(
        ";\"><div class=\"zr-note-quote\">["@,
    ) + enc(decimal(n.0 as nat)) + enc("] \""@) + enc(html_escaped(n.1)) + enc(
        "\"</div><div class=\"zr-note-comment\">"@,
    ) + enc(html_escaped(n.2)) + enc("</div></div>\n"@)
}

/// The entries of the first `k` notes.
pub open spec fn note_entries(notes: Seq<NoteView>, k: int) -> Seq<u8>
    decreases k,
{
    if k <= 0 {
        Seq::empty()
    } else {
        note_entries(notes, k - 1) + note_entry(notes[k - 1])
    }
}

/// The notes section: nothing without notes, else a heading and the notes in the order
/// of their numbers.
pub open spec fn notes_section(notes: Seq<NoteView>) -> Seq<u8> {
    if notes.len() == 0 {
        Seq::empty()
    } else {
        enc("<div class=\"zr-notes-section\"><h2>Notes &amp; Comments</h2>\n"@) + note_entries(
            notes,
            notes.len() as int,
        ) + enc("</div>"@)
    }
}

/// The style sheet added to an exported page.
pub const ANNOTATION_CSS: &'static str = "<style>
mark.zr-export-highlight { padding: 0; margin: 0; }
mark.zr-export-underline { background: transparent; padding: 0; margin: 0; }
sup.zr-note-ref { font-size: 0.7em; vertical-align: super; margin-left: 1px;
  background: #ffd700; border-radius: 3px; padding: 0 3px; cursor: default; }
.zr-notes-section { margin-top: 2em; padding-top: 1em; border-top: 2px solid #ccc; }
.zr-notes-section h2 { font-size: 1.2em; margin-bottom: 0.5em; }
.zr-note-entry { margin: 0.6em 0; padding: 0.4em 0.6em; border-left: 3px solid #ffd700;
  background: #fffbe6; font-size: 0.9em; }
.zr-note-entry .zr-note-quote { color: #666; font-style: italic; margin-bottom: 0.3em; }
.zr-note-entry .zr-note-comment { color: #333; }
.zr-ink-overlay { position: absolute; top: 0; left: 0; width: 100%;
  pointer-events: none; z-index: 9990; overflow: visible; }
</style>";

/// The page with the style sheet added: before the first `</head>`; else in a new
/// `head` before the first `<body`; else in a new `head` in front.
pub open spec fn with_style(h: Seq<u8>) -> Seq<u8> {
    let css = enc(ANNOTATION_CSS@);
    let i = first_occurrence_from(h, enc("</head>"@), 0);
    if i >= 0 {
        h.subrange(0, i) + css + h.subrange(i, h.len() as int)
    } else {
        let j = first_occurrence_from(h, enc("<body"@), 0);
        if j >= 0 {
            h.subrange(0, j) + enc("<head>"@) + css + enc("</head>"@) + h.subrange(j, h.len() as int)
        } else {
            enc("<head>"@) + css + enc("</head>"@) + h
        }
    }
}

/// The last index `k <= i` at which `pat` occurs in `s`, or `-1`.
pub open spec fn last_occurrence_upto(s: Seq<u8>, pat: Seq<u8>, i: int) -> int
    decreases i + 1,
{
    if i < 0 {
        -1
    } else if occurs_at(s, pat, i) {
        i
    } else {
        last_occurrence_upto(s, pat, i - 1)
    }
}

/// The page with `body` added: before the last `</body>`, else at the end; nothing is
/// added when `body` is empty.
pub open spec fn with_body_content(h: Seq<u8>, body: Seq<u8>) -> Seq<u8> {
    if body.len() == 0 {
        h
    } else {
        let k = last_occurrence_upto(h, enc("</body>"@), h.len() as int);
        if k >= 0 {
            h.subrange(0, k) + body + h.subrange(k, h.len() as int)
        } else {
            h + body
        }
    }
}

/// The exported page of `html` with the text annotations `anns` and the ink overlay
/// `ink_svg`, or `None` when the export would cut a character apart: the annotations are
/// found in the page's plain text, applied from the last one in the page to the first
/// (annotations found at the same place in their given order, `order`), then the notes
/// section and the ink overlay go before the end of the body and the style sheet into
/// the head.
pub open spec fn exported(html: Seq<char>, anns: Seq<HtmlAnnotation>, ink_svg: Seq<char>, order: Seq<usize>) -> Option<
    Seq<u8>,
> {
    let pb = enc(tags_stripped(html));
    match placements(pb, anns, anns.len() as int) {
        None => None,
        Some(places) => match apply_all(
            (enc(html), 0, Seq::empty()),
            offset_map(enc(html)),
            places,
            order,
            anns,
            order.len() as int,
        ) {
            None => None,
            Some(st) => Some(
                with_body_content(with_style(st.0), enc(ink_svg) + notes_section(st.2)),
            ),
        },
    }
}

/// The start offsets of placements, as sort keys.
pub open spec fn start_keys(places: Seq<(int, int, int)>) -> Seq<i128> {
    Seq::new(places.len(), |i: int| places[i].0 as i128)
}

/// Appends the UTF-8 bytes of `s`.
pub fn push_bytes(dst: &mut Vec<u8>, s: &str)
    ensures
        final(dst)@ == old(dst)@ + enc(s@),
{
    let b = s.as_bytes();
    let mut i: usize = 0;
    while i < b.len()
        invariant
            i <= b@.len(),
            b@ == enc(s@),
            dst@ == old(dst)@ + b@.take(i as int),
        decreases b.len() - i,
    {
        dst.push(b[i]);
        assert(b@.take(i + 1) =~= b@.take(i as int).push(b@[i as int]));
        i = i + 1;
    }
    assert(b@.take(b@.len() as int) =~= b@);
}

/// Appends `src[lo..hi]`.
pub fn push_byte_range(dst: &mut Vec<u8>, src: &Vec<u8>, lo: usize, hi: usize)
    requires
        lo <= hi <= src@.len(),
    ensures
        final(dst)@ == old(dst)@ + src@.subrange(lo as int, hi as int),
{
    let mut i = lo;
    while i < hi
        invariant
            lo <= i <= hi <= src@.len(),
            dst@ == old(dst)@ + src@.subrange(lo as int, i as int),
        decreases hi - i,
    {
        dst.push(src[i]);
        assert(src@.subrange(lo as int, i + 1) =~= src@.subrange(lo as int, i as int).push(src@[i as int]));
        i = i + 1;
    }
}

/// Finds the annotations in the plain text (see [`placements`]).
fn place_annotations(plain: &str, anns: &Vec<HtmlAnnotation>) -> (r: Option<Vec<(usize, usize, usize)>>)
    requires
        forall|k: int|
            0 <= k < anns@.len() ==> enc(plain@).len() + enc((#[trigger] anns@[k]).suffix@).len() + 10
                <= usize::MAX && enc(anns@[k].prefix@).len() + 10 <= usize::MAX,
    ensures
        match placements(enc(plain@), anns@, anns@.len() as int) {
            None => r is None,
            Some(p) => r matches Some(v) && v@.len() == p.len() && forall|i: int|
                0 <= i < p.len() ==> (#[trigger] v@[i]).0 as int == p[i].0 && v@[i].1 as int == p[i].1
                    && v@[i].2 as int == p[i].2,
        },
{
    let mut out: Vec<(usize, usize, usize)> = Vec::new();
    let mut k: usize = 0;
    while k < anns.len()
        invariant
            k <= anns@.len(),
            forall|j: int|
                0 <= j < anns@.len() ==> enc(plain@).len() + enc((#[trigger] anns@[j]).suffix@).len()
                    + 10 <= usize::MAX && enc(anns@[j].prefix@).len() + 10 <= usize::MAX,
            placements(enc(plain@), anns@, k as int) matches Some(p) && out@.len() == p.len() && forall|i: int|
                0 <= i < p.len() ==> (#[trigger] out@[i]).0 as int == p[i].0 && out@[i].1 as int == p[i].1
                    && out@[i].2 as int == p[i].2,
        decreases anns.len() - k,
    {
        let a = &anns[k];
        let t = a.annotation_type.as_str();
        let text_kind = crate::text::str_eq(t, "highlight") || crate::text::str_eq(t, "underline")
            || crate::text::str_eq(t, "note");
        if text_kind && !a.quote.as_str().is_empty() {
            assert(anns@[k as int] == *a);
            match context_search(plain, a.quote.as_str(), a.prefix.as_str(), a.suffix.as_str()) {
                ContextSearch::Panics => {
                    proof {
                        lemma_placements_stay_none(enc(plain@), anns@, k as int + 1, anns@.len() as int);
                    }
                    return None;
                },
                ContextSearch::NotFound => {},
                ContextSearch::Found(s, e) => {
                    out.push((s, e, k));
                },
            }
        }
        k = k + 1;
    }
    Some(out)
}

proof fn lemma_placements_stay_none(pb: Seq<u8>, anns: Seq<HtmlAnnotation>, k: int, n: int)
    requires
        placements(pb, anns, k) is None,
        k <= n,
    ensures
        placements(pb, anns, n) is None,
    decreases n - k,
{
    if k < n {
        lemma_placements_stay_none(pb, anns, k + 1, n);
    }
}

/// The map from plain-text offsets to page offsets (see [`offset_map`]).
fn build_offset_map(hb: &[u8]) -> (r: Vec<usize>)
    ensures
        r@.len() == offset_map(hb@).len(),
        forall|i: int| 0 <= i < r@.len() ==> (#[trigger] r@[i]) as int == offset_map(hb@)[i],
{
    let mut out: Vec<usize> = Vec::new();
    let mut in_tag = false;
    let mut i: usize = 0;
    while i < hb.len()
        invariant
            i <= hb@.len(),
            in_tag == in_tag_after(hb@, i as int),
            out@.len() == text_offsets(hb@, i as int).len(),
            forall|j: int| 0 <= j < out@.len() ==> (#[trigger] out@[j]) as int == text_offsets(hb@, i as int)[j],
        decreases hb.len() - i,
    {
        let b = hb[i];
        if b == 0x3Cu8 {
            in_tag = true;
        } else if b == 0x3Eu8 {
            in_tag = false;
        } else if !in_tag {
            out.push(i);
        }
        i = i + 1;
    }
    out.push(hb.len());
    out
}

/// The notes recorded while exporting, as `(number, quote, comment, colour)`.
pub open spec fn notes_view(v: Seq<(usize, String, String, String)>) -> Seq<NoteView> {
    Seq::new(v.len(), |i: int| (v[i].0 as int, v[i].1@, v[i].2@, v[i].3@))
}

fn push_escaped(dst: &mut Vec<u8>, s: &str)
    ensures
        final(dst)@ == old(dst)@ + enc(html_escaped(s@)),
{
    let e = html_escape(s);
    push_bytes(dst, e.as_str());
}

fn push_number(dst: &mut Vec<u8>, n: usize)
    ensures
        final(dst)@ == old(dst)@ + enc(decimal(n as nat)),
{
    let d = decimal_string(n as u64);
    push_bytes(dst, d.as_str());
}

fn push_note(notes: &mut Vec<(usize, String, String, String)>, idx: usize, a: &HtmlAnnotation, comment: String)
    ensures
        notes_view(final(notes)@) == notes_view(old(notes)@).push((idx as int, a.quote@, comment@, a.color@)),
{
    notes.push((idx, a.quote.clone(), comment, a.color.clone()));
    assert(notes_view(notes@) =~= notes_view(old(notes)@).push((idx as int, a.quote@, comment@, a.color@)));
}

/// Puts the markup of annotation `a` around `orig` (see [`wrapped`]).
fn wrap(a: &HtmlAnnotation, orig: &Vec<u8>, idx: usize, notes: &mut Vec<(usize, String, String, String)>) -> (r: (
    Vec<u8>,
    usize,
))
    requires
        idx < usize::MAX,
    ensures
        r.0@ == wrapped(*a, orig@, idx as int, notes_view(old(notes)@)).0,
        r.1 as int == wrapped(*a, orig@, idx as int, notes_view(old(notes)@)).1,
        notes_view(final(notes)@) == wrapped(*a, orig@, idx as int, notes_view(old(notes)@)).2,
        r.1 <= idx + 1,
{
    reveal(wrapped);
    let t = a.annotation_type.as_str();
    let mut w: Vec<u8> = Vec::new();
    if crate::text::str_eq(t, "highlight") {
        match &a.comment {
            Some(c) => {
                let n = idx + 1;
                push_bytes(&mut w, "<mark class=\"zr-export-highlight\" style=\"background-color:");
                push_bytes(&mut w, a.color.as_str());
                push_bytes(&mut w, ";\" title=\"");
                push_escaped(&mut w, c.as_str());
                push_bytes(&mut w, "\">");
                push_byte_range(&mut w, orig, 0, orig.len());
                push_bytes(&mut w, "<sup class=\"zr-note-ref\">");
                push_number(&mut w, n);
                push_bytes(&mut w, "</sup></mark>");
                push_note(notes, n, a, c.clone());
                assert(orig@.subrange(0, orig@.len() as int) =~= orig@);
                assert(w@ =~= wrapped(*a, orig@, idx as int, notes_view(old(notes)@)).0);
                (w, n)
            },
            None => {
                push_bytes(&mut w, "<mark class=\"zr-export-highlight\" style=\"background-color:");
                push_bytes(&mut w, a.color.as_str());
                push_bytes(&mut w, ";\">");
                push_byte_range(&mut w, orig, 0, orig.len());
                push_bytes(&mut w, "</mark>");
                assert(orig@.subrange(0, orig@.len() as int) =~= orig@);
                assert(w@ =~= wrapped(*a, orig@, idx as int, notes_view(old(notes)@)).0);
                (w, idx)
            },
        }
    } else if crate::text::str_eq(t, "underline") {
        push_bytes(&mut w, "<mark class=\"zr-export-underline\" style=\"border-bottom:2px solid ");
        push_bytes(&mut w, a.color.as_str());
        push_bytes(&mut w, ";\">");
        push_byte_range(&mut w, orig, 0, orig.len());
        assert(orig@.subrange(0, orig@.len() as int) =~= orig@);
        match &a.comment {
            Some(c) => {
                let n = idx + 1;
                push_bytes(&mut w, "<sup class=\"zr-note-ref\">");
                push_number(&mut w, n);
                push_bytes(&mut w, "</sup>");
                push_bytes(&mut w, "</mark>");
                push_note(notes, n, a, c.clone());
                assert(w@ =~= wrapped(*a, orig@, idx as int, notes_view(old(notes)@)).0);
                (w, n)
            },
            None => {
                push_bytes(&mut w, "</mark>");
                assert(w@ =~= wrapped(*a, orig@, idx as int, notes_view(old(notes)@)).0);
                (w, idx)
            },
        }
    } else if crate::text::str_eq(t, "note") {
        let n = idx + 1;
        let c = match &a.comment {
            Some(c) => c.clone(),
            None => String::new(),
        };
        push_byte_range(&mut w, orig, 0, orig.len());
        assert(orig@.subrange(0, orig@.len() as int) =~= orig@);
        push_bytes(&mut w, "<sup class=\"zr-note-ref\" style=\"background:");
        push_bytes(&mut w, a.color.as_str());
        push_bytes(&mut w, ";\" title=\"");
        push_escaped(&mut w, c.as_str());
        push_bytes(&mut w, "\">");
        push_number(&mut w, n);
        push_bytes(&mut w, "</sup>");
        push_note(notes, n, a, c);
        assert(w@ =~= wrapped(*a, orig@, idx as int, notes_view(old(notes)@)).0);
        (w, n)
    } else {
        push_byte_range(&mut w, orig, 0, orig.len());
        assert(orig@.subrange(0, orig@.len() as int) =~= orig@);
        (w, idx)
    }
}

fn byte_boundary_at(b: &Vec<u8>, i: usize) -> (r: bool)
    ensures
        r == byte_boundary(b@, i as int),
{
    i == 0 || i == b.len() || (i < b.len() && (b[i] & 0xC0u8) != 0x80u8)
}

/// The page offsets of a map, as integers.
pub open spec fn map_view(v: Seq<usize>) -> Seq<int> {
    Seq::new(v.len(), |i: int| v[i] as int)
}

/// Placements as integers.
pub open spec fn places_view(v: Seq<(usize, usize, usize)>) -> Seq<(int, int, int)> {
    Seq::new(v.len(), |i: int| (v[i].0 as int, v[i].1 as int, v[i].2 as int))
}

proof fn lemma_apply_all_stays_none(
    st0: ExportState,
    map: Seq<int>,
    places: Seq<(int, int, int)>,
    order: Seq<usize>,
    anns: Seq<HtmlAnnotation>,
    k: int,
    n: int,
)
    requires
        apply_all(st0, map, places, order, anns, k) is None,
        0 <= k <= n,
    ensures
        apply_all(st0, map, places, order, anns, n) is None,
    decreases n - k,
{
    if k < n {
        lemma_apply_all_stays_none(st0, map, places, order, anns, k + 1, n);
    }
}

/// The view of an exec placement.
pub open spec fn place_view(p: (usize, usize, usize)) -> (int, int, int) {
    (p.0 as int, p.1 as int, p.2 as int)
}

/// Applies one placed annotation to the page (see [`apply_one`]).
fn apply_step(
    res: Vec<u8>,
    idx: usize,
    notes: &mut Vec<(usize, String, String, String)>,
    map: &Vec<usize>,
    place: (usize, usize, usize),
    anns: &Vec<HtmlAnnotation>,
) -> (r: Option<(Vec<u8>, usize)>)
    requires
        idx < usize::MAX,
        place.2 < anns@.len(),
    ensures
        match apply_one((res@, idx as int, notes_view(old(notes)@)), map_view(map@), place_view(place), anns@) {
            None => r is None,
            Some(st) => r matches Some(x) && x.0@ == st.0 && x.1 as int == st.1 && x.1 <= idx + 1
                && notes_view(final(notes)@) == st.2,
        },
{
    reveal(apply_one);
    let (s, e, ai) = place;
    let ml = map.len();
    if s >= ml || e > ml {
        return Some((res, idx));
    }
    let hs = map[s];
    let he = if e < ml {
        map[e]
    } else {
        res.len()
    };
    if hs >= he || he > res.len() {
        return Some((res, idx));
    }
    if !byte_boundary_at(&res, hs) || !byte_boundary_at(&res, he) {
        return None;
    }
    let mut orig: Vec<u8> = Vec::new();
    push_byte_range(&mut orig, &res, hs, he);
    assert(orig@ =~= res@.subrange(hs as int, he as int));
    let (w, n) = wrap(&anns[ai], &orig, idx, notes);
    let mut next: Vec<u8> = Vec::new();
    push_byte_range(&mut next, &res, 0, hs);
    push_byte_range(&mut next, &w, 0, w.len());
    push_byte_range(&mut next, &res, he, res.len());
    assert(w@.subrange(0, w@.len() as int) =~= w@);
    assert(next@ =~= res@.subrange(0, hs as int) + w@ + res@.subrange(he as int, res@.len() as int));
    Some((next, n))
}

/// Applies the placed annotations in `order` (see [`apply_all`]).
fn apply_placements(
    html: Vec<u8>,
    map: &Vec<usize>,
    places: &Vec<(usize, usize, usize)>,
    order: &Vec<usize>,
    anns: &Vec<HtmlAnnotation>,
) -> (r: Option<(Vec<u8>, Vec<(usize, String, String, String)>)>)
    requires
        forall|i: int| 0 <= i < order@.len() ==> (#[trigger] order@[i]) < places@.len(),
        forall|i: int| 0 <= i < places@.len() ==> (#[trigger] places@[i]).2 < anns@.len(),
    ensures
        match apply_all(
            (html@, 0, Seq::empty()),
            map_view(map@),
            places_view(places@),
            order@,
            anns@,
            order@.len() as int,
        ) {
            None => r is None,
            Some(st) => r matches Some(x) && x.0@ == st.0 && notes_view(x.1@) == st.2,
        },
{
    let ghost st0: ExportState = (html@, 0, Seq::empty());
    let ghost mv = map_view(map@);
    let ghost pv = places_view(places@);
    let mut res = html;
    let mut idx: usize = 0;
    let mut notes: Vec<(usize, String, String, String)> = Vec::new();
    assert(notes_view(notes@) =~= Seq::<NoteView>::empty());
    let mut k: usize = 0;
    while k < order.len()
        invariant
            k <= order@.len(),
            idx <= k,
            st0 == (html@, 0int, Seq::<NoteView>::empty()),
            forall|i: int| 0 <= i < order@.len() ==> (#[trigger] order@[i]) < places@.len(),
            forall|i: int| 0 <= i < places@.len() ==> (#[trigger] places@[i]).2 < anns@.len(),
            mv == map_view(map@),
            pv == places_view(places@),
            apply_all(st0, mv, pv, order@, anns@, k as int) == Some((res@, idx as int, notes_view(notes@))),
        decreases order.len() - k,
    {
        let place = places[order[k]];
        assert(pv[order@[k as int] as int] == place_view(place));
        let ghost st: ExportState = (res@, idx as int, notes_view(notes@));
        match apply_step(res, idx, &mut notes, map, place, anns) {
            None => {
                proof {
                    assert(apply_all(st0, mv, pv, order@, anns@, k + 1) == apply_one(st, mv, place_view(place), anns@));
                    lemma_apply_all_stays_none(st0, mv, pv, order@, anns@, k + 1, order@.len() as int);
                }
                return None;
            },
            Some((next, n)) => {
                res = next;
                idx = n;
            },
        }
        k = k + 1;
    }
    Some((res, notes))
}

/// One entry of the notes section (see [`note_entry`]).
fn push_note_entry(out: &mut Vec<u8>, n: &(usize, String, String, String))
    ensures
        final(out)@ == old(out)@ + note_entry((n.0 as int, n.1@, n.2@, n.3@)),
{
    push_bytes(out, "<div class=\"zr-note-entry\" style=\"border-left-color:");
    push_bytes(out, n.3.as_str());
    push_bytes(out, ";\"><div class=\"zr-note-quote\">[");
    push_number(out, n.0);
    push_bytes(out, "] \"");
    push_escaped(out, n.1.as_str());
    push_bytes(out, "\"</div><div class=\"zr-note-comment\">");
    push_escaped(out, n.2.as_str());
    push_bytes(out, "</div></div>\n");
    assert(out@ =~= old(out)@ + note_entry((n.0 as int, n.1@, n.2@, n.3@)));
}

/// The notes section (see [`notes_section`]).
fn build_notes_section(notes: &Vec<(usize, String, String, String)>) -> (r: Vec<u8>)
    ensures
        r@ == notes_section(notes_view(notes@)),
{
    let ghost nv = notes_view(notes@);
    let mut out: Vec<u8> = Vec::new();
    if notes.len() == 0 {
        return out;
    }
    push_bytes(&mut out, "<div class=\"zr-notes-section\"><h2>Notes &amp; Comments</h2>\n");
    let ghost head = out@;
    let mut k: usize = 0;
    while k < notes.len()
        invariant
            k <= notes@.len(),
            nv == notes_view(notes@),
            out@ == head + note_entries(nv, k as int),
        decreases notes.len() - k,
    {
        push_note_entry(&mut out, &notes[k]);
        assert(nv[k as int] == (notes@[k as int].0 as int, notes@[k as int].1@, notes@[k as int].2@, notes@[k as int].3@));
        k = k + 1;
        assert(out@ =~= head + note_entries(nv, k as int));
    }
    push_bytes(&mut out, "</div>");
    out
}

/// Adds the style sheet (see [`with_style`]).
fn add_style(h: Vec<u8>) -> (r: Vec<u8>)
    ensures
        r@ == with_style(h@),
{
    let head_end = "</head>".as_bytes();
    let body_start = "<body".as_bytes();
    let mut out: Vec<u8> = Vec::new();
    match find_bytes_from(h.as_slice(), head_end, 0) {
        Some(i) => {
            proof {
                lemma_first_occurrence(h@, enc("</head>"@), 0);
            }
            push_byte_range(&mut out, &h, 0, i);
            push_bytes(&mut out, ANNOTATION_CSS);
            push_byte_range(&mut out, &h, i, h.len());
        },
        None => match find_bytes_from(h.as_slice(), body_start, 0) {
            Some(j) => {
                proof {
                    lemma_first_occurrence(h@, enc("<body"@), 0);
                }
                push_byte_range(&mut out, &h, 0, j);
                push_bytes(&mut out, "<head>");
                push_bytes(&mut out, ANNOTATION_CSS);
                push_bytes(&mut out, "</head>");
                push_byte_range(&mut out, &h, j, h.len());
            },
            None => {
                push_bytes(&mut out, "<head>");
                push_bytes(&mut out, ANNOTATION_CSS);
                push_bytes(&mut out, "</head>");
                push_byte_range(&mut out, &h, 0, h.len());
                assert(h@.subrange(0, h@.len() as int) =~= h@);
            },
        },
    }
    out
}

/// The last occurrence of `pat` in `s`.
fn rfind_bytes(s: &Vec<u8>, pat: &[u8]) -> (r: Option<usize>)
    ensures
        match r {
            Some(k) => k as int == last_occurrence_upto(s@, pat@, s@.len() as int) && k + pat@.len() <= s@.len(),
            None => last_occurrence_upto(s@, pat@, s@.len() as int) == -1,
        },
{
    let mut i = s.len();
    loop
        invariant
            i <= s@.len(),
            last_occurrence_upto(s@, pat@, s@.len() as int) == last_occurrence_upto(s@, pat@, i as int),
        decreases i,
    {
        if bytes_occur_at(s.as_slice(), pat, i) {
            return Some(i);
        }
        if i == 0 {
            assert(last_occurrence_upto(s@, pat@, -1) == -1);
            return None;
        }
        i = i - 1;
    }
}

/// Adds the notes section and ink overlay (see [`with_body_content`]).
fn add_body_content(h: Vec<u8>, body: &Vec<u8>) -> (r: Vec<u8>)
    ensures
        r@ == with_body_content(h@, body@),
{
    if body.len() == 0 {
        return h;
    }
    let mut out: Vec<u8> = Vec::new();
    match rfind_bytes(&h, "</body>".as_bytes()) {
        Some(k) => {
            push_byte_range(&mut out, &h, 0, k);
            push_byte_range(&mut out, body, 0, body.len());
            push_byte_range(&mut out, &h, k, h.len());
            assert(body@.subrange(0, body@.len() as int) =~= body@);
        },
        None => {
            push_byte_range(&mut out, &h, 0, h.len());
            push_byte_range(&mut out, body, 0, body.len());
            assert(body@.subrange(0, body@.len() as int) =~= body@);
            assert(h@.subrange(0, h@.len() as int) =~= h@);
        },
    }
    out
}

/// The bytes an optional buffer holds.
pub open spec fn bytes_view(r: Option<Vec<u8>>) -> Option<Seq<u8>> {
    match r {
        Some(v) => Some(v@),
        None => None,
    }
}

/// Whether `order` is an order the annotations of `html` are applied in: from the last
/// found in the page to the first, those found at the same place in their given order.
pub open spec fn application_order(html: Seq<char>, anns: Seq<HtmlAnnotation>, order: Seq<usize>) -> bool {
    match placements(enc(tags_stripped(html)), anns, anns.len() as int) {
        Some(p) => stable_desc(start_keys(p), order),
        None => order.len() == 0,
    }
}

/// Exports a paper's HTML with its text annotations and the ink overlay `ink_svg`
/// (see [`exported`]); `None` when the export would cut a character apart.
pub fn inject_html_annotations(html: &str, anns: &Vec<HtmlAnnotation>, ink_svg: &str) -> (r: Option<Vec<u8>>)
    requires
        forall|k: int|
            0 <= k < anns@.len() ==> enc(tags_stripped(html@)).len() + enc((#[trigger] anns@[k]).suffix@).len()
                + 10 <= usize::MAX && enc(anns@[k].prefix@).len() + 10 <= usize::MAX,
    ensures
        exists|order: Seq<usize>| #[trigger] application_order(html@, anns@, order) && bytes_view(r) == exported(html@, anns@, ink_svg@, order),
{
    let plain = strip_html_tags(html);
    let places = match place_annotations(plain.as_str(), anns) {
        Some(p) => p,
        None => {
            assert(application_order(html@, anns@, Seq::empty()));
            return None;
        },
    };
    let ghost pv = places_view(places@);
    let ghost ps = placements(enc(tags_stripped(html@)), anns@, anns@.len() as int)->0;
    assert(pv =~= ps);
    let mut keys: Vec<i128> = Vec::new();
    let mut i: usize = 0;
    while i < places.len()
        invariant
            i <= places@.len(),
            pv == places_view(places@),
            keys@ =~= start_keys(pv).take(i as int),
        decreases places.len() - i,
    {
        keys.push(places[i].0 as i128);
        i = i + 1;
    }
    assert(keys@ =~= start_keys(pv));
    let order = stable_order_desc(&keys);
    proof {
        lemma_placements_bounded(enc(tags_stripped(html@)), anns@, anns@.len() as int);
    }
    let hb = html.as_bytes();
    let map = build_offset_map(hb);
    let mut bytes: Vec<u8> = Vec::new();
    push_byte_range_slice(&mut bytes, hb);
    assert(map_view(map@) =~= offset_map(enc(html@)));
    let applied = apply_placements(bytes, &map, &places, &order, anns);
    assert(application_order(html@, anns@, order@));
    match applied {
        None => None,
        Some((res, notes)) => {
            let styled = add_style(res);
            let mut body: Vec<u8> = Vec::new();
            push_bytes(&mut body, ink_svg);
            let section = build_notes_section(&notes);
            push_byte_range(&mut body, &section, 0, section.len());
            assert(section@.subrange(0, section@.len() as int) =~= section@);
            Some(add_body_content(styled, &body))
        },
    }
}

fn push_byte_range_slice(dst: &mut Vec<u8>, src: &[u8])
    ensures
        final(dst)@ == old(dst)@ + src@,
{
    let mut i: usize = 0;
    while i < src.len()
        invariant
            i <= src@.len(),
            dst@ == old(dst)@ + src@.take(i as int),
        decreases src.len() - i,
    {
        dst.push(src[i]);
        assert(src@.take(i + 1) =~= src@.take(i as int).push(src@[i as int]));
        i = i + 1;
    }
    assert(src@.take(src@.len() as int) =~= src@);
}

proof fn lemma_placements_bounded(pb: Seq<u8>, anns: Seq<HtmlAnnotation>, n: int)
    requires
        0 <= n <= anns.len(),
    ensures
        placements(pb, anns, n) matches Some(p) ==> forall|i: int| 0 <= i < p.len() ==> 0 <= (#[trigger] p[i]).2 < n,
    decreases n,
{
    if n > 0 {
        lemma_placements_bounded(pb, anns, n - 1);
    }
}

} // verus!
