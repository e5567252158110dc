//! Exporting annotations into a PDF: on which page an annotation goes, which kind of PDF
//! annotation it becomes and what text it carries, and its colour, read from its
//! hexadecimal `#rrggbb` code (a light yellow for what cannot be read). The geometry is
//! computed in floating point by the application.
use vstd::prelude::*;
use vstd::string::StringSliceAdditionalSpecFns;
use crate::text::{opt_view, str_eq};

verus! {

/// The value of a hexadecimal digit byte (either case).
pub open spec fn hex_val(b: u8) -> Option<int> {
    if 0x30u8 <= b && b <= 0x39u8 {
        Some(b - 0x30u8)
    } else if 0x61u8 <= b && b <= 0x66u8 {
        Some(b - 0x61u8 + 10)
    } else if 0x41u8 <= b && b <= 0x46u8 {
        Some(b - 0x41u8 + 10)
    } else {
        None
    }
}

/// `u8::from_str_radix` of a two-byte text in base 16: two digits, or `+` and a digit.
pub open spec fn hex_pair(a: u8, b: u8) -> Option<u8> {
    if a == 0x2Bu8 {
        match hex_val(b) {
            Some(v) => Some(v as u8),
            None => None,
        }
    } else {
        match (hex_val(a), hex_val(b)) {
            (Some(x), Some(y)) => Some((x * 16 + y) as u8),
            _ => None,
        }
    }
}

/// The bytes of a colour code without its leading `#` characters.
pub open spec fn hashes_trimmed(b: Seq<u8>) -> Seq<u8>
    decreases b.len(),
{
    if b.len() > 0 && b[0] == 0x23u8 {
        hashes_trimmed(b.drop_first())
    } else {
        b
    }
}

/// Whether byte offset `i` of `t` starts a character or ends the text.
pub open spec fn byte_boundary(t: Seq<u8>, i: int) -> bool {
    i == t.len() || (0 <= i < t.len() && (t[i] & 0xC0u8) != 0x80u8)
}

/// Whether the three two-byte channels of a colour code can be cut out of it: the code
/// has six bytes after its `#`s and no character straddles a cut.
pub open spec fn channels_cut(hex: Seq<u8>) -> bool {
    let t = hashes_trimmed(hex);
    t.len() >= 6 && byte_boundary(t, 2) && byte_boundary(t, 4) && byte_boundary(t, 6)
}

/// The channel at byte `i` of the code `t`, or `default` when it is not a number.
pub open spec fn channel(t: Seq<u8>, i: int, default: u8) -> u8 {
    match hex_pair(t[i], t[i + 1]) {
        Some(v) => v,
        None => default,
    }
}

fn hex_value(b: u8) -> (r: Option<u8>)
    ensures
        match hex_val(b) {
            Some(v) => r == Some(v as u8) && v < 16,
            None => r is None,
        },
{
    if 0x30u8 <= b && b <= 0x39u8 {
        Some(b - 0x30u8)
    } else if 0x61u8 <= b && b <= 0x66u8 {
        Some(b - 0x61u8 + 10)
    } else if 0x41u8 <= b && b <= 0x46u8 {
        Some(b - 0x41u8 + 10)
    } else {
        None
    }
}

fn pair_value(a: u8, b: u8, default: u8) -> (r: u8)
    ensures
        r == match hex_pair(a, b) {
            Some(v) => v,
            None => default,
        },
{
    if a == 0x2Bu8 {
        match hex_value(b) {
            Some(v) => v,
            None => default,
        }
    } else {
        match (hex_value(a), hex_value(b)) {
            (Some(x), Some(y)) => x * 16 + y,
            _ => default,
        }
    }
}

fn trimmed_start(b: &[u8]) -> (r: usize)
    ensures
        r <= b@.len(),
        hashes_trimmed(b@) == b@.skip(r as int),
{
    let mut i: usize = 0;
    assert(b@.skip(0) =~= b@);
    while i < b.len() && b[i] == 0x23u8
        invariant
            i <= b@.len(),
            hashes_trimmed(b@) == hashes_trimmed(b@.skip(i as int)),
        decreases b.len() - i,
    {
        assert(b@.skip(i as int).drop_first() =~= b@.skip(i + 1));
        i = i + 1;
    }
    i
}

fn boundary_ok(b: &[u8], i: usize) -> (r: bool)
    ensures
        r == byte_boundary(b@, i as int),
{
    i == b.len() || (i < b.len() && (b[i] & 0xC0u8) != 0x80u8)
}

/// Whether the channels of a colour code can be read (see [`channels_cut`]); reading
/// them from a code where they cannot would cut a character apart.
pub fn channels_readable(hex: &str) -> (r: bool)
    ensures
        r == channels_cut(hex.spec_bytes()),
{
    let b = hex.as_bytes();
    let s = trimmed_start(b);
    let ghost t = b@.skip(s as int);
    if b.len() - s < 6 {
        return false;
    }
    let ok2 = boundary_ok(b, s + 2);
    let ok4 = boundary_ok(b, s + 4);
    let ok6 = boundary_ok(b, s + 6);
    assert(byte_boundary(t, 2) == byte_boundary(b@, s + 2));
    assert(byte_boundary(t, 4) == byte_boundary(b@, s + 4));
    assert(byte_boundary(t, 6) == byte_boundary(b@, s + 6));
    ok2 && ok4 && ok6
}

/// The red, green and blue channels of a colour code such as `#ffe28f`; a channel that
/// is not a hexadecimal number is taken from the light yellow `#ffe68f`.
pub fn color_channels(hex: &str) -> (r: (u8, u8, u8))
    requires
        channels_cut(hex.spec_bytes()),
    ensures
        ({
            let t = hashes_trimmed(hex.spec_bytes());
            r == (channel(t, 0, 255), channel(t, 2, 230), channel(t, 4, 143))
        }),
{
    let b = hex.as_bytes();
    let s = trimmed_start(b);
    let ghost t = b@.skip(s as int);
    assert(t[0] == b@[s as int] && t[1] == b@[s + 1] && t[2] == b@[s + 2]);
    assert(t[3] == b@[s + 3] && t[4] == b@[s + 4] && t[5] == b@[s + 5]);
    let r = pair_value(b[s], b[s + 1], 255);
    let g = pair_value(b[s + 2], b[s + 3], 230);
    let bl = pair_value(b[s + 4], b[s + 5], 143);
    (r, g, bl)
}

/// The page an annotation is exported to: its page number, at least 1, as a `u32`.
pub fn export_page(page_number: i64) -> (r: u32)
    ensures
        r == (if page_number < 1 {
            1
        } else {
            page_number
        }) as u32,
{
    let p: i64 = if page_number < 1 {
        1
    } else {
        page_number
    };
    p as u32
}

/// The kind of PDF annotation an annotation becomes.
pub enum PdfAnnotKind {
    Highlight,
    Underline,
    /// A sticky note.
    Text,
    Ink,
    /// A rectangle around an area.
    Square,
}

/// What an annotation becomes in the PDF: its kind, its text (`Contents`), and whether
/// it is signed as Zoro's (`T`).
pub struct PdfAnnotPlan {
    pub kind: PdfAnnotKind,
    pub contents: Option<String>,
    pub signed: bool,
}

/// Whether `p` is what an annotation of kind `t` with the selected text `sel` and the
/// comment `comment` becomes: a highlight or underline carries the comment when it has
/// one and a selected text, else the selected text, and is signed when it has a
/// comment; a note carries the comment, else the selected text, else nothing, and is
/// signed; an ink drawing (which needs strokes) and an area carry the comment. Other
/// kinds are not exported (`None`).
pub open spec fn pdf_annot_plan(
    t: Seq<char>,
    sel: Option<Seq<char>>,
    comment: Option<Seq<char>>,
    has_strokes: bool,
    p: Option<PdfAnnotPlan>,
) -> bool {
    if t == "highlight"@ || t == "underline"@ {
        p matches Some(x) && (if t == "highlight"@ {
            x.kind is Highlight
        } else {
            x.kind is Underline
        }) && opt_view(x.contents) == (if comment is Some && sel is Some {
            comment
        } else {
            sel
        }) && x.signed == comment is Some
    } else if t == "note"@ {
        p matches Some(x) && x.kind is Text && opt_view(x.contents) == Some(
            match comment {
                Some(c) => c,
                None => match sel {
                    Some(s) => s,
                    None => Seq::empty(),
                },
            },
        ) && x.signed
    } else if t == "ink"@ {
        if has_strokes {
            p matches Some(x) && x.kind is Ink && opt_view(x.contents) == comment && !x.signed
        } else {
            p is None
        }
    } else if t == "area"@ {
        p matches Some(x) && x.kind is Square && opt_view(x.contents) == comment && !x.signed
    } else {
        p is None
    }
}

fn clone_opt(o: &Option<String>) -> (r: Option<String>)
    ensures
        opt_view(r) == opt_view(*o),
{
    match o {
        Some(s) => Some(s.clone()),
        None => None,
    }
}

/// Plans how an annotation is exported into a PDF (see [`pdf_annot_plan`]);
/// `has_strokes` says whether an ink drawing has its strokes.
pub fn plan_pdf_annotation(
    annotation_type: &str,
    selected_text: &Option<String>,
    comment: &Option<String>,
    has_strokes: bool,
) -> (r: Option<PdfAnnotPlan>)
    ensures
        pdf_annot_plan(annotation_type@, opt_view(*selected_text), opt_view(*comment), has_strokes, r),
{
    if str_eq(annotation_type, "highlight") || str_eq(annotation_type, "underline") {
        let kind = if str_eq(annotation_type, "highlight") {
            PdfAnnotKind::Highlight
        } else {
            PdfAnnotKind::Underline
        };
        let contents = if comment.is_some() && selected_text.is_some() {
            clone_opt(comment)
        } else {
            clone_opt(selected_text)
        };
        Some(PdfAnnotPlan { kind, contents, signed: comment.is_some() })
    } else if str_eq(annotation_type, "note") {
        let text = match comment {
            Some(c) => c.clone(),
            None => match selected_text {
                Some(s) => s.clone(),
                None => String::new(),
            },
        };
        Some(PdfAnnotPlan { kind: PdfAnnotKind::Text, contents: Some(text), signed: true })
    } else if str_eq(annotation_type, "ink") {
        if has_strokes {
            Some(PdfAnnotPlan { kind: PdfAnnotKind::Ink, contents: clone_opt(comment), signed: false })
        } else {
            None
        }
    } else if str_eq(annotation_type, "area") {
        Some(PdfAnnotPlan { kind: PdfAnnotKind::Square, contents: clone_opt(comment), signed: false })
    } else {
        None
    }
}

} // verus!
