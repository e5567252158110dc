//! The paper library: what a paper looks like to the user, which files belong to it,
//! how local files are imported and attached, and which follow-up work adding a paper
//! starts.
use vstd::prelude::*;
use crate::paths::{extension_of, file_extension, file_stem, stem_of};
use crate::text::{
    chars_of, concat, decimal, lemma_decimal_injective, lemma_decimal_nonempty, lowercase_of, opt_view, push_decimal, push_str, str_eq,
    string_from_chars, to_lowercase,
};

verus! {

broadcast use vstd::string::group_string_axioms;

/// A paper as the user adds it.
pub struct AddPaperInput {
    pub title: String,
    pub short_title: Option<String>,
    pub authors: Vec<AuthorInput>,
    pub abstract_text: Option<String>,
    pub doi: Option<String>,
    pub arxiv_id: Option<String>,
    pub url: Option<String>,
    pub pdf_url: Option<String>,
    pub html_url: Option<String>,
    pub published_date: Option<String>,
    pub source: Option<String>,
    pub tags: Option<Vec<String>>,
    pub extra_json: Option<String>,
    pub entry_type: Option<String>,
    pub journal: Option<String>,
    pub volume: Option<String>,
    pub issue: Option<String>,
    pub pages: Option<String>,
    pub publisher: Option<String>,
    pub issn: Option<String>,
    pub isbn: Option<String>,
}

/// An author as the user gives it.
pub struct AuthorInput {
    pub name: String,
    pub affiliation: Option<String>,
}

/// A paper as the user sees it.
pub struct PaperResponse {
    pub id: String,
    pub slug: String,
    pub title: String,
    pub short_title: Option<String>,
    pub authors: Vec<AuthorResponse>,
    pub abstract_text: Option<String>,
    pub doi: Option<String>,
    pub arxiv_id: Option<String>,
    pub url: Option<String>,
    pub pdf_url: Option<String>,
    pub html_url: Option<String>,
    pub thumbnail_url: Option<String>,
    pub published_date: Option<String>,
    pub added_date: String,
    pub modified_date: String,
    pub source: Option<String>,
    pub read_status: String,
    pub rating: Option<i32>,
    pub tags: Vec<TagResponse>,
    pub attachments: Vec<AttachmentResponse>,
    pub has_pdf: bool,
    pub has_html: bool,
    pub notes: Vec<String>,
    pub extra_json: Option<String>,
    pub entry_type: Option<String>,
    pub journal: Option<String>,
    pub volume: Option<String>,
    pub issue: Option<String>,
    pub pages: Option<String>,
    pub publisher: Option<String>,
    pub issn: Option<String>,
    pub isbn: Option<String>,
    pub pdf_downloaded: bool,
    pub html_downloaded: bool,
}

/// An author as the user sees it.
pub struct AuthorResponse {
    pub name: String,
    pub affiliation: Option<String>,
}

/// A tag as the user sees it.
pub struct TagResponse {
    pub id: String,
    pub name: String,
    pub color: Option<String>,
}

/// A file of a paper as the user sees it.
pub struct AttachmentResponse {
    pub id: String,
    pub filename: String,
    pub file_type: String,
    pub file_size: Option<i64>,
    pub source: String,
    pub is_local: bool,
    pub created_date: String,
}

/// A collection as the user sees it.
pub struct CollectionResponse {
    pub id: String,
    pub name: String,
    pub slug: String,
    pub parent_id: Option<String>,
    pub paper_count: i64,
    pub description: Option<String>,
}

/// The outcome of importing local files.
pub struct ImportResult {
    pub imported: Vec<PaperResponse>,
    pub skipped: Vec<ImportSkipped>,
}

/// A file that was not imported, and why.
pub struct ImportSkipped {
    pub path: String,
    pub reason: String,
}

/// An update of a collection; for the parent and the description, `Some(None)` clears
/// the value.
pub struct UpdateCollectionInput {
    pub name: Option<String>,
    pub parent_id: Option<Option<String>>,
    pub description: Option<Option<String>>,
    pub position: Option<i32>,
}

/// A collection's new position.
pub struct ReorderItem {
    pub id: String,
    pub position: i32,
}

/// An update of a tag; for the colour, `Some(None)` clears it.
pub struct UpdateTagInput {
    pub name: Option<String>,
    pub color: Option<Option<String>>,
}

/// An update of a paper's metadata; `Some(None)` clears a value, `None` keeps it.
pub struct UpdatePaperInput {
    pub title: Option<String>,
    pub short_title: Option<Option<String>>,
    pub abstract_text: Option<Option<String>>,
    pub doi: Option<Option<String>>,
    pub arxiv_id: Option<Option<String>>,
    pub url: Option<Option<String>>,
    pub pdf_url: Option<Option<String>>,
    pub html_url: Option<Option<String>>,
    pub thumbnail_url: Option<Option<String>>,
    pub published_date: Option<Option<String>>,
    pub source: Option<Option<String>>,
    pub extra_json: Option<Option<String>>,
    pub entry_type: Option<Option<String>>,
    pub journal: Option<Option<String>>,
    pub volume: Option<Option<String>>,
    pub issue: Option<Option<String>>,
    pub pages: Option<Option<String>>,
    pub publisher: Option<Option<String>>,
    pub issn: Option<Option<String>>,
    pub isbn: Option<Option<String>>,
}

/// The MIME type recorded for a file with the (lowercase) extension `ext`.
pub open spec fn mime_for(ext: Seq<char>) -> Seq<char> {
    if ext == "pdf"@ {
        "application/pdf"@
    } else if ext == "html"@ || ext == "htm"@ {
        "text/html"@
    } else if ext == "epub"@ {
        "application/epub+zip"@
    } else if ext == "png"@ {
        "image/png"@
    } else if ext == "jpg"@ || ext == "jpeg"@ {
        "image/jpeg"@
    } else if ext == "gif"@ {
        "image/gif"@
    } else if ext == "webp"@ {
        "image/webp"@
    } else if ext == "svg"@ {
        "image/svg+xml"@
    } else if ext == "txt"@ {
        "text/plain"@
    } else if ext == "json"@ {
        "application/json"@
    } else if ext == "xml"@ {
        "application/xml"@
    } else if ext == "csv"@ {
        "text/csv"@
    } else if ext == "zip"@ {
        "application/zip"@
    } else if ext == "doc"@ {
        "application/msword"@
    } else if ext == "docx"@ {
        "application/vnd.openxmlformats-officedocument.wordprocessingml.document"@
    } else {
        "application/octet-stream"@
    }
}

/// The MIME type of a file with the (lowercase) extension `ext` (see [`mime_for`]).
pub fn mime_from_ext(ext: &str) -> (r: &'static str)
    ensures
        r@ == mime_for(ext@),
{
    if str_eq(ext, "pdf") {
        "application/pdf"
    } else if str_eq(ext, "html") || str_eq(ext, "htm") {
        "text/html"
    } else if str_eq(ext, "epub") {
        "application/epub+zip"
    } else if str_eq(ext, "png") {
        "image/png"
    } else if str_eq(ext, "jpg") || str_eq(ext, "jpeg") {
        "image/jpeg"
    } else if str_eq(ext, "gif") {
        "image/gif"
    } else if str_eq(ext, "webp") {
        "image/webp"
    } else if str_eq(ext, "svg") {
        "image/svg+xml"
    } else if str_eq(ext, "txt") {
        "text/plain"
    } else if str_eq(ext, "json") {
        "application/json"
    } else if str_eq(ext, "xml") {
        "application/xml"
    } else if str_eq(ext, "csv") {
        "text/csv"
    } else if str_eq(ext, "zip") {
        "application/zip"
    } else if str_eq(ext, "doc") {
        "application/msword"
    } else if str_eq(ext, "docx") {
        "application/vnd.openxmlformats-officedocument.wordprocessingml.document"
    } else {
        "application/octet-stream"
    }
}

/// The MIME type recorded for a known extension names the file's format: an image,
/// CSV, PDF, JSON, XML or ZIP file gets its own extension as the subtype (`image/png`,
/// `text/csv`, `application/pdf`, ...), `jpg` and `jpeg` files get `image/jpeg`, `htm`
/// and `html` files `text/html`, the other known formats their registered types, and
/// an unknown extension `application/octet-stream`; a file is recorded with an `image/`
/// type exactly when its kind is `image`.
pub proof fn lemma_mime_names_format(ext: Seq<char>)
    ensures
        (ext == "png"@ || ext == "gif"@ || ext == "webp"@) ==> mime_for(ext) == "image/"@ + ext,
        (ext == "jpg"@ || ext == "jpeg"@) ==> mime_for(ext) == "image/"@ + "jpeg"@,
        (ext == "html"@ || ext == "htm"@) ==> mime_for(ext) == "text/"@ + "html"@,
        ext == "csv"@ ==> mime_for(ext) == "text/"@ + ext,
        (ext == "pdf"@ || ext == "json"@ || ext == "xml"@ || ext == "zip"@) ==> mime_for(ext)
            == "application/"@ + ext,
        kind_for(ext) == "image"@ <==> (mime_for(ext).len() >= 6 && mime_for(ext).take(6) == "image/"@),
        ext == "svg"@ ==> mime_for(ext) == "image/svg+xml"@,
        ext == "epub"@ ==> mime_for(ext) == "application/epub+zip"@,
        ext == "txt"@ ==> mime_for(ext) == "text/plain"@,
        ext == "doc"@ ==> mime_for(ext) == "application/msword"@,
        ext == "docx"@ ==> mime_for(ext) == "application/vnd.openxmlformats-officedocument.wordprocessingml.document"@,
        !(ext == "pdf"@ || ext == "html"@ || ext == "htm"@ || ext == "epub"@ || ext == "png"@ || ext == "jpg"@
            || ext == "jpeg"@ || ext == "gif"@ || ext == "webp"@ || ext == "svg"@ || ext == "txt"@ || ext
            == "json"@ || ext == "xml"@ || ext == "csv"@ || ext == "zip"@ || ext == "doc"@ || ext == "docx"@)
            ==> mime_for(ext) == "application/octet-stream"@,
{
    reveal_strlit("image/");
    reveal_strlit("text/");
    reveal_strlit("application/");
    reveal_strlit("png");
    reveal_strlit("gif");
    reveal_strlit("webp");
    reveal_strlit("jpg");
    reveal_strlit("jpeg");
    reveal_strlit("svg");
    reveal_strlit("html");
    reveal_strlit("htm");
    reveal_strlit("csv");
    reveal_strlit("pdf");
    reveal_strlit("json");
    reveal_strlit("xml");
    reveal_strlit("zip");
    reveal_strlit("image");
    reveal_strlit("other");
    reveal_strlit("epub");
    reveal_strlit("txt");
    reveal_strlit("doc");
    reveal_strlit("docx");
    reveal_strlit("image/png");
    reveal_strlit("image/gif");
    reveal_strlit("image/webp");
    reveal_strlit("image/jpeg");
    reveal_strlit("image/svg+xml");
    reveal_strlit("text/html");
    reveal_strlit("text/csv");
    reveal_strlit("text/plain");
    reveal_strlit("application/pdf");
    reveal_strlit("application/json");
    reveal_strlit("application/xml");
    reveal_strlit("application/zip");
    reveal_strlit("application/epub+zip");
    reveal_strlit("application/msword");
    reveal_strlit("application/vnd.openxmlformats-officedocument.wordprocessingml.document");
    reveal_strlit("application/octet-stream");
    assert("pdf"@.len() == 3 && "pdf"@[0] == 'p' && "pdf"@[1] == 'd');
    assert("html"@.len() == 4 && "html"@[0] == 'h' && "html"@[1] == 't');
    assert("htm"@.len() == 3 && "htm"@[0] == 'h' && "htm"@[1] == 't');
    assert("epub"@.len() == 4 && "epub"@[0] == 'e' && "epub"@[1] == 'p');
    assert("png"@.len() == 3 && "png"@[0] == 'p' && "png"@[1] == 'n');
    assert("jpg"@.len() == 3 && "jpg"@[0] == 'j' && "jpg"@[1] == 'p');
    assert("jpeg"@.len() == 4 && "jpeg"@[0] == 'j' && "jpeg"@[1] == 'p');
    assert("gif"@.len() == 3 && "gif"@[0] == 'g' && "gif"@[1] == 'i');
    assert("webp"@.len() == 4 && "webp"@[0] == 'w' && "webp"@[1] == 'e');
    assert("svg"@.len() == 3 && "svg"@[0] == 's' && "svg"@[1] == 'v');
    assert("txt"@.len() == 3 && "txt"@[0] == 't' && "txt"@[1] == 'x');
    assert("json"@.len() == 4 && "json"@[0] == 'j' && "json"@[1] == 's');
    assert("xml"@.len() == 3 && "xml"@[0] == 'x' && "xml"@[1] == 'm');
    assert("csv"@.len() == 3 && "csv"@[0] == 'c' && "csv"@[1] == 's');
    assert("zip"@.len() == 3 && "zip"@[0] == 'z' && "zip"@[1] == 'i');
    assert("doc"@.len() == 3 && "doc"@[0] == 'd' && "doc"@[1] == 'o');
    assert("docx"@.len() == 4 && "docx"@[0] == 'd' && "docx"@[1] == 'o');
    assert("image"@.len() == 5 && "other"@.len() == 5 && "image"@[0] == 'i' && "other"@[0] == 'o');
    let m = mime_for(ext);
    if ext == "png"@ {
        assert(m == "image/png"@);
        assert("image/"@ + "png"@ =~= "image/png"@);
    } else if ext == "gif"@ {
        assert(m == "image/gif"@);
        assert("image/"@ + "gif"@ =~= "image/gif"@);
    } else if ext == "webp"@ {
        assert(m == "image/webp"@);
        assert("image/"@ + "webp"@ =~= "image/webp"@);
    } else if ext == "jpg"@ || ext == "jpeg"@ {
        assert(m =~= "image/"@ + "jpeg"@);
    } else if ext == "svg"@ {
        assert(m =~= "image/svg+xml"@);
    } else if ext == "html"@ || ext == "htm"@ {
        assert(m =~= "text/"@ + "html"@);
    } else if ext == "csv"@ {
        assert(m =~= "text/"@ + ext);
    } else if ext == "pdf"@ || ext == "json"@ || ext == "xml"@ || ext == "zip"@ {
        assert(m =~= "application/"@ + ext);
    }
    if kind_for(ext) == "image"@ {
        if ext == "png"@ {
            assert(m.take(6) =~= "image/"@);
        } else if ext == "gif"@ {
            assert(m.take(6) =~= "image/"@);
        } else if ext == "webp"@ {
            assert(m.take(6) =~= "image/"@);
        } else if ext == "svg"@ {
            assert(m.take(6) =~= "image/"@);
        } else {
            assert(m == "image/jpeg"@);
            assert(m.take(6) =~= "image/"@);
        }
    } else if m.len() >= 6 && m.take(6) == "image/"@ {
        assert(m.take(6)[0] == 'i');
        assert(m.take(6)[5] == '/');
        assert(m[0] == 'i' && m[5] == '/');
        assert(false);
    }
}

/// The kind recorded for an attached file with the (lowercase) extension `ext`.
pub open spec fn kind_for(ext: Seq<char>) -> Seq<char> {
    if ext == "pdf"@ {
        "pdf"@
    } else if ext == "html"@ || ext == "htm"@ {
        "html"@
    } else if ext == "epub"@ {
        "epub"@
    } else if ext == "png"@ || ext == "jpg"@ || ext == "jpeg"@ || ext == "gif"@ || ext == "webp"@
        || ext == "svg"@ {
        "image"@
    } else {
        "other"@
    }
}

/// The kind of an attached file with the (lowercase) extension `ext` (see [`kind_for`]).
pub fn attachment_file_type(ext: &str) -> (r: &'static str)
    ensures
        r@ == kind_for(ext@),
{
    if str_eq(ext, "pdf") {
        "pdf"
    } else if str_eq(ext, "html") || str_eq(ext, "htm") {
        "html"
    } else if str_eq(ext, "epub") {
        "epub"
    } else if str_eq(ext, "png") || str_eq(ext, "jpg") || str_eq(ext, "jpeg") || str_eq(ext, "gif")
        || str_eq(ext, "webp") || str_eq(ext, "svg") {
        "image"
    } else {
        "other"
    }
}

/// The lowercase extension of a file name, or the empty text when it has none.
pub open spec fn lower_ext(name: Seq<char>) -> Seq<char> {
    match extension_of(name) {
        Some(e) => lowercase_of(e),
        None => lowercase_of(Seq::empty()),
    }
}

/// The lowercase extension of a file name (see [`lower_ext`]).
pub fn lowercase_extension(name: &str) -> (r: String)
    ensures
        r@ == lower_ext(name@),
{
    proof {
        reveal_strlit("");
        assert(""@ =~= Seq::<char>::empty());
    }
    match file_extension(name) {
        Some(e) => to_lowercase(e.as_str()),
        None => to_lowercase(""),
    }
}

/// The identifier a new paper's directory name is derived from: its DOI, else its arXiv
/// id, else its title.
pub fn paper_identifier<'a>(doi: &'a Option<String>, arxiv_id: &'a Option<String>, title: &'a str) -> (r:
    &'a str)
    ensures
        r@ == match doi {
            Some(d) => d@,
            None => match arxiv_id {
                Some(a) => a@,
                None => title@,
            },
        },
{
    match doi {
        Some(d) => d.as_str(),
        None => match arxiv_id {
            Some(a) => a.as_str(),
            None => title,
        },
    }
}

/// The directory of a paper, relative to the library: `papers/{slug}`.
pub fn paper_dir_path(slug: &str) -> (r: String)
    ensures
        r@ == "papers/"@ + slug@,
{
    concat("papers/", slug)
}

/// Whether a local file whose lowercase extension is `ext` can be imported: it must
/// exist and be a PDF; otherwise it is skipped with the reason.
pub fn local_import_skip(path: &str, ext: &str, exists: bool) -> (r: Option<ImportSkipped>)
    ensures
        !exists ==> (r matches Some(s) && s.path@ == path@ && s.reason@ == "File not found"@),
        exists && ext@ == "pdf"@ ==> r is None,
        exists && ext@ != "pdf"@ ==> (r matches Some(s) && s.path@ == path@ && s.reason@
            == "Unsupported file type: ."@ + ext@),
{
    if !exists {
        return Some(ImportSkipped { path: path.to_owned(), reason: "File not found".to_owned() });
    }
    if str_eq(ext, "pdf") {
        None
    } else {
        Some(ImportSkipped { path: path.to_owned(), reason: concat("Unsupported file type: .", ext) })
    }
}

/// Whether a local file can be imported: it must exist and have a `.pdf` extension (in
/// any case); otherwise it is skipped with the reason (see [`local_import_skip`]).
pub fn check_local_import(path: &str, file_name: &str, exists: bool) -> (r: Option<ImportSkipped>)
    ensures
        !exists ==> (r matches Some(s) && s.path@ == path@ && s.reason@ == "File not found"@),
        exists && lower_ext(file_name@) == "pdf"@ ==> r is None,
        exists && lower_ext(file_name@) != "pdf"@ ==> (r matches Some(s) && s.path@ == path@
            && s.reason@ == "Unsupported file type: ."@ + lower_ext(file_name@)),
{
    let ext = lowercase_extension(file_name);
    local_import_skip(path, ext.as_str(), exists)
}

/// Whether a local import starts a metadata enrichment for a file, and how it treats
/// the PDF: a file that became a paper (`imported`) is enriched when a DOI or an arXiv id
/// was found in it, and no other file is; its enrichment counts the PDF as already
/// sourced exactly when a DOI was found and the paper has a PDF URL (then a PDF the
/// enrichment finds is not downloaded; see [`enrichment_follow_up`]).
pub fn local_import_enrichment(
    imported: bool,
    doi: Option<&str>,
    arxiv_id: Option<&str>,
    current_pdf_url: Option<&str>,
) -> (r: Option<bool>)
    ensures
        r is Some <==> imported && (doi is Some || arxiv_id is Some),
        r matches Some(sourced) ==> sourced == (doi is Some && current_pdf_url is Some),
{
    if imported && (doi.is_some() || arxiv_id.is_some()) {
        Some(doi.is_some() && current_pdf_url.is_some())
    } else {
        None
    }
}

/// The title of an imported file: the title found in the PDF, else the file's stem,
/// else `Untitled`.
pub fn import_title(pdf_title: Option<String>, file_name: Option<&str>) -> (r: String)
    ensures
        r@ == match pdf_title {
            Some(t) => t@,
            None => match file_name {
                Some(n) => stem_of(n@),
                None => "Untitled"@,
            },
        },
{
    match pdf_title {
        Some(t) => t,
        None => match file_name {
            Some(n) => file_stem(n),
            None => "Untitled".to_owned(),
        },
    }
}

/// The work that follows a metadata enrichment of a new paper.
pub struct EnrichmentFollowUp {
    /// The PDF to download as `paper.pdf`, when one is to be downloaded.
    pub download_pdf: Option<String>,
    /// Whether the authors found are stored (the paper had none).
    pub set_authors: bool,
    /// The arXiv id whose HTML full text is fetched.
    pub fetch_arxiv_html: Option<String>,
}

/// Decides what follows an enrichment: the PDF it found is downloaded when the paper
/// has no PDF source yet (`pdf_already_sourced` false) and no `paper.pdf` exists; the
/// authors it found are stored when it found some and the paper has none; the arXiv HTML
/// is fetched for the paper's own arXiv id, else for the one the enrichment found.
pub fn enrichment_follow_up(
    pdf_already_sourced: bool,
    found_pdf_url: Option<String>,
    paper_pdf_exists: bool,
    existing_author_count: usize,
    found_author_count: Option<usize>,
    known_arxiv_id: Option<String>,
    found_arxiv_id: Option<String>,
) -> (r: EnrichmentFollowUp)
    ensures
        opt_view(r.download_pdf) == if !pdf_already_sourced && !paper_pdf_exists {
            opt_view(found_pdf_url)
        } else {
            None
        },
        r.set_authors == (existing_author_count == 0 && match found_author_count {
            Some(n) => n > 0,
            None => false,
        }),
        opt_view(r.fetch_arxiv_html) == match known_arxiv_id {
            Some(a) => Some(a@),
            None => opt_view(found_arxiv_id),
        },
{
    let download_pdf = if !pdf_already_sourced && !paper_pdf_exists {
        found_pdf_url
    } else {
        None
    };
    let set_authors = existing_author_count == 0 && match found_author_count {
        Some(n) => n > 0,
        None => false,
    };
    let fetch_arxiv_html = match known_arxiv_id {
        Some(a) => Some(a),
        None => found_arxiv_id,
    };
    EnrichmentFollowUp { download_pdf, set_authors, fetch_arxiv_html }
}

/// Whether a file name marks a paper as having its PDF on disk: any `.pdf` file, in any
/// ASCII case.
pub open spec fn pdf_file(name: Seq<char>) -> bool {
    crate::translation::is_pdf_name(name)
}

/// Whether a file name marks a paper as having full-text HTML on disk: `paper*.html`,
/// but not `abs.html`.
pub open spec fn html_file(name: Seq<char>) -> bool {
    &&& name != "abs.html"@
    &&& name.len() >= 5 && name.subrange(name.len() - 5, name.len() as int) == ".html"@
    &&& name.len() >= 5 && name.subrange(0, 5) == "paper"@
}

/// Whether the files of a paper's directory hold a PDF / full-text HTML; `paper.pdf` and
/// `paper.html` count too when the listing missed them.
pub open spec fn on_disk(names: Seq<String>, paper_pdf: bool, paper_html: bool) -> (bool, bool) {
    (
        paper_pdf || exists|i: int| 0 <= i < names.len() && pdf_file(#[trigger] names[i]@),
        paper_html || exists|i: int| 0 <= i < names.len() && html_file(#[trigger] names[i]@),
    )
}

pub(crate) fn ends_with(s: &Vec<char>, suffix: &str) -> (r: bool)
    ensures
        r == (s@.len() >= suffix@.len() && s@.subrange(s@.len() - suffix@.len(), s@.len() as int)
            == suffix@),
{
    let p = chars_of(suffix);
    if p.len() > s.len() {
        return false;
    }
    let r = crate::text::chars_occur_at(s, &p, s.len() - p.len());
    r
}

fn starts_with(s: &Vec<char>, prefix: &str) -> (r: bool)
    ensures
        r == (s@.len() >= prefix@.len() && s@.subrange(0, prefix@.len() as int) == prefix@),
{
    let p = chars_of(prefix);
    crate::text::chars_occur_at(s, &p, 0)
}

fn is_html_file(name: &str) -> (r: bool)
    ensures
        r == html_file(name@),
{
    proof {
        reveal_strlit(".html");
        reveal_strlit("paper");
    }
    let v = chars_of(name);
    !str_eq(name, "abs.html") && ends_with(&v, ".html") && starts_with(&v, "paper")
}

/// What the files of a paper's directory say about its PDF and full text (see
/// [`on_disk`]); `names` are the names of the files in the directory.
pub fn files_on_disk(names: &Vec<String>, paper_pdf_exists: bool, paper_html_exists: bool) -> (r: (
    bool,
    bool,
))
    ensures
        r == on_disk(names@, paper_pdf_exists, paper_html_exists),
{
    let mut pdf = paper_pdf_exists;
    let mut html = paper_html_exists;
    let mut k: usize = 0;
    while k < names.len()
        invariant
            k <= names@.len(),
            pdf == (paper_pdf_exists || exists|i: int| 0 <= i < k && pdf_file(#[trigger] names@[i]@)),
            html == (paper_html_exists || exists|i: int| 0 <= i < k && html_file(#[trigger] names@[i]@)),
        decreases names.len() - k,
    {
        if crate::translation::has_pdf_extension(names[k].as_str()) {
            pdf = true;
        }
        if is_html_file(names[k].as_str()) {
            html = true;
        }
        k = k + 1;
    }
    (pdf, html)
}

/// The flag updates a filesystem scan makes for one paper: a flag that differs from what
/// is on disk is set to it (`Some`); a missing directory means neither file is there.
pub fn scan_flag_updates(
    db_pdf: bool,
    db_html: bool,
    dir_exists: bool,
    on_disk_pdf: bool,
    on_disk_html: bool,
) -> (r: (Option<bool>, Option<bool>))
    ensures
        ({
            let pdf = dir_exists && on_disk_pdf;
            let html = dir_exists && on_disk_html;
            &&& r.0 == if pdf != db_pdf {
                Some(pdf)
            } else {
                None::<bool>
            }
            &&& r.1 == if html != db_html {
                Some(html)
            } else {
                None::<bool>
            }
        }),
{
    let pdf = dir_exists && on_disk_pdf;
    let html = dir_exists && on_disk_html;
    (if pdf != db_pdf {
        Some(pdf)
    } else {
        None
    }, if html != db_html {
        Some(html)
    } else {
        None
    })
}

/// A changed value recorded for synchronisation.
pub enum ChangeValue {
    Text(String),
    Null,
    Number(i32),
}

/// The view of a change value of an optional text: the text, or null.
pub open spec fn opt_change(v: Option<String>, c: ChangeValue) -> bool {
    match v {
        Some(s) => c matches ChangeValue::Text(t) && t@ == s@,
        None => c is Null,
    }
}

/// The changes recorded when a collection is created: its name, and its parent and
/// description when it has them.
pub fn created_collection_changes(name: &str, parent_id: &Option<String>, description: &Option<String>) -> (r:
    Vec<(String, ChangeValue)>)
    ensures
        r@.len() == 1 + (if parent_id is Some { 1int } else { 0 }) + (if description is Some {
            1int
        } else {
            0
        }),
        r@[0].0@ == "name"@ && (r@[0].1 matches ChangeValue::Text(t) && t@ == name@),
        parent_id matches Some(p) ==> r@[1].0@ == "parent_id"@ && (r@[1].1 matches ChangeValue::Text(
            t,
        ) && t@ == p@),
        description matches Some(d) ==> r@.last().0@ == "description"@ && (r@.last().1 matches ChangeValue::Text(
            t,
        ) && t@ == d@),
{
    let mut r: Vec<(String, ChangeValue)> = Vec::new();
    r.push(("name".to_owned(), ChangeValue::Text(name.to_owned())));
    if let Some(p) = parent_id {
        r.push(("parent_id".to_owned(), ChangeValue::Text(p.clone())));
    }
    if let Some(d) = description {
        r.push(("description".to_owned(), ChangeValue::Text(d.clone())));
    }
    r
}

/// Whether `(key, v)` records a field that the update `input` gives.
pub open spec fn collection_change(input: UpdateCollectionInput, key: Seq<char>, v: ChangeValue) -> bool {
    if key == "name"@ {
        match input.name {
            Some(n) => v matches ChangeValue::Text(t) && t@ == n@,
            None => false,
        }
    } else if key == "parent_id"@ {
        match input.parent_id {
            Some(p) => opt_change(p, v),
            None => false,
        }
    } else if key == "description"@ {
        match input.description {
            Some(d) => opt_change(d, v),
            None => false,
        }
    } else if key == "position"@ {
        match input.position {
            Some(p) => v == ChangeValue::Number(p),
            None => false,
        }
    } else {
        false
    }
}

/// The changes recorded when a collection is updated: each given field, in the order
/// name, parent, description, position; nothing is recorded when the list is empty.
pub fn updated_collection_changes(input: &UpdateCollectionInput) -> (r: Vec<(String, ChangeValue)>)
    ensures
        r@.len() == (if input.name is Some { 1int } else { 0 }) + (if input.parent_id is Some {
            1int
        } else {
            0
        }) + (if input.description is Some { 1int } else { 0 }) + (if input.position is Some {
            1int
        } else {
            0
        }),
        forall|k: int| 0 <= k < r@.len() ==> collection_change(*input, (#[trigger] r@[k]).0@, r@[k].1),
{
    proof {
        reveal_strlit("name");
        reveal_strlit("parent_id");
        reveal_strlit("description");
        reveal_strlit("position");
        assert("parent_id"@.len() != "name"@.len());
        assert("description"@.len() != "name"@.len());
        assert("description"@.len() != "parent_id"@.len());
        assert("position"@.len() != "name"@.len());
        assert("position"@.len() != "parent_id"@.len());
        assert("position"@.len() != "description"@.len());
    }
    let mut r: Vec<(String, ChangeValue)> = Vec::new();
    if let Some(n) = &input.name {
        r.push(("name".to_owned(), ChangeValue::Text(n.clone())));
    }
    let ghost r1 = r@;
    assert(forall|k: int| 0 <= k < r1.len() ==> collection_change(*input, (#[trigger] r1[k]).0@, r1[k].1));
    if let Some(p) = &input.parent_id {
        let v = match p {
            Some(s) => ChangeValue::Text(s.clone()),
            None => ChangeValue::Null,
        };
        r.push(("parent_id".to_owned(), v));
        assert(opt_change(*p, r@.last().1));
        assert(input.parent_id == Some(*p));
    }
    let ghost r2 = r@;
    assert forall|k: int| 0 <= k < r2.len() implies collection_change(*input, (#[trigger] r2[k]).0@, r2[k].1) by {
        if k < r1.len() {
            assert(r2[k] == r1[k]);
        }
    }
    if let Some(d) = &input.description {
        let v = match d {
            Some(s) => ChangeValue::Text(s.clone()),
            None => ChangeValue::Null,
        };
        r.push(("description".to_owned(), v));
        assert(opt_change(*d, r@.last().1));
        assert(input.description == Some(*d));
    }
    let ghost r3 = r@;
    assert forall|k: int| 0 <= k < r3.len() implies collection_change(*input, (#[trigger] r3[k]).0@, r3[k].1) by {
        if k < r2.len() {
            assert(r3[k] == r2[k]);
        }
    }
    if let Some(p) = input.position {
        r.push(("position".to_owned(), ChangeValue::Number(p)));
        assert(input.position == Some(p));
    }
    assert forall|k: int| 0 <= k < r@.len() implies collection_change(*input, (#[trigger] r@[k]).0@, r@[k].1) by {
        if k < r3.len() {
            assert(r@[k] == r3[k]);
        }
    }
    r
}

/// The id under which a link between a paper and a collection or tag is synchronised:
/// `{paper_id}::{other}`.
pub fn link_entity_id(paper_id: &str, other: &str) -> (r: String)
    ensures
        r@ == paper_id@ + "::"@ + other@,
{
    let mut v = chars_of(paper_id);
    push_str(&mut v, "::");
    push_str(&mut v, other);
    string_from_chars(&v)
}

/// A file of a paper as the database records it.
pub struct AttachmentRecord {
    pub id: String,
    pub filename: String,
    pub file_type: String,
    pub file_size: Option<i64>,
    pub source: String,
    pub relative_path: String,
    pub created_date: String,
}

/// A file found in a paper's directory: directly in it (`dir` is `None`) or in one of its
/// subdirectories.
pub struct DiskFile {
    pub dir: Option<String>,
    pub name: String,
    pub size: Option<i64>,
}

/// An attachment as `(id, filename, file_type, file_size, source, is_local, created_date)`.
pub type AttachmentView = (Seq<char>, Seq<char>, Seq<char>, Option<i64>, Seq<char>, bool, Seq<char>);

/// The view of an attachment as the user sees it.
pub open spec fn attachment_view(a: AttachmentResponse) -> AttachmentView {
    (a.id@, a.filename@, a.file_type@, a.file_size, a.source@, a.is_local, a.created_date@)
}

/// The file names of a list of attachments.
pub open spec fn names_of(s: Seq<AttachmentView>) -> Seq<Seq<char>> {
    Seq::new(s.len(), |i: int| s[i].1)
}

/// Subdirectories of a paper that are not scanned for files.
pub open spec fn skipped_dir(d: Seq<char>) -> bool {
    d == "_babeldoc_temp"@ || d == "notes"@
}

/// Files that are never listed: bookkeeping files and hidden ones.
pub open spec fn skipped_name(n: Seq<char>) -> bool {
    ||| n == "metadata.json"@
    ||| n == ".DS_Store"@
    ||| n == "Thumbs.db"@
    ||| n.len() > 0 && n[0] == '.'
}

/// Whether a file found on disk is listed at all.
pub open spec fn listed(f: DiskFile) -> bool {
    &&& !(f.dir matches Some(d) && skipped_dir(d@))
    &&& !skipped_name(f.name@)
}

/// The id of an attachment found on disk: `fs-` and its path in the paper's directory.
pub open spec fn disk_id(f: DiskFile) -> Seq<char> {
    match f.dir {
        Some(d) => "fs-"@ + d@ + "/"@ + f.name@,
        None => "fs-"@ + f.name@,
    }
}

/// The first `n` database records, each but the first of a file name left out;
/// `local[i]` says whether the file of record `i` exists.
pub open spec fn merged_records(db: Seq<AttachmentRecord>, local: Seq<bool>, n: int) -> Seq<AttachmentView>
    decreases n,
{
    if n <= 0 {
        Seq::empty()
    } else {
        let prev = merged_records(db, local, n - 1);
        let a = db[n - 1];
        if names_of(prev).contains(a.filename@) {
            prev
        } else {
            prev.push((a.id@, a.filename@, a.file_type@, a.file_size, a.source@, local[n - 1], a.created_date@))
        }
    }
}

/// `base` followed by the first `n` files found on disk that are listed and whose name
/// is not there yet; `types[i]` is the kind recorded for file `i` (its lowercase
/// extension).
pub open spec fn merged_files(base: Seq<AttachmentView>, disk: Seq<DiskFile>, types: Seq<Seq<char>>, n: int) -> Seq<
    AttachmentView,
>
    decreases n,
{
    if n <= 0 {
        base
    } else {
        let prev = merged_files(base, disk, types, n - 1);
        let f = disk[n - 1];
        if !listed(f) || names_of(prev).contains(f.name@) {
            prev
        } else {
            prev.push((disk_id(f), f.name@, types[n - 1], f.size, "filesystem"@, true, Seq::empty()))
        }
    }
}

/// Every file that the merge adds after the database records is a file found on disk,
/// listed under its path id with its name, kind and size, and lies in no skipped
/// subdirectory.
proof fn lemma_merged_files_from_disk(
    base: Seq<AttachmentView>,
    disk: Seq<DiskFile>,
    types: Seq<Seq<char>>,
    n: int,
    k: int,
)
    requires
        0 <= n <= disk.len(),
        base.len() <= k < merged_files(base, disk, types, n).len(),
    ensures
        exists|j: int|
            0 <= j < n && listed(#[trigger] disk[j]) && merged_files(base, disk, types, n)[k] == (
                disk_id(disk[j]),
                disk[j].name@,
                types[j],
                disk[j].size,
                "filesystem"@,
                true,
                Seq::<char>::empty(),
            ),
    decreases n,
{
    if n > 0 {
        let prev = merged_files(base, disk, types, n - 1);
        if k < prev.len() {
            lemma_merged_files_from_disk(base, disk, types, n - 1, k);
            let j = choose|j: int|
                0 <= j < n - 1 && listed(#[trigger] disk[j]) && prev[k] == (
                    disk_id(disk[j]),
                    disk[j].name@,
                    types[j],
                    disk[j].size,
                    "filesystem"@,
                    true,
                    Seq::<char>::empty(),
                );
            assert(merged_files(base, disk, types, n)[k] == prev[k]);
            assert(listed(disk[j]));
        } else {
            assert(listed(disk[n - 1]));
        }
    }
}

/// No file found in a subdirectory named `_babeldoc_temp` (the translator's scratch
/// space) or `notes`, and no bookkeeping or hidden file, is listed among a paper's files:
/// each entry after the database records is a file found on disk elsewhere, listed under
/// its path id and its name.
pub proof fn lemma_skipped_dirs_unlisted(
    db: Seq<AttachmentRecord>,
    local: Seq<bool>,
    disk: Seq<DiskFile>,
    types: Seq<Seq<char>>,
    k: int,
)
    requires
        merged_records(db, local, db.len() as int).len() <= k < paper_files_typed(db, local, disk, types).len(),
    ensures
        exists|j: int|
            0 <= j < disk.len() && paper_files_typed(db, local, disk, types)[k].0 == disk_id(#[trigger] disk[j])
                && paper_files_typed(db, local, disk, types)[k].1 == disk[j].name@
                && !(disk[j].dir matches Some(d) && (d@ == "_babeldoc_temp"@ || d@ == "notes"@))
                && disk[j].name@ != "metadata.json"@ && disk[j].name@ != ".DS_Store"@
                && disk[j].name@ != "Thumbs.db"@ && !(disk[j].name@.len() > 0 && disk[j].name@[0] == '.'),
{
    lemma_merged_files_from_disk(merged_records(db, local, db.len() as int), disk, types, disk.len() as int, k);
}

/// The lowercase extensions of the files found on disk.
pub open spec fn disk_types(disk: Seq<DiskFile>) -> Seq<Seq<char>> {
    Seq::new(disk.len(), |i: int| lower_ext(disk[i].name@))
}

/// The files of a paper as the user sees them (see [`paper_files`]), the kinds of the
/// files found on disk given by `types`.
pub open spec fn paper_files_typed(
    db: Seq<AttachmentRecord>,
    local: Seq<bool>,
    disk: Seq<DiskFile>,
    types: Seq<Seq<char>>,
) -> Seq<AttachmentView> {
    merged_files(merged_records(db, local, db.len() as int), disk, types, disk.len() as int)
}

/// The files of a paper as the user sees them: the database records (one per file name,
/// the first one kept), then the files found on disk that the records do not name.
pub open spec fn paper_files(db: Seq<AttachmentRecord>, local: Seq<bool>, disk: Seq<DiskFile>) -> Seq<AttachmentView> {
    paper_files_typed(db, local, disk, disk_types(disk))
}

/// Whether the text `n` is among `names`. The names seen so far are kept in a `Vec`:
/// vstd specifies std's `HashSet` only for keys with a key model (integers, `bool`, boxes
/// of them), and these are strings.
pub(crate) fn names_contain(names: &Vec<String>, n: &str) -> (r: bool)
    ensures
        r == views_of(names@).contains(n@),
{
    let mut k: usize = 0;
    while k < names.len()
        invariant
            k <= names@.len(),
            forall|j: int| 0 <= j < k ==> names@[j]@ != n@,
        decreases names.len() - k,
    {
        if str_eq(names[k].as_str(), n) {
            assert(views_of(names@)[k as int] == n@);
            return true;
        }
        k = k + 1;
    }
    assert(!views_of(names@).contains(n@)) by {
        if views_of(names@).contains(n@) {
            let j = choose|j: int| 0 <= j < views_of(names@).len() && views_of(names@)[j] == n@;
            assert(names@[j]@ == n@);
        }
    }
    false
}


/// The texts of a list of strings.
pub open spec fn views_of(v: Seq<String>) -> Seq<Seq<char>> {
    Seq::new(v.len(), |i: int| v[i]@)
}

fn is_skipped_name(n: &str) -> (r: bool)
    ensures
        r == skipped_name(n@),
{
    let v = chars_of(n);
    str_eq(n, "metadata.json") || str_eq(n, ".DS_Store") || str_eq(n, "Thumbs.db") || (v.len() > 0
        && v[0] == '.')
}

fn is_listed(f: &DiskFile) -> (r: bool)
    ensures
        r == listed(*f),
{
    let dir_skipped = match &f.dir {
        Some(d) => str_eq(d.as_str(), "_babeldoc_temp") || str_eq(d.as_str(), "notes"),
        None => false,
    };
    !dir_skipped && !is_skipped_name(f.name.as_str())
}

fn disk_file_id(f: &DiskFile) -> (r: String)
    ensures
        r@ == disk_id(*f),
{
    let mut v = chars_of("fs-");
    if let Some(d) = &f.dir {
        push_str(&mut v, d.as_str());
        push_str(&mut v, "/");
    }
    push_str(&mut v, f.name.as_str());
    string_from_chars(&v)
}

/// Lists the files of a paper (see [`paper_files_typed`]); `types[i]` is the kind of the
/// file found on disk at `disk[i]`; `local[i]` says whether the file of
/// database record `i` exists, `disk` lists the files found in the paper's directory and
/// in its subdirectories.
pub fn merge_attachments_typed(
    db: &Vec<AttachmentRecord>,
    local: &Vec<bool>,
    disk: &Vec<DiskFile>,
    types: &Vec<String>,
) -> (r: Vec<AttachmentResponse>)
    requires
        local@.len() == db@.len(),
        types@.len() == disk@.len(),
    ensures
        r@.len() == paper_files_typed(db@, local@, disk@, views_of(types@)).len(),
        forall|k: int|
            0 <= k < r@.len() ==> attachment_view(#[trigger] r@[k]) == paper_files_typed(
                db@,
                local@,
                disk@,
                views_of(types@),
            )[k],
{
    let ghost tv = views_of(types@);
    let mut out: Vec<AttachmentResponse> = Vec::new();
    let mut seen: Vec<String> = Vec::new();
    let mut i: usize = 0;
    while i < db.len()
        invariant
            i <= db@.len(),
            local@.len() == db@.len(),
            out@.len() == merged_records(db@, local@, i as int).len(),
            forall|k: int| 0 <= k < out@.len() ==> attachment_view(#[trigger] out@[k]) == merged_records(db@, local@, i as int)[k],
            views_of(seen@) =~= names_of(merged_records(db@, local@, i as int)),
        decreases db.len() - i,
    {
        let a = &db[i];
        let ghost prev = merged_records(db@, local@, i as int);
        let ghost seen0 = seen@;
        if !names_contain(&seen, a.filename.as_str()) {
            out.push(
                AttachmentResponse {
                    id: a.id.clone(),
                    filename: a.filename.clone(),
                    file_type: a.file_type.clone(),
                    file_size: a.file_size,
                    source: a.source.clone(),
                    is_local: local[i],
                    created_date: a.created_date.clone(),
                },
            );
            seen.push(a.filename.clone());
            let ghost v = (a.id@, a.filename@, a.file_type@, a.file_size, a.source@, local@[i as int], a.created_date@);
            assert(merged_records(db@, local@, i + 1) == prev.push(v));
            assert(names_of(prev.push(v)) =~= names_of(prev).push(a.filename@));
            assert(views_of(seen@) =~= views_of(seen0).push(a.filename@));
        }
        assert(views_of(seen@) =~= names_of(merged_records(db@, local@, i + 1)));
        i = i + 1;
    }
    let ghost base = merged_records(db@, local@, db@.len() as int);
    let mut j: usize = 0;
    while j < disk.len()
        invariant
            j <= disk@.len(),
            base == merged_records(db@, local@, db@.len() as int),
            tv == views_of(types@),
            types@.len() == disk@.len(),
            out@.len() == merged_files(base, disk@, tv, j as int).len(),
            forall|k: int| 0 <= k < out@.len() ==> attachment_view(#[trigger] out@[k]) == merged_files(base, disk@, tv, j as int)[k],
            views_of(seen@) =~= names_of(merged_files(base, disk@, tv, j as int)),
        decreases disk.len() - j,
    {
        let f = &disk[j];
        let ghost prev = merged_files(base, disk@, tv, j as int);
        let ghost seen0 = seen@;
        if is_listed(f) && !names_contain(&seen, f.name.as_str()) {
            out.push(
                AttachmentResponse {
                    id: disk_file_id(f),
                    filename: f.name.clone(),
                    file_type: types[j].clone(),
                    file_size: f.size,
                    source: "filesystem".to_owned(),
                    is_local: true,
                    created_date: String::new(),
                },
            );
            seen.push(f.name.clone());
            let ghost v = (disk_id(*f), f.name@, tv[j as int], f.size, "filesystem"@, true, Seq::<char>::empty());
            assert(merged_files(base, disk@, tv, j + 1) == prev.push(v));
            assert(names_of(prev.push(v)) =~= names_of(prev).push(f.name@));
            assert(views_of(seen@) =~= views_of(seen0).push(f.name@));
        }
        assert(views_of(seen@) =~= names_of(merged_files(base, disk@, tv, j + 1)));
        j = j + 1;
    }
    out
}

/// Lists the files of a paper (see [`paper_files`]); `local[i]` says whether the file of
/// database record `i` exists, `disk` lists the files found in the paper's directory and
/// in its subdirectories.
pub fn merge_attachments(db: &Vec<AttachmentRecord>, local: &Vec<bool>, disk: &Vec<DiskFile>) -> (r: Vec<
    AttachmentResponse,
>)
    requires
        local@.len() == db@.len(),
    ensures
        r@.len() == paper_files(db@, local@, disk@).len(),
        forall|k: int| 0 <= k < r@.len() ==> attachment_view(#[trigger] r@[k]) == paper_files(db@, local@, disk@)[k],
{
    let mut types: Vec<String> = Vec::new();
    let mut j: usize = 0;
    while j < disk.len()
        invariant
            j <= disk@.len(),
            views_of(types@) =~= disk_types(disk@).take(j as int),
        decreases disk.len() - j,
    {
        let t = lowercase_extension(disk[j].name.as_str());
        let ghost before = types@;
        types.push(t);
        assert(views_of(types@) =~= views_of(before).push(disk_types(disk@)[j as int]));
        assert(disk_types(disk@).take(j + 1) =~= disk_types(disk@).take(j as int).push(disk_types(disk@)[j as int]));
        j = j + 1;
    }
    assert(views_of(types@) =~= disk_types(disk@));
    merge_attachments_typed(db, local, disk, &types)
}

proof fn lemma_merged_records_unique(db: Seq<AttachmentRecord>, local: Seq<bool>, n: int)
    ensures
        names_of(merged_records(db, local, n)).no_duplicates(),
    decreases n,
{
    if n > 0 {
        lemma_merged_records_unique(db, local, n - 1);
        let prev = merged_records(db, local, n - 1);
        let a = db[n - 1];
        if !names_of(prev).contains(a.filename@) {
            assert(names_of(prev.push((a.id@, a.filename@, a.file_type@, a.file_size, a.source@, local[n - 1], a.created_date@))) =~= names_of(prev).push(a.filename@));
        }
    }
}

proof fn lemma_merged_files_unique(base: Seq<AttachmentView>, disk: Seq<DiskFile>, types: Seq<Seq<char>>, n: int)
    requires
        names_of(base).no_duplicates(),
    ensures
        names_of(merged_files(base, disk, types, n)).no_duplicates(),
    decreases n,
{
    if n > 0 {
        lemma_merged_files_unique(base, disk, types, n - 1);
        let prev = merged_files(base, disk, types, n - 1);
        let f = disk[n - 1];
        if listed(f) && !names_of(prev).contains(f.name@) {
            assert(names_of(prev.push((disk_id(f), f.name@, types[n - 1], f.size, "filesystem"@, true, Seq::empty()))) =~= names_of(prev).push(f.name@));
        }
    }
}

/// No two files of a paper, as the user sees them, have the same name.
pub proof fn lemma_paper_files_unique(db: Seq<AttachmentRecord>, local: Seq<bool>, disk: Seq<DiskFile>)
    ensures
        names_of(paper_files(db, local, disk)).no_duplicates(),
{
    lemma_merged_records_unique(db, local, db.len() as int);
    lemma_merged_files_unique(merged_records(db, local, db.len() as int), disk, disk_types(disk), disk.len() as int);
}

/// A paper as the database stores it.
pub struct PaperRecord {
    pub id: String,
    pub slug: String,
    pub title: String,
    pub short_title: Option<String>,
    pub abstract_text: Option<String>,
    pub doi: Option<String>,
    pub arxiv_id: Option<String>,
    pub url: Option<String>,
    pub pdf_url: Option<String>,
    pub html_url: Option<String>,
    pub thumbnail_url: Option<String>,
    pub published_date: Option<String>,
    pub added_date: String,
    pub modified_date: String,
    pub source: Option<String>,
    pub read_status: String,
    pub rating: Option<i32>,
    pub dir_path: String,
    pub extra_json: Option<String>,
    pub entry_type: Option<String>,
    pub journal: Option<String>,
    pub volume: Option<String>,
    pub issue: Option<String>,
    pub pages: Option<String>,
    pub publisher: Option<String>,
    pub issn: Option<String>,
    pub isbn: Option<String>,
    pub pdf_downloaded: bool,
    pub html_downloaded: bool,
}

/// A tag as the database stores it.
pub struct TagRecord {
    pub id: String,
    pub name: String,
    pub color: Option<String>,
}

/// Whether the user's view of a paper's files shows a PDF.
pub open spec fn shows_pdf(files: Seq<AttachmentView>) -> bool {
    exists|i: int| 0 <= i < files.len() && #[trigger] files[i].2 == "pdf"@
}

/// Whether the user's view of a paper's files shows full-text HTML (an abstract page
/// snapshot, `abs.html`, does not count).
pub open spec fn shows_html(files: Seq<AttachmentView>) -> bool {
    exists|i: int| 0 <= i < files.len() && #[trigger] files[i].2 == "html"@ && files[i].1 != "abs.html"@
}

fn copy_opt(o: &Option<String>) -> (r: Option<String>)
    ensures
        opt_view(r) == opt_view(*o),
{
    match o {
        Some(s) => Some(s.clone()),
        None => None,
    }
}

/// Whether the metadata of `r` is that of the record `row`.
pub open spec fn same_metadata(row: PaperRecord, r: PaperResponse) -> bool {
    &&& r.id@ == row.id@
    &&& r.slug@ == row.slug@
    &&& r.title@ == row.title@
    &&& opt_view(r.short_title) == opt_view(row.short_title)
    &&& opt_view(r.abstract_text) == opt_view(row.abstract_text)
    &&& opt_view(r.doi) == opt_view(row.doi)
    &&& opt_view(r.arxiv_id) == opt_view(row.arxiv_id)
    &&& opt_view(r.url) == opt_view(row.url)
    &&& opt_view(r.pdf_url) == opt_view(row.pdf_url)
    &&& opt_view(r.html_url) == opt_view(row.html_url)
    &&& opt_view(r.thumbnail_url) == opt_view(row.thumbnail_url)
    &&& opt_view(r.published_date) == opt_view(row.published_date)
    &&& r.added_date@ == row.added_date@
    &&& r.modified_date@ == row.modified_date@
    &&& opt_view(r.source) == opt_view(row.source)
    &&& r.read_status@ == row.read_status@
    &&& r.rating == row.rating
    &&& opt_view(r.extra_json) == opt_view(row.extra_json)
    &&& opt_view(r.entry_type) == opt_view(row.entry_type)
    &&& opt_view(r.journal) == opt_view(row.journal)
    &&& opt_view(r.volume) == opt_view(row.volume)
    &&& opt_view(r.issue) == opt_view(row.issue)
    &&& opt_view(r.pages) == opt_view(row.pages)
    &&& opt_view(r.publisher) == opt_view(row.publisher)
    &&& opt_view(r.issn) == opt_view(row.issn)
    &&& opt_view(r.isbn) == opt_view(row.isbn)
    &&& r.pdf_downloaded == row.pdf_downloaded
    &&& r.html_downloaded == row.html_downloaded
}

/// A paper as the user sees it: the record's metadata, its authors (name and affiliation),
/// tags, files (see [`merge_attachments`]) with whether they show a PDF and full-text
/// HTML, and the contents of its notes.
pub fn paper_row_to_response(
    row: &PaperRecord,
    authors: Vec<(String, Option<String>, Option<String>)>,
    tags: Vec<TagRecord>,
    db_attachments: &Vec<AttachmentRecord>,
    local: &Vec<bool>,
    disk: &Vec<DiskFile>,
    notes: Vec<String>,
) -> (r: PaperResponse)
    requires
        local@.len() == db_attachments@.len(),
    ensures
        same_metadata(*row, r),
        r.authors@.len() == authors@.len(),
        forall|k: int|
            0 <= k < authors@.len() ==> (#[trigger] r.authors@[k]).name@ == authors@[k].0@ && opt_view(
                r.authors@[k].affiliation,
            ) == opt_view(authors@[k].1),
        r.tags@.len() == tags@.len(),
        forall|k: int|
            0 <= k < tags@.len() ==> {
                &&& (#[trigger] r.tags@[k]).id@ == tags@[k].id@
                &&& r.tags@[k].name@ == tags@[k].name@
                &&& opt_view(r.tags@[k].color) == opt_view(tags@[k].color)
            },
        r.attachments@.len() == paper_files(db_attachments@, local@, disk@).len(),
        forall|k: int|
            0 <= k < r.attachments@.len() ==> attachment_view(#[trigger] r.attachments@[k])
                == paper_files(db_attachments@, local@, disk@)[k],
        r.has_pdf == shows_pdf(paper_files(db_attachments@, local@, disk@)),
        r.has_html == shows_html(paper_files(db_attachments@, local@, disk@)),
        r.notes@ == notes@,
{
    let scanned = merge_attachments(db_attachments, local, disk);
    let ghost files = paper_files(db_attachments@, local@, disk@);
    let mut has_pdf = false;
    let mut has_html = false;
    let mut k: usize = 0;
    while k < scanned.len()
        invariant
            k <= scanned@.len(),
            scanned@.len() == files.len(),
            forall|j: int| 0 <= j < scanned@.len() ==> attachment_view(#[trigger] scanned@[j]) == files[j],
            has_pdf == exists|i: int| 0 <= i < k && #[trigger] files[i].2 == "pdf"@,
            has_html == exists|i: int| 0 <= i < k && #[trigger] files[i].2 == "html"@ && files[i].1 != "abs.html"@,
        decreases scanned.len() - k,
    {
        let a = &scanned[k];
        assert(attachment_view(scanned@[k as int]) == files[k as int]);
        assert(files[k as int].2 == a.file_type@ && files[k as int].1 == a.filename@);
        let is_pdf = str_eq(a.file_type.as_str(), "pdf");
        let is_html = str_eq(a.file_type.as_str(), "html") && !str_eq(a.filename.as_str(), "abs.html");
        if is_pdf {
            has_pdf = true;
        }
        if is_html {
            has_html = true;
        }
        assert(has_pdf == exists|i: int| 0 <= i < k + 1 && #[trigger] files[i].2 == "pdf"@) by {
            if !is_pdf && exists|i: int| 0 <= i < k + 1 && #[trigger] files[i].2 == "pdf"@ {
                let i = choose|i: int| 0 <= i < k + 1 && #[trigger] files[i].2 == "pdf"@;
                assert(i < k);
            }
        }
        assert(has_html == exists|i: int| 0 <= i < k + 1 && #[trigger] files[i].2 == "html"@ && files[i].1 != "abs.html"@) by {
            if !is_html && exists|i: int| 0 <= i < k + 1 && #[trigger] files[i].2 == "html"@ && files[i].1 != "abs.html"@ {
                let i = choose|i: int| 0 <= i < k + 1 && #[trigger] files[i].2 == "html"@ && files[i].1 != "abs.html"@;
                assert(i < k);
            }
        }
        k = k + 1;
    }
    let mut author_list: Vec<AuthorResponse> = Vec::new();
    let mut i: usize = 0;
    while i < authors.len()
        invariant
            i <= authors@.len(),
            author_list@.len() == i,
            forall|j: int|
                0 <= j < i ==> (#[trigger] author_list@[j]).name@ == authors@[j].0@ && opt_view(
                    author_list@[j].affiliation,
                ) == opt_view(authors@[j].1),
        decreases authors.len() - i,
    {
        author_list.push(
            AuthorResponse { name: authors[i].0.clone(), affiliation: copy_opt(&authors[i].1) },
        );
        i = i + 1;
    }
    let mut tag_list: Vec<TagResponse> = Vec::new();
    let mut t: usize = 0;
    while t < tags.len()
        invariant
            t <= tags@.len(),
            tag_list@.len() == t,
            forall|j: int|
                0 <= j < t ==> {
                    &&& (#[trigger] tag_list@[j]).id@ == tags@[j].id@
                    &&& tag_list@[j].name@ == tags@[j].name@
                    &&& opt_view(tag_list@[j].color) == opt_view(tags@[j].color)
                },
        decreases tags.len() - t,
    {
        tag_list.push(
            TagResponse {
                id: tags[t].id.clone(),
                name: tags[t].name.clone(),
                color: copy_opt(&tags[t].color),
            },
        );
        t = t + 1;
    }
    PaperResponse {
        id: row.id.clone(),
        slug: row.slug.clone(),
        title: row.title.clone(),
        short_title: copy_opt(&row.short_title),
        authors: author_list,
        abstract_text: copy_opt(&row.abstract_text),
        doi: copy_opt(&row.doi),
        arxiv_id: copy_opt(&row.arxiv_id),
        url: copy_opt(&row.url),
        pdf_url: copy_opt(&row.pdf_url),
        html_url: copy_opt(&row.html_url),
        thumbnail_url: copy_opt(&row.thumbnail_url),
        published_date: copy_opt(&row.published_date),
        added_date: row.added_date.clone(),
        modified_date: row.modified_date.clone(),
        source: copy_opt(&row.source),
        read_status: row.read_status.clone(),
        rating: row.rating,
        tags: tag_list,
        attachments: scanned,
        has_pdf,
        has_html,
        notes,
        extra_json: copy_opt(&row.extra_json),
        entry_type: copy_opt(&row.entry_type),
        journal: copy_opt(&row.journal),
        volume: copy_opt(&row.volume),
        issue: copy_opt(&row.issue),
        pages: copy_opt(&row.pages),
        publisher: copy_opt(&row.publisher),
        issn: copy_opt(&row.issn),
        isbn: copy_opt(&row.isbn),
        pdf_downloaded: row.pdf_downloaded,
        html_downloaded: row.html_downloaded,
    }
}

/// The `n`-th alternative name for a file with stem `stem` and extension `ext`:
/// `stem (n).ext`, or `stem (n)` without an extension.
pub open spec fn numbered_name(stem: Seq<char>, ext: Seq<char>, n: nat) -> Seq<char> {
    if ext.len() == 0 {
        stem + " ("@ + decimal(n) + ")"@
    } else {
        stem + " ("@ + decimal(n) + ")."@ + ext
    }
}

proof fn lemma_numbered_injective(stem: Seq<char>, ext: Seq<char>, a: nat, b: nat)
    requires
        numbered_name(stem, ext, a) == numbered_name(stem, ext, b),
    ensures
        a == b,
{
    reveal_strlit(" (");
    reveal_strlit(")");
    reveal_strlit(").");
    let p = stem + " ("@;
    let da = decimal(a);
    let db = decimal(b);
    let tail = if ext.len() == 0 {
        ")"@
    } else {
        ")."@ + ext
    };
    assert(numbered_name(stem, ext, a) =~= p + da + tail);
    assert(numbered_name(stem, ext, b) =~= p + db + tail);
    assert(da.len() == db.len());
    assert((p + da + tail).subrange(p.len() as int, (p.len() + da.len()) as int) =~= da);
    assert((p + db + tail).subrange(p.len() as int, (p.len() + db.len()) as int) =~= db);
    lemma_decimal_injective(a, b);
}

/// The first `c` alternative names.
pub open spec fn first_numbered(stem: Seq<char>, ext: Seq<char>, c: nat) -> Seq<Seq<char>> {
    Seq::new(c, |m: int| numbered_name(stem, ext, (m + 1) as nat))
}

/// Pigeonhole: when the first `c` alternative names are all taken, there are at least
/// `c` taken names.
proof fn lemma_taken_count(stem: Seq<char>, ext: Seq<char>, c: nat, taken: Seq<Seq<char>>)
    requires
        forall|m: int| 1 <= m <= c ==> taken.contains(#[trigger] numbered_name(stem, ext, m as nat)),
    ensures
        c <= taken.len(),
{
    let cands = first_numbered(stem, ext, c);
    assert(cands.no_duplicates()) by {
        assert forall|i: int, j: int| 0 <= i < cands.len() && 0 <= j < cands.len() && i != j implies cands[i] != cands[j] by {
            if cands[i] == cands[j] {
                lemma_numbered_injective(stem, ext, (i + 1) as nat, (j + 1) as nat);
            }
        }
    }
    cands.unique_seq_to_set();
    taken.lemma_cardinality_of_set();
    assert(cands.to_set().subset_of(taken.to_set())) by {
        assert forall|x: Seq<char>| cands.to_set().contains(x) implies taken.to_set().contains(x) by {
            let i = choose|i: int| 0 <= i < cands.len() && cands[i] == x;
            assert(x == numbered_name(stem, ext, (i + 1) as nat));
            assert(taken.contains(numbered_name(stem, ext, (i + 1) as nat)));
        }
    }
    vstd::set_lib::lemma_len_subset(cands.to_set(), taken.to_set());
}

/// The name under which a file is attached: its own name (`attachment` when it has
/// none) when that is free, else the first free alternative `stem (n).ext`.
pub open spec fn free_attachment_name(file_name: Seq<char>, taken: Seq<Seq<char>>, r: Seq<char>) -> bool {
    &&& !taken.contains(r)
    &&& (!taken.contains(file_name) ==> r == file_name)
    &&& (taken.contains(file_name) ==> exists|n: nat|
        #[trigger] first_free(stem_of(file_name), ext_or_empty(file_name), taken, n) && r
            == numbered_name(stem_of(file_name), ext_or_empty(file_name), n))
}

/// The extension of a file name, or the empty text.
pub open spec fn ext_or_empty(name: Seq<char>) -> Seq<char> {
    match extension_of(name) {
        Some(e) => e,
        None => Seq::empty(),
    }
}

/// Whether `n` is the least number whose alternative name is not taken.
pub open spec fn first_free(stem: Seq<char>, ext: Seq<char>, taken: Seq<Seq<char>>, n: nat) -> bool {
    &&& n >= 1
    &&& !taken.contains(numbered_name(stem, ext, n))
    &&& forall|m: nat| 1 <= m < n ==> taken.contains(#[trigger] numbered_name(stem, ext, m))
}

fn numbered(stem: &str, ext: &str, n: u64) -> (r: String)
    ensures
        r@ == numbered_name(stem@, ext@, n as nat),
{
    let mut v = chars_of(stem);
    push_str(&mut v, " (");
    push_decimal(&mut v, n);
    if ext.is_empty() {
        push_str(&mut v, ")");
    } else {
        push_str(&mut v, ").");
        push_str(&mut v, ext);
    }
    string_from_chars(&v)
}

/// Chooses the name under which a file is attached among the names `taken` in the
/// paper's `attachments/` directory (see [`free_attachment_name`]).
pub fn unique_attachment_name(file_name: Option<&str>, taken: &Vec<String>) -> (r: String)
    requires
        taken@.len() < u64::MAX,
    ensures
        free_attachment_name(
            match file_name {
                Some(n) => n@,
                None => "attachment"@,
            },
            views_of(taken@),
            r@,
        ),
{
    let name = match file_name {
        Some(n) => n.to_owned(),
        None => "attachment".to_owned(),
    };
    if !names_contain(taken, name.as_str()) {
        return name;
    }
    let stem = file_stem(name.as_str());
    let ext = match file_extension(name.as_str()) {
        Some(e) => e,
        None => String::new(),
    };
    let ghost tv = views_of(taken@);
    let mut counter: u64 = 1;
    let mut cand = numbered(stem.as_str(), ext.as_str(), counter);
    while names_contain(taken, cand.as_str())
        invariant
            1 <= counter,
            counter <= taken@.len() + 1,
            tv == views_of(taken@),
            taken@.len() < u64::MAX,
            cand@ == numbered_name(stem@, ext@, counter as nat),
            forall|m: nat| 1 <= m < counter ==> tv.contains(#[trigger] numbered_name(stem@, ext@, m)),
        decreases taken@.len() + 1 - counter,
    {
        proof {
            assert forall|m: int| 1 <= m <= counter implies tv.contains(#[trigger] numbered_name(stem@, ext@, m as nat)) by {
                if m < counter {
                    assert(tv.contains(numbered_name(stem@, ext@, m as nat)));
                }
            }
            lemma_taken_count(stem@, ext@, counter as nat, tv);
        }
        counter = counter + 1;
        cand = numbered(stem.as_str(), ext.as_str(), counter);
    }
    proof {
        let e = match extension_of(name@) {
            Some(e) => e,
            None => Seq::<char>::empty(),
        };
        assert(ext@ == e);
        assert(stem@ == stem_of(name@));
        assert(numbered_name(stem_of(name@), e, counter as nat) == cand@);
        assert(!tv.contains(cand@));
        assert(tv.contains(name@));
        assert(first_free(stem_of(name@), e, tv, counter as nat));
        let fname = match file_name {
            Some(n) => n@,
            None => "attachment"@,
        };
        assert(fname == name@);
        assert(exists|n: nat| #[trigger] first_free(stem_of(fname), e, tv, n) && cand@ == numbered_name(stem_of(fname), e, n));
        assert(e == ext_or_empty(fname));
        assert(free_attachment_name(fname, tv, cand@));
    }
    cand
}

/// How a file is attached to a paper.
pub struct AttachmentPlan {
    /// The name in the paper's `attachments/` directory.
    pub dest_name: String,
    /// The path recorded, relative to the paper's directory.
    pub relative_path: String,
    /// The kind recorded (see [`kind_for`]).
    pub file_type: &'static str,
    /// The MIME type recorded (see [`mime_for`]).
    pub mime_type: &'static str,
}

/// Plans the attachment of a file named `file_name` to a paper whose `attachments/`
/// directory holds `taken`: a free name, the relative path `attachments/{name}`, and the
/// kind and MIME type of the file's lowercase extension.
pub fn plan_attachment(file_name: Option<&str>, taken: &Vec<String>) -> (r: AttachmentPlan)
    requires
        taken@.len() < u64::MAX,
    ensures
        free_attachment_name(
            match file_name {
                Some(n) => n@,
                None => "attachment"@,
            },
            views_of(taken@),
            r.dest_name@,
        ),
        r.relative_path@ == "attachments/"@ + r.dest_name@,
        r.file_type@ == kind_for(
            lower_ext(
                match file_name {
                    Some(n) => n@,
                    None => "attachment"@,
                },
            ),
        ),
        r.mime_type@ == mime_for(
            lower_ext(
                match file_name {
                    Some(n) => n@,
                    None => "attachment"@,
                },
            ),
        ),
{
    let dest_name = unique_attachment_name(file_name, taken);
    let name = match file_name {
        Some(n) => n,
        None => "attachment",
    };
    let ext = lowercase_extension(name);
    let relative_path = concat("attachments/", dest_name.as_str());
    AttachmentPlan {
        dest_name,
        relative_path,
        file_type: attachment_file_type(ext.as_str()),
        mime_type: mime_from_ext(ext.as_str()),
    }
}


/// The files the reader opens.
pub enum ReaderFile {
    /// The paper's PDF: `paper.pdf`, else a PDF attachment.
    Pdf,
    /// The paper's full-text HTML: `paper.html`, else an HTML attachment (never the
    /// abstract page `abs.html`).
    Html,
}

/// Where the reader finds a paper's file of the given kind: `None` for the main file
/// (`paper.pdf` or `paper.html`, whose path is `main_path`) when it exists, else the
/// first attachment of that kind whose file exists (`atts` gives each attachment's
/// type and whether its file exists); else an error naming the main file.
pub fn reader_file_source(kind: ReaderFile, main_path: &str, main_exists: bool, atts: &Vec<(String, bool)>) -> (r: Result<
    Option<usize>,
    String,
>)
    ensures
        main_exists ==> r == Ok::<Option<usize>, String>(None),
        !main_exists ==> match (kind, crate::translation::first_existing_from(
            atts@,
            if kind is Pdf {
                "pdf"@
            } else {
                "html"@
            },
            0,
        )) {
            (_, Some(k)) => r matches Ok(Some(j)) && j == k,
            (ReaderFile::Pdf, None) => r matches Err(e) && e@ == "PDF file not found: "@ + main_path@,
            (ReaderFile::Html, None) => r matches Err(e) && e@ == "HTML file not found: "@ + main_path@,
        },
{
    if main_exists {
        return Ok(None);
    }
    match kind {
        ReaderFile::Pdf => match crate::translation::first_existing(atts, "pdf") {
            Some(k) => Ok(Some(k)),
            None => Err(crate::text::concat("PDF file not found: ", main_path)),
        },
        ReaderFile::Html => match crate::translation::first_existing(atts, "html") {
            Some(k) => Ok(Some(k)),
            None => Err(crate::text::concat("HTML file not found: ", main_path)),
        },
    }
}

/// Where a named file of a paper lies: in the paper's directory (`false`) or else in
/// its `attachments/` directory (`true`); an error when it is in neither.
pub fn paper_file_location(in_root: bool, in_attachments: bool, filename: &str) -> (r: Result<bool, String>)
    ensures
        in_root ==> r == Ok::<bool, String>(false),
        !in_root && in_attachments ==> r == Ok::<bool, String>(true),
        !in_root && !in_attachments ==> (r matches Err(e) && e@ == "File not found: "@ + filename@),
{
    if in_root {
        Ok(false)
    } else if in_attachments {
        Ok(true)
    } else {
        Err(crate::text::concat("File not found: ", filename))
    }
}

} // verus!
