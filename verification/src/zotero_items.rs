//! Importing the items of a Zotero library: which papers are duplicates, how an item
//! becomes a paper, where its attachments go, and how its notes and annotations are
//! carried over.
use vstd::prelude::*;
use crate::html::{note_text, strip_html_for_note};
use crate::text::{
    chars_occur_at, chars_of, concat, contains_seq, copy_range, occurs_at, opt_view, parse_i64,
    parsed_i64, push_str, str_contains, str_eq, string_from_chars, trim, trim_bounds,
};
use crate::zotero::{
    arxiv_from_fields, creator_display_name, extract_arxiv_from_fields, field_value, format_creator_name,
    get_field, map_zotero_item_type, zotero_entry_type, ZoteroCreatorData,
};

verus! {

broadcast use vstd::string::group_string_axioms;

/// What a scan of a Zotero data directory found.
pub struct ZoteroScanResult {
    pub valid: bool,
    pub error: Option<String>,
    pub total_items: usize,
    pub total_collections: usize,
    pub total_tags: usize,
    pub total_attachments: usize,
    pub total_notes: usize,
    pub total_annotations: usize,
    /// PDF attachments whose files are not on this machine.
    pub cloud_attachments: usize,
}

/// A progress report of a running import.
pub struct ZoteroImportProgress {
    pub phase: String,
    pub current: usize,
    pub total: usize,
    pub message: String,
}

/// The outcome of an import.
pub struct ZoteroImportResult {
    pub papers_imported: usize,
    pub papers_skipped: usize,
    pub collections_imported: usize,
    pub notes_imported: usize,
    pub attachments_copied: usize,
    pub attachments_missing: usize,
    pub annotations_imported: usize,
    pub errors: Vec<String>,
}

/// What the user chose to import.
pub struct ZoteroImportOptions {
    pub zotero_dir: String,
    pub import_collections: bool,
    pub import_notes: bool,
    pub import_attachments: bool,
    pub import_annotations: bool,
}

/// An attachment of a Zotero item. `link_mode` is Zotero's: 0 an imported file, 1 an
/// imported URL snapshot, 2 a linked file, 3 a linked URL.
pub struct ZoteroAttachmentData {
    pub key: String,
    pub content_type: Option<String>,
    pub path: Option<String>,
    pub link_mode: i64,
}

/// An annotation of a Zotero PDF.
pub struct ZoteroAnnotationData {
    pub annotation_type: String,
    pub text: Option<String>,
    pub comment: Option<String>,
    pub color: Option<String>,
    pub page_label: Option<String>,
    pub position: Option<String>,
    pub parent_item_id: i64,
}

impl ZoteroImportResult {
    /// Counts an outcome of the import (see [`tally_after`] and [`errors_after`]).
    pub fn record(&mut self, event: ImportEvent)
        requires
            counts_below_max(*old(self)),
        ensures
            tally(*final(self)) == tally_after(tally(*old(self)), event),
            error_texts(*final(self)) == errors_after(error_texts(*old(self)), event),
    {
        let ghost before = error_texts(*self);
        let ghost ev = event;
        match event {
            ImportEvent::CollectionCreated => self.collections_imported = self.collections_imported + 1,
            ImportEvent::CollectionFailed { name, error } => self.errors.push(named_error("Collection", name.as_str(), error.as_str())),
            ImportEvent::PaperSkipped => self.papers_skipped = self.papers_skipped + 1,
            ImportEvent::PaperImported => self.papers_imported = self.papers_imported + 1,
            ImportEvent::PaperFailed { title, error } => self.errors.push(named_error("Paper", title.as_str(), error.as_str())),
            ImportEvent::NoteImported => self.notes_imported = self.notes_imported + 1,
            ImportEvent::NoteFailed { title, error } => self.errors.push(named_error("Note for", title.as_str(), error.as_str())),
            ImportEvent::AttachmentCopied => self.attachments_copied = self.attachments_copied + 1,
            ImportEvent::AttachmentMissing => self.attachments_missing = self.attachments_missing + 1,
            ImportEvent::AttachmentFailed { title, error } => self.errors.push(
                named_error("Copy attachment for", title.as_str(), error.as_str()),
            ),
            ImportEvent::AnnotationImported => self.annotations_imported = self.annotations_imported + 1,
            ImportEvent::AnnotationFailed { error } => record_annotation_error(&mut self.errors, error.as_str()),
        }
        assert(error_texts(*self) =~= errors_after(before, ev));
    }

    /// An import that has done nothing yet.
    pub fn new() -> (r: ZoteroImportResult)
        ensures
            r.papers_imported == 0,
            r.papers_skipped == 0,
            r.collections_imported == 0,
            r.notes_imported == 0,
            r.attachments_copied == 0,
            r.attachments_missing == 0,
            r.annotations_imported == 0,
            r.errors@.len() == 0,
    {
        ZoteroImportResult {
            papers_imported: 0,
            papers_skipped: 0,
            collections_imported: 0,
            notes_imported: 0,
            attachments_copied: 0,
            attachments_missing: 0,
            annotations_imported: 0,
            errors: Vec::new(),
        }
    }
}

/// The optional phases of a Zotero import.
pub enum ImportPhase {
    Collections,
    Attachments,
    Notes,
    Annotations,
}

impl ZoteroImportOptions {
    /// Whether the import runs a phase: each runs exactly when the user chose it (papers
    /// are always imported).
    pub fn runs(&self, phase: ImportPhase) -> (r: bool)
        ensures
            r == match phase {
                ImportPhase::Collections => self.import_collections,
                ImportPhase::Attachments => self.import_attachments,
                ImportPhase::Notes => self.import_notes,
                ImportPhase::Annotations => self.import_annotations,
            },
    {
        match phase {
            ImportPhase::Collections => self.import_collections,
            ImportPhase::Attachments => self.import_attachments,
            ImportPhase::Notes => self.import_notes,
            ImportPhase::Annotations => self.import_annotations,
        }
    }
}

/// An outcome during a Zotero import, as it is counted in the import's result.
pub enum ImportEvent {
    CollectionCreated,
    CollectionFailed { name: String, error: String },
    PaperSkipped,
    PaperImported,
    PaperFailed { title: String, error: String },
    NoteImported,
    NoteFailed { title: String, error: String },
    AttachmentCopied,
    AttachmentMissing,
    AttachmentFailed { title: String, error: String },
    AnnotationImported,
    AnnotationFailed { error: String },
}

/// The counts of an import result, in the order of its fields.
pub open spec fn tally(r: ZoteroImportResult) -> (int, int, int, int, int, int, int) {
    (
        r.papers_imported as int,
        r.papers_skipped as int,
        r.collections_imported as int,
        r.notes_imported as int,
        r.attachments_copied as int,
        r.attachments_missing as int,
        r.annotations_imported as int,
    )
}

/// The error texts of an import result.
pub open spec fn error_texts(r: ZoteroImportResult) -> Seq<Seq<char>> {
    Seq::new(r.errors@.len(), |i: int| r.errors@[i]@)
}

/// Whether every count can still grow by one.
pub open spec fn counts_below_max(r: ZoteroImportResult) -> bool {
    &&& r.papers_imported < usize::MAX
    &&& r.papers_skipped < usize::MAX
    &&& r.collections_imported < usize::MAX
    &&& r.notes_imported < usize::MAX
    &&& r.attachments_copied < usize::MAX
    &&& r.attachments_missing < usize::MAX
    &&& r.annotations_imported < usize::MAX
}

/// The counts after an event: the one count it concerns grows by one (a failure counts
/// nothing).
pub open spec fn tally_after(t: (int, int, int, int, int, int, int), e: ImportEvent) -> (int, int, int, int, int, int, int) {
    let (p, s, c, n, a, m, x) = t;
    match e {
        ImportEvent::CollectionCreated => (p, s, c + 1, n, a, m, x),
        ImportEvent::PaperSkipped => (p, s + 1, c, n, a, m, x),
        ImportEvent::PaperImported => (p + 1, s, c, n, a, m, x),
        ImportEvent::NoteImported => (p, s, c, n + 1, a, m, x),
        ImportEvent::AttachmentCopied => (p, s, c, n, a + 1, m, x),
        ImportEvent::AttachmentMissing => (p, s, c, n, a, m + 1, x),
        ImportEvent::AnnotationImported => (p, s, c, n, a, m, x + 1),
        _ => t,
    }
}

/// The error list after an event: a failure adds its message (`Collection '…': …`,
/// `Paper '…': …`, `Note for '…': …`, `Copy attachment for '…': …`); an annotation
/// failure adds `Annotation: …` while fewer than [`MAX_ANNOTATION_ERRORS`] errors are
/// listed; anything else adds nothing.
pub open spec fn errors_after(errs: Seq<Seq<char>>, e: ImportEvent) -> Seq<Seq<char>> {
    match e {
        ImportEvent::CollectionFailed { name, error } => errs.push("Collection"@ + " '"@ + name@ + "': "@ + error@),
        ImportEvent::PaperFailed { title, error } => errs.push("Paper"@ + " '"@ + title@ + "': "@ + error@),
        ImportEvent::NoteFailed { title, error } => errs.push("Note for"@ + " '"@ + title@ + "': "@ + error@),
        ImportEvent::AttachmentFailed { title, error } => errs.push(
            "Copy attachment for"@ + " '"@ + title@ + "': "@ + error@,
        ),
        ImportEvent::AnnotationFailed { error } => if errs.len() < MAX_ANNOTATION_ERRORS {
            errs.push("Annotation: "@ + error@)
        } else {
            errs
        },
        _ => errs,
    }
}

/// A lookup of column `col` for the value `v`, made only when the value is present and
/// not empty.
pub open spec fn lookup(col: Seq<char>, v: Option<Seq<char>>) -> Seq<(Seq<char>, Seq<char>)> {
    match v {
        Some(x) => if x.len() > 0 {
            seq![(col, x)]
        } else {
            Seq::empty()
        },
        None => Seq::empty(),
    }
}

/// The lookups that decide whether an item is already in the library, in order: by DOI,
/// by arXiv id, by URL. The item is a duplicate when any of them finds a paper.
pub open spec fn duplicate_keys(
    doi: Option<Seq<char>>,
    arxiv_id: Option<Seq<char>>,
    url: Option<Seq<char>>,
) -> Seq<(Seq<char>, Seq<char>)> {
    lookup("doi"@, doi) + lookup("arxiv_id"@, arxiv_id) + lookup("url"@, url)
}

fn push_lookup(out: &mut Vec<(&'static str, String)>, col: &'static str, v: Option<&str>)
    ensures
        final(out)@.len() == old(out)@.len() + lookup(col@, opt_str(v)).len(),
        forall|k: int| 0 <= k < old(out)@.len() ==> #[trigger] final(out)@[k] == old(out)@[k],
        forall|k: int|
            0 <= k < lookup(col@, opt_str(v)).len() ==> (#[trigger] final(out)@[old(out)@.len() + k]).0@
                == lookup(col@, opt_str(v))[k].0 && final(out)@[old(out)@.len() + k].1@ == lookup(
                col@,
                opt_str(v),
            )[k].1,
{
    if let Some(x) = v {
        if !x.is_empty() {
            out.push((col, x.to_owned()));
        }
    }
}

/// The view of an optional text.
pub open spec fn opt_str(v: Option<&str>) -> Option<Seq<char>> {
    match v {
        Some(x) => Some(x@),
        None => None,
    }
}

/// The lookups for duplicates of an item (see [`duplicate_keys`]), as `(column, value)`.
pub fn duplicate_lookups(doi: Option<&str>, arxiv_id: Option<&str>, url: Option<&str>) -> (r: Vec<
    (&'static str, String),
>)
    ensures
        r@.len() == duplicate_keys(opt_str(doi), opt_str(arxiv_id), opt_str(url)).len(),
        forall|k: int|
            0 <= k < r@.len() ==> (#[trigger] r@[k]).0@ == duplicate_keys(
                opt_str(doi),
                opt_str(arxiv_id),
                opt_str(url),
            )[k].0 && r@[k].1@ == duplicate_keys(opt_str(doi), opt_str(arxiv_id), opt_str(url))[k].1,
{
    let mut out: Vec<(&'static str, String)> = Vec::new();
    push_lookup(&mut out, "doi", doi);
    let ghost o1 = out@;
    push_lookup(&mut out, "arxiv_id", arxiv_id);
    let ghost o2 = out@;
    push_lookup(&mut out, "url", url);
    let ghost a = lookup("doi"@, opt_str(doi));
    let ghost b = lookup("arxiv_id"@, opt_str(arxiv_id));
    let ghost c = lookup("url"@, opt_str(url));
    assert forall|k: int| 0 <= k < out@.len() implies (#[trigger] out@[k]).0@ == (a + b + c)[k].0 && out@[k].1@
        == (a + b + c)[k].1 by {
        if k < a.len() {
            assert(out@[k] == o2[k]);
            assert(o2[k] == o1[k]);
            assert(o1[0 + k] == o1[k]);
        } else if k < a.len() + b.len() {
            assert(out@[k] == o2[k]);
            assert(o2[o1.len() + (k - a.len())] == o2[k]);
        } else {
            assert(out@[o2.len() + (k - a.len() - b.len())] == out@[k]);
        }
    }
    out
}

/// A lookup by the condition `cond` for the value `v`, made whenever a value is given.
pub open spec fn given_lookup(cond: Seq<char>, v: Option<Seq<char>>) -> Seq<(Seq<char>, Seq<char>)> {
    match v {
        Some(x) => seq![(cond, x)],
        None => Seq::empty(),
    }
}

/// The lookups that find the library paper a Zotero item's annotations belong to, in
/// order, as SQL conditions on `papers` with the value they compare: by DOI, by arXiv id,
/// by URL, then by exact title among papers imported from Zotero. The first that finds a
/// paper decides.
pub open spec fn paper_match_keys(
    doi: Option<Seq<char>>,
    arxiv_id: Option<Seq<char>>,
    url: Option<Seq<char>>,
    title: Option<Seq<char>>,
) -> Seq<(Seq<char>, Seq<char>)> {
    given_lookup("doi = ?1"@, doi) + given_lookup("arxiv_id = ?1"@, arxiv_id) + given_lookup(
        "url = ?1"@,
        url,
    ) + given_lookup("title = ?1 AND source = 'zotero-import'"@, title)
}

/// The view of a list of lookups.
pub open spec fn lookups_view(v: Seq<(&'static str, String)>) -> Seq<(Seq<char>, Seq<char>)> {
    Seq::new(v.len(), |i: int| (v[i].0@, v[i].1@))
}

fn push_given(out: &mut Vec<(&'static str, String)>, cond: &'static str, v: Option<&str>)
    ensures
        lookups_view(final(out)@) == lookups_view(old(out)@) + given_lookup(cond@, opt_str(v)),
{
    if let Some(x) = v {
        out.push((cond, x.to_owned()));
    }
    assert(lookups_view(out@) =~= lookups_view(old(out)@) + given_lookup(cond@, opt_str(v)));
}

/// The lookups that find the library paper of a Zotero item (see [`paper_match_keys`]),
/// as `(condition, value)`.
pub fn paper_match_lookups(doi: Option<&str>, arxiv_id: Option<&str>, url: Option<&str>, title: Option<&str>) -> (r: Vec<(&'static str, String)>)
    ensures
        lookups_view(r@) == paper_match_keys(opt_str(doi), opt_str(arxiv_id), opt_str(url), opt_str(title)),
{
    let mut out: Vec<(&'static str, String)> = Vec::new();
    assert(lookups_view(out@) =~= Seq::empty());
    push_given(&mut out, "doi = ?1", doi);
    push_given(&mut out, "arxiv_id = ?1", arxiv_id);
    push_given(&mut out, "url = ?1", url);
    push_given(&mut out, "title = ?1 AND source = 'zotero-import'", title);
    out
}

/// The title of a Zotero item: its `title` field, else `Untitled`.
pub open spec fn item_title(fields: Seq<(String, String)>) -> Seq<char> {
    match field_value(fields, "title"@) {
        Some(t) => t,
        None => "Untitled"@,
    }
}

/// The identifier a new paper's directory name is derived from: the item's DOI, else
/// its arXiv id, else its URL, else its title.
pub open spec fn item_identifier(fields: Seq<(String, String)>) -> Seq<char> {
    match field_value(fields, "DOI"@) {
        Some(d) => d,
        None => match arxiv_from_fields(fields) {
            Some(a) => a,
            None => match field_value(fields, "url"@) {
                Some(u) => u,
                None => item_title(fields),
            },
        },
    }
}

/// The display names of the item's authors, in order.
pub open spec fn author_names(cs: Seq<ZoteroCreatorData>) -> Seq<Seq<char>>
    decreases cs.len(),
{
    if cs.len() == 0 {
        Seq::empty()
    } else {
        let rest = author_names(cs.drop_last());
        let c = cs.last();
        if c.creator_type@ == "author"@ {
            rest.push(creator_display_name(opt_view(c.first_name), opt_view(c.last_name), opt_view(c.name)))
        } else {
            rest
        }
    }
}

/// The positions of the item's other creators (editors, translators, ...), in order.
pub open spec fn other_creators(cs: Seq<ZoteroCreatorData>) -> Seq<usize>
    decreases cs.len(),
{
    if cs.len() == 0 {
        Seq::empty()
    } else {
        let rest = other_creators(cs.drop_last());
        if cs.last().creator_type@ == "author"@ {
            rest
        } else {
            rest.push((cs.len() - 1) as usize)
        }
    }
}

/// How a Zotero item becomes a paper.
pub struct ZoteroPaperPlan {
    pub title: String,
    /// What the paper's directory name is derived from.
    pub identifier: String,
    pub short_title: Option<String>,
    pub abstract_text: Option<String>,
    pub doi: Option<String>,
    pub arxiv_id: Option<String>,
    pub url: Option<String>,
    pub published_date: Option<String>,
    pub entry_type: String,
    pub journal: Option<String>,
    pub volume: Option<String>,
    pub issue: Option<String>,
    pub pages: Option<String>,
    pub publisher: Option<String>,
    pub issn: Option<String>,
    pub isbn: Option<String>,
    /// The authors' names, stored as the paper's authors.
    pub authors: Vec<String>,
    /// The positions of the other creators, kept in the paper's extra data.
    pub other_creators: Vec<usize>,
}

/// Whether `p` is the paper that a Zotero item of type `item_type` with the fields
/// `fields` and the creators `cs` becomes: Zotero's fields map onto the paper's
/// (`shortTitle`, `abstractNote`, `DOI`, `url`, `date`, `publicationTitle`, `volume`,
/// `issue`, `pages`, `publisher`, `ISSN`, `ISBN`), the arXiv id is found in the URL or
/// the `extra` field, and the item type gives the entry type.
pub open spec fn paper_plan(
    item_type: Seq<char>,
    fields: Seq<(String, String)>,
    cs: Seq<ZoteroCreatorData>,
    p: ZoteroPaperPlan,
) -> bool {
    &&& p.title@ == item_title(fields)
    &&& p.identifier@ == item_identifier(fields)
    &&& opt_view(p.short_title) == field_value(fields, "shortTitle"@)
    &&& opt_view(p.abstract_text) == field_value(fields, "abstractNote"@)
    &&& opt_view(p.doi) == field_value(fields, "DOI"@)
    &&& opt_view(p.arxiv_id) == arxiv_from_fields(fields)
    &&& opt_view(p.url) == field_value(fields, "url"@)
    &&& opt_view(p.published_date) == field_value(fields, "date"@)
    &&& p.entry_type@ == zotero_entry_type(item_type)
    &&& opt_view(p.journal) == field_value(fields, "publicationTitle"@)
    &&& opt_view(p.volume) == field_value(fields, "volume"@)
    &&& opt_view(p.issue) == field_value(fields, "issue"@)
    &&& opt_view(p.pages) == field_value(fields, "pages"@)
    &&& opt_view(p.publisher) == field_value(fields, "publisher"@)
    &&& opt_view(p.issn) == field_value(fields, "ISSN"@)
    &&& opt_view(p.isbn) == field_value(fields, "ISBN"@)
    &&& crate::library::views_of(p.authors@) == author_names(cs)
    &&& p.other_creators@ == other_creators(cs)
}

fn clone_opt(o: &Option<String>) -> (r: Option<String>)
    ensures
        opt_view(r) == opt_view(*o),
{
    match o {
        Some(s) => Some(s.clone()),
        None => None,
    }
}

/// Plans how a Zotero item becomes a paper (see [`paper_plan`]).
pub fn plan_zotero_paper(item_type: &str, fields: &Vec<(String, String)>, creators: &Vec<ZoteroCreatorData>) -> (r:
    ZoteroPaperPlan)
    ensures
        paper_plan(item_type@, fields@, creators@, r),
{
    let title = match get_field(fields, "title") {
        Some(t) => t,
        None => "Untitled".to_owned(),
    };
    let doi = get_field(fields, "DOI");
    let arxiv_id = extract_arxiv_from_fields(fields);
    let url = get_field(fields, "url");
    let identifier = match &doi {
        Some(d) => d.clone(),
        None => match &arxiv_id {
            Some(a) => a.clone(),
            None => match &url {
                Some(u) => u.clone(),
                None => title.clone(),
            },
        },
    };
    let mut authors: Vec<String> = Vec::new();
    let mut others: Vec<usize> = Vec::new();
    let mut k: usize = 0;
    while k < creators.len()
        invariant
            k <= creators@.len(),
            crate::library::views_of(authors@) == author_names(creators@.take(k as int)),
            others@ == other_creators(creators@.take(k as int)),
        decreases creators.len() - k,
    {
        let c = &creators[k];
        assert(creators@.take(k + 1).drop_last() =~= creators@.take(k as int));
        assert(creators@.take(k + 1).last() == *c);
        if str_eq(c.creator_type.as_str(), "author") {
            authors.push(format_creator_name(c));
            assert(crate::library::views_of(authors@) =~= author_names(creators@.take(k + 1)));
        } else {
            others.push(k);
        }
        k = k + 1;
    }
    assert(creators@.take(creators@.len() as int) =~= creators@);
    ZoteroPaperPlan {
        title,
        identifier,
        short_title: get_field(fields, "shortTitle"),
        abstract_text: get_field(fields, "abstractNote"),
        doi: clone_opt(&doi),
        arxiv_id: clone_opt(&arxiv_id),
        url: clone_opt(&url),
        published_date: get_field(fields, "date"),
        entry_type: map_zotero_item_type(item_type),
        journal: get_field(fields, "publicationTitle"),
        volume: get_field(fields, "volume"),
        issue: get_field(fields, "issue"),
        pages: get_field(fields, "pages"),
        publisher: get_field(fields, "publisher"),
        issn: get_field(fields, "ISSN"),
        isbn: get_field(fields, "ISBN"),
        authors,
        other_creators: others,
    }
}

/// Where the file of an attachment is looked for.
pub enum AttachmentOrigin {
    /// In Zotero's `storage/<key>/` directory (imported files and snapshots).
    Stored,
    /// At the path Zotero recorded (linked files).
    Linked,
    /// Nowhere: a linked URL has no local file.
    Remote,
}

/// The origin of an attachment's file from Zotero's link mode.
pub fn attachment_origin(link_mode: i64) -> (r: AttachmentOrigin)
    ensures
        link_mode > 2 ==> r is Remote,
        link_mode == 2 ==> r is Linked,
        link_mode < 2 ==> r is Stored,
{
    if link_mode > 2 {
        AttachmentOrigin::Remote
    } else if link_mode == 2 {
        AttachmentOrigin::Linked
    } else {
        AttachmentOrigin::Stored
    }
}

/// The file name in a stored attachment's path hint: Zotero writes `storage:<name>`.
pub open spec fn storage_hint_name(p: Seq<char>) -> Seq<char> {
    if occurs_at(p, "storage:"@, 0) {
        p.skip(8)
    } else {
        p
    }
}

/// The file name in a stored attachment's path hint (see [`storage_hint_name`]).
pub fn storage_file_name(path: &str) -> (r: String)
    ensures
        r@ == storage_hint_name(path@),
{
    proof {
        reveal_strlit("storage:");
    }
    let v = chars_of(path);
    let prefix = chars_of("storage:");
    if chars_occur_at(&v, &prefix, 0) {
        let n = v.len();
        assert(v@.skip(8) =~= v@.subrange(8, n as int));
        string_from_chars(&copy_range(&v, 8, n))
    } else {
        path.to_owned()
    }
}

/// Whether an attachment's content type names a PDF.
pub open spec fn pdf_content(content_type: Option<String>) -> bool {
    match content_type {
        Some(c) => contains_seq(c@, "pdf"@),
        None => false,
    }
}

/// Whether `s` ends with `suffix`.
pub open spec fn ends_with_seq(s: Seq<char>, suffix: Seq<char>) -> bool {
    s.len() >= suffix.len() && s.subrange(s.len() - suffix.len(), s.len() as int) == suffix
}

/// The kind an extra attachment is registered with: a PDF, an HTML page (by its name) or
/// another file.
pub open spec fn registered_kind(is_pdf: bool, name: Seq<char>) -> Seq<char> {
    if is_pdf {
        "pdf"@
    } else if ends_with_seq(name, ".html"@) || ends_with_seq(name, ".htm"@) {
        "html"@
    } else {
        "other"@
    }
}

/// What is done with one attachment of an item.
pub enum AttachmentStep {
    /// Its file is not on this machine; when it is the item's first PDF, the paper is
    /// marked as having no PDF and the file counts as missing.
    Missing { counts_as_missing_pdf: bool },
    /// Its file is copied as `dest_name`, into the paper's `attachments/` directory or
    /// beside `paper.pdf`, and registered (relative path and kind) unless it became
    /// `paper.pdf`.
    Copy { dest_name: String, into_attachments: bool, register: Option<(String, &'static str)> },
}

/// The step for an attachment with content type `content_type`, whose file was found
/// under the name `source_name` (`None` when it was not found), when `first_pdf` says
/// that no PDF of the item has been placed yet; `first_after` is that flag afterwards.
/// The first PDF found becomes the paper's `paper.pdf`.
pub open spec fn attachment_step(
    first_pdf: bool,
    content_type: Option<String>,
    source_name: Option<Seq<char>>,
    r: AttachmentStep,
    first_after: bool,
) -> bool {
    let pdf = pdf_content(content_type);
    match source_name {
        None => (r matches AttachmentStep::Missing { counts_as_missing_pdf: m } && m == (pdf && first_pdf))
            && first_after == first_pdf,
        Some(n) => {
            let dest = if pdf && first_pdf {
                "paper.pdf"@
            } else {
                n
            };
            &&& first_after == (first_pdf && !pdf)
            &&& r matches AttachmentStep::Copy { dest_name, into_attachments, register }
            &&& dest_name@ == dest
            &&& into_attachments == !(pdf && dest == "paper.pdf"@)
            &&& (dest == "paper.pdf"@ ==> register is None)
            &&& (dest != "paper.pdf"@ ==> (register matches Some((rel, kind)) && rel@ == "attachments/"@
                + dest && kind@ == registered_kind(pdf, dest)))
        },
    }
}

/// Once an item's PDF has been placed, a later attachment whose file is missing never
/// counts as a missing PDF (it does not undo the placed copy).
pub proof fn lemma_placed_pdf_stays(
    first_pdf: bool,
    content_type: Option<String>,
    name: Seq<char>,
    r: AttachmentStep,
    after: bool,
    content_type2: Option<String>,
    r2: AttachmentStep,
    after2: bool,
)
    requires
        attachment_step(first_pdf, content_type, Some(name), r, after),
        pdf_content(content_type),
        attachment_step(after, content_type2, None, r2, after2),
    ensures
        r2 matches AttachmentStep::Missing { counts_as_missing_pdf: false },
        !after2,
{
}

/// The attachments of one item, taken in order.
pub struct AttachmentImport {
    /// No PDF of the item has been placed yet.
    pub first_pdf: bool,
}

impl AttachmentImport {
    /// The start of an item's attachments.
    pub fn new() -> (r: AttachmentImport)
        ensures
            r.first_pdf,
    {
        AttachmentImport { first_pdf: true }
    }

    /// Decides what is done with the next attachment (see [`attachment_step`]).
    pub fn step(&mut self, content_type: &Option<String>, source_name: Option<String>) -> (r: AttachmentStep)
        ensures
            attachment_step(old(self).first_pdf, *content_type, opt_view(source_name), r, final(self).first_pdf),
    {
        proof {
            reveal_strlit("paper.pdf");
            reveal_strlit("pdf");
        }
        let pdf = match content_type {
            Some(c) => str_contains(c.as_str(), "pdf"),
            None => false,
        };
        match source_name {
            None => AttachmentStep::Missing { counts_as_missing_pdf: pdf && self.first_pdf },
            Some(n) => {
                let dest_name = if pdf && self.first_pdf {
                    self.first_pdf = false;
                    "paper.pdf".to_owned()
                } else {
                    n
                };
                let is_main = str_eq(dest_name.as_str(), "paper.pdf");
                let register = if is_main {
                    None
                } else {
                    let v = chars_of(dest_name.as_str());
                    let kind: &'static str = if pdf {
                        "pdf"
                    } else if crate::library::ends_with(&v, ".html") || crate::library::ends_with(&v, ".htm") {
                        "html"
                    } else {
                        "other"
                    };
                    Some((concat("attachments/", dest_name.as_str()), kind))
                };
                AttachmentStep::Copy { dest_name, into_attachments: !(pdf && is_main), register }
            },
        }
    }
}

/// The note text an item's note is imported as, when it is not blank.
pub fn note_to_import(html: &str) -> (r: Option<String>)
    ensures
        trim(note_text(html@)).len() > 0 ==> (r matches Some(t) && t@ == note_text(html@)),
        trim(note_text(html@)).len() == 0 ==> r is None,
{
    let content = strip_html_for_note(html);
    let v = chars_of(content.as_str());
    let (lo, hi) = trim_bounds(&v, 0, v.len());
    assert(v@.subrange(0, v@.len() as int) =~= v@);
    if lo < hi {
        Some(content)
    } else {
        None
    }
}

/// The kind of annotation a Zotero annotation becomes: an image annotation marks an
/// area, an unknown kind is taken as a highlight.
pub open spec fn zoro_annotation_kind(t: Seq<char>) -> Seq<char> {
    if t == "highlight"@ || t == "underline"@ || t == "note"@ || t == "ink"@ {
        t
    } else if t == "image"@ {
        "area"@
    } else {
        "highlight"@
    }
}

/// The kind of annotation a Zotero annotation becomes (see [`zoro_annotation_kind`]).
pub fn annotation_kind(t: &str) -> (r: &'static str)
    ensures
        r@ == zoro_annotation_kind(t@),
{
    if str_eq(t, "highlight") {
        "highlight"
    } else if str_eq(t, "underline") {
        "underline"
    } else if str_eq(t, "note") {
        "note"
    } else if str_eq(t, "ink") {
        "ink"
    } else if str_eq(t, "image") {
        "area"
    } else {
        "highlight"
    }
}

/// A Zotero annotation whose kind the reader also has (highlight, underline, note or ink)
/// keeps that kind on import, an image annotation becomes an area, any other kind a
/// highlight; so every imported kind is one of those four or an area.
pub proof fn lemma_shared_kinds_kept(t: Seq<char>)
    ensures
        (t == "highlight"@ || t == "underline"@ || t == "note"@ || t == "ink"@) ==> zoro_annotation_kind(t) == t,
        t == "image"@ ==> zoro_annotation_kind(t) == "area"@,
        !(t == "highlight"@ || t == "underline"@ || t == "note"@ || t == "ink"@ || t == "image"@)
            ==> zoro_annotation_kind(t) == "highlight"@,
        zoro_annotation_kind(t) == "highlight"@ || zoro_annotation_kind(t) == "underline"@
            || zoro_annotation_kind(t) == "note"@ || zoro_annotation_kind(t) == "ink"@
            || zoro_annotation_kind(t) == "area"@,
{
    reveal_strlit("highlight");
    reveal_strlit("underline");
    reveal_strlit("note");
    reveal_strlit("ink");
    reveal_strlit("image");
    assert("image"@.len() == 5 && "highlight"@.len() == 9 && "underline"@.len() == 9);
    assert("note"@.len() == 4 && "ink"@.len() == 3);
}

/// The colour of an imported annotation: Zotero's, else a light yellow.
pub fn annotation_color<'a>(color: Option<&'a str>) -> (r: &'a str)
    ensures
        r@ == match color {
            Some(c) => c@,
            None => "#ffe28f"@,
        },
{
    match color {
        Some(c) => c,
        None => "#ffe28f",
    }
}

/// The page of an imported annotation: its page label read as a number, else page 1.
pub fn annotation_page(page_label: Option<&str>) -> (r: i64)
    ensures
        r == match page_label {
            Some(p) => match parsed_i64(p@) {
                Some(n) => n,
                None => 1,
            },
            None => 1,
        },
{
    match page_label {
        Some(p) => match parse_i64(p) {
            Some(n) => n,
            None => 1,
        },
        None => 1,
    }
}

/// The most errors an import reports for annotations.
pub const MAX_ANNOTATION_ERRORS: usize = 50;

/// Records the failure of an annotation's import, while fewer than fifty errors are
/// recorded.
pub fn record_annotation_error(errors: &mut Vec<String>, err: &str)
    ensures
        old(errors)@.len() < MAX_ANNOTATION_ERRORS ==> final(errors)@.len() == old(errors)@.len() + 1
            && final(errors)@.last()@ == "Annotation: "@ + err@ && final(errors)@.drop_last() == old(errors)@,
        old(errors)@.len() >= MAX_ANNOTATION_ERRORS ==> final(errors)@ == old(errors)@,
{
    if errors.len() < MAX_ANNOTATION_ERRORS {
        errors.push(concat("Annotation: ", err));
        assert(errors@.drop_last() =~= old(errors)@);
    }
}

/// The error reported when something named `name` fails: `{what} '{name}': {err}`.
pub fn named_error(what: &str, name: &str, err: &str) -> (r: String)
    ensures
        r@ == what@ + " '"@ + name@ + "': "@ + err@,
{
    let mut v = chars_of(what);
    push_str(&mut v, " '");
    push_str(&mut v, name);
    push_str(&mut v, "': ");
    push_str(&mut v, err);
    string_from_chars(&v)
}

} // verus!
