//! Translation: which fields are sent for translation, and the PDF translation through
//! the external BabelDOC command (its checks, its command line, and its output).
use vstd::prelude::*;
use crate::paths::{extension_of, file_extension, file_stem, stem_of};
use crate::text::{
    boundary_at, byte_len, bytes_prefix, chars_of, concat, contains_seq, cut_at_bytes, decimal,
    decimal_string, lowercase_of, opt_view, push_all, push_str, split_whitespace, str_contains,
    str_eq, string_from_chars, to_lowercase, trim, trim_bounds, words,
};
use crate::zotero::{field_value, get_field};

verus! {

broadcast use vstd::string::group_string_axioms;

/// A cached translation of one field, with the text it translates.
pub struct TranslationResponse {
    pub field: String,
    pub original_text: String,
    pub translated_text: String,
    pub model: Option<String>,
    pub created_date: String,
}

/// One translated field of one of several entities.
pub struct BatchTranslationResponse {
    pub entity_id: String,
    pub field: String,
    pub translated_text: String,
}

/// A glossary entry.
pub struct GlossaryTermResponse {
    pub id: String,
    pub source_term: String,
    pub translated_term: String,
    pub target_lang: String,
    pub source: String,
    pub occurrence_count: i64,
    pub created_date: String,
    pub updated_date: String,
}

/// A glossary entry the user adds.
pub struct AddGlossaryTermInput {
    pub source_term: String,
    pub translated_term: String,
}

/// A new translation for a glossary entry.
pub struct UpdateGlossaryTermInput {
    pub id: String,
    pub translated_term: String,
}

/// A stored translation of one field.
pub struct TranslationRecord {
    pub field: String,
    pub translated_text: String,
    pub model: Option<String>,
    pub created_date: String,
}

/// The text of `field` among the entity's original texts, or the empty text.
pub open spec fn original_of(originals: Seq<(String, String)>, field: Seq<char>) -> Seq<char> {
    match field_value(originals, field) {
        Some(t) => t,
        None => Seq::empty(),
    }
}

/// Pairs each stored translation with the original text of its field (empty when the
/// entity has no such text any more), in the order of the records.
pub fn pair_translations(rows: Vec<TranslationRecord>, originals: &Vec<(String, String)>) -> (r: Vec<
    TranslationResponse,
>)
    ensures
        r@.len() == rows@.len(),
        forall|k: int|
            0 <= k < rows@.len() ==> {
                &&& (#[trigger] r@[k]).field@ == rows@[k].field@
                &&& r@[k].original_text@ == original_of(originals@, rows@[k].field@)
                &&& r@[k].translated_text@ == rows@[k].translated_text@
                &&& opt_view(r@[k].model) == opt_view(rows@[k].model)
                &&& r@[k].created_date@ == rows@[k].created_date@
            },
{
    let mut out: Vec<TranslationResponse> = Vec::new();
    let mut k: usize = 0;
    while k < rows.len()
        invariant
            k <= rows@.len(),
            out@.len() == k,
            forall|j: int|
                0 <= j < k ==> {
                    &&& (#[trigger] out@[j]).field@ == rows@[j].field@
                    &&& out@[j].original_text@ == original_of(originals@, rows@[j].field@)
                    &&& out@[j].translated_text@ == rows@[j].translated_text@
                    &&& opt_view(out@[j].model) == opt_view(rows@[j].model)
                    &&& out@[j].created_date@ == rows@[j].created_date@
                },
        decreases rows.len() - k,
    {
        let row = &rows[k];
        let original = match get_field(originals, row.field.as_str()) {
            Some(t) => t,
            None => String::new(),
        };
        let model = match &row.model {
            Some(m) => Some(m.clone()),
            None => None,
        };
        out.push(
            TranslationResponse {
                field: row.field.clone(),
                original_text: original,
                translated_text: row.translated_text.clone(),
                model,
                created_date: row.created_date.clone(),
            },
        );
        k = k + 1;
    }
    out
}

/// Whether a batch lookup of translations is made at all: only with a target language
/// and at least one entity.
pub fn batch_lookup_wanted(target_lang: &str, entity_ids: &Vec<String>) -> (r: bool)
    ensures
        r == (target_lang@.len() > 0 && entity_ids@.len() > 0),
{
    !target_lang.is_empty() && entity_ids.len() > 0
}

/// The error given when no native language is configured.
pub open spec fn no_native_lang() -> Seq<char> {
    "Native language not configured. Set it in Settings > AI / Translation."@
}

/// The fields of `fields` that are translated, each with its original text: those whose
/// original text is present and not empty, in the order asked for.
pub open spec fn fields_to_translate(fields: Seq<String>, originals: Seq<(String, String)>) -> Seq<
    (Seq<char>, Seq<char>),
>
    decreases fields.len(),
{
    if fields.len() == 0 {
        Seq::empty()
    } else {
        let rest = fields_to_translate(fields.drop_last(), originals);
        match field_value(originals, fields.last()@) {
            Some(t) => if t.len() > 0 {
                rest.push((fields.last()@, t))
            } else {
                rest
            },
            None => rest,
        }
    }
}

/// The text from which glossary terms are extracted: every translated original, each
/// followed by a line break.
pub open spec fn glossary_source(items: Seq<(Seq<char>, Seq<char>)>) -> Seq<char>
    decreases items.len(),
{
    if items.len() == 0 {
        Seq::empty()
    } else {
        glossary_source(items.drop_last()) + items.last().1 + "\n"@
    }
}

/// What a field translation request does.
pub struct FieldTranslationPlan {
    /// The fields to translate, with their original texts, in order.
    pub items: Vec<(String, String)>,
    /// Whether glossary terms are extracted from the originals afterwards.
    pub extract_glossary: bool,
}

/// Plans a field translation: it needs a target language; it translates each asked
/// field that has a non-empty original, and extracts glossary terms when the glossary
/// is on and the originals are not all whitespace.
pub fn plan_field_translation(
    target_lang: &str,
    fields: &Vec<String>,
    originals: &Vec<(String, String)>,
    glossary_enabled: bool,
) -> (r: Result<FieldTranslationPlan, String>)
    ensures
        target_lang@.len() == 0 <==> r is Err,
        r matches Err(e) ==> e@ == no_native_lang(),
        r matches Ok(p) ==> {
            let want = fields_to_translate(fields@, originals@);
            &&& p.items@.len() == want.len()
            &&& forall|k: int|
                0 <= k < want.len() ==> (#[trigger] p.items@[k]).0@ == want[k].0 && p.items@[k].1@
                    == want[k].1
            &&& p.extract_glossary == (glossary_enabled && trim(glossary_source(want)).len() > 0)
        },
{
    if target_lang.is_empty() {
        return Err(
            "Native language not configured. Set it in Settings > AI / Translation.".to_owned(),
        );
    }
    let mut items: Vec<(String, String)> = Vec::new();
    let mut all: Vec<char> = Vec::new();
    let mut k: usize = 0;
    while k < fields.len()
        invariant
            k <= fields@.len(),
            items@.len() == fields_to_translate(fields@.take(k as int), originals@).len(),
            forall|j: int|
                0 <= j < items@.len() ==> (#[trigger] items@[j]).0@ == fields_to_translate(
                    fields@.take(k as int),
                    originals@,
                )[j].0 && items@[j].1@ == fields_to_translate(fields@.take(k as int), originals@)[j].1,
            all@ == glossary_source(fields_to_translate(fields@.take(k as int), originals@)),
        decreases fields.len() - k,
    {
        assert(fields@.take(k + 1).drop_last() =~= fields@.take(k as int));
        let ghost rest = fields_to_translate(fields@.take(k as int), originals@);
        let f = &fields[k];
        match get_field(originals, f.as_str()) {
            Some(t) => {
                if !t.as_str().is_empty() {
                    assert(rest.push((f@, t@)).drop_last() =~= rest);
                    push_str(&mut all, t.as_str());
                    push_str(&mut all, "\n");
                    items.push((f.clone(), t));
                }
            },
            None => {},
        }
        k = k + 1;
    }
    assert(fields@.take(fields@.len() as int) =~= fields@);
    let (lo, hi) = trim_bounds(&all, 0, all.len());
    assert(all@.subrange(0, all@.len() as int) =~= all@);
    Ok(FieldTranslationPlan { items, extract_glossary: glossary_enabled && lo < hi })
}

/// What a selected-text translation does: it needs a target language; a selection that
/// is all whitespace translates to the empty text without asking the model (`false`).
pub fn selection_translation_wanted(target_lang: &str, text: &str) -> (r: Result<bool, String>)
    ensures
        target_lang@.len() == 0 ==> (r matches Err(e) && e@ == no_native_lang()),
        target_lang@.len() > 0 ==> r == Ok::<bool, String>(trim(text@).len() > 0),
{
    if target_lang.is_empty() {
        return Err(
            "Native language not configured. Set it in Settings > AI / Translation.".to_owned(),
        );
    }
    let v = chars_of(text);
    let (lo, hi) = trim_bounds(&v, 0, v.len());
    assert(v@.subrange(0, v@.len() as int) =~= v@);
    Ok(lo < hi)
}

/// The language code BabelDOC expects for a native language: Chinese is `zh-CN`, every
/// other code is passed as it is.
pub open spec fn lang_out(native_lang: Seq<char>) -> Seq<char> {
    if native_lang == "zh"@ {
        "zh-CN"@
    } else {
        native_lang
    }
}

/// Maps the app's native language code to BabelDOC's `--lang-out` value.
pub fn babeldoc_lang_out(native_lang: &str) -> (r: &str)
    ensures
        r@ == lang_out(native_lang@),
{
    if str_eq(native_lang, "zh") {
        "zh-CN"
    } else {
        native_lang
    }
}

/// The checks before a PDF translation: it must be enabled, then a native language
/// must be configured.
pub fn pdf_translation_preflight(enabled: bool, native_lang: &str) -> (r: Result<(), String>)
    ensures
        r is Ok <==> enabled && native_lang@.len() > 0,
        !enabled ==> (r matches Err(e) && e@
            == "PDF translation is not enabled. Enable it in Settings > AI / Translation."@),
        enabled && native_lang@.len() == 0 ==> (r matches Err(e) && e@ == no_native_lang()),
{
    if !enabled {
        return Err(
            "PDF translation is not enabled. Enable it in Settings > AI / Translation.".to_owned(),
        );
    }
    if native_lang.is_empty() {
        return Err(
            "Native language not configured. Set it in Settings > AI / Translation.".to_owned(),
        );
    }
    Ok(())
}

/// Where the PDF to translate is.
pub enum PdfSource {
    /// The requested file, in the paper's directory.
    Requested,
    /// The requested file, in the paper's `attachments/` directory.
    RequestedInAttachments,
    /// The paper's `paper.pdf`.
    PaperPdf,
    /// The attachment at this index of the paper's attachment list.
    Attachment(usize),
}

/// The index of the first attachment of type `file_type` whose file exists, from `i` on.
pub open spec fn first_existing_from(atts: Seq<(String, bool)>, file_type: Seq<char>, i: int) -> Option<int>
    decreases atts.len() - i,
{
    if i < 0 || i >= atts.len() {
        None
    } else if atts[i].0@ == file_type && atts[i].1 {
        Some(i)
    } else {
        first_existing_from(atts, file_type, i + 1)
    }
}

/// The first attachment (given as its file type and whether its file exists) of type
/// `file_type` whose file exists.
pub fn first_existing(atts: &Vec<(String, bool)>, file_type: &str) -> (r: Option<usize>)
    ensures
        match r {
            Some(k) => first_existing_from(atts@, file_type@, 0) == Some(k as int) && k < atts@.len(),
            None => first_existing_from(atts@, file_type@, 0) is None,
        },
{
    let mut k: usize = 0;
    while k < atts.len()
        invariant
            k <= atts@.len(),
            first_existing_from(atts@, file_type@, 0) == first_existing_from(
                atts@,
                file_type@,
                k as int,
            ),
        decreases atts.len() - k,
    {
        if atts[k].1 && str_eq(atts[k].0.as_str(), file_type) {
            return Some(k);
        }
        k = k + 1;
    }
    None
}

/// Chooses the PDF to translate. A requested file is looked for in the paper's
/// directory, then in its `attachments/` directory; without a request, `paper.pdf`, then
/// the first PDF attachment whose file exists. `atts` lists the paper's attachments as
/// their file type and whether their file exists.
pub fn choose_pdf_source(
    requested: Option<&str>,
    requested_exists: bool,
    requested_in_attachments_exists: bool,
    paper_pdf_exists: bool,
    atts: &Vec<(String, bool)>,
) -> (r: Result<PdfSource, String>)
    ensures
        match requested {
            Some(f) => if requested_exists {
                r matches Ok(PdfSource::Requested)
            } else if requested_in_attachments_exists {
                r matches Ok(PdfSource::RequestedInAttachments)
            } else {
                r matches Err(e) && e@ == "PDF file not found: "@ + f@
            },
            None => if paper_pdf_exists {
                r matches Ok(PdfSource::PaperPdf)
            } else {
                match first_existing_from(atts@, "pdf"@, 0) {
                    Some(k) => r matches Ok(PdfSource::Attachment(j)) && j == k,
                    None => r matches Err(e) && e@ == "No PDF file found for this paper."@,
                }
            },
        },
{
    match requested {
        Some(f) => if requested_exists {
            Ok(PdfSource::Requested)
        } else if requested_in_attachments_exists {
            Ok(PdfSource::RequestedInAttachments)
        } else {
            Err(concat("PDF file not found: ", f))
        },
        None => if paper_pdf_exists {
            Ok(PdfSource::PaperPdf)
        } else {
            match first_existing(atts, "pdf") {
                Some(k) => Ok(PdfSource::Attachment(k)),
                None => Err("No PDF file found for this paper.".to_owned()),
            }
        },
    }
}

/// The name of the translated PDF: `{stem}.{native_lang}.pdf`, the stem being that of the
/// source file (`paper` when its name is not known).
pub open spec fn translated_pdf_name(source_file_name: Option<Seq<char>>, native_lang: Seq<char>) -> Seq<char> {
    let stem = match source_file_name {
        Some(n) => stem_of(n),
        None => "paper"@,
    };
    stem + "."@ + native_lang + ".pdf"@
}

/// The file name of the translated PDF (see [`translated_pdf_name`]).
pub fn translated_output_name(source_file_name: Option<&str>, native_lang: &str) -> (r: String)
    ensures
        r@ == translated_pdf_name(
            match source_file_name {
                Some(n) => Some(n@),
                None => None,
            },
            native_lang@,
        ),
{
    let stem = match source_file_name {
        Some(n) => file_stem(n),
        None => "paper".to_owned(),
    };
    let mut v = chars_of(stem.as_str());
    push_str(&mut v, ".");
    push_str(&mut v, native_lang);
    push_str(&mut v, ".pdf");
    string_from_chars(&v)
}

/// An AI endpoint: API key, base URL and model.
pub struct Endpoint {
    pub api_key: String,
    pub base_url: String,
    pub model: String,
}

/// The endpoint a PDF translation uses: the resolved AI settings when it is told to use
/// them, else its own; all three values must be set.
pub fn pdf_translation_endpoint(use_ai_config: bool, ai: Endpoint, custom: Endpoint) -> (r: Result<
    Endpoint,
    String,
>)
    ensures
        ({
            let e = if use_ai_config {
                ai
            } else {
                custom
            };
            &&& e.api_key@.len() > 0 && e.base_url@.len() > 0 && e.model@.len() > 0 <==> r is Ok
            &&& r matches Ok(x) ==> x.api_key@ == e.api_key@ && x.base_url@ == e.base_url@
                && x.model@ == e.model@
            &&& r matches Err(m) ==> m@
                == "AI API not configured for PDF translation. Set API key, base URL, and model."@
        }),
{
    let e = if use_ai_config {
        ai
    } else {
        custom
    };
    if e.api_key.as_str().is_empty() || e.base_url.as_str().is_empty()
        || e.model.as_str().is_empty() {
        return Err(
            "AI API not configured for PDF translation. Set API key, base URL, and model.".to_owned(),
        );
    }
    Ok(e)
}

/// What BabelDOC is run with.
pub struct BabeldocRun {
    pub model: String,
    pub base_url: String,
    pub api_key: String,
    pub pdf_path: String,
    pub output_dir: String,
    pub lang_out: String,
    pub qps: u32,
    pub extra_args: String,
    pub debug: bool,
}

/// The fixed part of BabelDOC's arguments.
pub open spec fn base_args(run: BabeldocRun) -> Seq<Seq<char>> {
    seq![
        "--openai"@,
        "--openai-model"@,
        run.model@,
        "--openai-base-url"@,
        run.base_url@,
        "--openai-api-key"@,
        run.api_key@,
        "--files"@,
        run.pdf_path@,
        "--output"@,
        run.output_dir@,
        "--lang-out"@,
        run.lang_out@,
        "--qps"@,
        decimal(run.qps as nat),
        "--watermark-output-mode"@,
        "no_watermark"@,
    ]
}

/// BabelDOC's arguments: the fixed ones, the user's extra arguments split at whitespace,
/// and `--debug --ignore-cache` in debug mode.
pub open spec fn babeldoc_argv(run: BabeldocRun) -> Seq<Seq<char>> {
    base_args(run) + words(run.extra_args@) + if run.debug {
        seq!["--debug"@, "--ignore-cache"@]
    } else {
        Seq::empty()
    }
}

/// Builds BabelDOC's arguments (see [`babeldoc_argv`]).
pub fn babeldoc_args(run: &BabeldocRun) -> (r: Vec<String>)
    ensures
        r@.len() == babeldoc_argv(*run).len(),
        forall|k: int| 0 <= k < r@.len() ==> (#[trigger] r@[k])@ == babeldoc_argv(*run)[k],
{
    let mut out: Vec<String> = Vec::new();
    out.push("--openai".to_owned());
    out.push("--openai-model".to_owned());
    out.push(run.model.clone());
    out.push("--openai-base-url".to_owned());
    out.push(run.base_url.clone());
    out.push("--openai-api-key".to_owned());
    out.push(run.api_key.clone());
    out.push("--files".to_owned());
    out.push(run.pdf_path.clone());
    out.push("--output".to_owned());
    out.push(run.output_dir.clone());
    out.push("--lang-out".to_owned());
    out.push(run.lang_out.clone());
    out.push("--qps".to_owned());
    out.push(decimal_string(run.qps as u64));
    out.push("--watermark-output-mode".to_owned());
    out.push("no_watermark".to_owned());
    let ghost base = base_args(*run);
    assert(out@.len() == base.len());
    assert(forall|k: int| 0 <= k < out@.len() ==> (#[trigger] out@[k])@ == base[k]);
    let extra = split_whitespace(run.extra_args.as_str());
    let mut k: usize = 0;
    while k < extra.len()
        invariant
            k <= extra@.len(),
            extra@.len() == words(run.extra_args@).len(),
            forall|j: int| 0 <= j < extra@.len() ==> (#[trigger] extra@[j])@ == words(run.extra_args@)[j],
            out@.len() == base.len() + k,
            forall|j: int| 0 <= j < base.len() ==> (#[trigger] out@[j])@ == base[j],
            forall|j: int| 0 <= j < k ==> (#[trigger] out@[base.len() + j])@ == words(run.extra_args@)[j],
        decreases extra.len() - k,
    {
        out.push(extra[k].clone());
        k = k + 1;
    }
    if run.debug {
        out.push("--debug".to_owned());
        out.push("--ignore-cache".to_owned());
    }
    let ghost want = babeldoc_argv(*run);
    assert forall|j: int| 0 <= j < out@.len() implies (#[trigger] out@[j])@ == want[j] by {
        if j >= base.len() && j < base.len() + extra@.len() {
            assert(out@[base.len() + (j - base.len())] == out@[j]);
        }
    }
    out
}

/// Whether argument `i` of `args` is the value of `--openai-api-key` (an argument
/// right after that flag, unless the flag itself was such a value).
pub open spec fn masked_at(args: Seq<Seq<char>>, i: int) -> bool
    decreases i,
{
    if i <= 0 || i >= args.len() {
        false
    } else {
        args[i - 1] == "--openai-api-key"@ && !masked_at(args, i - 1)
    }
}

/// BabelDOC's arguments as they are logged show `***` in place of the API key, unless
/// the base URL is itself the text `--openai-api-key`.
pub proof fn lemma_logged_args_hide_api_key(run: BabeldocRun)
    requires
        run.base_url@ != "--openai-api-key"@,
    ensures
        babeldoc_argv(run)[5] == "--openai-api-key"@,
        babeldoc_argv(run)[6] == run.api_key@,
        masked_at(babeldoc_argv(run), 6),
{
    let a = babeldoc_argv(run);
    reveal_strlit("--openai-api-key");
    reveal_strlit("--openai-base-url");
    assert(a[3] == "--openai-base-url"@);
    assert(a[4] == run.base_url@);
    assert(a[5] == "--openai-api-key"@);
    assert("--openai-base-url"@ != "--openai-api-key"@) by {
        assert("--openai-base-url"@[9] != "--openai-api-key"@[9]);
    }
    assert(!masked_at(a, 4));
    assert(!masked_at(a, 5));
}

/// The views of a list of strings.
pub open spec fn views(v: Seq<String>) -> Seq<Seq<char>> {
    Seq::new(v.len(), |i: int| v[i]@)
}

/// The arguments as they are logged: the API key after `--openai-api-key` shown as `***`,
/// every other argument as it is.
pub fn mask_api_key_args(args: &Vec<String>) -> (r: Vec<String>)
    ensures
        r@.len() == args@.len(),
        forall|i: int|
            0 <= i < args@.len() ==> (#[trigger] r@[i])@ == if masked_at(views(args@), i) {
                "***"@
            } else {
                args@[i]@
            },
{
    let ghost a = views(args@);
    let mut out: Vec<String> = Vec::new();
    let mut mask_next = false;
    let mut i: usize = 0;
    while i < args.len()
        invariant
            i <= args@.len(),
            a == views(args@),
            out@.len() == i,
            mask_next == masked_at(a, i as int) || (i == args@.len() && i > 0 && a[i - 1]
                == "--openai-api-key"@ && !masked_at(a, i - 1)),
            i < args@.len() ==> mask_next == masked_at(a, i as int),
            forall|j: int| 0 <= j < i ==> (#[trigger] out@[j])@ == if masked_at(a, j) {
                "***"@
            } else {
                args@[j]@
            },
        decreases args.len() - i,
    {
        if mask_next {
            out.push("***".to_owned());
            mask_next = false;
        } else if str_eq(args[i].as_str(), "--openai-api-key") {
            out.push(args[i].clone());
            mask_next = true;
        } else {
            out.push(args[i].clone());
        }
        i = i + 1;
    }
    out
}

/// Whether `c1` and `c2` are equal ignoring ASCII case.
pub open spec fn same_ignoring_ascii_case(a: Seq<char>, b: Seq<char>) -> bool {
    a.len() == b.len() && forall|i: int| 0 <= i < a.len() ==> #[trigger] crate::paper_context::ascii_lower(a[i])
        == crate::paper_context::ascii_lower(b[i])
}

/// Whether a file name has a `.pdf` extension, in any ASCII case.
pub open spec fn is_pdf_name(name: Seq<char>) -> bool {
    match extension_of(name) {
        Some(e) => same_ignoring_ascii_case(e, "pdf"@),
        None => false,
    }
}

fn eq_ignore_ascii_case(a: &str, b: &str) -> (r: bool)
    ensures
        r == same_ignoring_ascii_case(a@, b@),
{
    let x = chars_of(a);
    let y = chars_of(b);
    if x.len() != y.len() {
        return false;
    }
    let mut i: usize = 0;
    while i < x.len()
        invariant
            x@ == a@,
            y@ == b@,
            x@.len() == y@.len(),
            i <= x@.len(),
            forall|j: int| 0 <= j < i ==> #[trigger] crate::paper_context::ascii_lower(x@[j])
                == crate::paper_context::ascii_lower(y@[j]),
        decreases x.len() - i,
    {
        if crate::paper_context::to_ascii_lower(x[i]) != crate::paper_context::to_ascii_lower(y[i]) {
            return false;
        }
        i = i + 1;
    }
    true
}

/// Whether a file name names a PDF (see [`is_pdf_name`]).
pub fn has_pdf_extension(name: &str) -> (r: bool)
    ensures
        r == is_pdf_name(name@),
{
    match file_extension(name) {
        Some(e) => eq_ignore_ascii_case(e.as_str(), "pdf"),
        None => false,
    }
}

/// Whether BabelDOC's output file is preferred by its lowercased name: it contains
/// `translated` or `dual`.
pub open spec fn preferred_output_name(lowered: Seq<char>) -> bool {
    contains_seq(lowered, "translated"@) || contains_seq(lowered, "dual"@)
}

/// The file BabelDOC's output is taken from, among the names in its output directory whose
/// lowercased forms are `lowered`: the first PDF whose lowercased name is preferred (see
/// [`preferred_output_name`]), else the first PDF.
pub open spec fn translated_pdf_pick(names: Seq<String>, lowered: Seq<Seq<char>>) -> Option<int> {
    if exists|i: int| 0 <= i < names.len() && is_pdf_name(names[i]@) && preferred_output_name(lowered[i]) {
        Some(
            choose|i: int|
                0 <= i < names.len() && is_pdf_name(names[i]@) && preferred_output_name(lowered[i]) && forall|j: int|
                    0 <= j < i ==> !(is_pdf_name(names[j]@) && preferred_output_name(lowered[j])),
        )
    } else if exists|i: int| 0 <= i < names.len() && is_pdf_name(names[i]@) {
        Some(
            choose|i: int|
                0 <= i < names.len() && is_pdf_name(names[i]@) && forall|j: int|
                    0 <= j < i ==> !is_pdf_name(names[j]@),
        )
    } else {
        None
    }
}

/// The lowercased names.
pub open spec fn lowered_names(names: Seq<String>) -> Seq<Seq<char>> {
    Seq::new(names.len(), |i: int| lowercase_of(names[i]@))
}

/// The file BabelDOC's output is taken from, among the names in its output directory (see
/// [`translated_pdf_pick`]).
pub open spec fn translated_pdf_choice(names: Seq<String>) -> Option<int> {
    translated_pdf_pick(names, lowered_names(names))
}

/// Picks BabelDOC's translated PDF among the names in its output directory, given their
/// lowercased forms (see [`translated_pdf_pick`]); the result is an index into `names`.
pub fn pick_translated_pdf(names: &Vec<String>, lowered: &Vec<String>) -> (r: Option<usize>)
    requires
        lowered@.len() == names@.len(),
    ensures
        match r {
            Some(k) => k < names@.len() && translated_pdf_pick(names@, crate::library::views_of(lowered@)) == Some(k as int),
            None => translated_pdf_pick(names@, crate::library::views_of(lowered@)) is None,
        },
{
    let ghost lw = crate::library::views_of(lowered@);
    let mut first_pdf: Option<usize> = None;
    let mut k: usize = 0;
    while k < names.len()
        invariant
            k <= names@.len(),
            lowered@.len() == names@.len(),
            lw == crate::library::views_of(lowered@),
            forall|j: int| 0 <= j < k ==> !(is_pdf_name(#[trigger] names@[j]@) && preferred_output_name(lw[j])),
            match first_pdf {
                Some(f) => f < k && is_pdf_name(names@[f as int]@) && forall|j: int|
                    0 <= j < f ==> !is_pdf_name(#[trigger] names@[j]@),
                None => forall|j: int| 0 <= j < k ==> !is_pdf_name(#[trigger] names@[j]@),
            },
        decreases names.len() - k,
    {
        if has_pdf_extension(names[k].as_str()) {
            if str_contains(lowered[k].as_str(), "translated") || str_contains(lowered[k].as_str(), "dual") {
                proof {
                    let ghost i = k as int;
                    assert(0 <= i < names@.len() && is_pdf_name(names@[i]@) && preferred_output_name(lw[i]));
                    let c = choose|i: int|
                        0 <= i < names@.len() && is_pdf_name(names@[i]@) && preferred_output_name(lw[i]) && forall|j: int|
                            0 <= j < i ==> !(is_pdf_name(names@[j]@) && preferred_output_name(lw[j]));
                    assert(c == k);
                }
                return Some(k);
            }
            if first_pdf.is_none() {
                first_pdf = Some(k);
            }
        }
        k = k + 1;
    }
    match first_pdf {
        Some(f) => {
            proof {
                assert(is_pdf_name(names@[f as int]@));
                let c = choose|i: int|
                    0 <= i < names@.len() && is_pdf_name(names@[i]@) && forall|j: int|
                        0 <= j < i ==> !is_pdf_name(names@[j]@);
                assert(c == f);
            }
            Some(f)
        },
        None => None,
    }
}

/// Finds BabelDOC's translated PDF among the names in its output directory (see
/// [`translated_pdf_choice`]); the result is an index into `names`.
pub fn find_translated_pdf(names: &Vec<String>) -> (r: Option<usize>)
    ensures
        match r {
            Some(k) => k < names@.len() && translated_pdf_choice(names@) == Some(k as int),
            None => translated_pdf_choice(names@) is None,
        },
{
    let mut lowered: Vec<String> = Vec::new();
    let mut k: usize = 0;
    while k < names.len()
        invariant
            k <= names@.len(),
            crate::library::views_of(lowered@) =~= lowered_names(names@).take(k as int),
        decreases names.len() - k,
    {
        let l = to_lowercase(names[k].as_str());
        let ghost before = lowered@;
        lowered.push(l);
        assert(crate::library::views_of(lowered@) =~= crate::library::views_of(before).push(lowered_names(names@)[k as int]));
        assert(lowered_names(names@).take(k + 1) =~= lowered_names(names@).take(k as int).push(lowered_names(names@)[k as int]));
        k = k + 1;
    }
    assert(crate::library::views_of(lowered@) =~= lowered_names(names@));
    pick_translated_pdf(names, &lowered)
}

/// The error text when BabelDOC exits with a failure: its exit status and its log, cut
/// after 300 bytes (then ending in `…`).
pub open spec fn server_failure_text(status: Seq<char>, log: Seq<char>) -> Seq<char> {
    let msg = if byte_len(log) > 300 {
        bytes_prefix(log, 300) + "…"@
    } else {
        log
    };
    "PDF translation server exited with code "@ + status + ": "@ + msg
}

/// The error text when BabelDOC exits with a failure (see [`server_failure_text`]); the
/// log is cut with `&log[..300]`, which requires the cut to fall on a character boundary.
pub fn server_failure_message(status: &str, log: &str) -> (r: String)
    requires
        byte_len(log@) > 300 ==> boundary_at(log@, 300),
    ensures
        r@ == server_failure_text(status@, log@),
{
    let (mut msg, cut) = cut_at_bytes(&chars_of(log), 300);
    if cut {
        push_str(&mut msg, "…");
    }
    let mut v = chars_of("PDF translation server exited with code ");
    push_str(&mut v, status);
    push_str(&mut v, ": ");
    push_all(&mut v, &msg);
    string_from_chars(&v)
}


/// Where a command-line tool is looked for on Unix when the shells cannot find it: the
/// install locations of uv, pipx, cargo and Homebrew under the home directory `home`.
pub open spec fn unix_tool_candidates(cmd: Seq<char>, home: Seq<char>) -> Seq<Seq<char>> {
    seq![
        home + "/.local/bin/"@ + cmd,
        home + "/.cargo/bin/"@ + cmd,
        "/usr/local/bin/"@ + cmd,
        "/opt/homebrew/bin/"@ + cmd,
    ]
}

/// Where a command-line tool is looked for on Windows when `where` cannot find it: the
/// install locations of pip, pipx, uv and cargo under `USERPROFILE` and `LOCALAPPDATA`.
pub open spec fn windows_tool_candidates(cmd: Seq<char>, user: Seq<char>, local: Seq<char>) -> Seq<
    Seq<char>,
> {
    seq![
        user + "\\AppData\\Local\\Programs\\Python\\Scripts\\"@ + cmd + ".exe"@,
        local + "\\Programs\\Python\\Scripts\\"@ + cmd + ".exe"@,
        user + "\\AppData\\Roaming\\Python\\Scripts\\"@ + cmd + ".exe"@,
        user + "\\.local\\bin\\"@ + cmd + ".exe"@,
        user + "\\.cargo\\bin\\"@ + cmd + ".exe"@,
        local + "\\pipx\\venvs\\"@ + cmd + "\\Scripts\\"@ + cmd + ".exe"@,
        local + "\\uv\\tools\\"@ + cmd + "\\Scripts\\"@ + cmd + ".exe"@,
    ]
}

fn joined3(a: &str, b: &str, c: &str) -> (r: String)
    ensures
        r@ == a@ + b@ + c@,
{
    let mut v = chars_of(a);
    push_str(&mut v, b);
    push_str(&mut v, c);
    string_from_chars(&v)
}

fn joined4(a: &str, b: &str, c: &str, d: &str) -> (r: String)
    ensures
        r@ == a@ + b@ + c@ + d@,
{
    let mut v = chars_of(a);
    push_str(&mut v, b);
    push_str(&mut v, c);
    push_str(&mut v, d);
    string_from_chars(&v)
}

fn joined6(a: &str, b: &str, c: &str, d: &str, e: &str, f: &str) -> (r: String)
    ensures
        r@ == a@ + b@ + c@ + d@ + e@ + f@,
{
    let mut v = chars_of(a);
    push_str(&mut v, b);
    push_str(&mut v, c);
    push_str(&mut v, d);
    push_str(&mut v, e);
    push_str(&mut v, f);
    string_from_chars(&v)
}

/// The Unix install locations of a tool (see [`unix_tool_candidates`]).
pub fn unix_tool_paths(cmd: &str, home: &str) -> (r: Vec<String>)
    ensures
        views(r@) == unix_tool_candidates(cmd@, home@),
{
    let mut r: Vec<String> = Vec::new();
    r.push(joined3(home, "/.local/bin/", cmd));
    r.push(joined3(home, "/.cargo/bin/", cmd));
    r.push(concat("/usr/local/bin/", cmd));
    r.push(concat("/opt/homebrew/bin/", cmd));
    assert(views(r@) =~= unix_tool_candidates(cmd@, home@));
    r
}

/// The Windows install locations of a tool (see [`windows_tool_candidates`]).
pub fn windows_tool_paths(cmd: &str, user: &str, local: &str) -> (r: Vec<String>)
    ensures
        views(r@) == windows_tool_candidates(cmd@, user@, local@),
{
    let mut r: Vec<String> = Vec::new();
    r.push(joined4(user, "\\AppData\\Local\\Programs\\Python\\Scripts\\", cmd, ".exe"));
    r.push(joined4(local, "\\Programs\\Python\\Scripts\\", cmd, ".exe"));
    r.push(joined4(user, "\\AppData\\Roaming\\Python\\Scripts\\", cmd, ".exe"));
    r.push(joined4(user, "\\.local\\bin\\", cmd, ".exe"));
    r.push(joined4(user, "\\.cargo\\bin\\", cmd, ".exe"));
    r.push(joined6(local, "\\pipx\\venvs\\", cmd, "\\Scripts\\", cmd, ".exe"));
    r.push(joined6(local, "\\uv\\tools\\", cmd, "\\Scripts\\", cmd, ".exe"));
    assert(views(r@) =~= windows_tool_candidates(cmd@, user@, local@));
    r
}

/// The path that `where` printed: its first line, trimmed, when that is not empty
/// (`where` lists every match, one per line).
pub open spec fn located_path(out: Seq<char>) -> Option<Seq<char>> {
    let first = out.take(crate::text::next_index_of(out, 0, '\n'));
    if trim(first).len() > 0 {
        Some(trim(first))
    } else {
        None
    }
}

/// The path that `where` printed (see [`located_path`]).
pub fn located_path_of(out: &str) -> (r: Option<String>)
    ensures
        crate::text::opt_view(r) == located_path(out@),
{
    let v = crate::text::chars_of(out);
    let k = crate::text::find_char_from(&v, 0, '\n');
    proof {
        crate::text::lemma_next_index_bounds(v@, 0, '\n');
    }
    let (a, b) = trim_bounds(&v, 0, k);
    assert(v@.subrange(0, k as int) =~= v@.take(k as int));
    if a < b {
        Some(crate::text::string_from_chars(&crate::text::copy_range(&v, a, b)))
    } else {
        None
    }
}


/// The path that `which` printed: all of its output, trimmed, when that is not empty.
pub open spec fn printed_path(out: Seq<char>) -> Option<Seq<char>> {
    if trim(out).len() > 0 {
        Some(trim(out))
    } else {
        None
    }
}

/// The path that `which` printed (see [`printed_path`]).
pub fn printed_path_of(out: &str) -> (r: Option<String>)
    ensures
        opt_view(r) == printed_path(out@),
{
    let v = chars_of(out);
    let (a, b) = trim_bounds(&v, 0, v.len());
    assert(v@.subrange(0, v@.len() as int) =~= v@);
    if a < b {
        Some(string_from_chars(&crate::text::copy_range(&v, a, b)))
    } else {
        None
    }
}


/// The message when the BabelDOC command cannot be found.
pub open spec fn command_not_found_text(cmd: Seq<char>) -> Seq<char> {
    "Command '"@ + cmd
        + "' not found. Make sure BabelDOC is installed and the path is correct.\n\nInstall with: uv tool install --python 3.12 BabelDOC\nOr specify the full path in the settings."@
}

/// The message when the BabelDOC command cannot be found (see
/// [`command_not_found_text`]).
pub fn command_not_found_message(cmd: &str) -> (r: String)
    ensures
        r@ == command_not_found_text(cmd@),
{
    joined3(
        "Command '",
        cmd,
        "' not found. Make sure BabelDOC is installed and the path is correct.\n\nInstall with: uv tool install --python 3.12 BabelDOC\nOr specify the full path in the settings.",
    )
}

/// The outcome of a check of BabelDOC (`--version`) run from `path`: on success the
/// version it printed (its trimmed standard output, else its trimmed error output); on
/// failure its trimmed error output.
pub open spec fn babeldoc_check_outcome(path: Seq<char>, success: bool, stdout: Seq<char>, stderr: Seq<char>) -> Result<
    Seq<char>,
    Seq<char>,
> {
    if success {
        let version = if trim(stdout).len() > 0 {
            trim(stdout)
        } else {
            trim(stderr)
        };
        Ok("PDF translation server is working!\nPath: "@ + path + "\n"@ + version)
    } else {
        Err("PDF translation server command found at "@ + path + " but exited with error:\n"@ + trim(stderr))
    }
}

fn trimmed(s: &str) -> (r: Vec<char>)
    ensures
        r@ == trim(s@),
{
    let v = chars_of(s);
    let (a, b) = trim_bounds(&v, 0, v.len());
    assert(v@.subrange(0, v@.len() as int) =~= v@);
    crate::text::copy_range(&v, a, b)
}

/// The outcome of a check of BabelDOC (see [`babeldoc_check_outcome`]).
pub fn babeldoc_check_report(path: &str, success: bool, stdout: &str, stderr: &str) -> (r: Result<String, String>)
    ensures
        match (r, babeldoc_check_outcome(path@, success, stdout@, stderr@)) {
            (Ok(a), Ok(b)) => a@ == b,
            (Err(a), Err(b)) => a@ == b,
            _ => false,
        },
{
    let err = trimmed(stderr);
    if success {
        let out = trimmed(stdout);
        let version = if out.len() > 0 {
            out
        } else {
            err
        };
        let mut v = chars_of("PDF translation server is working!\nPath: ");
        push_str(&mut v, path);
        push_str(&mut v, "\n");
        push_all(&mut v, &version);
        Ok(string_from_chars(&v))
    } else {
        let mut v = chars_of("PDF translation server command found at ");
        push_str(&mut v, path);
        push_str(&mut v, " but exited with error:\n");
        push_all(&mut v, &err);
        Err(string_from_chars(&v))
    }
}

} // verus!
