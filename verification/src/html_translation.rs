//! Full-text HTML of a paper: which file is its HTML, the translations running on it,
//! and what a translation of it is given and reports.
use vstd::prelude::*;
use crate::library::views_of;
use crate::text::{chars_of, concat, decimal, push_decimal, push_str, str_eq, string_from_chars};
use crate::translation::first_existing_from;

verus! {

broadcast use vstd::string::group_string_axioms;

/// The papers whose HTML is being translated. No paper is listed twice.
///
/// The paper ids are kept in a `Vec` with an invariant of its own: vstd specifies std's
/// `HashMap`, `HashSet` and `BTreeMap` only for keys with a key model (integers, `bool`,
/// boxes of them), and these keys are strings.
pub struct ActiveTranslations {
    ids: Vec<String>,
}

impl ActiveTranslations {
    /// The ids of the papers, as texts.
    pub closed spec fn view(&self) -> Seq<Seq<char>> {
        views_of(self.ids@)
    }

    /// No paper is listed twice.
    pub closed spec fn wf(&self) -> bool {
        self.view().no_duplicates()
    }

    /// No translation is running.
    pub fn new() -> (r: ActiveTranslations)
        ensures
            r.wf(),
            r.view() == Seq::<Seq<char>>::empty(),
    {
        let r = ActiveTranslations { ids: Vec::new() };
        assert(r.view() =~= Seq::<Seq<char>>::empty());
        r
    }

    /// Whether a translation of `paper_id` is running.
    pub fn contains(&self, paper_id: &str) -> (r: bool)
        ensures
            r == self.view().contains(paper_id@),
    {
        crate::library::names_contain(&self.ids, paper_id)
    }

    /// Starts a translation of `paper_id`; refused while one is running for that paper.
    pub fn try_start(&mut self, paper_id: &str) -> (r: Result<(), String>)
        requires
            old(self).wf(),
        ensures
            final(self).wf(),
            old(self).view().contains(paper_id@) ==> {
                &&& r matches Err(e) && e@ == "Translation already in progress for this paper"@
                &&& final(self).view() == old(self).view()
            },
            !old(self).view().contains(paper_id@) ==> {
                &&& r is Ok
                &&& final(self).view() == old(self).view().push(paper_id@)
            },
    {
        if self.contains(paper_id) {
            return Err("Translation already in progress for this paper".to_owned());
        }
        let ghost before = self.view();
        self.ids.push(paper_id.to_owned());
        assert(self.view() =~= before.push(paper_id@));
        Ok(())
    }

    /// Records that the translation of `paper_id` ended.
    pub fn finish(&mut self, paper_id: &str)
        requires
            old(self).wf(),
        ensures
            final(self).wf(),
            !final(self).view().contains(paper_id@),
            forall|x: Seq<char>| x != paper_id@ ==> (final(self).view().contains(x) <==> old(self).view().contains(x)),
    {
        let mut kept: Vec<String> = Vec::new();
        let mut k: usize = 0;
        let ghost old_ids = self.view();
        while k < self.ids.len()
            invariant
                k <= self.ids@.len(),
                old_ids == views_of(self.ids@),
                old_ids.no_duplicates(),
                views_of(kept@).no_duplicates(),
                !views_of(kept@).contains(paper_id@),
                forall|x: Seq<char>| #[trigger] views_of(kept@).contains(x) <==> (x != paper_id@
                    && old_ids.take(k as int).contains(x)),
            decreases self.ids.len() - k,
        {
            let ghost before = views_of(kept@);
            assert(old_ids.take(k + 1) =~= old_ids.take(k as int).push(old_ids[k as int]));
            let ghost v = old_ids[k as int];
            let ghost t0 = old_ids.take(k as int);
            let ghost t1 = old_ids.take(k + 1);
            assert(v == self.ids@[k as int]@);
            assert forall|x: Seq<char>| t1.contains(x) <==> (t0.contains(x) || x == v) by {
                if t1.contains(x) && x != v {
                    let j = choose|j: int| 0 <= j < t1.len() && t1[j] == x;
                    assert(j < k);
                    assert(t0[j] == x);
                }
                if t0.contains(x) {
                    let j = choose|j: int| 0 <= j < t0.len() && t0[j] == x;
                    assert(t1[j] == x);
                }
                if x == v {
                    assert(t1[k as int] == x);
                }
            }
            if !str_eq(self.ids[k].as_str(), paper_id) {
                assert(v != paper_id@);
                kept.push(self.ids[k].clone());
                assert(views_of(kept@) =~= before.push(v));
                assert(!before.contains(v)) by {
                    if before.contains(v) {
                        assert(t0.contains(v));
                        let j = choose|j: int| 0 <= j < t0.len() && t0[j] == v;
                        assert(old_ids[j] == old_ids[k as int]);
                    }
                }
                assert forall|x: Seq<char>| views_of(kept@).contains(x) <==> (before.contains(x) || x == v) by {
                    if views_of(kept@).contains(x) && x != v {
                        let j = choose|j: int| 0 <= j < views_of(kept@).len() && views_of(kept@)[j] == x;
                        assert(j < before.len());
                        assert(before[j] == x);
                    }
                    if before.contains(x) {
                        let j = choose|j: int| 0 <= j < before.len() && before[j] == x;
                        assert(views_of(kept@)[j] == x);
                    }
                    if x == v {
                        assert(views_of(kept@)[before.len() as int] == x);
                    }
                }
            } else {
                assert(v == paper_id@);
            }
            assert forall|x: Seq<char>| #[trigger] views_of(kept@).contains(x) <==> (x != paper_id@
                && t1.contains(x)) by {
                assert(t1.contains(x) <==> (t0.contains(x) || x == v));
                assert(before.contains(x) <==> (x != paper_id@ && t0.contains(x)));
            }
            k = k + 1;
        }
        assert(old_ids.take(self.ids@.len() as int) =~= old_ids);
        self.ids = kept;
    }

    /// Ends the translation of `paper_id` with its outcome (the counts of translated,
    /// total and failed paragraphs, or the error) and gives what its completion reports:
    /// the paper leaves the set of running translations before anything is reported, so
    /// a new translation of it can start as soon as the completion is seen.
    pub fn conclude(&mut self, paper_id: &str, outcome: Result<(u64, u64, u64), String>) -> (r: Result<
        (&'static str, String),
        String,
    >)
        requires
            old(self).wf(),
        ensures
            final(self).wf(),
            !final(self).view().contains(paper_id@),
            forall|x: Seq<char>| x != paper_id@ ==> (final(self).view().contains(x) <==> old(self).view().contains(x)),
            match (outcome, r) {
                (Ok((translated, total, failed)), Ok((status, msg))) => status@ == (if failed > 0 {
                    "partial"@
                } else {
                    "done"@
                }) && msg@ == decimal(translated as nat) + "/"@ + decimal(total as nat) + " paragraphs"@,
                (Err(e), Err(f)) => f@ == e@,
                _ => false,
            },
    {
        self.finish(paper_id);
        match outcome {
            Ok((translated, total, failed)) => Ok(html_translation_report(translated, total, failed)),
            Err(e) => Err(e),
        }
    }

    /// The papers being translated.
    pub fn list(&self) -> (r: Vec<String>)
        ensures
            views_of(r@) == self.view(),
    {
        let mut out: Vec<String> = Vec::new();
        let mut k: usize = 0;
        while k < self.ids.len()
            invariant
                k <= self.ids@.len(),
                out@.len() == k,
                forall|j: int| 0 <= j < k ==> (#[trigger] out@[j])@ == self.ids@[j]@,
            decreases self.ids.len() - k,
        {
            out.push(self.ids[k].clone());
            k = k + 1;
        }
        assert(views_of(out@) =~= views_of(self.ids@));
        out
    }
}

/// Starting a translation and then ending it leaves the set of running translations as
/// it was, when none was running for that paper.
pub proof fn lemma_start_finish_restores(before: Seq<Seq<char>>, id: Seq<char>, after: Seq<Seq<char>>, end: Seq<Seq<char>>)
    requires
        !before.contains(id),
        after == before.push(id),
        !end.contains(id),
        forall|x: Seq<char>| x != id ==> (end.contains(x) <==> after.contains(x)),
    ensures
        forall|x: Seq<char>| end.contains(x) <==> before.contains(x),
{
    assert forall|x: Seq<char>| end.contains(x) <==> before.contains(x) by {
        if x != id {
            if before.contains(x) {
                let i = choose|i: int| 0 <= i < before.len() && before[i] == x;
                assert(after[i] == x);
            }
            if after.contains(x) {
                let i = choose|i: int| 0 <= i < after.len() && after[i] == x;
                if i < before.len() {
                    assert(before[i] == x);
                }
            }
        }
    }
}

/// Which file holds a paper's HTML.
pub enum HtmlSource {
    /// `paper.html`.
    PaperHtml,
    /// `abs.html`.
    AbsHtml,
    /// The attachment at this index.
    Attachment(usize),
}

/// Finds a paper's HTML: `paper.html`, then `abs.html`, then the first HTML attachment
/// whose file exists (`atts` gives each attachment's type and whether its file exists).
pub fn resolve_html_source(
    paper_id: &str,
    paper_html_exists: bool,
    abs_html_exists: bool,
    atts: &Vec<(String, bool)>,
) -> (r: Result<HtmlSource, String>)
    ensures
        paper_html_exists ==> r matches Ok(HtmlSource::PaperHtml),
        !paper_html_exists && abs_html_exists ==> r matches Ok(HtmlSource::AbsHtml),
        !paper_html_exists && !abs_html_exists ==> match first_existing_from(atts@, "html"@, 0) {
            Some(k) => r matches Ok(HtmlSource::Attachment(j)) && j == k,
            None => r matches Err(e) && e@ == "HTML file not found for paper "@ + paper_id@,
        },
{
    if paper_html_exists {
        Ok(HtmlSource::PaperHtml)
    } else if abs_html_exists {
        Ok(HtmlSource::AbsHtml)
    } else {
        match crate::translation::first_existing(atts, "html") {
            Some(k) => Ok(HtmlSource::Attachment(k)),
            None => Err(concat("HTML file not found for paper ", paper_id)),
        }
    }
}

/// The checks before an HTML translation: a native language, then a complete AI
/// endpoint.
pub fn html_translation_preflight(native_lang: &str, base_url: &str, api_key: &str, model: &str) -> (r: Result<
    (),
    String,
>)
    ensures
        native_lang@.len() == 0 ==> (r matches Err(e) && e@ == crate::translation::no_native_lang()),
        native_lang@.len() > 0 && (base_url@.len() == 0 || api_key@.len() == 0 || model@.len() == 0)
            ==> (r matches Err(e) && e@
            == "AI not configured. Set base URL, API key, and model in Settings."@),
        native_lang@.len() > 0 && base_url@.len() > 0 && api_key@.len() > 0 && model@.len() > 0
            ==> r is Ok,
{
    if native_lang.is_empty() {
        return Err(
            "Native language not configured. Set it in Settings > AI / Translation.".to_owned(),
        );
    }
    if base_url.is_empty() || api_key.is_empty() || model.is_empty() {
        return Err("AI not configured. Set base URL, API key, and model in Settings.".to_owned());
    }
    Ok(())
}

/// One line of the glossary prompt: `- {source} → {translation}`.
pub open spec fn glossary_line(term: (String, String)) -> Seq<char> {
    "- "@ + term.0@ + " → "@ + term.1@ + "\n"@
}

/// The glossary lines of `terms`, in order.
pub open spec fn glossary_lines(terms: Seq<(String, String)>) -> Seq<char>
    decreases terms.len(),
{
    if terms.len() == 0 {
        Seq::empty()
    } else {
        glossary_lines(terms.drop_last()) + glossary_line(terms.last())
    }
}

/// The glossary part of the HTML translation prompt: none when the glossary is off or
/// empty, else a heading and one line per term.
pub fn html_glossary_prompt(enabled: bool, terms: &Vec<(String, String)>) -> (r: Option<String>)
    ensures
        !enabled || terms@.len() == 0 ==> r is None,
        enabled && terms@.len() > 0 ==> (r matches Some(p) && p@
            == "\n\nUse the following glossary for consistent terminology translation:\n"@
            + glossary_lines(terms@)),
{
    if !enabled || terms.len() == 0 {
        return None;
    }
    let mut v = chars_of("\n\nUse the following glossary for consistent terminology translation:\n");
    let ghost start = v@;
    let mut k: usize = 0;
    while k < terms.len()
        invariant
            k <= terms@.len(),
            v@ == start + glossary_lines(terms@.take(k as int)),
        decreases terms.len() - k,
    {
        assert(terms@.take(k + 1).drop_last() =~= terms@.take(k as int));
        push_str(&mut v, "- ");
        push_str(&mut v, terms[k].0.as_str());
        push_str(&mut v, " → ");
        push_str(&mut v, terms[k].1.as_str());
        push_str(&mut v, "\n");
        k = k + 1;
        assert(v@ =~= start + glossary_lines(terms@.take(k as int)));
    }
    assert(terms@.take(terms@.len() as int) =~= terms@);
    Some(string_from_chars(&v))
}

/// A custom prompt, or none when it is empty (the default prompt is used then).
pub fn custom_prompt(p: String) -> (r: Option<String>)
    ensures
        p@.len() == 0 ==> r is None,
        p@.len() > 0 ==> (r matches Some(q) && q@ == p@),
{
    if p.as_str().is_empty() {
        None
    } else {
        Some(p)
    }
}

/// How a finished HTML translation is reported: `partial` when some paragraphs failed,
/// else `done`, with the message `{translated}/{total} paragraphs`.
pub fn html_translation_report(translated: u64, total: u64, failed: u64) -> (r: (&'static str, String))
    ensures
        r.0@ == if failed > 0 {
            "partial"@
        } else {
            "done"@
        },
        r.1@ == decimal(translated as nat) + "/"@ + decimal(total as nat) + " paragraphs"@,
{
    let status = if failed > 0 {
        "partial"
    } else {
        "done"
    };
    let mut v: Vec<char> = Vec::new();
    push_decimal(&mut v, translated);
    push_str(&mut v, "/");
    push_decimal(&mut v, total);
    push_str(&mut v, " paragraphs");
    (status, string_from_chars(&v))
}

/// The HTML attachments that a freshly fetched `paper.html` replaces: the indices of all
/// attachments of type `html`.
pub fn html_attachments_replaced(types: &Vec<String>) -> (r: Vec<usize>)
    ensures
        forall|i: int| 0 <= i < r@.len() ==> (#[trigger] r@[i]) < types@.len() && types@[r@[i] as int]@ == "html"@,
        forall|k: int| 0 <= k < types@.len() && (#[trigger] types@[k])@ == "html"@ ==> r@.contains(k as usize),
        forall|i: int, j: int| 0 <= i < j < r@.len() ==> r@[i] < r@[j],
{
    let mut out: Vec<usize> = Vec::new();
    let mut k: usize = 0;
    while k < types.len()
        invariant
            k <= types@.len(),
            forall|i: int| 0 <= i < out@.len() ==> (#[trigger] out@[i]) < k && types@[out@[i] as int]@ == "html"@,
            forall|m: int| 0 <= m < k && (#[trigger] types@[m])@ == "html"@ ==> out@.contains(m as usize),
            forall|i: int, j: int| 0 <= i < j < out@.len() ==> out@[i] < out@[j],
        decreases types.len() - k,
    {
        if str_eq(types[k].as_str(), "html") {
            let ghost before = out@;
            out.push(k);
            assert forall|m: int| 0 <= m < k + 1 && (#[trigger] types@[m])@ == "html"@ implies out@.contains(m as usize) by {
                if m < k {
                    let i = choose|i: int| 0 <= i < before.len() && before[i] == m as usize;
                    assert(out@[i] == m as usize);
                } else {
                    assert(out@[before.len() as int] == m as usize);
                }
            }
        }
        k = k + 1;
    }
    out
}

} // verus!
