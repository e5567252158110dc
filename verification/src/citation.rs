//! Citations and metadata refreshes: where a formatted citation comes from, and the
//! work that follows refreshing a paper's metadata.
use vstd::prelude::*;
use crate::text::{concat, opt_view, str_eq};

verus! {

broadcast use vstd::string::group_string_axioms;

/// Where a citation text came from.
pub struct CitationSource {
    pub provider: String,
    pub doi: Option<String>,
    pub request_url: Option<String>,
    pub accept_header: Option<String>,
    pub style: String,
}

/// How a citation in a given style is obtained.
pub enum CitationRoute {
    /// RIS is generated locally from the paper's record.
    Local,
    /// The cached citation is used.
    Cached,
    /// The citation is fetched by DOI content negotiation for this DOI.
    Fetch(String),
}

/// How a citation in `style` is obtained: RIS locally; otherwise from the cache, else by
/// DOI, which the paper must have.
pub fn citation_route(style: &str, cached: bool, doi: Option<String>) -> (r: Result<CitationRoute, String>)
    ensures
        style@ == "ris"@ ==> r matches Ok(CitationRoute::Local),
        style@ != "ris"@ && cached ==> r matches Ok(CitationRoute::Cached),
        style@ != "ris"@ && !cached ==> match doi {
            Some(d) => r matches Ok(CitationRoute::Fetch(x)) && x@ == d@,
            None => r matches Err(e) && e@ == "No DOI available for citation lookup"@,
        },
{
    if str_eq(style, "ris") {
        return Ok(CitationRoute::Local);
    }
    if cached {
        return Ok(CitationRoute::Cached);
    }
    match doi {
        Some(d) => Ok(CitationRoute::Fetch(d)),
        None => Err("No DOI available for citation lookup".to_owned()),
    }
}

/// The `Accept` header of a DOI request: BibTeX's own type, else the CSL style.
pub fn citation_accept_header(style: &str, csl_style: &str) -> (r: String)
    ensures
        style@ == "bibtex"@ ==> r@ == "application/x-bibtex"@,
        style@ != "bibtex"@ ==> r@ == "text/x-bibliography; style="@ + csl_style@,
{
    if str_eq(style, "bibtex") {
        "application/x-bibtex".to_owned()
    } else {
        concat("text/x-bibliography; style=", csl_style)
    }
}

/// The source of a citation fetched by DOI content negotiation.
pub fn doi_citation_source(doi: &str, request_url: String, style: &str, csl_style: &str) -> (r: CitationSource)
    ensures
        r.provider@ == "DOI Content Negotiation"@,
        opt_view(r.doi) == Some(doi@),
        opt_view(r.request_url) == Some(request_url@),
        style@ == "bibtex"@ ==> opt_view(r.accept_header) == Some("application/x-bibtex"@) && r.style@
            == "bibtex"@,
        style@ != "bibtex"@ ==> opt_view(r.accept_header) == Some(
            "text/x-bibliography; style="@ + csl_style@,
        ) && r.style@ == style@,
{
    let bib = str_eq(style, "bibtex");
    CitationSource {
        provider: "DOI Content Negotiation".to_owned(),
        doi: Some(doi.to_owned()),
        request_url: Some(request_url),
        accept_header: Some(citation_accept_header(style, csl_style)),
        style: if bib {
            "bibtex".to_owned()
        } else {
            style.to_owned()
        },
    }
}

/// The source of a locally generated RIS citation.
pub fn local_ris_source(doi: Option<String>) -> (r: CitationSource)
    ensures
        r.provider@ == "Local"@,
        opt_view(r.doi) == opt_view(doi),
        r.request_url is None,
        r.accept_header is None,
        r.style@ == "ris"@,
{
    CitationSource {
        provider: "Local".to_owned(),
        doi,
        request_url: None,
        accept_header: None,
        style: "ris".to_owned(),
    }
}

/// The work that follows a metadata refresh of a paper.
pub struct RefreshFollowUp {
    /// Whether the authors found replace the paper's (empty) author list.
    pub set_authors: bool,
    /// The arXiv id whose HTML full text is fetched.
    pub fetch_arxiv_html: Option<String>,
    /// The PDF downloaded as the paper's `paper.pdf`.
    pub download_pdf: Option<String>,
}

/// Decides what follows a metadata refresh: the authors found are stored when the paper
/// had none; the arXiv HTML is fetched for the paper's arXiv id, else the one found; the
/// paper's PDF URL (else the one found) is downloaded when `paper.pdf` is missing.
pub fn refresh_follow_up(
    existing_author_count: usize,
    found_author_count: Option<usize>,
    current_arxiv_id: Option<String>,
    found_arxiv_id: Option<String>,
    current_pdf_url: Option<String>,
    found_pdf_url: Option<String>,
    paper_pdf_exists: bool,
) -> (r: RefreshFollowUp)
    ensures
        r.set_authors == (existing_author_count == 0 && match found_author_count {
            Some(n) => n > 0,
            None => false,
        }),
        opt_view(r.fetch_arxiv_html) == match current_arxiv_id {
            Some(a) => Some(a@),
            None => opt_view(found_arxiv_id),
        },
        opt_view(r.download_pdf) == if paper_pdf_exists {
            None
        } else {
            match current_pdf_url {
                Some(u) => Some(u@),
                None => opt_view(found_pdf_url),
            }
        },
{
    let set_authors = existing_author_count == 0 && match found_author_count {
        Some(n) => n > 0,
        None => false,
    };
    let fetch_arxiv_html = match current_arxiv_id {
        Some(a) => Some(a),
        None => found_arxiv_id,
    };
    let download_pdf = if paper_pdf_exists {
        None
    } else {
        match current_pdf_url {
            Some(u) => Some(u),
            None => found_pdf_url,
        }
    };
    RefreshFollowUp { set_authors, fetch_arxiv_html, download_pdf }
}

/// The identifiers a chosen metadata candidate writes: its DOI and arXiv id replace the
/// paper's when it has them (`Some(v)` sets the field), whatever the enrichment proposed.
pub fn candidate_identifiers(
    proposed_doi: Option<Option<String>>,
    proposed_arxiv: Option<Option<String>>,
    doi: Option<String>,
    arxiv_id: Option<String>,
) -> (r: (Option<Option<String>>, Option<Option<String>>))
    ensures
        doi is Some ==> r.0 == Some(doi),
        doi is None ==> r.0 == proposed_doi,
        arxiv_id is Some ==> r.1 == Some(arxiv_id),
        arxiv_id is None ==> r.1 == proposed_arxiv,
{
    let d = if doi.is_some() {
        Some(doi)
    } else {
        proposed_doi
    };
    let a = if arxiv_id.is_some() {
        Some(arxiv_id)
    } else {
        proposed_arxiv
    };
    (d, a)
}

} // verus!
