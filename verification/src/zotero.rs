//! Mapping Zotero library data onto Zoro's model during an import.
use vstd::prelude::*;
use crate::text::{
    chars_occur_at, chars_of, copy_range, find_char_from, find_chars_from, first_occurrence_from,
    lemma_next_index_bounds, next_index_of, occurs_at, opt_view, push_all, str_eq,
    string_from_chars, trim, trim_bounds,
};

verus! {

broadcast use vstd::string::group_string_axioms;

/// A creator (author, editor, ...) of a Zotero item.
pub struct ZoteroCreatorData {
    pub first_name: Option<String>,
    pub last_name: Option<String>,
    /// The full name of an institutional creator (set when only a last name is present).
    pub name: Option<String>,
    pub creator_type: String,
}

/// An optional text that is absent or empty.
pub open spec fn blank(o: Option<Seq<char>>) -> bool {
    match o {
        Some(s) => s.len() == 0,
        None => true,
    }
}

/// The creator built from a Zotero `creators` row: Zotero stores an institutional name
/// in `lastName` with an empty `firstName`, and that name becomes the full name.
pub fn zotero_creator(first_name: Option<String>, last_name: Option<String>, creator_type: String) -> (r:
    ZoteroCreatorData)
    ensures
        opt_view(r.first_name) == opt_view(first_name),
        opt_view(r.last_name) == opt_view(last_name),
        r.creator_type@ == creator_type@,
        opt_view(r.name) == (if blank(opt_view(first_name)) && !blank(opt_view(last_name)) {
            opt_view(last_name)
        } else {
            None
        }),
{
    let first_blank = match &first_name {
        Some(f) => f.as_str().is_empty(),
        None => true,
    };
    let last_blank = match &last_name {
        Some(l) => l.as_str().is_empty(),
        None => true,
    };
    let name = if first_blank && !last_blank {
        last_name.clone()
    } else {
        None
    };
    ZoteroCreatorData { first_name, last_name, name, creator_type }
}

/// The display name of a creator.
pub open spec fn creator_display_name(
    first: Option<Seq<char>>,
    last: Option<Seq<char>>,
    name: Option<Seq<char>>,
) -> Seq<char> {
    match name {
        Some(n) => n,
        None => match (first, last) {
            (Some(f), Some(l)) => if f.len() > 0 && l.len() > 0 {
                f + seq![' '] + l
            } else {
                l
            },
            (None, Some(l)) => l,
            (Some(f), None) => f,
            (None, None) => "Unknown"@,
        },
    }
}

/// The name under which a Zotero creator is stored as a paper author.
pub fn format_creator_name(creator: &ZoteroCreatorData) -> (r: String)
    ensures
        r@ == creator_display_name(
            opt_view(creator.first_name),
            opt_view(creator.last_name),
            opt_view(creator.name),
        ),
{
    if let Some(name) = &creator.name {
        return name.clone();
    }
    match (&creator.first_name, &creator.last_name) {
        (Some(first), Some(last)) => {
            let f = chars_of(first.as_str());
            let l = chars_of(last.as_str());
            if f.len() > 0 && l.len() > 0 {
                let mut out = f;
                out.push(' ');
                push_all(&mut out, &l);
                string_from_chars(&out)
            } else {
                last.clone()
            }
        },
        (None, Some(last)) => last.clone(),
        (Some(first), None) => first.clone(),
        (None, None) => "Unknown".to_owned(),
    }
}

/// The BibTeX-style entry type of a Zotero item type.
pub open spec fn zotero_entry_type(t: Seq<char>) -> Seq<char> {
    if t == "journalArticle"@ {
        "article"@
    } else if t == "bookSection"@ {
        "incollection"@
    } else if t == "conferencePaper"@ {
        "inproceedings"@
    } else if t == "book"@ {
        "book"@
    } else if t == "thesis"@ {
        "thesis"@
    } else if t == "report"@ {
        "techreport"@
    } else if t == "patent"@ {
        "patent"@
    } else if t == "webpage"@ {
        "webpage"@
    } else {
        "article"@
    }
}

/// Maps a Zotero item type onto the entry type stored with the paper.
pub fn map_zotero_item_type(zotero_type: &str) -> (r: String)
    ensures
        r@ == zotero_entry_type(zotero_type@),
{
    if str_eq(zotero_type, "journalArticle") {
        "article".to_owned()
    } else if str_eq(zotero_type, "bookSection") {
        "incollection".to_owned()
    } else if str_eq(zotero_type, "conferencePaper") {
        "inproceedings".to_owned()
    } else if str_eq(zotero_type, "book") {
        "book".to_owned()
    } else if str_eq(zotero_type, "thesis") {
        "thesis".to_owned()
    } else if str_eq(zotero_type, "report") {
        "techreport".to_owned()
    } else if str_eq(zotero_type, "patent") {
        "patent".to_owned()
    } else if str_eq(zotero_type, "webpage") {
        "webpage".to_owned()
    } else {
        "article".to_owned()
    }
}

/// The value of field `key` among Zotero's `(fieldName, value)` rows; when a field
/// occurs more than once the last row wins, as when the rows fill a map.
pub open spec fn field_value(fields: Seq<(String, String)>, key: Seq<char>) -> Option<Seq<char>>
    decreases fields.len(),
{
    if fields.len() == 0 {
        None
    } else if fields.last().0@ == key {
        Some(fields.last().1@)
    } else {
        field_value(fields.drop_last(), key)
    }
}

/// Executable form of [`field_value`].
pub fn get_field(fields: &Vec<(String, String)>, key: &str) -> (r: Option<String>)
    ensures
        opt_view(r) == field_value(fields@, key@),
{
    let mut i = fields.len();
    assert(fields@.take(i as int) =~= fields@);
    while i > 0
        invariant
            i <= fields.len(),
            field_value(fields@, key@) == field_value(fields@.take(i as int), key@),
        decreases i,
    {
        assert(fields@.take(i as int).drop_last() =~= fields@.take(i - 1));
        if str_eq(fields[i - 1].0.as_str(), key) {
            return Some(fields[i - 1].1.clone());
        }
        i = i - 1;
    }
    None
}

/// The index of the first `?`, `#` or `/` in `s` from `i` on, or `s.len()`.
pub open spec fn id_end_from(s: Seq<char>, i: int) -> int
    decreases s.len() - i,
{
    if i < 0 || i >= s.len() {
        s.len() as int
    } else if s[i] == '?' || s[i] == '#' || s[i] == '/' {
        i
    } else {
        id_end_from(s, i + 1)
    }
}

/// The identifier that follows the first occurrence of `pat` in `url`: the text up to
/// the next `?`, `#` or `/`, when it is not empty.
pub open spec fn id_after(url: Seq<char>, pat: Seq<char>) -> Option<Seq<char>> {
    let k = first_occurrence_from(url, pat, 0);
    if k < 0 {
        None
    } else {
        let rest = url.subrange(k + pat.len(), url.len() as int);
        let id = rest.take(id_end_from(rest, 0));
        if id.len() > 0 {
            Some(id)
        } else {
            None
        }
    }
}

/// The arXiv identifier in an arXiv abstract or PDF URL.
pub open spec fn arxiv_in_url(url: Seq<char>) -> Option<Seq<char>> {
    match id_after(url, "arxiv.org/abs/"@) {
        Some(id) => Some(id),
        None => id_after(url, "arxiv.org/pdf/"@),
    }
}

/// The arXiv identifier declared in Zotero's `extra` field from index `i` on: the first
/// line that, trimmed, starts with `arXiv:` or `arxiv:` gives the rest of it, trimmed.
pub open spec fn arxiv_in_extra_from(e: Seq<char>, i: int) -> Option<Seq<char>>
    decreases e.len() - i,
    via arxiv_in_extra_from_decreases
{
    if i < 0 || i >= e.len() {
        None
    } else {
        let k = next_index_of(e, i, '\n');
        let t = trim(e.subrange(i, k));
        if occurs_at(t, "arXiv:"@, 0) {
            Some(trim(t.skip("arXiv:"@.len() as int)))
        } else if occurs_at(t, "arxiv:"@, 0) {
            Some(trim(t.skip("arxiv:"@.len() as int)))
        } else if k >= e.len() {
            None
        } else {
            arxiv_in_extra_from(e, k + 1)
        }
    }
}

#[via_fn]
proof fn arxiv_in_extra_from_decreases(e: Seq<char>, i: int) {
    if 0 <= i < e.len() {
        lemma_next_index_bounds(e, i, '\n');
    }
}

/// The arXiv identifier of a Zotero item: from its URL, else from its `extra` field.
pub open spec fn arxiv_from_fields(fields: Seq<(String, String)>) -> Option<Seq<char>> {
    let from_url = match field_value(fields, "url"@) {
        Some(u) => arxiv_in_url(u),
        None => None,
    };
    if from_url is Some {
        from_url
    } else {
        match field_value(fields, "extra"@) {
            Some(e) => arxiv_in_extra_from(e, 0),
            None => None,
        }
    }
}

/// Executable form of [`id_after`].
fn identifier_after(url: &Vec<char>, pat: &str) -> (r: Option<Vec<char>>)
    ensures
        match r {
            Some(v) => id_after(url@, pat@) == Some(v@),
            None => id_after(url@, pat@) is None,
        },
{
    let p = chars_of(pat);
    let k = match find_chars_from(url, &p, 0) {
        Some(k) => k,
        None => {
            return None;
        },
    };
    proof {
        crate::text::lemma_first_occurrence(url@, p@, 0);
    }
    assert(occurs_at(url@, p@, k as int));
    assert(k + p@.len() <= url@.len());
    assert(p@.len() == p.len());
    assert(url@.len() == url.len());
    let start = k + p.len();
    let rest = copy_range(url, start, url.len());
    let mut j: usize = 0;
    while j < rest.len() && rest[j] != '?' && rest[j] != '#' && rest[j] != '/'
        invariant
            j <= rest.len(),
            id_end_from(rest@, 0) == id_end_from(rest@, j as int),
        decreases rest.len() - j,
    {
        j = j + 1;
    }
    if j > 0 {
        Some(copy_range(&rest, 0, j))
    } else {
        None
    }
}

/// Executable form of [`arxiv_in_extra_from`] from the start.
fn arxiv_in_extra(e: &Vec<char>) -> (r: Option<Vec<char>>)
    ensures
        match r {
            Some(v) => arxiv_in_extra_from(e@, 0) == Some(v@),
            None => arxiv_in_extra_from(e@, 0) is None,
        },
{
    let upper = chars_of("arXiv:");
    let lower = chars_of("arxiv:");
    let mut i: usize = 0;
    while i < e.len()
        invariant
            i <= e.len(),
            upper@ == "arXiv:"@,
            lower@ == "arxiv:"@,
            arxiv_in_extra_from(e@, 0) == arxiv_in_extra_from(e@, i as int),
        decreases e.len() - i,
    {
        let k = find_char_from(e, i, '\n');
        proof {
            lemma_next_index_bounds(e@, i as int, '\n');
        }
        let (a, b) = trim_bounds(e, i, k);
        let t = copy_range(e, a, b);
        if chars_occur_at(&t, &upper, 0) {
            let (c, d) = trim_bounds(&t, upper.len(), t.len());
            assert(t@.skip(upper@.len() as int) =~= t@.subrange(upper@.len() as int, t@.len() as int));
            return Some(copy_range(&t, c, d));
        }
        if chars_occur_at(&t, &lower, 0) {
            let (c, d) = trim_bounds(&t, lower.len(), t.len());
            assert(t@.skip(lower@.len() as int) =~= t@.subrange(lower@.len() as int, t@.len() as int));
            return Some(copy_range(&t, c, d));
        }
        if k >= e.len() {
            return None;
        }
        i = k + 1;
    }
    None
}

/// The arXiv identifier of a Zotero item, found in its `url` field (an
/// `arxiv.org/abs/` or `arxiv.org/pdf/` link) or declared in its `extra` field.
pub fn extract_arxiv_from_fields(fields: &Vec<(String, String)>) -> (r: Option<String>)
    ensures
        opt_view(r) == arxiv_from_fields(fields@),
{
    if let Some(url) = get_field(fields, "url") {
        let u = chars_of(url.as_str());
        if let Some(id) = identifier_after(&u, "arxiv.org/abs/") {
            return Some(string_from_chars(&id));
        }
        if let Some(id) = identifier_after(&u, "arxiv.org/pdf/") {
            return Some(string_from_chars(&id));
        }
    }
    if let Some(extra) = get_field(fields, "extra") {
        let e = chars_of(extra.as_str());
        if let Some(id) = arxiv_in_extra(&e) {
            return Some(string_from_chars(&id));
        }
    }
    None
}


/// The verdict on a directory offered as Zotero's data directory, from what was found
/// there: whether it exists, holds `zotero.sqlite` and holds `storage/`.
pub open spec fn zotero_dir_verdict_spec(exists: bool, has_db: bool, has_storage: bool) -> Result<
    bool,
    Seq<char>,
> {
    if !exists {
        Err("Directory does not exist"@)
    } else if !has_db {
        Err("zotero.sqlite not found in this directory"@)
    } else if !has_storage {
        Err("storage/ directory not found — this may not be a Zotero data directory"@)
    } else {
        Ok(true)
    }
}

/// The verdict on a Zotero data directory (see [`zotero_dir_verdict_spec`]).
pub fn zotero_dir_verdict(exists: bool, has_db: bool, has_storage: bool) -> (r: Result<bool, String>)
    ensures
        match (r, zotero_dir_verdict_spec(exists, has_db, has_storage)) {
            (Ok(a), Ok(b)) => a == b,
            (Err(e), Err(f)) => e@ == f,
            _ => false,
        },
{
    if !exists {
        Err(String::from_str("Directory does not exist"))
    } else if !has_db {
        Err(String::from_str("zotero.sqlite not found in this directory"))
    } else if !has_storage {
        Err(String::from_str("storage/ directory not found — this may not be a Zotero data directory"))
    } else {
        Ok(true)
    }
}

/// The directories where a Zotero data directory is looked for, in order: `Zotero` in
/// the home directory and, on macOS, Zotero's profiles directory.
pub open spec fn zotero_dir_candidates_spec(home: Seq<char>, macos: bool) -> Seq<Seq<char>> {
    let first = crate::feeds::joined_path(home, "Zotero"@);
    if macos {
        seq![first, crate::feeds::joined_path(home, "Library/Application Support/Zotero/Profiles"@)]
    } else {
        seq![first]
    }
}

/// The directories where a Zotero data directory is looked for (see
/// [`zotero_dir_candidates_spec`]).
pub fn zotero_dir_candidates(home: &str, macos: bool) -> (r: Vec<String>)
    ensures
        r@.len() == zotero_dir_candidates_spec(home@, macos).len(),
        forall|i: int| 0 <= i < r@.len() ==> #[trigger] r@[i]@ == zotero_dir_candidates_spec(home@, macos)[i],
{
    let mut r: Vec<String> = Vec::new();
    r.push(crate::feeds::join_path(home, &chars_of("Zotero")));
    if macos {
        r.push(zotero_profiles_dir(home));
    }
    r
}

/// Zotero's profiles directory on macOS, under the home directory.
pub fn zotero_profiles_dir(home: &str) -> (r: String)
    ensures
        r@ == crate::feeds::joined_path(home@, "Library/Application Support/Zotero/Profiles"@),
{
    crate::feeds::join_path(home, &chars_of("Library/Application Support/Zotero/Profiles"))
}

/// The index of the last `c` in `s` before position `end`, or -1.
pub open spec fn last_index_before(s: Seq<char>, end: int, c: char) -> int
    decreases end,
{
    if end <= 0 {
        -1
    } else if s[end - 1] == c {
        end - 1
    } else {
        last_index_before(s, end - 1, c)
    }
}

/// [`last_index_before`] is -1 or an index before `end` that holds `c`.
pub proof fn lemma_last_index_before(s: Seq<char>, end: int, c: char)
    requires
        0 <= end <= s.len(),
    ensures
        -1 <= last_index_before(s, end, c) < end,
        last_index_before(s, end, c) >= 0 ==> s[last_index_before(s, end, c)] == c,
    decreases end,
{
    if end > 0 && s[end - 1] != c {
        lemma_last_index_before(s, end - 1, c);
    }
}

/// The index of the last `c` in `v` before position `end` (see [`last_index_before`]).
fn find_last_before(v: &Vec<char>, end: usize, c: char) -> (r: Option<usize>)
    requires
        end <= v.len(),
    ensures
        match r {
            Some(k) => k as int == last_index_before(v@, end as int, c),
            None => last_index_before(v@, end as int, c) == -1,
        },
{
    let mut i: usize = end;
    while i > 0
        invariant
            i <= end <= v@.len(),
            last_index_before(v@, end as int, c) == last_index_before(v@, i as int, c),
        decreases i,
    {
        if v[i - 1] == c {
            return Some(i - 1);
        }
        i = i - 1;
    }
    None
}

/// The data directory a line of a Zotero profile's `prefs.js` names: on a line that sets
/// `extensions.zotero.dataDir` or `extensions.zotero.lastDataDir`, the text between the
/// last two double quotes.
pub open spec fn prefs_data_dir_spec(line: Seq<char>) -> Option<Seq<char>> {
    if crate::text::contains_seq(line, "extensions.zotero.dataDir"@) || crate::text::contains_seq(
        line,
        "extensions.zotero.lastDataDir"@,
    ) {
        let e = last_index_before(line, line.len() as int, '"');
        if e < 0 {
            None
        } else {
            let b = last_index_before(line, e, '"');
            if b < 0 {
                None
            } else {
                Some(line.subrange(b + 1, e))
            }
        }
    } else {
        None
    }
}

/// The data directory a line of `prefs.js` names (see [`prefs_data_dir_spec`]).
pub fn prefs_data_dir(line: &str) -> (r: Option<String>)
    ensures
        opt_view(r) == prefs_data_dir_spec(line@),
{
    if !crate::text::str_contains(line, "extensions.zotero.dataDir") && !crate::text::str_contains(
        line,
        "extensions.zotero.lastDataDir",
    ) {
        return None;
    }
    let v = chars_of(line);
    proof {
        lemma_last_index_before(v@, v@.len() as int, '"');
    }
    match find_last_before(&v, v.len(), '"') {
        None => None,
        Some(e) => {
            proof {
                lemma_last_index_before(v@, e as int, '"');
            }
            match find_last_before(&v, e, '"') {
                None => None,
                Some(b) => Some(string_from_chars(&copy_range(&v, b + 1, e))),
            }
        },
    }
}

} // verus!
