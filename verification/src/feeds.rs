//! Paper feeds: the daily-papers subscription, the papers.cool browser and watch lists:
//! their cache keys, the order they are shown in, the cached thumbnails, and how an item
//! of a feed becomes a paper of the library.
use vstd::prelude::*;
use crate::library::views_of;
use crate::json::{json_entry_names, json_entry_names_of, json_entry_pairs, json_entry_pairs_of, json_text_field, json_text_field_of, opts_view, pairs_view};
use crate::text::{
    chars_of, concat, contains_seq, lowercase_of, opt_view, push_str, replace_all, replace_all_chars,
    str_contains, str_eq, string_from_chars, to_lowercase,
};

verus! {

broadcast use vstd::string::group_string_axioms;

/// A feed subscription.
pub struct SubscriptionResponse {
    pub id: String,
    pub source_type: String,
    pub name: String,
    pub enabled: bool,
    pub poll_interval_minutes: i32,
    pub last_polled: Option<String>,
}

/// An item of a feed.
pub struct FeedItemResponse {
    pub id: String,
    pub external_id: String,
    pub title: String,
    pub authors: Vec<FeedAuthorResponse>,
    pub abstract_text: Option<String>,
    pub url: Option<String>,
    pub pdf_url: Option<String>,
    pub html_url: Option<String>,
    pub upvotes: Option<i32>,
    pub published_at: Option<String>,
    pub fetched_date: String,
    pub added_to_library: bool,
    pub thumbnail_url: Option<String>,
    pub ai_summary: Option<String>,
    pub ai_keywords: Option<Vec<String>>,
    pub project_page: Option<String>,
    pub github_repo: Option<String>,
    pub github_stars: Option<i32>,
    pub num_comments: Option<i32>,
    pub media_urls: Vec<String>,
    pub cached_thumbnail_path: Option<String>,
    pub organization: Option<FeedOrganizationResponse>,
}

/// The organisation that claimed a feed item.
pub struct FeedOrganizationResponse {
    pub name: Option<String>,
    pub fullname: Option<String>,
    pub avatar: Option<String>,
}

/// An author of a feed item.
pub struct FeedAuthorResponse {
    pub name: String,
    pub affiliation: Option<String>,
}

/// Where the library keeps its data and how much it holds.
pub struct StorageInfoResponse {
    pub data_dir: String,
    pub total_papers: i64,
    pub feed_cache_items: i64,
    pub feed_total_items: i64,
    pub feed_cache_retention_days: i32,
}

/// The subscription settings.
pub struct SubscriptionsConfigResponse {
    pub feed_cache_retention_days: i32,
    pub poll_interval_minutes: i32,
}

/// Applies an update of the subscription settings: a given retention replaces the
/// current one; the polling interval is kept.
pub fn update_subscription_settings(config: &mut SubscriptionsConfigResponse, feed_cache_retention_days: Option<i32>)
    ensures
        final(config).feed_cache_retention_days == match feed_cache_retention_days {
            Some(d) => d,
            None => old(config).feed_cache_retention_days,
        },
        final(config).poll_interval_minutes == old(config).poll_interval_minutes,
{
    if let Some(d) = feed_cache_retention_days {
        config.feed_cache_retention_days = d;
    }
}

/// A page of papers.cool results.
pub struct PapersCoolPageResponse {
    pub title: String,
    pub total: i32,
    pub papers: Vec<PapersCoolPaperResponse>,
}

/// A paper listed by papers.cool.
pub struct PapersCoolPaperResponse {
    pub external_id: String,
    pub title: String,
    pub authors: Vec<String>,
    pub abstract_text: Option<String>,
    pub categories: Vec<PapersCoolCategoryResponse>,
    pub published_date: Option<String>,
    pub pdf_url: Option<String>,
    pub abs_url: Option<String>,
    pub papers_cool_url: String,
    pub pdf_opens: i32,
    pub kimi_opens: i32,
    pub keywords: Vec<String>,
}

/// A category of a papers.cool paper.
pub struct PapersCoolCategoryResponse {
    pub code: String,
    pub name: String,
}

/// What papers.cool offers to browse.
pub struct PapersCoolIndexResponse {
    pub arxiv_groups: Vec<ArxivGroupResponse>,
    pub venues: Vec<VenueConferenceResponse>,
}

/// A group of arXiv categories.
pub struct ArxivGroupResponse {
    pub name: String,
    pub categories: Vec<ArxivCategoryResponse>,
}

/// An arXiv category.
pub struct ArxivCategoryResponse {
    pub code: String,
    pub name: String,
}

/// A conference and its editions.
pub struct VenueConferenceResponse {
    pub name: String,
    pub editions: Vec<VenueEditionResponse>,
}

/// An edition of a conference.
pub struct VenueEditionResponse {
    pub key: String,
    pub year: String,
    pub groups: Vec<VenueGroupResponse>,
}

/// A group of papers of a conference edition.
pub struct VenueGroupResponse {
    pub name: String,
    pub query: String,
}

/// A watch list.
pub struct WatchListResponse {
    pub id: String,
    pub name: String,
    pub description: Option<String>,
    pub poll_interval_minutes: i32,
    pub last_polled: Option<String>,
    pub created_date: String,
    pub item_count: i64,
    pub new_result_count: i64,
}

/// A paper a watch list found.
pub struct WatchListResultResponse {
    pub id: String,
    pub list_id: String,
    pub item_id: String,
    pub item_type: String,
    pub external_id: String,
    pub title: String,
    pub authors: Vec<WatchListResultAuthor>,
    pub abstract_text: Option<String>,
    pub url: Option<String>,
    pub pdf_url: Option<String>,
    pub published_date: Option<String>,
    pub fetched_date: String,
    pub added_to_library: bool,
    pub paper_id: Option<String>,
    pub source_display_name: Option<String>,
}

/// An author of a paper a watch list found.
pub struct WatchListResultAuthor {
    pub name: String,
}

/// A new watch list.
pub struct CreateWatchListInput {
    pub name: String,
    pub description: Option<String>,
    pub poll_interval_minutes: Option<i32>,
}

/// An update of a watch list.
pub struct UpdateWatchListInput {
    pub name: Option<String>,
    pub description: Option<String>,
    pub poll_interval_minutes: Option<i32>,
}

/// An author found when searching for authors to watch.
pub struct AuthorSearchResult {
    pub name: String,
    pub external_id: String,
    pub source: String,
    pub notes: Option<String>,
    pub paper_count: Option<i32>,
    pub citation_count: Option<i32>,
}

/// Which keys for the watch lists' sources are configured.
pub struct WatchListApiKeysResponse {
    pub semantic_scholar_set: bool,
    pub openalex_email: String,
}

/// The lowercase hexadecimal digit `d`.
pub open spec fn hex_digit(d: int) -> char {
    if d < 10 {
        crate::text::digit_char(d)
    } else if d == 10 {
        'a'
    } else if d == 11 {
        'b'
    } else if d == 12 {
        'c'
    } else if d == 13 {
        'd'
    } else if d == 14 {
        'e'
    } else {
        'f'
    }
}

/// `format!("{:016x}", n)`: the 16 hexadecimal digits of `n`, most significant first.
pub open spec fn hex16(n: u64) -> Seq<char> {
    Seq::new(16, |i: int| hex_digit(((n >> ((60 - 4 * i) as u64)) & 15u64) as int))
}

fn hex_char(d: u64) -> (c: char)
    requires
        d < 16,
    ensures
        c == hex_digit(d as int),
{
    if d < 10 {
        let s = crate::text::decimal_string(d);
        proof {
            assert(crate::text::decimal(d as nat) == seq![crate::text::digit_char(d as int)]);
        }
        let v = chars_of(s.as_str());
        v[0]
    } else if d == 10 {
        'a'
    } else if d == 11 {
        'b'
    } else if d == 12 {
        'c'
    } else if d == 13 {
        'd'
    } else if d == 14 {
        'e'
    } else {
        'f'
    }
}

/// Appends the 16 hexadecimal digits of `n` (see [`hex16`]).
pub fn push_hex16(dst: &mut Vec<char>, n: u64)
    ensures
        final(dst)@ == old(dst)@ + hex16(n),
{
    let mut i: u64 = 0;
    while i < 16
        invariant
            i <= 16,
            dst@ == old(dst)@ + hex16(n).take(i as int),
        decreases 16 - i,
    {
        let shift: u64 = 60 - 4 * i;
        let d = (n >> shift) & 15u64;
        assert(((n >> shift) & 15u64) < 16) by (bit_vector);
        dst.push(hex_char(d));
        assert(hex16(n).take(i + 1) =~= hex16(n).take(i as int).push(hex16(n)[i as int]));
        i = i + 1;
    }
    assert(hex16(n).take(16) =~= hex16(n));
}

/// What a fresh std `DefaultHasher` makes of a text (`Hash` for `str`, then `finish`).
pub uninterp spec fn default_hash(s: Seq<char>) -> u64;

/// Hashes a text with std's `BuildHasher::hash_one` over `BuildHasherDefault<DefaultHasher>`
/// (the same as `DefaultHasher::new`, `hash`, `finish`). That hasher starts from fixed
/// keys, unlike a `RandomState`, so the contract names the result `default_hash` of the
/// text: equal texts hash alike. Which number that is, is left unstated (std does not fix
/// the algorithm across releases).
#[verifier::external_body]
fn hash_text(s: &str) -> (r: u64)
    ensures
        r == default_hash(s@),
{
    std::hash::BuildHasher::hash_one(
        &std::hash::BuildHasherDefault::<std::collections::hash_map::DefaultHasher>::default(),
        s,
    )
}

/// Whether a character is an ASCII letter or digit.
pub open spec fn ascii_alnum(c: char) -> bool {
    ('0' <= c && c <= '9') || ('a' <= c && c <= 'z') || ('A' <= c && c <= 'Z')
}

/// The text after the last `.` of `s` (all of `s` without one).
pub open spec fn after_last_dot(s: Seq<char>) -> Seq<char> {
    s.subrange(crate::paths::last_dot(s) + 1, s.len() as int)
}

/// The extension of a cached thumbnail: the text after the URL's last `.` when it is at
/// most four ASCII letters or digits, else `jpg`.
pub open spec fn thumbnail_ext(url: Seq<char>) -> Seq<char> {
    let e = after_last_dot(url);
    if e.len() <= 4 && forall|i: int| 0 <= i < e.len() ==> ascii_alnum(#[trigger] e[i]) {
        e
    } else {
        "jpg"@
    }
}

/// The file name of a thumbnail's cache entry: the URL's hash in hexadecimal and the
/// thumbnail's extension.
pub open spec fn thumbnail_file(url: Seq<char>) -> Seq<char> {
    hex16(default_hash(url)) + "."@ + thumbnail_ext(url)
}

/// `base` joined with the relative path `rel` (`Path::join` with `/` separators).
pub open spec fn joined_path(base: Seq<char>, rel: Seq<char>) -> Seq<char> {
    if base.len() == 0 || base.last() == '/' {
        base + rel
    } else {
        base + "/"@ + rel
    }
}

pub(crate) fn join_path(base: &str, rel: &Vec<char>) -> (r: String)
    ensures
        r@ == joined_path(base@, rel@),
{
    proof {
        reveal_strlit("/");
    }
    let mut v = chars_of(base);
    if v.len() > 0 && v[v.len() - 1] != '/' {
        v.push('/');
    }
    crate::text::push_all(&mut v, rel);
    assert(v@ =~= joined_path(base@, rel@));
    string_from_chars(&v)
}

fn is_ascii_alnum(c: char) -> (r: bool)
    ensures
        r == ascii_alnum(c),
{
    ('0' <= c && c <= '9') || ('a' <= c && c <= 'z') || ('A' <= c && c <= 'Z')
}

fn last_dot_index(v: &Vec<char>) -> (r: usize)
    ensures
        r as int == crate::paths::last_dot(v@) + 1,
        r <= v@.len(),
{
    let mut i = v.len();
    assert(v@.take(i as int) =~= v@);
    while i > 0
        invariant
            i <= v@.len(),
            crate::paths::last_dot(v@) == crate::paths::last_dot(v@.take(i as int)),
        decreases i,
    {
        assert(v@.take(i as int).drop_last() =~= v@.take(i - 1));
        if v[i - 1] == '.' {
            return i;
        }
        i = i - 1;
    }
    0
}

/// The cache path of a thumbnail: `{data_dir}/cache/thumbnails/{hash}.{ext}` (see
/// [`thumbnail_file`]).
pub fn thumbnail_cache_path(data_dir: &str, url: &str) -> (r: String)
    ensures
        r@ == joined_path(data_dir@, "cache/thumbnails/"@ + thumbnail_file(url@)),
{
    thumbnail_path_for_hash(data_dir, url, hash_text(url))
}

/// The cache path of the thumbnail at `url` whose URL hashes to `hash`:
/// `{data_dir}/cache/thumbnails/{hash in hexadecimal}.{ext}` (see [`thumbnail_ext`]).
pub fn thumbnail_path_for_hash(data_dir: &str, url: &str, hash: u64) -> (r: String)
    ensures
        r@ == joined_path(data_dir@, "cache/thumbnails/"@ + hex16(hash) + "."@ + thumbnail_ext(url@)),
{
    let v = chars_of(url);
    let start = last_dot_index(&v);
    let ghost e = after_last_dot(v@);
    let mut ok = v.len() - start <= 4;
    let mut k = start;
    while k < v.len()
        invariant
            start <= k <= v@.len(),
            e == v@.subrange(start as int, v@.len() as int),
            ok == (e.len() <= 4 && forall|i: int| 0 <= i < k - start ==> ascii_alnum(#[trigger] e[i])),
        decreases v.len() - k,
    {
        assert(e[k - start] == v@[k as int]);
        if !is_ascii_alnum(v[k]) {
            ok = false;
        }
        k = k + 1;
    }
    proof {
        reveal_strlit(".");
        assert(v@ == url@);
        assert(ok == (e.len() <= 4 && forall|i: int| 0 <= i < e.len() ==> ascii_alnum(#[trigger] e[i])));
    }
    let mut name: Vec<char> = chars_of("cache/thumbnails/");
    push_hex16(&mut name, hash);
    name.push('.');
    if ok {
        crate::text::push_range(&mut name, &v, start, v.len());
    } else {
        push_str(&mut name, "jpg");
    }
    assert(name@ =~= "cache/thumbnails/"@ + hex16(hash) + "."@ + thumbnail_ext(url@));
    join_path(data_dir, &name)
}

/// The file name under which a remote PDF is cached: its URL's hash and `.pdf`.
pub fn remote_pdf_cache_name(url: &str) -> (r: String)
    ensures
        r@ == hex16(default_hash(url@)) + ".pdf"@,
{
    pdf_cache_name_for_hash(hash_text(url))
}

/// The cache file name of a remote PDF whose URL hashes to `hash`.
pub fn pdf_cache_name_for_hash(hash: u64) -> (r: String)
    ensures
        r@ == hex16(hash) + ".pdf"@,
{
    let mut v: Vec<char> = Vec::new();
    push_hex16(&mut v, hash);
    push_str(&mut v, ".pdf");
    string_from_chars(&v)
}

/// Whether downloaded bytes look like a PDF: they start with `%PDF`.
pub open spec fn pdf_magic(bytes: Seq<u8>) -> bool {
    bytes.len() >= 4 && bytes[0] == 0x25u8 && bytes[1] == 0x50u8 && bytes[2] == 0x44u8 && bytes[3]
        == 0x46u8
}

/// Whether downloaded bytes look like a PDF (see [`pdf_magic`]).
pub fn looks_like_pdf(bytes: &[u8]) -> (r: bool)
    ensures
        r == pdf_magic(bytes@),
{
    bytes.len() >= 4 && bytes[0] == 0x25u8 && bytes[1] == 0x50u8 && bytes[2] == 0x44u8 && bytes[3]
        == 0x46u8
}

/// The character that stands for a byte in the preview of a download that is not a PDF:
/// the byte itself when it is a visible ASCII character or a space, else `.`.
pub open spec fn preview_char(b: u8) -> char {
    if 0x20u8 <= b && b <= 0x7Eu8 {
        b as char
    } else {
        '.'
    }
}

/// The preview of a download that is not a PDF: its first 200 bytes at most, each as
/// [`preview_char`] gives it.
pub open spec fn byte_preview(bytes: Seq<u8>) -> Seq<char> {
    let n = if bytes.len() < 200 {
        bytes.len() as int
    } else {
        200
    };
    Seq::new(n as nat, |i: int| preview_char(bytes[i]))
}

/// Why a downloaded file cannot be kept as a PDF, given the response's content type (as
/// lowercased) and its bytes: the server answered with HTML, or the bytes do not start
/// with `%PDF`.
pub open spec fn remote_pdf_problem(content_type: Seq<char>, bytes: Seq<u8>) -> Option<Seq<char>> {
    if contains_seq(content_type, "text/html"@) {
        Some("Remote server returned HTML instead of PDF (Content-Type: "@ + content_type + ")"@)
    } else if !pdf_magic(bytes) {
        Some(
            "Downloaded content is not a valid PDF. Content-Type was '"@ + content_type
                + "'. First bytes: "@ + byte_preview(bytes),
        )
    } else {
        None
    }
}

fn push_byte_preview(dst: &mut Vec<char>, bytes: &[u8])
    ensures
        final(dst)@ == old(dst)@ + byte_preview(bytes@),
{
    let n: usize = if bytes.len() < 200 {
        bytes.len()
    } else {
        200
    };
    let ghost start = dst@;
    let mut i: usize = 0;
    while i < n
        invariant
            n <= bytes@.len(),
            n == byte_preview(bytes@).len(),
            i <= n,
            dst@ =~= start + byte_preview(bytes@).take(i as int),
        decreases n - i,
    {
        let b = bytes[i];
        let c = if 0x20u8 <= b && b <= 0x7Eu8 {
            b as char
        } else {
            '.'
        };
        dst.push(c);
        i = i + 1;
    }
    assert(byte_preview(bytes@).take(n as int) =~= byte_preview(bytes@));
}

/// Checks a downloaded file before it is cached as a PDF. `content_type` is the
/// response's `Content-Type` header (empty when there is none); it is lowercased with
/// `str::to_lowercase` and the result is `Err` with [`remote_pdf_problem`]'s message
/// exactly when there is a problem.
pub fn check_remote_pdf(content_type: &str, bytes: &[u8]) -> (r: Result<(), String>)
    ensures
        match remote_pdf_problem(lowercase_of(content_type@), bytes@) {
            Some(m) => r matches Err(e) && e@ == m,
            None => r is Ok,
        },
{
    let ct = to_lowercase(content_type);
    if str_contains(ct.as_str(), "text/html") {
        let mut v: Vec<char> = Vec::new();
        push_str(&mut v, "Remote server returned HTML instead of PDF (Content-Type: ");
        push_str(&mut v, ct.as_str());
        push_str(&mut v, ")");
        proof {
            reveal_strlit("text/html");
        }
        return Err(string_from_chars(&v));
    }
    if !looks_like_pdf(bytes) {
        let mut v: Vec<char> = Vec::new();
        push_str(&mut v, "Downloaded content is not a valid PDF. Content-Type was '");
        push_str(&mut v, ct.as_str());
        push_str(&mut v, "'. First bytes: ");
        push_byte_preview(&mut v, bytes);
        return Err(string_from_chars(&v));
    }
    Ok(())
}

/// Whether `order` lists the indices of `keys` so that their keys are in decreasing
/// order, equal keys in their original order (the order a stable sort gives).
pub open spec fn stable_desc(keys: Seq<i128>, order: Seq<usize>) -> bool {
    &&& order.len() == keys.len()
    &&& forall|i: int| 0 <= i < order.len() ==> (#[trigger] order[i]) < keys.len()
    &&& forall|i: int, j: int| 0 <= i < j < order.len() ==> order[i] != order[j]
    &&& forall|i: int, j: int|
        0 <= i < j < order.len() ==> keys[order[i] as int] > keys[order[j] as int] || (keys[order[i] as int]
            == keys[order[j] as int] && order[i] < order[j])
}

/// The order of a stable sort of `keys`, largest first (see [`stable_desc`]).
pub fn stable_order_desc(keys: &Vec<i128>) -> (r: Vec<usize>)
    ensures
        stable_desc(keys@, r@),
{
    let mut order: Vec<usize> = Vec::new();
    let mut n: usize = 0;
    while n < keys.len()
        invariant
            n <= keys@.len(),
            order@.len() == n,
            forall|i: int| 0 <= i < order@.len() ==> (#[trigger] order@[i]) < n,
            forall|i: int, j: int| 0 <= i < j < order@.len() ==> order@[i] != order@[j],
            forall|i: int, j: int|
                0 <= i < j < order@.len() ==> keys@[order@[i] as int] > keys@[order@[j] as int] || (
                keys@[order@[i] as int] == keys@[order@[j] as int] && order@[i] < order@[j]),
        decreases keys.len() - n,
    {
        let kn = keys[n];
        let mut pos: usize = 0;
        while pos < order.len() && keys[order[pos]] >= kn
            invariant
                pos <= order@.len(),
                n < keys@.len(),
                kn == keys@[n as int],
                forall|i: int| 0 <= i < order@.len() ==> (#[trigger] order@[i]) < n,
                forall|i: int| 0 <= i < pos ==> keys@[(#[trigger] order@[i]) as int] >= kn,
            decreases order.len() - pos,
        {
            pos = pos + 1;
        }
        let ghost old_order = order@;
        proof {
            assert forall|i: int| pos <= i < old_order.len() implies keys@[(#[trigger] old_order[i]) as int] < kn by {
                if i > pos {
                    assert(keys@[old_order[pos as int] as int] < kn);
                }
            }
        }
        order.insert(pos, n);
        assert(order@ =~= old_order.take(pos as int).push(n) + old_order.skip(pos as int));
        assert forall|i: int, j: int| 0 <= i < j < order@.len() implies keys@[order@[i] as int] > keys@[order@[j] as int] || (
            keys@[order@[i] as int] == keys@[order@[j] as int] && order@[i] < order@[j]) by {
            if i < pos && j < pos {
                assert(order@[i] == old_order[i] && order@[j] == old_order[j]);
            } else if i < pos && j == pos {
                assert(order@[i] == old_order[i]);
                assert(keys@[old_order[i] as int] >= kn);
            } else if i < pos {
                assert(order@[i] == old_order[i] && order@[j] == old_order[j - 1]);
            } else if i == pos {
                assert(order@[j] == old_order[j - 1]);
                assert(keys@[old_order[j - 1] as int] < kn);
            } else {
                assert(order@[i] == old_order[i - 1] && order@[j] == old_order[j - 1]);
            }
        }
        assert forall|i: int, j: int| 0 <= i < j < order@.len() implies order@[i] != order@[j] by {
            if i < pos && j < pos {
                assert(order@[i] == old_order[i] && order@[j] == old_order[j]);
            } else if i < pos && j == pos {
                assert(order@[i] == old_order[i]);
            } else if i < pos {
                assert(order@[i] == old_order[i] && order@[j] == old_order[j - 1]);
            } else if i == pos {
                assert(order@[j] == old_order[j - 1]);
            } else {
                assert(order@[i] == old_order[i - 1] && order@[j] == old_order[j - 1]);
            }
        }
        assert forall|i: int| 0 <= i < order@.len() implies (#[trigger] order@[i]) < n + 1 by {
            if i < pos {
                assert(order@[i] == old_order[i]);
            } else if i > pos {
                assert(order@[i] == old_order[i - 1]);
            }
        }
        n = n + 1;
    }
    order
}

/// The upvotes a feed item is ordered by (none counts as 0).
pub open spec fn upvote_key(u: Option<i32>) -> i128 {
    match u {
        Some(v) => v as i128,
        None => 0,
    }
}

/// The sort keys of a list of feed items' upvotes.
pub open spec fn upvote_keys(ups: Seq<Option<i32>>) -> Seq<i128> {
    Seq::new(ups.len(), |i: int| upvote_key(ups[i]))
}

/// The order in which feed items are shown: by upvotes, most first, items with equal
/// upvotes in their original order; `ups` holds each item's upvotes.
pub fn order_by_upvotes(ups: &Vec<Option<i32>>) -> (r: Vec<usize>)
    ensures
        stable_desc(upvote_keys(ups@), r@),
{
    let mut keys: Vec<i128> = Vec::new();
    let mut k: usize = 0;
    while k < ups.len()
        invariant
            k <= ups@.len(),
            keys@ =~= upvote_keys(ups@).take(k as int),
        decreases ups.len() - k,
    {
        let key: i128 = match ups[k] {
            Some(v) => v as i128,
            None => 0,
        };
        keys.push(key);
        k = k + 1;
    }
    assert(keys@ =~= upvote_keys(ups@));
    stable_order_desc(&keys)
}

/// The thumbnails that are fetched for a list of feed items: those of the items that
/// have a thumbnail URL but no cached copy yet, in order.
pub open spec fn thumbnails_to_fetch(items: Seq<(Option<String>, bool)>) -> Seq<Seq<char>>
    decreases items.len(),
{
    if items.len() == 0 {
        Seq::empty()
    } else {
        let rest = thumbnails_to_fetch(items.drop_last());
        match items.last().0 {
            Some(u) => if !items.last().1 {
                rest.push(u@)
            } else {
                rest
            },
            None => rest,
        }
    }
}

/// The thumbnails to fetch (see [`thumbnails_to_fetch`]); each item is given as its
/// thumbnail URL and whether a cached copy exists.
pub fn thumbnail_downloads(items: &Vec<(Option<String>, bool)>) -> (r: Vec<String>)
    ensures
        views_of(r@) == thumbnails_to_fetch(items@),
{
    let mut out: Vec<String> = Vec::new();
    let mut k: usize = 0;
    while k < items.len()
        invariant
            k <= items@.len(),
            views_of(out@) == thumbnails_to_fetch(items@.take(k as int)),
        decreases items.len() - k,
    {
        assert(items@.take(k + 1).drop_last() =~= items@.take(k as int));
        let ghost before = out@;
        match &items[k].0 {
            Some(u) => {
                if !items[k].1 {
                    out.push(u.clone());
                    assert(views_of(out@) =~= views_of(before).push(u@));
                }
            },
            None => {},
        }
        k = k + 1;
    }
    assert(items@.take(items@.len() as int) =~= items@);
    out
}

/// Whether the feed of a date is served from the cache: unless a refresh is forced, the
/// cached items of that date are shown when there are any.
pub fn use_feed_cache(force_refresh: Option<bool>, cached_count: usize) -> (r: bool)
    ensures
        r == (!(force_refresh == Some(true)) && cached_count > 0),
{
    let force = match force_refresh {
        Some(f) => f,
        None => false,
    };
    !force && cached_count > 0
}

/// The stored items (given by their external ids) that belong to a freshly fetched date:
/// those whose external id the fetch returned, in stored order.
pub fn items_of_date(stored_ids: &Vec<String>, fetched_ids: &Vec<String>) -> (r: Vec<usize>)
    ensures
        forall|i: int| 0 <= i < r@.len() ==> (#[trigger] r@[i]) < stored_ids@.len(),
        forall|i: int, j: int| 0 <= i < j < r@.len() ==> r@[i] < r@[j],
        forall|k: int|
            0 <= k < stored_ids@.len() ==> (r@.contains(k as usize) <==> views_of(fetched_ids@).contains(
                #[trigger] stored_ids@[k]@,
            )),
{
    let mut out: Vec<usize> = Vec::new();
    let mut k: usize = 0;
    while k < stored_ids.len()
        invariant
            k <= stored_ids@.len(),
            forall|i: int| 0 <= i < out@.len() ==> (#[trigger] out@[i]) < k,
            forall|i: int, j: int| 0 <= i < j < out@.len() ==> out@[i] < out@[j],
            forall|m: int|
                0 <= m < k ==> (out@.contains(m as usize) <==> views_of(fetched_ids@).contains(
                    #[trigger] stored_ids@[m]@,
                )),
        decreases stored_ids.len() - k,
    {
        let ghost before = out@;
        if crate::library::names_contain(fetched_ids, stored_ids[k].as_str()) {
            out.push(k);
        }
        assert forall|m: int| 0 <= m < k + 1 implies (out@.contains(m as usize) <==> views_of(fetched_ids@).contains(
            #[trigger] stored_ids@[m]@,
        )) by {
            if m < k {
                if out@.contains(m as usize) {
                    let i = choose|i: int| 0 <= i < out@.len() && out@[i] == m as usize;
                    if i == before.len() {
                        assert(out@[i] == k);
                    } else {
                        assert(before[i] == m as usize);
                    }
                }
                if before.contains(m as usize) {
                    let i = choose|i: int| 0 <= i < before.len() && before[i] == m as usize;
                    assert(out@[i] == m as usize);
                }
            } else {
                if before.contains(m as usize) {
                    let i = choose|i: int| 0 <= i < before.len() && before[i] == m as usize;
                    assert(before[i] < k);
                }
                if out@.len() > before.len() {
                    assert(out@[before.len() as int] == m as usize);
                }
            }
        }
        k = k + 1;
    }
    out
}

/// Whether a requested papers.cool date is the day `today` (no date means the latest,
/// today's).
pub fn is_date_today(date: Option<&str>, today: &str) -> (r: bool)
    ensures
        r == match date {
            Some(d) => d@ == today@,
            None => true,
        },
{
    match date {
        Some(d) => str_eq(d, today),
        None => true,
    }
}

/// Whether a requested papers.cool date is today's UTC date (see [`is_date_today`]).
/// Which date is today comes from the clock: the result is the comparison with some
/// date-shaped text, so a date that does not have that shape is never today.
pub fn is_today(date: Option<&str>) -> (r: bool)
    ensures
        exists|today: Seq<char>|
            crate::clock::date_shaped(today) && r == match date {
                Some(d) => d@ == today,
                None => true,
            },
        date is None ==> r,
        date matches Some(d) && !crate::clock::date_shaped(d@) ==> !r,
{
    let today = crate::clock::utc_today();
    is_date_today(date, today.as_str())
}

/// The date a subscription refresh fetches: the latest date the source reports, else
/// today's UTC date.
pub fn refresh_date(latest: Option<String>) -> (r: String)
    ensures
        latest matches Some(d) ==> r@ == d@,
        latest is None ==> crate::clock::date_shaped(r@),
{
    match latest {
        Some(d) => d,
        None => crate::clock::utc_today(),
    }
}

/// How long a papers.cool page is cached, in seconds: the index a day, today's arXiv
/// listing half an hour, older listings and venues a week, searches an hour.
pub enum CoolPage {
    Index,
    ArxivToday,
    ArxivPast,
    Venue,
    Search,
}

/// The time-to-live of a cached papers.cool page (see [`CoolPage`]).
pub fn cache_ttl(page: CoolPage) -> (r: i64)
    ensures
        r == match page {
            CoolPage::Index => 86400i64,
            CoolPage::ArxivToday => 1800i64,
            CoolPage::ArxivPast => 604800i64,
            CoolPage::Venue => 604800i64,
            CoolPage::Search => 3600i64,
        },
{
    match page {
        CoolPage::Index => 86400,
        CoolPage::ArxivToday => 1800,
        CoolPage::ArxivPast => 604800,
        CoolPage::Venue => 604800,
        CoolPage::Search => 3600,
    }
}

/// The cache key of an arXiv listing: `arxiv:{category}:{date}`, or `…:latest`.
pub fn arxiv_cache_key(category: &str, date: Option<&str>) -> (r: String)
    ensures
        r@ == "arxiv:"@ + category@ + ":"@ + match date {
            Some(d) => d@,
            None => "latest"@,
        },
{
    let mut v = chars_of("arxiv:");
    push_str(&mut v, category);
    push_str(&mut v, ":");
    match date {
        Some(d) => push_str(&mut v, d),
        None => push_str(&mut v, "latest"),
    }
    string_from_chars(&v)
}

/// The cache key of a venue listing: `venue:{key}` and `:{group}` when there is one.
pub fn venue_cache_key(venue_key: &str, group: Option<&str>) -> (r: String)
    ensures
        r@ == "venue:"@ + venue_key@ + match group {
            Some(g) => ":"@ + g@,
            None => Seq::empty(),
        },
{
    let mut v = chars_of("venue:");
    push_str(&mut v, venue_key);
    if let Some(g) = group {
        push_str(&mut v, ":");
        push_str(&mut v, g);
    }
    assert(v@ =~= "venue:"@ + venue_key@ + match group {
        Some(g) => ":"@ + g@,
        None => Seq::empty(),
    });
    string_from_chars(&v)
}

/// The cache key of a search: `search:{query}`.
pub fn search_cache_key(query: &str) -> (r: String)
    ensures
        r@ == "search:"@ + query@,
{
    concat("search:", query)
}

/// Metadata fields that an enrichment can supply.
pub struct EnrichableFields {
    pub abstract_text: Option<String>,
    pub doi: Option<String>,
    pub published_date: Option<String>,
    pub entry_type: Option<String>,
    pub journal: Option<String>,
    pub volume: Option<String>,
    pub issue: Option<String>,
    pub pages: Option<String>,
    pub publisher: Option<String>,
    pub issn: Option<String>,
    pub isbn: Option<String>,
}

/// The update an enrichment makes of the same fields: `Some(v)` sets a field to `v`,
/// `None` leaves it.
pub struct EnrichmentUpdate {
    pub abstract_text: Option<Option<String>>,
    pub doi: Option<Option<String>>,
    pub published_date: Option<Option<String>>,
    pub entry_type: Option<Option<String>>,
    pub journal: Option<Option<String>>,
    pub volume: Option<Option<String>>,
    pub issue: Option<Option<String>>,
    pub pages: Option<Option<String>>,
    pub publisher: Option<Option<String>>,
    pub issn: Option<Option<String>>,
    pub isbn: Option<Option<String>>,
}

/// The update of one field: the value found, but only where the paper has none.
pub open spec fn fills(current: Option<String>, found: Option<String>, u: Option<Option<String>>) -> bool {
    match current {
        Some(_) => u is None,
        None => match found {
            Some(f) => u matches Some(Some(v)) && v@ == f@,
            None => u is None,
        },
    }
}

/// A field after an update.
pub open spec fn updated_field(current: Option<String>, u: Option<Option<String>>) -> Option<Seq<char>> {
    match u {
        Some(v) => opt_view(v),
        None => opt_view(current),
    }
}

fn fill(current: &Option<String>, found: Option<String>) -> (u: Option<Option<String>>)
    ensures
        fills(*current, found, u),
{
    match current {
        Some(_) => None,
        None => match found {
            Some(f) => Some(Some(f)),
            None => None,
        },
    }
}

/// The update an enrichment makes: every field the paper lacks gets the value found,
/// every field it has is left as it is.
pub fn fill_missing(current: &EnrichableFields, found: EnrichableFields) -> (u: EnrichmentUpdate)
    ensures
        fills(current.abstract_text, found.abstract_text, u.abstract_text),
        fills(current.doi, found.doi, u.doi),
        fills(current.published_date, found.published_date, u.published_date),
        fills(current.entry_type, found.entry_type, u.entry_type),
        fills(current.journal, found.journal, u.journal),
        fills(current.volume, found.volume, u.volume),
        fills(current.issue, found.issue, u.issue),
        fills(current.pages, found.pages, u.pages),
        fills(current.publisher, found.publisher, u.publisher),
        fills(current.issn, found.issn, u.issn),
        fills(current.isbn, found.isbn, u.isbn),
{
    EnrichmentUpdate {
        abstract_text: fill(&current.abstract_text, found.abstract_text),
        doi: fill(&current.doi, found.doi),
        published_date: fill(&current.published_date, found.published_date),
        entry_type: fill(&current.entry_type, found.entry_type),
        journal: fill(&current.journal, found.journal),
        volume: fill(&current.volume, found.volume),
        issue: fill(&current.issue, found.issue),
        pages: fill(&current.pages, found.pages),
        publisher: fill(&current.publisher, found.publisher),
        issn: fill(&current.issn, found.issn),
        isbn: fill(&current.isbn, found.isbn),
    }
}

/// An enrichment never changes a value the paper has, and gives every missing field the
/// value found.
pub proof fn lemma_fill_keeps_present(current: Option<String>, found: Option<String>, u: Option<Option<String>>)
    requires
        fills(current, found, u),
    ensures
        current is Some ==> updated_field(current, u) == opt_view(current),
        current is None ==> updated_field(current, u) == opt_view(found),
{
}

/// What a feed item holds beyond its title and id.
pub struct FeedItemData {
    pub url: Option<String>,
    pub pdf_url: Option<String>,
    pub html_url: Option<String>,
    pub abstract_text: Option<String>,
    pub thumbnail: Option<String>,
    pub published_at: Option<String>,
    /// The item's authors: their name and affiliation, when they are texts.
    pub authors: Vec<(Option<String>, Option<String>)>,
}

/// How a feed item becomes a paper.
pub struct FeedPaperPlan {
    pub url: String,
    pub pdf_url: String,
    pub html_url: String,
    /// The URL recorded in the paper's metadata file: the PDF URL's `/pdf/` made `/abs/`.
    pub metadata_url: String,
    pub authors: Vec<(String, Option<String>)>,
}

/// The authors of an item that have a name, with their affiliation, in order.
pub open spec fn named_authors(a: Seq<(Option<String>, Option<String>)>) -> Seq<(Seq<char>, Option<Seq<char>>)>
    decreases a.len(),
{
    if a.len() == 0 {
        Seq::empty()
    } else {
        let rest = named_authors(a.drop_last());
        match a.last().0 {
            Some(n) => rest.push((n@, opt_view(a.last().1))),
            None => rest,
        }
    }
}

fn url_or(v: &Option<String>, prefix: &str, id: &str) -> (r: String)
    ensures
        r@ == match v {
            Some(u) => u@,
            None => prefix@ + id@,
        },
{
    match v {
        Some(u) => u.clone(),
        None => concat(prefix, id),
    }
}

/// How the feed item `arxiv_id` becomes a paper (see [`plan_feed_paper`]): an item
/// already in the library is refused; its URLs default to arXiv's abstract, PDF and HTML
/// pages; its named authors are kept with their affiliations.
pub open spec fn feed_plan(arxiv_id: Seq<char>, added_to_library: bool, data: FeedItemData, r: Result<FeedPaperPlan, String>) -> bool {
    &&& added_to_library <==> r is Err
    &&& r matches Err(e) ==> e@ == "Item already added to library"@
    &&& r matches Ok(p) ==> {
        &&& p.url@ == match data.url {
            Some(u) => u@,
            None => "https://arxiv.org/abs/"@ + arxiv_id,
        }
        &&& p.pdf_url@ == match data.pdf_url {
            Some(u) => u@,
            None => "https://arxiv.org/pdf/"@ + arxiv_id,
        }
        &&& p.html_url@ == match data.html_url {
            Some(u) => u@,
            None => "https://arxiv.org/html/"@ + arxiv_id,
        }
        &&& p.metadata_url@ == replace_all(p.pdf_url@, "/pdf/"@, "/abs/"@)
        &&& p.authors@.len() == named_authors(data.authors@).len()
        &&& forall|k: int|
            0 <= k < p.authors@.len() ==> (#[trigger] p.authors@[k]).0@ == named_authors(data.authors@)[k].0
                && opt_view(p.authors@[k].1) == named_authors(data.authors@)[k].1
    }
}

/// Plans how the feed item `arxiv_id` becomes a paper (see [`feed_plan`]).
pub fn plan_feed_paper(arxiv_id: &str, added_to_library: bool, data: &FeedItemData) -> (r: Result<
    FeedPaperPlan,
    String,
>)
    ensures
        feed_plan(arxiv_id@, added_to_library, *data, r),
{
    if added_to_library {
        return Err("Item already added to library".to_owned());
    }
    let url = url_or(&data.url, "https://arxiv.org/abs/", arxiv_id);
    let pdf_url = url_or(&data.pdf_url, "https://arxiv.org/pdf/", arxiv_id);
    let html_url = url_or(&data.html_url, "https://arxiv.org/html/", arxiv_id);
    let metadata_url = string_from_chars(
        &replace_all_chars(&chars_of(pdf_url.as_str()), &chars_of("/pdf/"), &chars_of("/abs/")),
    );
    let mut authors: Vec<(String, Option<String>)> = Vec::new();
    let mut k: usize = 0;
    while k < data.authors.len()
        invariant
            k <= data.authors@.len(),
            authors@.len() == named_authors(data.authors@.take(k as int)).len(),
            forall|j: int|
                0 <= j < authors@.len() ==> (#[trigger] authors@[j]).0@ == named_authors(
                    data.authors@.take(k as int),
                )[j].0 && opt_view(authors@[j].1) == named_authors(data.authors@.take(k as int))[j].1,
        decreases data.authors.len() - k,
    {
        assert(data.authors@.take(k + 1).drop_last() =~= data.authors@.take(k as int));
        match &data.authors[k].0 {
            Some(n) => {
                let aff = match &data.authors[k].1 {
                    Some(a) => Some(a.clone()),
                    None => None,
                };
                authors.push((n.clone(), aff));
            },
            None => {},
        }
        k = k + 1;
    }
    assert(data.authors@.take(data.authors@.len() as int) =~= data.authors@);
    Ok(FeedPaperPlan { url, pdf_url, html_url, metadata_url, authors })
}

/// The extra metadata a feed item carries into the paper: `(key in the item, key in the
/// paper)`, in the order they are copied.
pub fn feed_extra_keys() -> (r: Vec<(&'static str, &'static str)>)
    ensures
        r@.len() == 6,
        r@[0].0@ == "upvotes"@ && r@[0].1@ == "hf_upvotes"@,
        r@[1].0@ == "project_page"@ && r@[1].1@ == "project_page"@,
        r@[2].0@ == "github_repo"@ && r@[2].1@ == "github_repo"@,
        r@[3].0@ == "github_stars"@ && r@[3].1@ == "github_stars"@,
        r@[4].0@ == "ai_summary"@ && r@[4].1@ == "ai_summary"@,
        r@[5].0@ == "num_comments"@ && r@[5].1@ == "hf_num_comments"@,
{
    vec![
        ("upvotes", "hf_upvotes"),
        ("project_page", "project_page"),
        ("github_repo", "github_repo"),
        ("github_stars", "github_stars"),
        ("ai_summary", "ai_summary"),
        ("num_comments", "hf_num_comments"),
    ]
}

/// A paper a watch list found, as stored.
pub struct WatchResultData {
    pub external_id: String,
    pub added_to_library: bool,
    pub published_date: Option<String>,
    pub doi: Option<String>,
    pub arxiv_id: Option<String>,
    pub pdf_url: Option<String>,
    /// The publication date in the result's data, used when the result has none.
    pub data_published_date: Option<String>,
    /// The result's authors: each the author's name when the entry gives one.
    pub authors: Vec<Option<String>>,
}

/// How a watch-list result becomes a paper.
pub struct WatchPaperPlan {
    /// The identifier the paper's directory name is derived from.
    pub identifier: String,
    pub published_date: Option<String>,
    pub authors: Vec<String>,
    /// Whether the PDF is downloaded.
    pub download_pdf: bool,
    /// Whether the metadata is enriched (there is an arXiv id or a DOI).
    pub enrich: bool,
}

/// The names given, in order.
pub open spec fn given_names(a: Seq<Option<String>>) -> Seq<Seq<char>>
    decreases a.len(),
{
    if a.len() == 0 {
        Seq::empty()
    } else {
        let rest = given_names(a.drop_last());
        match a.last() {
            Some(n) => rest.push(n@),
            None => rest,
        }
    }
}

/// How a watch-list result becomes a paper (see [`plan_watch_paper`]): a result already
/// in the library is refused; the identifier is its DOI, else its arXiv id, else its
/// external id; the date its own, else its data's.
pub open spec fn watch_plan(r: WatchResultData, p: Result<WatchPaperPlan, String>) -> bool {
    &&& r.added_to_library <==> p is Err
    &&& p matches Err(e) ==> e@ == "Result already added to library"@
    &&& p matches Ok(plan) ==> {
        &&& plan.identifier@ == match r.doi {
            Some(d) => d@,
            None => match r.arxiv_id {
                Some(a) => a@,
                None => r.external_id@,
            },
        }
        &&& opt_view(plan.published_date) == match r.published_date {
            Some(d) => Some(d@),
            None => opt_view(r.data_published_date),
        }
        &&& views_of(plan.authors@) == given_names(r.authors@)
        &&& plan.download_pdf == (r.pdf_url is Some)
        &&& plan.enrich == (r.arxiv_id is Some || r.doi is Some)
    }
}

/// Plans how a watch-list result becomes a paper (see [`watch_plan`]).
pub fn plan_watch_paper(r: &WatchResultData) -> (p: Result<WatchPaperPlan, String>)
    ensures
        watch_plan(*r, p),
{
    if r.added_to_library {
        return Err("Result already added to library".to_owned());
    }
    let identifier = crate::library::paper_identifier(&r.doi, &r.arxiv_id, r.external_id.as_str()).to_owned();
    let published_date = match &r.published_date {
        Some(d) => Some(d.clone()),
        None => match &r.data_published_date {
            Some(d) => Some(d.clone()),
            None => None,
        },
    };
    let mut authors: Vec<String> = Vec::new();
    let mut k: usize = 0;
    while k < r.authors.len()
        invariant
            k <= r.authors@.len(),
            views_of(authors@) == given_names(r.authors@.take(k as int)),
        decreases r.authors.len() - k,
    {
        assert(r.authors@.take(k + 1).drop_last() =~= r.authors@.take(k as int));
        let ghost before = authors@;
        match &r.authors[k] {
            Some(n) => {
                authors.push(n.clone());
                assert(views_of(authors@) =~= views_of(before).push(n@));
            },
            None => {},
        }
        k = k + 1;
    }
    assert(r.authors@.take(r.authors@.len() as int) =~= r.authors@);
    Ok(
        WatchPaperPlan {
            identifier,
            published_date,
            authors,
            download_pdf: r.pdf_url.is_some(),
            enrich: r.arxiv_id.is_some() || r.doi.is_some(),
        },
    )
}

/// The note shown with an author found on Semantic Scholar: the affiliations joined with
/// `, `, or none.
pub fn affiliations_note(affiliations: &Vec<String>) -> (r: Option<String>)
    ensures
        affiliations@.len() == 0 ==> r is None,
        affiliations@.len() > 0 ==> (r matches Some(n) && n@ == crate::paper_context::joined_with(
            affiliations@,
            ", "@,
        )),
{
    if affiliations.len() == 0 {
        None
    } else {
        let mut v: Vec<char> = Vec::new();
        crate::paper_context::push_joined(&mut v, affiliations, ", ");
        Some(string_from_chars(&v))
    }
}

/// Whether Semantic Scholar is searched as well: only with an API key.
pub fn search_semantic_scholar(key: &str) -> (r: bool)
    ensures
        r == (key@.len() > 0),
{
    !key.is_empty()
}

/// The watch lists' API keys as the settings screen shows them.
pub fn watch_list_api_keys(semantic_scholar: &str, openalex_email: &str) -> (r: WatchListApiKeysResponse)
    ensures
        r.semantic_scholar_set == (semantic_scholar@.len() > 0),
        r.openalex_email@ == openalex_email@,
{
    WatchListApiKeysResponse {
        semantic_scholar_set: !semantic_scholar.is_empty(),
        openalex_email: openalex_email.to_owned(),
    }
}


/// A text field of optional JSON data: none without data.
pub open spec fn data_field(data_json: Option<Seq<char>>, key: Seq<char>) -> Option<Seq<char>> {
    match data_json {
        Some(t) => json_text_field(t, key),
        None => None,
    }
}

fn data_field_of(data_json: Option<&str>, key: &str) -> (r: Option<String>)
    ensures
        opt_view(r) == data_field(opt_str_view(data_json), key@),
{
    match data_json {
        Some(t) => json_text_field_of(t, key),
        None => None,
    }
}

/// The view of an optional string slice.
pub open spec fn opt_str_view(o: Option<&str>) -> Option<Seq<char>> {
    match o {
        Some(s) => Some(s@),
        None => None,
    }
}

/// Whether `d` holds what a feed item's stored JSON data gives (no data gives nothing):
/// its text fields and its `authors` entries with `name` and `affiliation`.
pub open spec fn feed_data_from_json(data_json: Option<Seq<char>>, d: FeedItemData) -> bool {
    &&& opt_view(d.url) == data_field(data_json, "url"@)
    &&& opt_view(d.pdf_url) == data_field(data_json, "pdf_url"@)
    &&& opt_view(d.html_url) == data_field(data_json, "html_url"@)
    &&& opt_view(d.abstract_text) == data_field(data_json, "abstract_text"@)
    &&& opt_view(d.thumbnail) == data_field(data_json, "thumbnail"@)
    &&& opt_view(d.published_at) == data_field(data_json, "published_at"@)
    &&& pairs_view(d.authors@) == match data_json {
        Some(t) => json_entry_pairs(t, "authors"@, "name"@, "affiliation"@),
        None => Seq::empty(),
    }
}

/// Reads a feed item's stored JSON data and plans how the item becomes a paper: the data
/// read (see [`feed_data_from_json`]) and the plan made from it (see [`feed_plan`]).
pub fn plan_feed_paper_from_json(arxiv_id: &str, added_to_library: bool, data_json: Option<&str>) -> (r: (
    FeedItemData,
    Result<FeedPaperPlan, String>,
))
    ensures
        feed_data_from_json(opt_str_view(data_json), r.0),
        feed_plan(arxiv_id@, added_to_library, r.0, r.1),
{
    let authors = match data_json {
        Some(t) => json_entry_pairs_of(t, "authors", "name", "affiliation"),
        None => {
            let v: Vec<(Option<String>, Option<String>)> = Vec::new();
            assert(pairs_view(v@) =~= Seq::empty());
            v
        },
    };
    let data = FeedItemData {
        url: data_field_of(data_json, "url"),
        pdf_url: data_field_of(data_json, "pdf_url"),
        html_url: data_field_of(data_json, "html_url"),
        abstract_text: data_field_of(data_json, "abstract_text"),
        thumbnail: data_field_of(data_json, "thumbnail"),
        published_at: data_field_of(data_json, "published_at"),
        authors,
    };
    let plan = plan_feed_paper(arxiv_id, added_to_library, &data);
    (data, plan)
}

/// Whether `r` holds what a watch-list result's stored JSON data gives (no data gives
/// nothing): its DOI, arXiv id, PDF URL and publication date, and its `authors` entries
/// (each its `name`, or the entry itself when it is a text).
pub open spec fn watch_data_from_json(data_json: Option<Seq<char>>, r: WatchResultData) -> bool {
    &&& opt_view(r.doi) == data_field(data_json, "doi"@)
    &&& opt_view(r.arxiv_id) == data_field(data_json, "arxiv_id"@)
    &&& opt_view(r.pdf_url) == data_field(data_json, "pdf_url"@)
    &&& opt_view(r.data_published_date) == data_field(data_json, "published_date"@)
    &&& opts_view(r.authors@) == match data_json {
        Some(t) => json_entry_names(t, "authors"@, "name"@),
        None => Seq::empty(),
    }
}

/// Reads a watch-list result's stored JSON data and plans how the result becomes a
/// paper: the result as read (see [`watch_data_from_json`]; its id, flag and own date as
/// given) and the plan made from it (see [`watch_plan`]).
pub fn plan_watch_paper_from_json(
    external_id: String,
    added_to_library: bool,
    published_date: Option<String>,
    data_json: Option<&str>,
) -> (r: (WatchResultData, Result<WatchPaperPlan, String>))
    ensures
        r.0.external_id == external_id,
        r.0.added_to_library == added_to_library,
        r.0.published_date == published_date,
        watch_data_from_json(opt_str_view(data_json), r.0),
        watch_plan(r.0, r.1),
{
    let authors = match data_json {
        Some(t) => json_entry_names_of(t, "authors", "name"),
        None => {
            let v: Vec<Option<String>> = Vec::new();
            assert(opts_view(v@) =~= Seq::empty());
            v
        },
    };
    let data = WatchResultData {
        external_id,
        added_to_library,
        published_date,
        doi: data_field_of(data_json, "doi"),
        arxiv_id: data_field_of(data_json, "arxiv_id"),
        pdf_url: data_field_of(data_json, "pdf_url"),
        data_published_date: data_field_of(data_json, "published_date"),
        authors,
    };
    let plan = plan_watch_paper(&data);
    (data, plan)
}

} // verus!
