//! Locating annotated passages in exported HTML.
//!
//! Offsets here are byte offsets into the UTF-8 encoding of the text, as the
//! annotation export works with them.
use vstd::prelude::*;
use vstd::string::StringSliceAdditionalSpecFns;
use vstd::utf8::is_char_boundary;
use crate::text::{contains_seq, first_occurrence_from, lemma_first_occurrence, occurs_at};

verus! {

broadcast use vstd::string::group_string_axioms;

/// Executable form of [`first_occurrence_from`].
pub fn find_bytes_from(s: &[u8], pat: &[u8], i: usize) -> (r: Option<usize>)
    ensures
        match r {
            Some(k) => k as int == first_occurrence_from(s@, pat@, i as int),
            None => first_occurrence_from(s@, pat@, i as int) == -1,
        },
{
    if pat.len() > s.len() || i > s.len() - pat.len() {
        return None;
    }
    let last = s.len() - pat.len();
    let mut k = i;
    while k <= last
        invariant
            i <= k,
            last + pat.len() == s.len(),
            first_occurrence_from(s@, pat@, i as int) == first_occurrence_from(
                s@,
                pat@,
                k as int,
            ),
        decreases last + 1 - k,
    {
        if bytes_occur_at(s, pat, k) {
            return Some(k);
        }
        if k == last {
            assert(first_occurrence_from(s@, pat@, k + 1) == -1);
            return None;
        }
        k = k + 1;
    }
    None
}

/// Executable form of [`occurs_at`] on bytes.
pub fn bytes_occur_at(s: &[u8], pat: &[u8], i: usize) -> (r: bool)
    ensures
        r == occurs_at(s@, pat@, i as int),
{
    if i > s.len() || pat.len() > s.len() - i {
        return false;
    }
    let mut j: usize = 0;
    while j < pat.len()
        invariant
            i + pat.len() <= s.len(),
            j <= pat.len(),
            forall|k: int| 0 <= k < j ==> s@[i + k] == pat@[k],
        decreases pat.len() - j,
    {
        if s[i + j] != pat[j] {
            assert(s@.subrange(i as int, i + pat.len())[j as int] != pat@[j as int]);
            return false;
        }
        j = j + 1;
    }
    assert(s@.subrange(i as int, i + pat.len()) =~= pat@);
    true
}

/// Executable form of [`contains_seq`].
pub fn contains_slice(s: &[u8], pat: &[u8]) -> (r: bool)
    ensures
        r == contains_seq(s@, pat@),
{
    let found = find_bytes_from(s, pat, 0);
    proof {
        lemma_first_occurrence(s@, pat@, 0);
        if first_occurrence_from(s@, pat@, 0) == -1 {
            assert forall|j: int| !occurs_at(s@, pat@, j) by {
                if j >= 0 {
                    assert(!occurs_at(s@, pat@, j));
                }
            }
        }
    }
    found.is_some()
}

/// What the context-disambiguated search reports: a match as the byte range
/// `(start, end)`, no match, or a panic of the search (a window or restart offset that
/// falls inside a multi-byte character).
pub enum ContextSearch {
    Found(usize, usize),
    NotFound,
    Panics,
}

/// The search for `n` in `h`, restarted at byte `start`, disambiguated by the text
/// `p` expected before it and `x` expected after it.
///
/// Each occurrence of `n` from `start` on is considered in turn. The window before it
/// holds up to `|p| + 10` bytes, the window after it up to `|x| + 10` bytes. A context is
/// satisfied when it is empty, or when its window contains it, or it contains its
/// window. The first occurrence with a satisfied context is the result; otherwise the
/// search restarts one byte after the occurrence.
pub open spec fn context_search_from(
    h: Seq<u8>,
    n: Seq<u8>,
    p: Seq<u8>,
    x: Seq<u8>,
    start: int,
) -> ContextSearch
    decreases h.len() - start,
    via context_search_from_decreases
{
    if start < 0 || start > h.len() || n.len() == 0 {
        ContextSearch::NotFound
    } else if !is_char_boundary(h, start) {
        ContextSearch::Panics
    } else {
        let a = first_occurrence_from(h, n, start);
        if a < 0 {
            ContextSearch::NotFound
        } else {
            let e = a + n.len();
            let ps = if a >= p.len() + 10 {
                a - (p.len() + 10)
            } else {
                0
            };
            let se = if e + x.len() + 10 <= h.len() {
                e + x.len() + 10
            } else {
                h.len() as int
            };
            if p.len() > 0 && !(is_char_boundary(h, ps) && is_char_boundary(h, a)) {
                ContextSearch::Panics
            } else if x.len() > 0 && !(is_char_boundary(h, e) && is_char_boundary(h, se)) {
                ContextSearch::Panics
            } else {
                let pw = h.subrange(ps, a);
                let sw = h.subrange(e, se);
                let pre_ok = p.len() == 0 || contains_seq(pw, p) || contains_seq(p, pw);
                let suf_ok = x.len() == 0 || contains_seq(sw, x) || contains_seq(x, sw);
                if pre_ok || suf_ok {
                    ContextSearch::Found(a as usize, e as usize)
                } else {
                    context_search_from(h, n, p, x, a + 1)
                }
            }
        }
    }
}

#[via_fn]
proof fn context_search_from_decreases(
    h: Seq<u8>,
    n: Seq<u8>,
    p: Seq<u8>,
    x: Seq<u8>,
    start: int,
) {
    if 0 <= start {
        lemma_first_occurrence(h, n, start);
    }
}

/// The whole search: an empty needle is never found.
pub open spec fn context_search_spec(h: Seq<u8>, n: Seq<u8>, p: Seq<u8>, x: Seq<u8>) -> ContextSearch {
    if n.len() == 0 {
        ContextSearch::NotFound
    } else {
        context_search_from(h, n, p, x, 0)
    }
}

/// Runs the context-disambiguated search of `needle` in `haystack` and reports its
/// outcome, including whether the search would slice a character apart.
pub fn context_search(haystack: &str, needle: &str, prefix: &str, suffix: &str) -> (r:
    ContextSearch)
    requires
        haystack.spec_bytes().len() + suffix.spec_bytes().len() + 10 <= usize::MAX,
        prefix.spec_bytes().len() + 10 <= usize::MAX,
    ensures
        r == context_search_spec(
            haystack.spec_bytes(),
            needle.spec_bytes(),
            prefix.spec_bytes(),
            suffix.spec_bytes(),
        ),
{
    let h = haystack.as_bytes();
    let n = needle.as_bytes();
    let p = prefix.as_bytes();
    let x = suffix.as_bytes();
    if n.len() == 0 {
        return ContextSearch::NotFound;
    }
    let mut start: usize = 0;
    while start <= h.len()
        invariant
            h@ == haystack.spec_bytes(),
            n@ == needle.spec_bytes(),
            p@ == prefix.spec_bytes(),
            x@ == suffix.spec_bytes(),
            n@.len() > 0,
            h@.len() + x@.len() + 10 <= usize::MAX,
            p@.len() + 10 <= usize::MAX,
            context_search_spec(h@, n@, p@, x@) == context_search_from(
                h@,
                n@,
                p@,
                x@,
                start as int,
            ),
        decreases h.len() + 1 - start,
    {
        if !haystack.is_char_boundary(start) {
            return ContextSearch::Panics;
        }
        let found = find_bytes_from(h, n, start);
        proof {
            lemma_first_occurrence(h@, n@, start as int);
        }
        let a = match found {
            Some(a) => a,
            None => {
                return ContextSearch::NotFound;
            },
        };
        let e = a + n.len();
        let ps = if a >= p.len() + 10 {
            a - (p.len() + 10)
        } else {
            0
        };
        let se = if e + x.len() + 10 <= h.len() {
            e + x.len() + 10
        } else {
            h.len()
        };
        if p.len() > 0 && !(haystack.is_char_boundary(ps) && haystack.is_char_boundary(a)) {
            return ContextSearch::Panics;
        }
        if x.len() > 0 && !(haystack.is_char_boundary(e) && haystack.is_char_boundary(se)) {
            return ContextSearch::Panics;
        }
        let pw = &h[ps..a];
        let sw = &h[e..se];
        let pre_ok = p.len() == 0 || contains_slice(pw, p) || contains_slice(p, pw);
        let suf_ok = x.len() == 0 || contains_slice(sw, x) || contains_slice(x, sw);
        if pre_ok || suf_ok {
            return ContextSearch::Found(a, e);
        }
        start = a + 1;
    }
    ContextSearch::NotFound
}

/// Finds `needle` in `haystack`, disambiguated by the text expected before it
/// (`prefix`) and after it (`suffix`), and returns its byte range.
/// The inputs on which the search would slice a character apart are excluded.
pub fn find_text_with_context(haystack: &str, needle: &str, prefix: &str, suffix: &str) -> (r:
    Option<(usize, usize)>)
    requires
        haystack.spec_bytes().len() + suffix.spec_bytes().len() + 10 <= usize::MAX,
        prefix.spec_bytes().len() + 10 <= usize::MAX,
        !(context_search_spec(
            haystack.spec_bytes(),
            needle.spec_bytes(),
            prefix.spec_bytes(),
            suffix.spec_bytes(),
        ) is Panics),
    ensures
        match context_search_spec(
            haystack.spec_bytes(),
            needle.spec_bytes(),
            prefix.spec_bytes(),
            suffix.spec_bytes(),
        ) {
            ContextSearch::Found(a, e) => r == Some((a, e)),
            _ => r is None,
        },
{
    match context_search(haystack, needle, prefix, suffix) {
        ContextSearch::Found(a, e) => Some((a, e)),
        _ => None,
    }
}

} // verus!
