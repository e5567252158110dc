//! File names: their stem and extension, as `std::path::Path` splits a file name.
use vstd::prelude::*;
use crate::text::{chars_of, copy_range, str_eq, string_from_chars};

verus! {

broadcast use vstd::string::group_string_axioms;

/// The index of the last `.` in `s`, or `-1` when there is none.
pub open spec fn last_dot(s: Seq<char>) -> int
    decreases s.len(),
{
    if s.len() == 0 {
        -1
    } else if s.last() == '.' {
        s.len() - 1
    } else {
        last_dot(s.drop_last())
    }
}

proof fn lemma_last_dot(s: Seq<char>)
    ensures
        -1 <= last_dot(s) < s.len(),
        last_dot(s) >= 0 ==> s[last_dot(s)] == '.',
        forall|j: int| last_dot(s) < j < s.len() ==> s[j] != '.',
    decreases s.len(),
{
    if s.len() > 0 && s.last() != '.' {
        lemma_last_dot(s.drop_last());
        assert forall|j: int| last_dot(s) < j < s.len() implies s[j] != '.' by {
            if j < s.len() - 1 {
                assert(s[j] == s.drop_last()[j]);
            }
        }
    }
}

/// Where a file name splits into stem and extension: at its last `.`, unless the name is
/// `..`, has no `.`, or has its only `.` in front (a hidden file).
pub open spec fn split_dot(name: Seq<char>) -> Option<int> {
    if name == ".."@ || last_dot(name) <= 0 {
        None
    } else {
        Some(last_dot(name))
    }
}

/// `Path::file_stem` of a file name.
pub open spec fn stem_of(name: Seq<char>) -> Seq<char> {
    match split_dot(name) {
        Some(d) => name.subrange(0, d),
        None => name,
    }
}

/// `Path::extension` of a file name.
pub open spec fn extension_of(name: Seq<char>) -> Option<Seq<char>> {
    match split_dot(name) {
        Some(d) => Some(name.subrange(d + 1, name.len() as int)),
        None => None,
    }
}

fn find_split(v: &Vec<char>) -> (r: Option<usize>)
    ensures
        match r {
            Some(d) => split_dot(v@) == Some(d as int) && 0 < d < v@.len(),
            None => split_dot(v@) is None,
        },
{
    proof {
        lemma_last_dot(v@);
        reveal_strlit("..");
    }
    let dots = chars_of("..");
    if str_eq_chars(v, &dots) {
        return None;
    }
    let mut i = v.len();
    assert(v@.take(i as int) =~= v@);
    while i > 0
        invariant
            i <= v.len(),
            v@ != ".."@,
            last_dot(v@) == last_dot(v@.take(i as int)),
        decreases i,
    {
        assert(v@.take(i as int).drop_last() =~= v@.take(i - 1));
        if v[i - 1] == '.' {
            if i - 1 == 0 {
                return None;
            }
            return Some(i - 1);
        }
        i = i - 1;
    }
    None
}

fn str_eq_chars(a: &Vec<char>, b: &Vec<char>) -> (r: bool)
    ensures
        r == (a@ == b@),
{
    crate::text::same_chars(a, b)
}

/// The stem of a file name (see [`stem_of`]).
pub fn file_stem(name: &str) -> (r: String)
    ensures
        r@ == stem_of(name@),
{
    let v = chars_of(name);
    match find_split(&v) {
        Some(d) => string_from_chars(&copy_range(&v, 0, d)),
        None => name.to_owned(),
    }
}

/// The extension of a file name (see [`extension_of`]).
pub fn file_extension(name: &str) -> (r: Option<String>)
    ensures
        match r {
            Some(e) => extension_of(name@) == Some(e@),
            None => extension_of(name@) is None,
        },
{
    let v = chars_of(name);
    match find_split(&v) {
        Some(d) => {
            let n = v.len();
            assert(d < n);
            Some(string_from_chars(&copy_range(&v, d + 1, n)))
        },
        None => None,
    }
}

} // verus!
