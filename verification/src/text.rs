//! Character-sequence primitives shared by the text-processing parts of the library.
//!
//! Strings are modelled by their view, a `Seq<char>`. The executable helpers work on
//! `Vec<char>` and convert at the edges.
use vstd::prelude::*;
use vstd::utf8::{encode_scalar, encode_utf8};

verus! {

broadcast use vstd::string::group_string_axioms;

/// Builds a `String` from a vector of characters with std's `FromIterator<&char> for
/// String`; the contract claims that the string holds exactly those characters, in order.
#[verifier::external_body]
pub(crate) fn string_from_chars(v: &Vec<char>) -> (r: String)
    ensures
        r@ == v@,
{
    v.iter().collect()
}

/// What `str::to_lowercase` makes of a text (Unicode lowercase mapping).
pub uninterp spec fn lowercase_of(s: Seq<char>) -> Seq<char>;

/// Lowercases a text with std's `str::to_lowercase`; the contract claims only that the
/// result is the (unstated) Unicode lowercase mapping of the argument, `lowercase_of`.
#[verifier::external_body]
pub(crate) fn to_lowercase(s: &str) -> (r: String)
    ensures
        r@ == lowercase_of(s@),
{
    s.to_lowercase()
}

/// The characters of a string slice, in order.
pub fn chars_of(s: &str) -> (r: Vec<char>)
    ensures
        r@ == s@,
{
    let mut v: Vec<char> = Vec::new();
    for c in it: s.chars()
        invariant
            v@ == it.seq().take(it.index() as int),
    {
        v.push(c);
    }
    v
}

/// Whitespace as `char::is_whitespace` classifies it: the Unicode `White_Space` property.
pub open spec fn is_white(c: char) -> bool {
    let u = c as u32;
    ||| 0x09 <= u <= 0x0D
    ||| u == 0x20
    ||| u == 0x85
    ||| u == 0xA0
    ||| u == 0x1680
    ||| 0x2000 <= u <= 0x200A
    ||| u == 0x2028
    ||| u == 0x2029
    ||| u == 0x202F
    ||| u == 0x205F
    ||| u == 0x3000
}

/// Executable form of [`is_white`].
pub fn is_whitespace_char(c: char) -> (r: bool)
    ensures
        r == is_white(c),
{
    let u = c as u32;
    (0x09 <= u && u <= 0x0D) || u == 0x20 || u == 0x85 || u == 0xA0 || u == 0x1680 || (0x2000
        <= u && u <= 0x200A) || u == 0x2028 || u == 0x2029 || u == 0x202F || u == 0x205F || u
        == 0x3000
}

/// `s` with its leading whitespace removed.
pub open spec fn trim_start(s: Seq<char>) -> Seq<char>
    decreases s.len(),
{
    if s.len() > 0 && is_white(s[0]) {
        trim_start(s.drop_first())
    } else {
        s
    }
}

/// `s` with its trailing whitespace removed.
pub open spec fn trim_end(s: Seq<char>) -> Seq<char>
    decreases s.len(),
{
    if s.len() > 0 && is_white(s.last()) {
        trim_end(s.drop_last())
    } else {
        s
    }
}

/// `str::trim`: both ends stripped of whitespace.
pub open spec fn trim(s: Seq<char>) -> Seq<char> {
    trim_end(trim_start(s))
}

/// The bounds of `v[lo..hi]` once trimmed: the result `(a, b)` has
/// `v[a..b] == trim(v[lo..hi])`.
pub fn trim_bounds(v: &Vec<char>, lo: usize, hi: usize) -> (r: (usize, usize))
    requires
        lo <= hi <= v.len(),
    ensures
        lo <= r.0 <= r.1 <= hi,
        v@.subrange(r.0 as int, r.1 as int) == trim(v@.subrange(lo as int, hi as int)),
{
    let mut a = lo;
    while a < hi && is_whitespace_char(v[a])
        invariant
            lo <= a <= hi <= v.len(),
            trim_start(v@.subrange(lo as int, hi as int)) == trim_start(
                v@.subrange(a as int, hi as int),
            ),
        decreases hi - a,
    {
        assert(v@.subrange(a as int, hi as int).drop_first() =~= v@.subrange(
            a + 1,
            hi as int,
        ));
        a = a + 1;
    }
    assert(trim_start(v@.subrange(a as int, hi as int)) == v@.subrange(a as int, hi as int));
    let mut b = hi;
    while b > a && is_whitespace_char(v[b - 1])
        invariant
            lo <= a <= b <= hi <= v.len(),
            trim_end(v@.subrange(a as int, hi as int)) == trim_end(
                v@.subrange(a as int, b as int),
            ),
        decreases b - a,
    {
        assert(v@.subrange(a as int, b as int).drop_last() =~= v@.subrange(
            a as int,
            b - 1,
        ));
        b = b - 1;
    }
    (a, b)
}

/// Appends `src[lo..hi]` to `dst`.
pub fn push_range(dst: &mut Vec<char>, src: &Vec<char>, lo: usize, hi: usize)
    requires
        lo <= hi <= src.len(),
    ensures
        final(dst)@ == old(dst)@ + src@.subrange(lo as int, hi as int),
{
    let mut i = lo;
    while i < hi
        invariant
            lo <= i <= hi <= src.len(),
            dst@ == old(dst)@ + src@.subrange(lo as int, i as int),
        decreases hi - i,
    {
        dst.push(src[i]);
        assert(src@.subrange(lo as int, i + 1) =~= src@.subrange(lo as int, i as int).push(
            src@[i as int],
        ));
        i = i + 1;
    }
}

/// Appends all of `src` to `dst`.
pub fn push_all(dst: &mut Vec<char>, src: &Vec<char>)
    ensures
        final(dst)@ == old(dst)@ + src@,
{
    push_range(dst, src, 0, src.len());
    assert(src@.subrange(0, src@.len() as int) =~= src@);
}

/// Appends the characters of `s` to `dst`.
pub fn push_str(dst: &mut Vec<char>, s: &str)
    ensures
        final(dst)@ == old(dst)@ + s@,
{
    let v = chars_of(s);
    push_all(dst, &v);
}

/// The concatenation of two string slices.
pub fn concat(a: &str, b: &str) -> (r: String)
    ensures
        r@ == a@ + b@,
{
    let mut v = chars_of(a);
    push_str(&mut v, b);
    string_from_chars(&v)
}

/// The first index `k >= i` with `s[k] == c`, or `s.len()` when there is none.
/// (Only used with `0 <= i <= s.len()`.)
pub open spec fn next_index_of(s: Seq<char>, i: int, c: char) -> int
    decreases s.len() - i,
{
    if i >= s.len() {
        s.len() as int
    } else if s[i] == c {
        i
    } else {
        next_index_of(s, i + 1, c)
    }
}

/// [`next_index_of`] lies between its start and the length.
pub proof fn lemma_next_index_bounds(s: Seq<char>, i: int, c: char)
    requires
        0 <= i <= s.len(),
    ensures
        i <= next_index_of(s, i, c) <= s.len(),
        next_index_of(s, i, c) < s.len() ==> s[next_index_of(s, i, c)] == c,
    decreases s.len() - i,
{
    if i < s.len() && s[i] != c {
        lemma_next_index_bounds(s, i + 1, c);
    }
}

/// Executable form of [`next_index_of`].
pub fn find_char_from(s: &Vec<char>, i: usize, c: char) -> (r: usize)
    requires
        i <= s.len(),
    ensures
        r as int == next_index_of(s@, i as int, c),
        i <= r <= s.len(),
{
    let mut k = i;
    while k < s.len() && s[k] != c
        invariant
            i <= k <= s.len(),
            next_index_of(s@, i as int, c) == next_index_of(s@, k as int, c),
        decreases s.len() - k,
    {
        k = k + 1;
    }
    k
}

/// Whether `pat` occurs in `s` starting at index `i`.
pub open spec fn occurs_at<T>(s: Seq<T>, pat: Seq<T>, i: int) -> bool {
    0 <= i && i + pat.len() <= s.len() && s.subrange(i, i + pat.len()) == pat
}

/// Executable form of [`occurs_at`] on characters.
pub fn chars_occur_at(s: &Vec<char>, pat: &Vec<char>, i: usize) -> (r: bool)
    ensures
        r == occurs_at(s@, pat@, i as int),
{
    if i > s.len() || pat.len() > s.len() - i {
        return false;
    }
    let mut j: usize = 0;
    while j < pat.len()
        invariant
            i + pat.len() <= s.len(),
            j <= pat.len(),
            forall|k: int| 0 <= k < j ==> s@[i + k] == pat@[k],
        decreases pat.len() - j,
    {
        if s[i + j] != pat[j] {
            assert(s@.subrange(i as int, i + pat.len())[j as int] != pat@[j as int]);
            return false;
        }
        j = j + 1;
    }
    assert(s@.subrange(i as int, i + pat.len()) =~= pat@);
    true
}

/// The first index `k >= i` at which `pat` occurs in `s`, or `-1` when there is none.
pub open spec fn first_occurrence_from<T>(s: Seq<T>, pat: Seq<T>, i: int) -> int
    decreases s.len() - i,
{
    if i < 0 || i + pat.len() > s.len() {
        -1
    } else if occurs_at(s, pat, i) {
        i
    } else if i >= s.len() {
        -1
    } else {
        first_occurrence_from(s, pat, i + 1)
    }
}

/// Whether `pat` occurs somewhere in `s` (`str::contains`).
pub open spec fn contains_seq<T>(s: Seq<T>, pat: Seq<T>) -> bool {
    exists|i: int| occurs_at(s, pat, i)
}

/// [`first_occurrence_from`] is the least matching index from `i` on.
pub proof fn lemma_first_occurrence<T>(s: Seq<T>, pat: Seq<T>, i: int)
    requires
        0 <= i,
    ensures
        first_occurrence_from(s, pat, i) == -1 ==> forall|j: int|
            i <= j ==> !#[trigger] occurs_at(s, pat, j),
        first_occurrence_from(s, pat, i) >= 0 ==> {
            &&& i <= first_occurrence_from(s, pat, i)
            &&& occurs_at(s, pat, first_occurrence_from(s, pat, i))
            &&& forall|j: int|
                i <= j < first_occurrence_from(s, pat, i) ==> !#[trigger] occurs_at(s, pat, j)
        },
    decreases s.len() - i,
{
    if pat.len() == 0 && i <= s.len() {
        assert(s.subrange(i, i + pat.len()) =~= pat);
    }
    if i + pat.len() <= s.len() && !occurs_at(s, pat, i) {
        lemma_first_occurrence(s, pat, i + 1);
    }
}

/// Executable form of [`first_occurrence_from`] on characters.
pub fn find_chars_from(s: &Vec<char>, pat: &Vec<char>, i: usize) -> (r: Option<usize>)
    ensures
        match r {
            Some(k) => k as int == first_occurrence_from(s@, pat@, i as int),
            None => first_occurrence_from(s@, pat@, i as int) == -1,
        },
{
    if pat.len() > s.len() || i > s.len() - pat.len() {
        return None;
    }
    let last = s.len() - pat.len();
    let mut k = i;
    while k <= last
        invariant
            i <= k,
            last + pat.len() == s.len(),
            first_occurrence_from(s@, pat@, i as int) == first_occurrence_from(
                s@,
                pat@,
                k as int,
            ),
        decreases last + 1 - k,
    {
        if chars_occur_at(s, pat, k) {
            return Some(k);
        }
        if k == last {
            assert(first_occurrence_from(s@, pat@, k + 1) == -1);
            return None;
        }
        k = k + 1;
    }
    None
}

/// Whether `pat` occurs in `s` (`str::contains`).
pub fn contains_chars(s: &Vec<char>, pat: &Vec<char>) -> (r: bool)
    ensures
        r == contains_seq(s@, pat@),
{
    let f = find_chars_from(s, pat, 0);
    proof {
        lemma_first_occurrence(s@, pat@, 0);
    }
    f.is_some()
}

/// Whether `pat` occurs in `s` (`str::contains` on string slices).
pub fn str_contains(s: &str, pat: &str) -> (r: bool)
    ensures
        r == contains_seq(s@, pat@),
{
    contains_chars(&chars_of(s), &chars_of(pat))
}

/// `str::replace`: every non-overlapping occurrence of `pat`, scanned from the left,
/// replaced by `rep`.
pub open spec fn replace_all(s: Seq<char>, pat: Seq<char>, rep: Seq<char>) -> Seq<char>
    recommends
        pat.len() > 0,
    decreases s.len(),
{
    if pat.len() == 0 || s.len() < pat.len() {
        s
    } else if s.subrange(0, pat.len() as int) == pat {
        rep + replace_all(s.subrange(pat.len() as int, s.len() as int), pat, rep)
    } else {
        seq![s[0]] + replace_all(s.drop_first(), pat, rep)
    }
}

/// Executable form of [`replace_all`].
/// An empty `pat` leaves `s` unchanged.
pub fn replace_all_chars(s: &Vec<char>, pat: &Vec<char>, rep: &Vec<char>) -> (r: Vec<char>)
    ensures
        r@ == replace_all(s@, pat@, rep@),
{
    let mut out: Vec<char> = Vec::new();
    if pat.len() == 0 {
        push_all(&mut out, s);
        return out;
    }
    let mut i: usize = 0;
    assert(s@.subrange(0, s@.len() as int) =~= s@);
    while i < s.len()
        invariant
            i <= s.len(),
            pat.len() > 0,
            replace_all(s@, pat@, rep@) == out@ + replace_all(
                s@.subrange(i as int, s@.len() as int),
                pat@,
                rep@,
            ),
        decreases s.len() - i,
    {
        let ghost rest = s@.subrange(i as int, s@.len() as int);
        if chars_occur_at(s, pat, i) {
            assert(rest.subrange(0, pat@.len() as int) =~= s@.subrange(i as int, i + pat@.len()));
            assert(rest.subrange(pat@.len() as int, rest.len() as int) =~= s@.subrange(
                i + pat@.len(),
                s@.len() as int,
            ));
            push_all(&mut out, rep);
            i = i + pat.len();
        } else {
            proof {
                if rest.len() >= pat@.len() {
                    assert(rest.subrange(0, pat@.len() as int) =~= s@.subrange(
                        i as int,
                        i + pat@.len(),
                    ));
                    assert(rest.drop_first() =~= s@.subrange(i + 1, s@.len() as int));
                } else {
                    assert(replace_all(rest, pat@, rep@) == rest);
                    assert(rest =~= seq![s@[i as int]] + s@.subrange(i + 1, s@.len() as int));
                    let rest2 = s@.subrange(i + 1, s@.len() as int);
                    assert(replace_all(rest2, pat@, rep@) == rest2);
                }
            }
            out.push(s[i]);
            i = i + 1;
        }
    }
    assert(s@.subrange(i as int, s@.len() as int) =~= Seq::<char>::empty());
    out
}

/// Whether two character vectors hold the same text.
pub fn same_chars(a: &Vec<char>, b: &Vec<char>) -> (r: bool)
    ensures
        r == (a@ == b@),
{
    if a.len() != b.len() {
        return false;
    }
    let mut i: usize = 0;
    while i < a.len()
        invariant
            a.len() == b.len(),
            i <= a.len(),
            forall|j: int| 0 <= j < i ==> a@[j] == b@[j],
        decreases a.len() - i,
    {
        if a[i] != b[i] {
            return false;
        }
        i = i + 1;
    }
    assert(a@ =~= b@);
    true
}

/// Whether two string slices hold the same text.
pub fn str_eq(a: &str, b: &str) -> (r: bool)
    ensures
        r == (a@ == b@),
{
    same_chars(&chars_of(a), &chars_of(b))
}

/// The view of an optional string.
pub open spec fn opt_view(o: Option<String>) -> Option<Seq<char>> {
    match o {
        Some(s) => Some(s@),
        None => None,
    }
}

/// A copy of `v[lo..hi]`.
pub fn copy_range(v: &Vec<char>, lo: usize, hi: usize) -> (r: Vec<char>)
    requires
        lo <= hi <= v.len(),
    ensures
        r@ == v@.subrange(lo as int, hi as int),
{
    let mut r: Vec<char> = Vec::new();
    push_range(&mut r, v, lo, hi);
    r
}

/// The number of bytes of the UTF-8 encoding of `t`.
pub open spec fn byte_len(t: Seq<char>) -> int {
    encode_utf8(t).len() as int
}

pub proof fn lemma_encode_push(s: Seq<char>, c: char)
    ensures
        encode_utf8(s.push(c)) == encode_utf8(s) + encode_scalar(c as u32),
    decreases s.len(),
{
    if s.len() == 0 {
        assert(s.push(c).drop_first() =~= Seq::<char>::empty());
        assert(encode_utf8(s.push(c)) =~= encode_scalar(c as u32) + encode_utf8(Seq::<char>::empty()));
    } else {
        assert(s.push(c).drop_first() =~= s.drop_first().push(c));
        lemma_encode_push(s.drop_first(), c);
        assert(encode_utf8(s.push(c)) =~= encode_scalar(s[0] as u32) + encode_utf8(s.drop_first().push(c)));
    }
}

pub proof fn lemma_width_positive(c: char)
    ensures
        1 <= encode_scalar(c as u32).len() <= 4,
{
}

/// The prefix lengths of `t` grow with the number of characters taken.
pub proof fn lemma_prefix_bytes_increase(t: Seq<char>, i: int, j: int)
    requires
        0 <= i < j <= t.len(),
    ensures
        byte_len(t.take(i)) < byte_len(t.take(j)),
    decreases j - i,
{
    assert(t.take(j) =~= t.take(j - 1).push(t[j - 1]));
    lemma_encode_push(t.take(j - 1), t[j - 1]);
    lemma_width_positive(t[j - 1]);
    if i < j - 1 {
        lemma_prefix_bytes_increase(t, i, j - 1);
    }
}

/// Whether some prefix of `t` is exactly `n` bytes long (the cut falls on a character
/// boundary).
pub open spec fn boundary_at(t: Seq<char>, n: int) -> bool {
    exists|k: int| 0 <= k <= t.len() && #[trigger] byte_len(t.take(k)) == n
}

/// The number of characters in the first `n` bytes of `t`, when those end on a boundary.
pub open spec fn chars_in_bytes(t: Seq<char>, n: int) -> int {
    choose|k: int| 0 <= k <= t.len() && #[trigger] byte_len(t.take(k)) == n
}

/// The first `n` bytes of `t` when it is longer (the cut falling on a character
/// boundary), else all of `t`.
pub open spec fn bytes_prefix(t: Seq<char>, n: int) -> Seq<char> {
    if byte_len(t) > n {
        t.take(chars_in_bytes(t, n))
    } else {
        t
    }
}

/// The number of UTF-8 bytes of `c`.
pub fn char_width(c: char) -> (r: usize)
    ensures
        r == encode_scalar(c as u32).len(),
{
    broadcast use vstd::utf8::group_utf8_lib;

    let u = c as u32;
    if u <= 0x7F {
        1
    } else if u <= 0x7FF {
        2
    } else if u <= 0xFFFF {
        3
    } else {
        4
    }
}

/// Cuts `t` after its first `n` bytes (`&s[..n]`, which requires the cut to fall on a
/// character boundary) when it is longer; says whether it cut.
pub fn cut_at_bytes(t: &Vec<char>, n: usize) -> (r: (Vec<char>, bool))
    requires
        byte_len(t@) > n ==> boundary_at(t@, n as int),
    ensures
        r.1 == (byte_len(t@) > n),
        r.0@ == bytes_prefix(t@, n as int),
{
    let mut k: usize = 0;
    let mut bytes: usize = 0;
    assert(t@.take(0) =~= Seq::<char>::empty());
    while k < t.len()
        invariant
            k <= t@.len(),
            bytes == byte_len(t@.take(k as int)),
            bytes <= n,
        ensures
            k <= t@.len(),
            bytes == byte_len(t@.take(k as int)),
            k < t@.len() ==> byte_len(t@.take(k + 1)) > n,
        decreases t.len() - k,
    {
        let w = char_width(t[k]);
        proof {
            assert(t@.take(k + 1) =~= t@.take(k as int).push(t@[k as int]));
            lemma_encode_push(t@.take(k as int), t@[k as int]);
        }
        if w > n - bytes {
            break;
        }
        bytes = bytes + w;
        k = k + 1;
    }
    if k == t.len() {
        assert(t@.take(k as int) =~= t@);
        let mut all: Vec<char> = Vec::new();
        push_all(&mut all, t);
        return (all, false);
    }
    proof {
        if k + 1 < t@.len() {
            lemma_prefix_bytes_increase(t@, k + 1, t@.len() as int);
        }
        assert(t@.take(t@.len() as int) =~= t@);
        assert(byte_len(t@) > n);
        assert(boundary_at(t@, n as int));
        let j = chars_in_bytes(t@, n as int);
        assert(0 <= j <= t@.len() && byte_len(t@.take(j)) == n);
        if j < k {
            lemma_prefix_bytes_increase(t@, j, k as int);
        } else if j > k {
            if j > k + 1 {
                lemma_prefix_bytes_increase(t@, k + 1, j);
            }
        }
        assert(j == k);
    }
    let mut out: Vec<char> = Vec::new();
    push_range(&mut out, t, 0, k);
    assert(t@.subrange(0, k as int) =~= t@.take(k as int));
    (out, true)
}

/// The words of `s` after the pending word `cur`: the maximal runs of characters that
/// are not whitespace (`str::split_whitespace`).
pub open spec fn words_after(s: Seq<char>, cur: Seq<char>) -> Seq<Seq<char>>
    decreases s.len(),
{
    if s.len() == 0 {
        if cur.len() > 0 {
            seq![cur]
        } else {
            Seq::empty()
        }
    } else if is_white(s[0]) {
        (if cur.len() > 0 {
            seq![cur]
        } else {
            Seq::empty()
        }) + words_after(s.drop_first(), Seq::empty())
    } else {
        words_after(s.drop_first(), cur.push(s[0]))
    }
}

/// The whitespace-separated words of `s`.
pub open spec fn words(s: Seq<char>) -> Seq<Seq<char>> {
    words_after(s, Seq::empty())
}

/// The whitespace-separated words of `s` (`str::split_whitespace`).
pub fn split_whitespace(s: &str) -> (r: Vec<String>)
    ensures
        r@.len() == words(s@).len(),
        forall|k: int| 0 <= k < r@.len() ==> (#[trigger] r@[k])@ == words(s@)[k],
{
    let v = chars_of(s);
    let mut out: Vec<String> = Vec::new();
    let mut cur: Vec<char> = Vec::new();
    let ghost mut done: Seq<Seq<char>> = Seq::empty();
    let mut i: usize = 0;
    assert(v@.skip(0) =~= v@);
    while i < v.len()
        invariant
            i <= v@.len(),
            v@ == s@,
            words(s@) == done + words_after(v@.skip(i as int), cur@),
            out@.len() == done.len(),
            forall|k: int| 0 <= k < out@.len() ==> (#[trigger] out@[k])@ == done[k],
        decreases v.len() - i,
    {
        let ghost rest = v@.skip(i as int);
        assert(rest[0] == v@[i as int]);
        assert(rest.drop_first() =~= v@.skip(i + 1));
        if is_whitespace_char(v[i]) {
            if cur.len() > 0 {
                out.push(string_from_chars(&cur));
                proof {
                    done = done.push(cur@);
                }
                cur = Vec::new();
            }
            proof {
                assert(cur@ =~= Seq::<char>::empty());
            }
        } else {
            cur.push(v[i]);
        }
        i = i + 1;
        proof {
            assert(words(s@) =~= done + words_after(v@.skip(i as int), cur@));
        }
    }
    if cur.len() > 0 {
        out.push(string_from_chars(&cur));
        proof {
            done = done.push(cur@);
        }
    }
    proof {
        assert(v@.skip(i as int) =~= Seq::<char>::empty());
        assert(words(s@) =~= done);
    }
    out
}

/// The character of the decimal digit `d`.
pub open spec fn digit_char(d: int) -> char {
    if d == 0 {
        '0'
    } else if d == 1 {
        '1'
    } else if d == 2 {
        '2'
    } else if d == 3 {
        '3'
    } else if d == 4 {
        '4'
    } else if d == 5 {
        '5'
    } else if d == 6 {
        '6'
    } else if d == 7 {
        '7'
    } else if d == 8 {
        '8'
    } else {
        '9'
    }
}

fn digit(d: u64) -> (c: char)
    requires
        d < 10,
    ensures
        c == digit_char(d as int),
{
    if d == 0 {
        '0'
    } else if d == 1 {
        '1'
    } else if d == 2 {
        '2'
    } else if d == 3 {
        '3'
    } else if d == 4 {
        '4'
    } else if d == 5 {
        '5'
    } else if d == 6 {
        '6'
    } else if d == 7 {
        '7'
    } else if d == 8 {
        '8'
    } else {
        '9'
    }
}

/// A decimal representation is never empty.
pub proof fn lemma_decimal_nonempty(n: nat)
    ensures
        decimal(n).len() >= 1,
        n >= 10 ==> decimal(n).len() >= 2,
    decreases n,
{
    if n >= 10 {
        lemma_decimal_nonempty(n / 10);
    }
}

/// Different numbers have different decimal representations.
pub proof fn lemma_decimal_injective(a: nat, b: nat)
    requires
        decimal(a) == decimal(b),
    ensures
        a == b,
    decreases a + b,
{
    lemma_decimal_nonempty(a);
    lemma_decimal_nonempty(b);
    if a < 10 && b < 10 {
        assert(decimal(a)[0] == digit_char(a as int));
        assert(decimal(b)[0] == digit_char(b as int));
    } else if a >= 10 && b >= 10 {
        let da = decimal(a);
        assert(da.last() == digit_char((a % 10) as int));
        assert(decimal(b).last() == digit_char((b % 10) as int));
        assert(da.drop_last() =~= decimal(a / 10));
        assert(decimal(b).drop_last() =~= decimal(b / 10));
        lemma_decimal_injective(a / 10, b / 10);
    }
}

/// The decimal representation of a natural number, without leading zeros.
pub open spec fn decimal(n: nat) -> Seq<char>
    decreases n,
{
    if n < 10 {
        seq![digit_char(n as int)]
    } else {
        decimal(n / 10) + seq![digit_char((n % 10) as int)]
    }
}

/// The decimal representation of an integer, with a `-` before a negative one.
pub open spec fn signed_decimal(n: int) -> Seq<char> {
    if n < 0 {
        seq!['-'] + decimal((-n) as nat)
    } else {
        decimal(n as nat)
    }
}

/// Appends the decimal representation of `n` (`Display` for unsigned integers).
pub fn push_decimal(dst: &mut Vec<char>, n: u64)
    ensures
        final(dst)@ == old(dst)@ + decimal(n as nat),
    decreases n,
{
    if n >= 10 {
        push_decimal(dst, n / 10);
    }
    let c = digit(n % 10);
    dst.push(c);
    proof {
        if n >= 10 {
            assert(final(dst)@ =~= old(dst)@ + decimal(n as nat));
        } else {
            assert(decimal(n as nat) == seq![digit_char(n as int)]);
        }
    }
}

/// Appends the decimal representation of `n` (`Display` for signed integers).
pub fn push_signed_decimal(dst: &mut Vec<char>, n: i64)
    ensures
        final(dst)@ == old(dst)@ + signed_decimal(n as int),
{
    if n < 0 {
        dst.push('-');
        let m: u64 = if n == i64::MIN {
            9223372036854775808u64
        } else {
            (-n) as u64
        };
        push_decimal(dst, m);
        assert(final(dst)@ =~= old(dst)@ + signed_decimal(n as int));
    } else {
        push_decimal(dst, n as u64);
    }
}

/// The decimal representation of `n` as a string.
pub fn decimal_string(n: u64) -> (r: String)
    ensures
        r@ == decimal(n as nat),
{
    let mut v: Vec<char> = Vec::new();
    push_decimal(&mut v, n);
    assert(v@ =~= decimal(n as nat));
    string_from_chars(&v)
}


/// Whether `c` is a decimal digit.
pub open spec fn is_digit(c: char) -> bool {
    '0' <= c && c <= '9'
}

/// Whether every character of `s` is a decimal digit.
pub open spec fn all_digits(s: Seq<char>) -> bool {
    forall|i: int| 0 <= i < s.len() ==> is_digit(#[trigger] s[i])
}

/// The number written by the decimal digits `s`.
pub open spec fn digits_value(s: Seq<char>) -> int
    decreases s.len(),
{
    if s.len() == 0 {
        0
    } else {
        digits_value(s.drop_last()) * 10 + (s.last() as int - '0' as int)
    }
}

/// The `i64` written by the digits `body`, negated when `neg`, if it is one.
pub open spec fn parsed_body(neg: bool, body: Seq<char>) -> Option<i64> {
    if body.len() == 0 || !all_digits(body) {
        None
    } else {
        let v = if neg {
            -digits_value(body)
        } else {
            digits_value(body)
        };
        if i64::MIN <= v && v <= i64::MAX {
            Some(v as i64)
        } else {
            None
        }
    }
}

/// `i64::from_str`: an optional `+` or `-`, then at least one decimal digit, the value
/// within the range of `i64`; anything else is refused (`None`).
pub open spec fn parsed_i64(s: Seq<char>) -> Option<i64> {
    if s.len() > 0 && (s[0] == '-' || s[0] == '+') {
        parsed_body(s[0] == '-', s.drop_first())
    } else {
        parsed_body(false, s)
    }
}

proof fn lemma_digits_prefix(s: Seq<char>, k: int)
    requires
        all_digits(s),
        0 <= k <= s.len(),
    ensures
        0 <= digits_value(s.take(k)) <= digits_value(s),
    decreases s.len(),
{
    if k == s.len() {
        assert(s.take(k) =~= s);
        if s.len() > 0 {
            lemma_digits_prefix(s.drop_last(), k - 1);
            assert(s.drop_last().take(k - 1) =~= s.drop_last());
            assert(is_digit(s[s.len() - 1]));
        }
    } else {
        lemma_digits_prefix(s.drop_last(), k);
        assert(s.drop_last().take(k) =~= s.take(k));
        lemma_digits_prefix(s.drop_last(), s.len() - 1);
        assert(s.drop_last().take(s.len() - 1) =~= s.drop_last());
        assert(is_digit(s[s.len() - 1]));
    }
}

/// Parses a decimal `i64` as `str::parse::<i64>` does (see [`parsed_i64`]).
pub fn parse_i64(s: &str) -> (r: Option<i64>)
    ensures
        r == parsed_i64(s@),
{
    let v = chars_of(s);
    let n = v.len();
    let mut start: usize = 0;
    let mut neg = false;
    if n > 0 && (v[0] == '-' || v[0] == '+') {
        neg = v[0] == '-';
        start = 1;
    }
    if start >= n {
        return None;
    }
    let ghost body = v@.subrange(start as int, n as int);
    proof {
        if start == 1 {
            assert(body =~= v@.drop_first());
        } else {
            assert(body =~= v@);
        }
    }
    let mut acc: u128 = 0;
    let mut i: usize = start;
    while i < n
        invariant
            start <= i <= n,
            n == v@.len(),
            v@ == s@,
            body == v@.subrange(start as int, n as int),
            parsed_i64(s@) == parsed_body(neg, body),
            all_digits(v@.subrange(start as int, i as int)),
            acc == digits_value(v@.subrange(start as int, i as int)),
            acc <= 9223372036854775808u128,
        decreases n - i,
    {
        let c = v[i];
        if !('0' <= c && c <= '9') {
            assert(body[i - start] == c);
            return None;
        }
        let d = (c as u32 - '0' as u32) as u128;
        acc = acc * 10 + d;
        assert(v@.subrange(start as int, i + 1).drop_last() =~= v@.subrange(start as int, i as int));
        i = i + 1;
        if acc > 9223372036854775808u128 {
            proof {
                if all_digits(body) {
                    assert(body.take(i - start) =~= v@.subrange(start as int, i as int));
                    lemma_digits_prefix(body, i - start);
                }
            }
            return None;
        }
    }
    assert(v@.subrange(start as int, n as int) =~= body);
    if neg {
        if acc == 9223372036854775808u128 {
            Some(i64::MIN)
        } else {
            Some(-(acc as i64))
        }
    } else if acc > 9223372036854775807u128 {
        None
    } else {
        Some(acc as i64)
    }
}


/// Whether `a` sorts before `b` when both are compared from position `i` on: the first
/// differing character decides by its code point, and a proper prefix sorts first.
/// (`String`'s order compares UTF-8 bytes, which order characters by code point.)
pub open spec fn text_less_from(a: Seq<char>, b: Seq<char>, i: nat) -> bool
    decreases a.len() - i,
{
    if i >= b.len() {
        false
    } else if i >= a.len() {
        true
    } else if a[i as int] != b[i as int] {
        a[i as int] < b[i as int]
    } else {
        text_less_from(a, b, i + 1)
    }
}

/// Whether `a` sorts before `b` in `String`'s order.
pub open spec fn text_less(a: Seq<char>, b: Seq<char>) -> bool {
    text_less_from(a, b, 0)
}

/// The order of texts is transitive.
pub proof fn lemma_text_less_transitive(a: Seq<char>, b: Seq<char>, c: Seq<char>, i: nat)
    requires
        text_less_from(a, b, i),
        text_less_from(b, c, i),
    ensures
        text_less_from(a, c, i),
    decreases b.len() - i,
{
    if i < a.len() && a[i as int] == b[i as int] && b[i as int] == c[i as int] {
        lemma_text_less_transitive(a, b, c, i + 1);
    }
}

/// Of two texts that agree before position `i`, one sorts before the other unless they
/// are equal from `i` on.
pub proof fn lemma_text_less_total(a: Seq<char>, b: Seq<char>, i: nat)
    requires
        i <= a.len(),
        i <= b.len(),
    ensures
        text_less_from(a, b, i) || text_less_from(b, a, i) || (a.len() == b.len() && forall|
            k: int,
        |
            i <= k < a.len() ==> a[k] == b[k]),
    decreases a.len() - i,
{
    if i < a.len() && i < b.len() && a[i as int] == b[i as int] {
        lemma_text_less_total(a, b, i + 1);
        if a.len() == b.len() && forall|k: int| i + 1 <= k < a.len() ==> a[k] == b[k] {
            assert forall|k: int| i <= k < a.len() implies a[k] == b[k] by {
                if k > i {
                    assert(i + 1 <= k);
                }
            }
        }
    }
}

/// Two texts are equal or one sorts before the other.
pub proof fn lemma_text_order_total(a: Seq<char>, b: Seq<char>)
    ensures
        text_less(a, b) || text_less(b, a) || a == b,
{
    lemma_text_less_total(a, b, 0);
    if !text_less(a, b) && !text_less(b, a) {
        assert(a =~= b);
    }
}

/// Whether `a` sorts before `b` in `String`'s order (see [`text_less`]).
pub fn text_less_than(a: &str, b: &str) -> (r: bool)
    ensures
        r == text_less(a@, b@),
{
    let va = chars_of(a);
    let vb = chars_of(b);
    let mut i: usize = 0;
    while i < va.len() && i < vb.len()
        invariant
            va@ == a@,
            vb@ == b@,
            i <= va@.len(),
            i <= vb@.len(),
            text_less(a@, b@) == text_less_from(a@, b@, i as nat),
        decreases va.len() - i,
    {
        let ca = va[i];
        let cb = vb[i];
        if ca != cb {
            return ca < cb;
        }
        i = i + 1;
    }
    i < vb.len()
}

} // verus!
