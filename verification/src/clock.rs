//! The wall clock, read through chrono. What it returns depends on the moment of the
//! call, so its callers state only what holds whatever time it is.
use vstd::prelude::*;

verus! {

/// Whether a text has the shape of a date that chrono writes with `%Y-%m-%d`: a year of
/// at least four characters (four zero-padded digits, with a sign outside 0..=9999),
/// then `-`, a two-digit month, `-` and a two-digit day.
pub open spec fn date_shaped(t: Seq<char>) -> bool {
    let n = t.len() as int;
    &&& n >= 10
    &&& t[n - 6] == '-'
    &&& t[n - 3] == '-'
    &&& crate::text::is_digit(t[n - 5])
    &&& crate::text::is_digit(t[n - 4])
    &&& crate::text::is_digit(t[n - 2])
    &&& crate::text::is_digit(t[n - 1])
}

/// Today's UTC date, from chrono's `Utc::now()` formatted with `%Y-%m-%d`. Which date it
/// is depends on the clock; the contract claims only its shape: chrono writes the year
/// with at least four characters, and the month and day zero-padded to two digits.
#[verifier::external_body]
pub(crate) fn utc_today() -> (r: String)
    ensures
        date_shaped(r@),
{
    chrono::Utc::now().format("%Y-%m-%d").to_string()
}

/// Whether a text has the shape of a UTC time that chrono writes as RFC 3339: a date (see
/// [`date_shaped`]), `T`, the time as `HH:MM:SS`, an optional fraction of a second after
/// a `.`, and the offset `+00:00`.
pub open spec fn rfc3339_utc_shaped(t: Seq<char>) -> bool {
    exists|k: int|
        10 <= k && k + 15 <= t.len() && #[trigger] date_shaped(t.take(k)) && t[k] == 'T'
            && crate::text::is_digit(t[k + 1]) && crate::text::is_digit(t[k + 2]) && t[k + 3] == ':'
            && crate::text::is_digit(t[k + 4]) && crate::text::is_digit(t[k + 5]) && t[k + 6] == ':'
            && crate::text::is_digit(t[k + 7]) && crate::text::is_digit(t[k + 8]) && (k + 15
            == t.len() || t[k + 9] == '.') && t.skip(t.len() - 6) == seq!['+', '0', '0', ':', '0', '0']
}

/// The current UTC time as chrono's `Utc::now().to_rfc3339()` writes it. Which time it
/// is depends on the clock; the contract claims only its shape: chrono writes the date
/// as `%Y-%m-%d` does, `T`, hours, minutes and seconds with two digits each, the fraction
/// of a second only when it is not zero, and the zero offset as `+00:00`.
#[verifier::external_body]
pub(crate) fn utc_now_rfc3339() -> (r: String)
    ensures
        rfc3339_utc_shaped(r@),
{
    chrono::Utc::now().to_rfc3339()
}

} // verus!
