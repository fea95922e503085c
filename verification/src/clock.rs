//! Readings of the system clock and the parsing of RFC 3339 instants. What
//! the clock reads is not promised; the parse depends on its text alone.

use vstd::prelude::*;

verus! {

/// Whether instant `a` comes after instant `b`, each given as chrono counts
/// it: whole seconds since the Unix epoch and the nanoseconds past that
/// second (at least 10^9 only within a leap second), compared in that
/// order as chrono orders its date-times.
pub open spec fn instant_after(a: (i64, u32), b: (i64, u32)) -> bool {
    a.0 > b.0 || (a.0 == b.0 && a.1 > b.1)
}

/// The latest instant chrono can hold, in whole seconds since the Unix
/// epoch: `+262142-12-31T23:59:59Z`.
pub const LATEST_TIMESTAMP: i64 = 8_210_266_876_799;

/// The last second of year 9999, the last year written with four digits,
/// in whole seconds since the Unix epoch: `9999-12-31T23:59:59Z`.
pub const LAST_FOUR_DIGIT_YEAR: i64 = 253_402_300_799;

/// Whether an instant is one chrono holds at or after the Unix epoch, with
/// no leap second: what `Utc::now()` can read.
pub open spec fn clock_instant(now: (i64, u32)) -> bool {
    0 <= now.0 <= LATEST_TIMESTAMP && now.1 < 1_000_000_000
}

/// Calls `chrono::Utc::now()` and reads its `timestamp()` and
/// `timestamp_subsec_nanos()`. Which instant it is depends on the clock and
/// is not promised; `Utc::now` builds it from the time since the Unix epoch
/// (it panics on a clock set before it), so the instant is at or after the
/// epoch, within chrono's range, with fewer than 10^9 nanoseconds.
#[verifier::external_body]
pub(crate) fn utc_now_instant() -> (r: (i64, u32))
    ensures
        clock_instant(r),
{
    let now = chrono::Utc::now();
    (now.timestamp(), now.timestamp_subsec_nanos())
}

/// The instant an RFC 3339 text denotes, as `timestamp()` and
/// `timestamp_subsec_nanos()` of what `chrono::DateTime::parse_from_rfc3339`
/// gives, or `None` when it does not parse.
pub uninterp spec fn rfc3339_instant(s: Seq<char>) -> Option<(i64, u32)>;

/// Calls `chrono::DateTime::parse_from_rfc3339` on `text` and reads the
/// instant it denotes; `None` when the text does not parse. The result
/// depends on the text alone and is named `rfc3339_instant`.
#[verifier::external_body]
pub(crate) fn parse_rfc3339(text: &str) -> (r: Option<(i64, u32)>)
    ensures
        r == rfc3339_instant(text@),
{
    chrono::DateTime::parse_from_rfc3339(text).ok().map(|t| (t.timestamp(), t.timestamp_subsec_nanos()))
}

/// Whether an RFC 3339 text, read against the instant `now`, has passed:
/// `None` when it does not parse.
pub open spec fn passed_at(text: Seq<char>, now: (i64, u32)) -> Option<bool> {
    match rfc3339_instant(text) {
        Some(t) => Some(instant_after(now, t)),
        None => None,
    }
}

/// Whether the instant an RFC 3339 text denotes has passed at the instant
/// `now`: the text is parsed, then compared with `now`.
pub fn rfc3339_passed_at(text: &str, now: (i64, u32)) -> (r: Option<bool>)
    ensures
        r == passed_at(text@, now),
{
    match parse_rfc3339(text) {
        None => None,
        Some(t) => Some(now.0 > t.0 || (now.0 == t.0 && now.1 > t.1)),
    }
}

/// Whether `c` is an ASCII decimal digit.
pub open spec fn is_ascii_digit(c: char) -> bool {
    '0' <= c && c <= '9'
}

/// Whether the `n` characters of `s` from index `from` are digits.
pub open spec fn digits_at(s: Seq<char>, from: int, n: int) -> bool {
    forall|i: int| from <= i < from + n ==> is_ascii_digit(#[trigger] s[i])
}

/// The layout of a UTC instant as `DateTime::<Utc>::to_rfc3339` writes it,
/// with a year of `y` characters and `f` fractional digits: the year (four
/// digits, or a sign and at least four digits outside 0..=9999),
/// `-MM-DDThh:mm:ss`, a fraction of 3, 6 or 9 digits when the instant has
/// one, and the offset `+00:00`.
pub open spec fn utc_rfc3339_layout(s: Seq<char>, y: int, f: int) -> bool {
    &&& f == 0 || f == 3 || f == 6 || f == 9
    &&& (y == 4 && digits_at(s, 0, 4)) || (y >= 5 && (s[0] == '+' || s[0] == '-') && digits_at(s, 1, y - 1))
    &&& s.len() == y + 15 + (if f == 0 { 0 } else { f + 1 }) + 6
    &&& s[y] == '-' && digits_at(s, y + 1, 2) && s[y + 3] == '-' && digits_at(s, y + 4, 2)
    &&& s[y + 6] == 'T' && digits_at(s, y + 7, 2) && s[y + 9] == ':' && digits_at(s, y + 10, 2)
    &&& s[y + 12] == ':' && digits_at(s, y + 13, 2)
    &&& f > 0 ==> s[y + 15] == '.' && digits_at(s, y + 16, f)
    &&& s.skip(s.len() - 6) == "+00:00"@
}

/// Whether `s` is the RFC 3339 text of a UTC instant, as chrono writes it.
pub open spec fn is_utc_rfc3339(s: Seq<char>) -> bool {
    exists|y: int, f: int| utc_rfc3339_layout(s, y, f)
}

/// Calls `chrono::Utc::now()` and formats it with `to_rfc3339()`, which
/// writes the RFC 3339 layout of a UTC instant. Which instant it is depends
/// on the clock and is not promised.
#[verifier::external_body]
pub(crate) fn utc_now_rfc3339() -> (r: String)
    ensures
        is_utc_rfc3339(r@),
{
    chrono::Utc::now().to_rfc3339()
}

/// The RFC 3339 text of the instant `secs` seconds after `now`, as
/// `DateTime::<Utc>::to_rfc3339` writes it, or `None` when either instant
/// is not one chrono holds.
pub uninterp spec fn rfc3339_after_of(now: (i64, u32), secs: u64) -> Option<Seq<char>>;

/// Calls `chrono::DateTime::from_timestamp(now.0, now.1)`, adds
/// `chrono::TimeDelta::try_seconds(secs as i64)` with `checked_add_signed`
/// and formats the sum with `to_rfc3339()`; `None` where chrono refuses an
/// instant. The text depends on the arguments alone and is named
/// `rfc3339_after_of`. From chrono's source: a clock instant plus an offset
/// that stays within chrono's range gives a text; the text has the layout of
/// a UTC instant; and while the sum is written with a four-digit year,
/// `parse_from_rfc3339` reads back exactly the sum (the fraction is written
/// with 0, 3, 6 or 9 digits, all it holds).
#[verifier::external_body]
pub(crate) fn rfc3339_after(now: (i64, u32), secs: u64) -> (r: Option<String>)
    ensures
        match r {
            Some(t) => rfc3339_after_of(now, secs) == Some(t@),
            None => rfc3339_after_of(now, secs) is None,
        },
        clock_instant(now) && now.0 + secs <= LATEST_TIMESTAMP ==> r is Some,
        r matches Some(t) ==> is_utc_rfc3339(t@),
        r matches Some(t) ==> (clock_instant(now) && now.0 + secs <= LAST_FOUR_DIGIT_YEAR ==> rfc3339_instant(t@)
            == Some(((now.0 + secs) as i64, now.1))),
{
    chrono::DateTime::from_timestamp(now.0, now.1)
        .and_then(|t| chrono::TimeDelta::try_seconds(secs as i64).and_then(|d| t.checked_add_signed(d)))
        .map(|t| t.to_rfc3339())
}

} // verus!
