//! Dates and times written out by the `chrono` crate.

use vstd::prelude::*;

verus! {

/// How feed entries show their time, e.g. "Jan 13 09:30".
pub open spec fn feed_time_format() -> Seq<char> {
    "%b %d %H:%M"@
}

/// How forecast days are named, e.g. "Mon Jan 13".
pub open spec fn day_name_format() -> Seq<char> {
    "%a %b %d"@
}

/// How the forecast service writes dates, e.g. "2025-01-13".
pub open spec fn iso_date_format() -> Seq<char> {
    "%Y-%m-%d"@
}

/// The format strings this library hands to `chrono` for a date and time;
/// each is made of valid specifiers only, so writing a time with it cannot fail.
pub open spec fn known_format(f: Seq<char>) -> bool {
    f == feed_time_format() || f == day_name_format() || f == iso_date_format()
}

/// The formats among those that use only the fields of a date, so that
/// writing a date (which has no time of day) with them cannot fail.
pub open spec fn date_only_format(f: Seq<char>) -> bool {
    f == day_name_format() || f == iso_date_format()
}

/// The text of the UTC time `secs` seconds after the Unix epoch in format
/// `fmt`, as `chrono` writes it; `None` when that time is out of range.
pub uninterp spec fn utc_time_text(secs: i64, fmt: Seq<char>) -> Option<Seq<char>>;

/// The date `date` read in format `in_fmt` and written in format `out_fmt`, as
/// `chrono` reads and writes dates; `None` when it does not read as a date.
pub uninterp spec fn date_reformatted(date: Seq<char>, in_fmt: Seq<char>, out_fmt: Seq<char>) -> Option<
    Seq<char>,
>;

/// The date `days` days after `date`, both written in format `fmt`, as
/// `chrono` reads, counts and writes dates; `None` when `date` does not read
/// as a date or the sum is out of `chrono`'s range of dates.
pub uninterp spec fn date_shifted(date: Seq<char>, fmt: Seq<char>, days: u64) -> Option<Seq<char>>;

/// Calls `chrono::DateTime::<Utc>::from_timestamp(secs, 0)` and writes the
/// time with `format(fmt)`; the result depends on the arguments alone.
#[verifier::external_body]
pub(crate) fn format_utc_time(secs: i64, fmt: &str) -> (r: Option<String>)
    requires
        known_format(fmt@),
    ensures
        match r {
            Some(t) => utc_time_text(secs, fmt@) == Some(t@),
            None => utc_time_text(secs, fmt@) is None,
        },
{
    chrono::DateTime::from_timestamp(secs, 0).map(|d| d.format(fmt).to_string())
}

/// Calls `chrono::NaiveDate::parse_from_str(date, in_fmt)` and writes the date
/// with `format(out_fmt)`; the result depends on the arguments alone.
#[verifier::external_body]
pub(crate) fn reformat_date(date: &str, in_fmt: &str, out_fmt: &str) -> (r: Option<String>)
    requires
        date_only_format(in_fmt@),
        date_only_format(out_fmt@),
    ensures
        match r {
            Some(t) => date_reformatted(date@, in_fmt@, out_fmt@) == Some(t@),
            None => date_reformatted(date@, in_fmt@, out_fmt@) is None,
        },
{
    chrono::NaiveDate::parse_from_str(date, in_fmt).ok().map(|d| d.format(out_fmt).to_string())
}

/// Calls `chrono::NaiveDate::parse_from_str(date, fmt)`, moves the date on by
/// `checked_add_days(Days::new(days))`, and writes it with `format(fmt)`; the
/// result depends on the arguments alone.
#[verifier::external_body]
pub(crate) fn shift_date(date: &str, fmt: &str, days: u64) -> (r: Option<String>)
    requires
        date_only_format(fmt@),
    ensures
        match r {
            Some(t) => date_shifted(date@, fmt@, days) == Some(t@),
            None => date_shifted(date@, fmt@, days) is None,
        },
{
    chrono::NaiveDate::parse_from_str(date, fmt)
        .ok()
        .and_then(|d| d.checked_add_days(chrono::Days::new(days)))
        .map(|d| d.format(fmt).to_string())
}

} // verus!
