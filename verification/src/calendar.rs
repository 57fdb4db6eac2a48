//! Calendar text for scheduling records.
//!
//! The scheduler itself works on plain minute counts since the Unix epoch.
//! Rendering those counts as timestamp text, and reading the timestamp text
//! of stored records back, is calendar arithmetic that this crate leaves to
//! chrono behind two trusted wrappers; everything around the calls - format
//! fallback order, the pre-epoch cut-off, the unit conversions - is verified.

use vstd::prelude::*;

verus! {

/// Highest minute count that the formatting functions accept; it is the
/// largest due time the scheduler can produce
/// (`MAX_NOW_MINUTES + MAX_INTERVAL_DAYS * MINUTES_PER_DAY`) and keeps the
/// timestamp comfortably inside chrono's calendar range.
pub const MAX_FORMAT_MINUTES: u64 = 1_640_000_000;

/// What chrono renders for a UTC timestamp of `secs` seconds under format
/// string `fmt`.
pub uninterp spec fn chrono_text(secs: i64, fmt: Seq<char>) -> Seq<char>;

/// What chrono parses (as seconds since the epoch, UTC) out of `s` under
/// format string `fmt`; `None` where the text does not match the format.
pub uninterp spec fn chrono_parsed(s: Seq<char>, fmt: Seq<char>) -> Option<i64>;

/// Relies on chrono's `DateTime::<Utc>::from_timestamp` and
/// `DateTime::format`: the rendered text depends on the timestamp and the
/// format string alone (UTC, no locale), and `from_timestamp` documents that
/// only a timestamp outside the representable calendar - far beyond the
/// first few thousand years - yields `None`.
#[verifier::external_body]
fn chrono_format(secs: i64, fmt: &str) -> (r: Option<String>)
    requires
        fmt@ == "%Y-%m-%dT%H:%M:%S"@ || fmt@ == "%Y-%m-%d"@,
    ensures
        r matches Some(s) ==> s@ == chrono_text(secs, fmt@),
        0 <= secs <= 100_000_000_000 ==> r is Some,
{
    chrono::DateTime::<chrono::Utc>::from_timestamp(secs, 0).map(|d| d.format(fmt).to_string())
}

/// Relies on chrono's `NaiveDateTime::parse_from_str` (read as UTC): the
/// outcome depends on the text and the format string alone.
#[verifier::external_body]
fn chrono_parse(s: &str, fmt: &str) -> (r: Option<i64>)
    ensures
        r == chrono_parsed(s@, fmt@),
{
    chrono::NaiveDateTime::parse_from_str(s, fmt).ok().map(|d| d.and_utc().timestamp())
}

/// `YYYY-MM-DDTHH:MM:SS` text of a minute count, as written into a record's
/// precise due field.
pub fn datetime_text(minutes: u64) -> (r: String)
    requires
        minutes <= MAX_FORMAT_MINUTES,
    ensures
        r@ == chrono_text((minutes * 60) as i64, "%Y-%m-%dT%H:%M:%S"@),
{
    let secs: i64 = (minutes * 60) as i64;
    match chrono_format(secs, "%Y-%m-%dT%H:%M:%S") {
        Some(s) => s,
        None => {
            assert(false);
            String::new()
        },
    }
}

/// `YYYY-MM-DD` text of a minute count: the legacy date-only projection of
/// a due time.
pub fn date_text(minutes: u64) -> (r: String)
    requires
        minutes <= MAX_FORMAT_MINUTES,
    ensures
        r@ == chrono_text((minutes * 60) as i64, "%Y-%m-%d"@),
{
    let secs: i64 = (minutes * 60) as i64;
    match chrono_format(secs, "%Y-%m-%d") {
        Some(s) => s,
        None => {
            assert(false);
            String::new()
        },
    }
}

/// Minutes since the epoch encoded in `s`, trying the space-separated
/// timestamp shape first and the `T`-separated shape second; pre-epoch
/// timestamps count as unparseable.
pub open spec fn spec_parsed_minutes(s: Seq<char>) -> Option<u64> {
    let secs = if chrono_parsed(s, "%Y-%m-%d %H:%M:%S"@) is Some {
        chrono_parsed(s, "%Y-%m-%d %H:%M:%S"@)
    } else {
        chrono_parsed(s, "%Y-%m-%dT%H:%M:%S"@)
    };
    match secs {
        Some(v) => if v >= 0 {
            Some((v / 60) as u64)
        } else {
            None
        },
        None => None,
    }
}

impl crate::schedule::ScheduleState {
    /// The precise due timestamp, rendered as `YYYY-MM-DDTHH:MM:SS`.
    pub fn due_at_text(&self) -> (r: String)
        requires
            self.wf(),
        ensures
            r@ == chrono_text((self.due_at_min * 60) as i64, "%Y-%m-%dT%H:%M:%S"@),
    {
        datetime_text(self.due_at_min)
    }

    /// The legacy date-only projection of the due time, rendered as
    /// `YYYY-MM-DD`; derived and write-only, kept for external readers.
    pub fn due_date_text(&self) -> (r: String)
        requires
            self.wf(),
        ensures
            r@ == chrono_text((self.due_at_min * 60) as i64, "%Y-%m-%d"@),
    {
        date_text(self.due_at_min)
    }
}

pub fn parse_datetime_minutes(s: &str) -> (r: Option<u64>)
    ensures
        r == spec_parsed_minutes(s@),
{
    let secs = match chrono_parse(s, "%Y-%m-%d %H:%M:%S") {
        Some(v) => Some(v),
        None => chrono_parse(s, "%Y-%m-%dT%H:%M:%S"),
    };
    match secs {
        Some(v) => if v >= 0 {
            Some((v / 60) as u64)
        } else {
            None
        },
        None => None,
    }
}

} // verus!
