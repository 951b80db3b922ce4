//! Calendar dates of the user interface (`YYYY-MM-DD`) and the millisecond
//! ranges of window-log timestamps that they select.
use vstd::prelude::*;
use chrono::NaiveDate;

verus! {

/// Milliseconds in a day.
pub const MILLIS_PER_DAY: i64 = 86_400_000;

/// What chrono's `NaiveDate::parse_from_str(s, "%Y-%m-%d")` gives for `s`:
/// the day as a count of days since 1970-01-01 (`to_epoch_days`), or the
/// text of the parse error.
pub uninterp spec fn iso_date_parse(s: Seq<char>) -> Result<int, Seq<char>>;

/// Calls `chrono::NaiveDate::parse_from_str` with the format `%Y-%m-%d`, then
/// `NaiveDate::to_epoch_days` on success or the error's `to_string` on
/// failure. The contract ties the result to the name `iso_date_parse`.
#[verifier::external_body]
fn parse_iso_date_days(s: &str) -> (r: Result<i32, String>)
    ensures
        match r {
            Ok(d) => iso_date_parse(s@) == Ok::<int, Seq<char>>(d as int),
            Err(t) => iso_date_parse(s@) == Err::<int, Seq<char>>(t@),
        },
{
    match NaiveDate::parse_from_str(s, "%Y-%m-%d") {
        Ok(d) => Ok(d.to_epoch_days()),
        Err(e) => Err(e.to_string()),
    }
}

/// Milliseconds since the Unix epoch at midnight UTC that starts the day
/// `epoch_days` days after 1970-01-01.
pub open spec fn day_start_millis(epoch_days: int) -> int {
    epoch_days * 86_400_000
}

fn prefixed(prefix: &str, text: &String) -> (r: String)
    ensures
        r@ == prefix@ + text@,
{
    let mut m = String::from_str(prefix);
    m.append(text.as_str());
    m
}

/// The day range for a parsed date: the half-open range
/// `[start, start + one day)` of millisecond timestamps of the day
/// `epoch_days` (UTC), or `"Invalid date: "` followed by the parse error.
pub fn day_range_from_parse(parsed: Result<i32, String>) -> (r: Result<(i64, i64), String>)
    ensures
        match parsed {
            Ok(d) => r == Ok::<(i64, i64), String>(
                (day_start_millis(d as int) as i64, (day_start_millis(d as int) + 86_400_000) as i64),
            ),
            Err(t) => r matches Err(m) && m@ == "Invalid date: "@ + t@,
        },
{
    match parsed {
        Ok(d) => {
            let start_ms: i64 = (d as i64) * MILLIS_PER_DAY;
            Ok((start_ms, start_ms + MILLIS_PER_DAY))
        },
        Err(t) => Err(prefixed("Invalid date: ", &t)),
    }
}

/// The half-open range `[start, start + one day)` of millisecond timestamps
/// that the day `date` (`YYYY-MM-DD`, UTC) covers, or `"Invalid date: "`
/// followed by the parse error.
pub fn daily_range(date: &str) -> (r: Result<(i64, i64), String>)
    ensures
        match iso_date_parse(date@) {
            Ok(d) => r == Ok::<(i64, i64), String>(
                (day_start_millis(d) as i64, (day_start_millis(d) + 86_400_000) as i64),
            ),
            Err(t) => r matches Err(m) && m@ == "Invalid date: "@ + t,
        },
{
    day_range_from_parse(parse_iso_date_days(date))
}

/// The export range for parsed start and end dates: from midnight UTC of
/// the start day to the last millisecond (23:59:59.999) of the end day. A
/// start-date error wins and reads `"Invalid start date: ..."`; an end-date
/// error reads `"Invalid end date: ..."`.
pub fn export_range_from_parses(start: Result<i32, String>, end: Result<i32, String>) -> (r: Result<
    (i64, i64),
    String,
>)
    ensures
        match start {
            Err(t) => r matches Err(m) && m@ == "Invalid start date: "@ + t@,
            Ok(s) => match end {
                Err(t) => r matches Err(m) && m@ == "Invalid end date: "@ + t@,
                Ok(e) => r == Ok::<(i64, i64), String>(
                    (
                        day_start_millis(s as int) as i64,
                        (day_start_millis(e as int) + 86_399_000 + 999) as i64,
                    ),
                ),
            },
        },
{
    let s = match start {
        Ok(d) => d,
        Err(t) => {
            return Err(prefixed("Invalid start date: ", &t));
        },
    };
    let e = match end {
        Ok(d) => d,
        Err(t) => {
            return Err(prefixed("Invalid end date: ", &t));
        },
    };
    let start_ms: i64 = (s as i64) * MILLIS_PER_DAY;
    let end_ms: i64 = (e as i64) * MILLIS_PER_DAY + 86_399_000 + 999;
    Ok((start_ms, end_ms))
}

/// The millisecond range of a timesheet export between the days `start` and
/// `end` (`YYYY-MM-DD`, UTC), both included; see [`export_range_from_parses`].
pub fn export_range(start: &str, end: &str) -> (r: Result<(i64, i64), String>)
    ensures
        match iso_date_parse(start@) {
            Err(t) => r matches Err(m) && m@ == "Invalid start date: "@ + t,
            Ok(s) => match iso_date_parse(end@) {
                Err(t) => r matches Err(m) && m@ == "Invalid end date: "@ + t,
                Ok(e) => r == Ok::<(i64, i64), String>(
                    (day_start_millis(s) as i64, (day_start_millis(e) + 86_399_000 + 999) as i64),
                ),
            },
        },
{
    let s = parse_iso_date_days(start);
    let e = parse_iso_date_days(end);
    export_range_from_parses(s, e)
}

/// Daily ranges tile the timeline: each day's range ends where the next
/// day's range begins.
pub proof fn lemma_consecutive_days_abut(d: int)
    ensures
        day_start_millis(d) + 86_400_000 == day_start_millis(d + 1),
{
}

} // verus!
