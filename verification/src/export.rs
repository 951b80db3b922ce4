//! Text of timesheet exports: rows, file names, formats and the cleaning of
//! window titles and application names. Amounts and durations are
//! floating-point values and are formatted by the caller.
use vstd::prelude::*;
use vstd::utf8::encode_utf8;
use crate::text::push_char;

verus! {

/// One approved window-log row of a timesheet export.
#[derive(Debug)]
pub struct ExportRow {
    pub timestamp: i64,
    pub app_name: String,
    pub window_title: String,
    pub duration_ms: i64,
    pub is_idle: bool,
    pub matter_code: String,
    pub client_name: String,
    pub rate_cents: i64,
}

impl ExportRow {
    /// A row from the columns of an export query row: the idle column holds
    /// 1 for true; a row without a matter gets empty code and client and a
    /// rate of 0.
    pub fn from_columns(
        timestamp: i64,
        app_name: String,
        window_title: String,
        duration_ms: i64,
        idle_column: i32,
        matter_code: Option<String>,
        client_name: Option<String>,
        rate_cents: Option<i64>,
    ) -> (r: Self)
        ensures
            r.timestamp == timestamp,
            r.app_name == app_name,
            r.window_title == window_title,
            r.duration_ms == duration_ms,
            r.is_idle == (idle_column == 1),
            r.matter_code@ == (match matter_code {
                Some(c) => c@,
                None => Seq::<char>::empty(),
            }),
            r.client_name@ == (match client_name {
                Some(c) => c@,
                None => Seq::<char>::empty(),
            }),
            r.rate_cents == (match rate_cents {
                Some(c) => c,
                None => 0,
            }),
    {
        ExportRow {
            timestamp,
            app_name,
            window_title,
            duration_ms,
            is_idle: idle_column == 1,
            matter_code: match matter_code {
                Some(c) => c,
                None => String::new(),
            },
            client_name: match client_name {
                Some(c) => c,
                None => String::new(),
            },
            rate_cents: match rate_cents {
                Some(c) => c,
                None => 0,
            },
        }
    }
}

/// The file formats a timesheet can be exported to.
#[derive(Debug, Clone, Copy, PartialEq, Eq, Structural)]
pub enum ExportFormat {
    Csv,
    Pdf,
}

/// The export format named `format` (`"csv"` or `"pdf"`), or the message
/// `Unsupported format: <format>. Use 'csv' or 'pdf'.`
pub fn export_format(format: &str) -> (r: Result<ExportFormat, String>)
    ensures
        if format@ == "csv"@ {
            r == Ok::<ExportFormat, String>(ExportFormat::Csv)
        } else if format@ == "pdf"@ {
            r == Ok::<ExportFormat, String>(ExportFormat::Pdf)
        } else {
            r matches Err(m) && m@ == "Unsupported format: "@ + format@ + ". Use 'csv' or 'pdf'."@
        },
{
    let f = String::from_str(format);
    if f == String::from_str("csv") {
        Ok(ExportFormat::Csv)
    } else if f == String::from_str("pdf") {
        Ok(ExportFormat::Pdf)
    } else {
        let mut m = String::from_str("Unsupported format: ");
        m.append(format);
        m.append(". Use 'csv' or 'pdf'.");
        Err(m)
    }
}

/// The file extension of a format.
pub open spec fn extension(f: ExportFormat) -> Seq<char> {
    match f {
        ExportFormat::Csv => "csv"@,
        ExportFormat::Pdf => "pdf"@,
    }
}

/// The export file name `ghost-time_<start>_<end>.<csv|pdf>`.
pub fn export_file_name(start: &str, end: &str, format: ExportFormat) -> (r: String)
    ensures
        r@ == "ghost-time_"@ + start@ + "_"@ + end@ + "."@ + extension(format),
{
    let mut s = String::from_str("ghost-time_");
    s.append(start);
    s.append("_");
    s.append(end);
    s.append(".");
    match format {
        ExportFormat::Csv => s.append("csv"),
        ExportFormat::Pdf => s.append("pdf"),
    }
    s
}

/// A character kept in exported titles: ASCII characters stay, every other
/// character becomes `?`.
pub open spec fn ascii_or_question(c: char) -> char {
    if (c as u32) < 128 {
        c
    } else {
        '?'
    }
}

/// Cleaning keeps every ASCII character and turns every other character
/// into `?`.
pub proof fn lemma_ascii_kept(c: char)
    ensures
        (c as u32) < 128 ==> ascii_or_question(c) == c,
        (c as u32) >= 128 ==> ascii_or_question(c) == '?',
{
}

/// `title` with every non-ASCII character replaced by `?`.
pub fn sanitize_title(title: &str) -> (r: String)
    ensures
        r@ == title@.map_values(|c: char| ascii_or_question(c)),
        r@.len() == title@.len(),
        forall|i: int| 0 <= i < title@.len() && (title@[i] as u32) < 128 ==> r@[i] == title@[i],
        forall|i: int| 0 <= i < title@.len() && (title@[i] as u32) >= 128 ==> r@[i] == '?',
{
    let n = title.unicode_len();
    let mut r = String::new();
    let mut i: usize = 0;
    while i < n
        invariant
            n == title@.len(),
            i <= n,
            r@ == title@.take(i as int).map_values(|c: char| ascii_or_question(c)),
        decreases n - i,
    {
        let c = title.get_char(i);
        if (c as u32) < 128 {
            push_char(&mut r, c);
        } else {
            push_char(&mut r, '?');
        }
        i = i + 1;
        assert(r@ =~= title@.take(i as int).map_values(|c: char| ascii_or_question(c)));
    }
    assert(title@.take(n as int) =~= title@);
    r
}

/// The idle column of an exported row: `Yes` or `No`.
pub fn idle_label(is_idle: bool) -> (r: String)
    ensures
        r@ == (if is_idle {
            "Yes"@
        } else {
            "No"@
        }),
{
    if is_idle {
        String::from_str("Yes")
    } else {
        String::from_str("No")
    }
}

/// The application name as printed in a PDF timesheet: a name longer than
/// 15 bytes is cut to its first 12 bytes followed by `...`; a shorter one
/// is kept. The cut must fall on a character boundary.
pub fn truncate_app_name(name: &str) -> (r: String)
    requires
        encode_utf8(name@).len() <= usize::MAX,
        encode_utf8(name@).len() > 15 ==> name.is_char_boundary(12),
    ensures
        encode_utf8(name@).len() > 15 ==> exists|p: Seq<char>|
            encode_utf8(p) == encode_utf8(name@).subrange(0, 12) && r@ == p + "..."@,
        encode_utf8(name@).len() <= 15 ==> r@ == name@,
{
    if name.len() > 15 {
        let (head, _tail) = name.split_at(12);
        let mut s = String::from_str(head);
        s.append("...");
        assert(encode_utf8(head@) == encode_utf8(name@).subrange(0, 12) && s@ == head@ + "..."@);
        s
    } else {
        String::from_str(name)
    }
}

/// What chrono gives for a timestamp of `ms` milliseconds since the Unix
/// epoch formatted with `fmt` in UTC: `None` when chrono cannot represent
/// the instant.
pub uninterp spec fn utc_millis_text(ms: int, fmt: Seq<char>) -> Option<Seq<char>>;

/// Calls `chrono::DateTime::from_timestamp_millis` and, on success, formats
/// the instant with `DateTime::format` (taken `to_string`). The result is
/// tied to the name `utc_millis_text`; the format is one of the two that
/// the exports use, both valid strftime strings.
#[verifier::external_body]
fn format_utc_millis(ms: i64, fmt: &str) -> (r: Option<String>)
    requires
        fmt@ == "%Y-%m-%d"@ || fmt@ == "%H:%M:%S"@,
    ensures
        match r {
            Some(t) => utc_millis_text(ms as int, fmt@) == Some(t@),
            None => utc_millis_text(ms as int, fmt@) is None,
        },
{
    match chrono::DateTime::from_timestamp_millis(ms) {
        Some(dt) => Some(dt.format(fmt).to_string()),
        None => None,
    }
}

/// The text of a timestamp in UTC with format `fmt`, falling back to the
/// Unix epoch (chrono's default instant, shown as `fallback`) when the
/// timestamp is out of chrono's range.
pub open spec fn utc_text_or(ms: int, fmt: Seq<char>, fallback: Seq<char>) -> Seq<char> {
    match utc_millis_text(ms, fmt) {
        Some(t) => t,
        None => fallback,
    }
}

/// The formatted text, or `fallback` when there is none.
pub fn text_or(formatted: Option<String>, fallback: &str) -> (r: String)
    ensures
        r@ == (match formatted {
            Some(t) => t@,
            None => fallback@,
        }),
{
    match formatted {
        Some(t) => t,
        None => String::from_str(fallback),
    }
}

/// The `YYYY-MM-DD` date of a millisecond timestamp in UTC, or
/// `1970-01-01` when chrono cannot represent it.
pub fn utc_date_text(ms: i64) -> (r: String)
    ensures
        r@ == utc_text_or(ms as int, "%Y-%m-%d"@, "1970-01-01"@),
{
    text_or(format_utc_millis(ms, "%Y-%m-%d"), "1970-01-01")
}

/// The `HH:MM:SS` time of a millisecond timestamp in UTC, or `00:00:00`
/// when chrono cannot represent it.
pub fn utc_time_text(ms: i64) -> (r: String)
    ensures
        r@ == utc_text_or(ms as int, "%H:%M:%S"@, "00:00:00"@),
{
    text_or(format_utc_millis(ms, "%H:%M:%S"), "00:00:00")
}

/// At most this many rows are printed in a PDF timesheet.
pub const PDF_ROW_LIMIT: usize = 20;

} // verus!
