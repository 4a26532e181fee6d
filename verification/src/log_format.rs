//! The text that `debug-logs` prints for a stored log row: a styled timestamp,
//! level, thread, target and location, and the message truncated to a bounded
//! number of bytes.
use vstd::prelude::*;
use vstd::string::StringSliceAdditionalSpecFns;
use vstd::utf8::{decode_utf8, encode_utf8, is_char_boundary};

use crate::clock::{
    utc_clock_time, utc_clock_time_text, utc_representable, utc_rfc3339_millis,
    utc_rfc3339_millis_text,
};
use crate::colors::{
    blue, bold, color_reset, dimmed, green, magenta, red, style_reset, styled, yellow,
};
use crate::text::{
    decimal, decimal_text, eq_ignore_ascii_case, escape_newlines, escape_newlines_text, pad_right,
    pad_right_text, signed_decimal, signed_decimal_text, text_eq_ignore_ascii_case, zero_padded,
    zero_padded_text,
};

verus! {

/// A row of the log store.
pub struct LogRow {
    pub id: i64,
    pub ts: i64,
    pub ts_nanos: i64,
    pub level: String,
    pub target: String,
    pub message: Option<String>,
    pub module: Option<String>,
    pub file: Option<String>,
    pub line: Option<i64>,
    pub thread_id: Option<String>,
}

/// The most bytes of a message that are printed.
pub open spec fn message_limit() -> int {
    4096
}

/// The largest character boundary of `bytes` that is at most `limit`.
pub open spec fn boundary_at_most(bytes: Seq<u8>, limit: int) -> int
    decreases limit,
{
    if limit <= 0 {
        0
    } else if is_char_boundary(bytes, limit) {
        limit
    } else {
        boundary_at_most(bytes, limit - 1)
    }
}

/// A message as printed: whole when its UTF-8 encoding fits the limit, else the
/// longest prefix of whole characters that fits, and the number of bytes left out.
pub open spec fn truncated(message: Seq<char>) -> Seq<char> {
    let bytes = encode_utf8(message);
    if bytes.len() <= message_limit() {
        message
    } else {
        let end = boundary_at_most(bytes, message_limit());
        decode_utf8(bytes.subrange(0, end)) + " ... [truncated "@ + decimal(
            (bytes.len() - end) as nat,
        ) + " bytes]"@
    }
}

/// The message text of a row: truncated, with newlines written out when compact,
/// in bold.
pub open spec fn message_text(message: Seq<char>, compact: bool) -> Seq<char> {
    let t = truncated(message);
    styled("\x1b[1m"@, if compact { escape_newlines(t) } else { t }, style_reset())
}

/// The level text of a row: padded to five characters, bold, and colored by level
/// (compared without ASCII case); an unknown level is only bold.
pub open spec fn level_text(level: Seq<char>) -> Seq<char> {
    let padded = pad_right(level, 5);
    let color: Seq<char> = if eq_ignore_ascii_case(level, "error"@) {
        "\x1b[31m"@
    } else if eq_ignore_ascii_case(level, "warn"@) {
        "\x1b[33m"@
    } else if eq_ignore_ascii_case(level, "info"@) {
        "\x1b[32m"@
    } else if eq_ignore_ascii_case(level, "debug"@) {
        "\x1b[34m"@
    } else {
        "\x1b[35m"@
    };
    if eq_ignore_ascii_case(level, "error"@) || eq_ignore_ascii_case(level, "warn"@)
        || eq_ignore_ascii_case(level, "info"@) || eq_ignore_ascii_case(level, "debug"@)
        || eq_ignore_ascii_case(level, "trace"@) {
        styled("\x1b[1m"@, styled(color, padded, color_reset()), style_reset())
    } else {
        styled("\x1b[1m"@, padded, style_reset())
    }
}

/// The nanoseconds handed to chrono: the row's value when it fits a `u32`, else 0.
pub open spec fn nanos_arg(ts_nanos: i64) -> u32 {
    if 0 <= ts_nanos <= u32::MAX {
        ts_nanos as u32
    } else {
        0
    }
}

/// The timestamp text of a row: the time of day when compact, else RFC 3339 with
/// milliseconds; seconds and zero-padded nanoseconds when chrono cannot
/// represent the instant.
pub open spec fn timestamp_text(ts: i64, ts_nanos: i64, compact: bool) -> Seq<char> {
    let nanos = nanos_arg(ts_nanos);
    if utc_representable(ts, nanos) {
        if compact {
            utc_clock_time(ts, nanos)
        } else {
            utc_rfc3339_millis(ts, nanos, true)
        }
    } else {
        signed_decimal(ts as int) + "."@ + zero_padded(ts_nanos as int, 9) + "Z"@
    }
}

/// The dim style.
pub open spec fn dim(text: Seq<char>) -> Seq<char> {
    styled("\x1b[2m"@, text, style_reset())
}

/// The location of a row: ` file:line`, ` file`, or nothing.
pub open spec fn location_text(file: Option<Seq<char>>, line: Option<i64>) -> Seq<char> {
    match (file, line) {
        (Some(f), Some(l)) => dim(" "@ + f + ":"@ + signed_decimal(l as int)),
        (Some(f), None) => dim(" "@ + f),
        _ => Seq::empty(),
    }
}

/// The text printed for a row.
pub open spec fn row_text(row: LogRow, compact: bool) -> Seq<char> {
    let timestamp = dim(timestamp_text(row.ts, row.ts_nanos, compact));
    let level = level_text(row.level@);
    let message = message_text(
        match row.message {
            Some(m) => m@,
            None => ""@,
        },
        compact,
    );
    if compact {
        timestamp + " "@ + level + " "@ + message
    } else {
        let thread = dim(
            styled(
                "\x1b[34m"@,
                match row.thread_id {
                    Some(t) => t@,
                    None => "-"@,
                },
                color_reset(),
            ),
        );
        timestamp + " #"@ + signed_decimal(row.id as int) + " "@ + level + " ["@ + thread + "] "@
            + dim(row.target@) + location_text(row.file.deep_view(), row.line) + " - "@ + message
    }
}

/// In compact format a row is its time of day, its level and its message, each
/// separated by a space; the message is truncated and then has every newline
/// written out as `\n`, so no newline of the message reaches the printed row.
pub proof fn lemma_compact_row_writes_newlines_out(row: LogRow)
    ensures
        row_text(row, true) == dim(timestamp_text(row.ts, row.ts_nanos, true)) + " "@ + level_text(
            row.level@,
        ) + " "@ + "\x1b[1m"@ + escape_newlines(
            truncated(
                match row.message {
                    Some(m) => m@,
                    None => ""@,
                },
            ),
        ) + "\x1b[0m"@,
        !escape_newlines(
            truncated(
                match row.message {
                    Some(m) => m@,
                    None => ""@,
                },
            ),
        ).contains('\n'),
{
    let body = match row.message {
        Some(m) => m@,
        None => ""@,
    };
    crate::text::lemma_escape_newlines(truncated(body));
    assert(row_text(row, true) =~= dim(timestamp_text(row.ts, row.ts_nanos, true)) + " "@
        + level_text(row.level@) + " "@ + "\x1b[1m"@ + escape_newlines(truncated(body))
        + "\x1b[0m"@);
}


/// The lines printed for rows fetched newest first.
pub open spec fn printed_lines(rows: Seq<LogRow>, compact: bool) -> Seq<Seq<char>> {
    rows.reverse().map_values(|row: LogRow| row_text(row, compact))
}

/// The backfill prints one line per row, the oldest row (the last one fetched)
/// first: line `k` is the row at `k` from the end, in the chosen format.
pub proof fn lemma_backfill_prints_oldest_first(rows: Seq<LogRow>, compact: bool)
    ensures
        printed_lines(rows, compact).len() == rows.len(),
        forall|k: int|
            0 <= k < rows.len() ==> #[trigger] printed_lines(rows, compact)[k] == row_text(
                rows[rows.len() - 1 - k],
                compact,
            ),
{
}


proof fn lemma_boundary_scan(bytes: Seq<u8>, limit: int, end: int)
    requires
        0 <= end <= limit,
        is_char_boundary(bytes, end),
        forall|k: int| end < k <= limit ==> !is_char_boundary(bytes, k),
    ensures
        boundary_at_most(bytes, limit) == end,
    decreases limit,
{
    if limit > end {
        lemma_boundary_scan(bytes, limit - 1, end);
    }
}

/// A truncated message keeps a prefix of whole characters of at most 4096 bytes.
pub proof fn lemma_truncation_keeps_bounded_prefix(message: Seq<char>)
    ensures
        0 <= boundary_at_most(encode_utf8(message), message_limit()) <= message_limit(),
        is_char_boundary(
            encode_utf8(message),
            boundary_at_most(encode_utf8(message), message_limit()),
        ),
{
    vstd::utf8::encode_utf8_valid_utf8(message);
    lemma_boundary_props(encode_utf8(message), message_limit());
}

proof fn lemma_boundary_props(bytes: Seq<u8>, limit: int)
    requires
        vstd::utf8::valid_utf8(bytes),
    ensures
        0 <= boundary_at_most(bytes, limit) <= if limit < 0 { 0 } else { limit },
        is_char_boundary(bytes, boundary_at_most(bytes, limit)),
    decreases limit,
{
    if limit > 0 && !is_char_boundary(bytes, limit) {
        lemma_boundary_props(bytes, limit - 1);
    }
}

/// A message cut to at most 4096 bytes at a character boundary, with the number of
/// bytes cut.
pub fn truncate(message: &str) -> (r: String)
    ensures
        r@ == truncated(message@),
{
    broadcast use vstd::slice::group_slice_axioms;

    let len = message.as_bytes().len();
    if len <= 4096 {
        return String::from_str(message);
    }
    let ghost bytes = message.spec_bytes();
    proof {
        vstd::utf8::encode_utf8_valid_utf8(message@);
    }
    let mut end: usize = 4096;
    while !message.is_char_boundary(end)
        invariant
            end <= 4096,
            4096 < len,
            len == bytes.len(),
            bytes == message.spec_bytes(),
            bytes == encode_utf8(message@),
            vstd::utf8::valid_utf8(bytes),
            forall|k: int| end < k <= 4096 ==> !is_char_boundary(bytes, k),
        decreases end,
    {
        assert(end != 0);
        end = end - 1;
    }
    proof {
        lemma_boundary_scan(bytes, 4096, end as int);
    }
    let (head, _) = message.split_at(end);
    proof {
        vstd::utf8::encode_utf8_decode_utf8(head@);
    }
    let mut r = String::from_str(head);
    r.append(" ... [truncated ");
    let cut = decimal_text((len - end) as u64);
    r.append(cut.as_str());
    r.append(" bytes]");
    r
}

/// The message text of a row.
pub fn message(text: &str, compact: bool) -> (r: String)
    ensures
        r@ == message_text(text@, compact),
{
    let cut = truncate(text);
    if compact {
        let escaped = escape_newlines_text(cut.as_str());
        return bold(escaped.as_str());
    }
    bold(cut.as_str())
}

/// The level text of a row.
pub fn level(name: &str) -> (r: String)
    ensures
        r@ == level_text(name@),
{
    let level = name;
    let padded = pad_right_text(level, 5);
    if text_eq_ignore_ascii_case(level, "error") {
        return bold(red(padded.as_str()).as_str());
    }
    if text_eq_ignore_ascii_case(level, "warn") {
        return bold(yellow(padded.as_str()).as_str());
    }
    if text_eq_ignore_ascii_case(level, "info") {
        return bold(green(padded.as_str()).as_str());
    }
    if text_eq_ignore_ascii_case(level, "debug") {
        return bold(blue(padded.as_str()).as_str());
    }
    if text_eq_ignore_ascii_case(level, "trace") {
        return bold(magenta(padded.as_str()).as_str());
    }
    bold(padded.as_str())
}

/// The timestamp text of a row.
pub fn ts(secs: i64, ts_nanos: i64, compact: bool) -> (r: String)
    ensures
        r@ == timestamp_text(secs, ts_nanos, compact),
{
    let ts = secs;
    let nanos: u32 = if 0 <= ts_nanos && ts_nanos <= 4294967295i64 {
        ts_nanos as u32
    } else {
        0
    };
    let rendered = if compact {
        utc_clock_time_text(ts, nanos)
    } else {
        utc_rfc3339_millis_text(ts, nanos, true)
    };
    match rendered {
        Some(text) => text,
        None => {
            let mut text = signed_decimal_text(ts);
            text.append(".");
            let padded = zero_padded_text(ts_nanos, 9);
            text.append(padded.as_str());
            text.append("Z");
            text
        },
    }
}

/// The text printed for a row.
pub fn format_row(row: &LogRow, compact: bool) -> (r: String)
    ensures
        r@ == row_text(*row, compact),
{
    let stamp = ts(row.ts, row.ts_nanos, compact);
    let timestamp = dimmed(stamp.as_str());
    let level_part = level(row.level.as_str());
    let body = match &row.message {
        Some(m) => m.as_str(),
        None => "",
    };
    let message_part = message(body, compact);
    if compact {
        let mut line = timestamp;
        line.append(" ");
        line.append(level_part.as_str());
        line.append(" ");
        line.append(message_part.as_str());
        return line;
    }
    let thread = match &row.thread_id {
        Some(t) => t.as_str(),
        None => "-",
    };
    let thread_id = dimmed(blue(thread).as_str());
    let target = dimmed(row.target.as_str());
    let location = match (&row.file, row.line) {
        (Some(file), Some(line)) => {
            let mut l = String::from_str(" ");
            l.append(file.as_str());
            l.append(":");
            let number = signed_decimal_text(line);
            l.append(number.as_str());
            dimmed(l.as_str())
        },
        (Some(file), None) => {
            let mut l = String::from_str(" ");
            l.append(file.as_str());
            dimmed(l.as_str())
        },
        _ => String::new(),
    };
    let mut line = timestamp;
    line.append(" #");
    let id = signed_decimal_text(row.id);
    line.append(id.as_str());
    line.append(" ");
    line.append(level_part.as_str());
    line.append(" [");
    line.append(thread_id.as_str());
    line.append("] ");
    line.append(target.as_str());
    line.append(location.as_str());
    line.append(" - ");
    line.append(message_part.as_str());
    line
}

/// The lines printed for rows fetched newest first: oldest first.
pub fn backfill_lines(rows: &Vec<LogRow>, compact: bool) -> (r: Vec<String>)
    ensures
        r.deep_view() == printed_lines(rows@, compact),
{
    let n = rows.len();
    let mut lines: Vec<String> = Vec::new();
    let mut k: usize = 0;
    while k < n
        invariant
            n == rows.len(),
            k <= n,
            lines.deep_view() == rows@.reverse().map_values(|row: LogRow| row_text(row, compact)).subrange(
                0,
                k as int,
            ),
        decreases n - k,
    {
        let line = format_row(&rows[n - 1 - k], compact);
        let ghost before = lines.deep_view();
        lines.push(line);
        assert(lines.deep_view() =~= before.push(line@));
        assert(rows@.reverse().map_values(|row: LogRow| row_text(row, compact)).subrange(
            0,
            k as int + 1,
        ) =~= rows@.reverse().map_values(|row: LogRow| row_text(row, compact)).subrange(
            0,
            k as int,
        ).push(row_text(rows@[n - 1 - k], compact)));
        k = k + 1;
    }
    assert(rows@.reverse().map_values(|row: LogRow| row_text(row, compact)).subrange(0, n as int)
        =~= rows@.reverse().map_values(|row: LogRow| row_text(row, compact)));
    lines
}

} // verus!
