//! The `debug-logs` command: its options, the filter it builds from them, the
//! queries it runs against the log store, and the reports it prints.
use vstd::prelude::*;

use crate::clock::{rfc3339_parse, rfc3339_seconds};
use crate::text::{decimal, decimal_text, digit_char, signed_decimal};

verus! {

#[verifier::external_type_specification]
#[verifier::external_body]
pub struct ExPathBuf(std::path::PathBuf);

/// The severity levels of log rows, from the least to the most severe.
#[derive(Clone, Copy, Debug, PartialEq, Eq, Structural)]
pub enum DebugLogLevel {
    Trace,
    Debug,
    Info,
    Warn,
    Error,
}

/// The position of a level in the order of severity.
pub open spec fn level_rank(level: DebugLogLevel) -> int {
    match level {
        DebugLogLevel::Trace => 0,
        DebugLogLevel::Debug => 1,
        DebugLogLevel::Info => 2,
        DebugLogLevel::Warn => 3,
        DebugLogLevel::Error => 4,
    }
}

/// The upper-case names of all levels, from the least to the most severe.
pub open spec fn all_level_names() -> Seq<Seq<char>> {
    seq!["TRACE"@, "DEBUG"@, "INFO"@, "WARN"@, "ERROR"@]
}

/// The upper-case name of a level, as log rows store it.
pub open spec fn level_name(level: DebugLogLevel) -> Seq<char> {
    all_level_names()[level_rank(level)]
}

/// The names of a level and of every more severe level, in order of severity.
pub open spec fn threshold_names(level: DebugLogLevel) -> Seq<Seq<char>> {
    all_level_names().subrange(level_rank(level), 5)
}

fn level_name_at(rank: usize) -> (r: &'static str)
    requires
        rank < 5,
    ensures
        r@ == all_level_names()[rank as int],
{
    if rank == 0 {
        "TRACE"
    } else if rank == 1 {
        "DEBUG"
    } else if rank == 2 {
        "INFO"
    } else if rank == 3 {
        "WARN"
    } else {
        "ERROR"
    }
}

impl DebugLogLevel {
    fn rank(self) -> (r: usize)
        ensures
            r == level_rank(self),
    {
        match self {
            DebugLogLevel::Trace => 0,
            DebugLogLevel::Debug => 1,
            DebugLogLevel::Info => 2,
            DebugLogLevel::Warn => 3,
            DebugLogLevel::Error => 4,
        }
    }

    /// The upper-case name of the level.
    pub fn as_upper(self) -> (r: &'static str)
        ensures
            r@ == level_name(self),
    {
        level_name_at(self.rank())
    }

    /// The names of this level and of every more severe one: `warn` includes
    /// `WARN` and `ERROR`.
    pub fn threshold_levels_upper(self) -> (r: Vec<String>)
        ensures
            r.deep_view() == threshold_names(self),
    {
        let start = self.rank();
        let mut names: Vec<String> = Vec::new();
        let mut i: usize = start;
        while i < 5
            invariant
                start == level_rank(self),
                start <= i <= 5,
                names.deep_view() == all_level_names().subrange(start as int, i as int),
            decreases 5 - i,
        {
            let name = String::from_str(level_name_at(i));
            assert(name@ == all_level_names()[i as int]);
            let ghost before = names.deep_view();
            names.push(name);
            assert(names.deep_view() =~= before.push(all_level_names()[i as int]));
            assert(all_level_names().subrange(start as int, i + 1) =~= all_level_names().subrange(
                start as int,
                i as int,
            ).push(all_level_names()[i as int]));
            i = i + 1;
        }
        names
    }
}

/// The options of the `debug-logs` command.
pub struct DebugLogsCommand {
    /// Path to CODEX_HOME.
    pub codex_home: Option<std::path::PathBuf>,
    /// Minimum level to include.
    pub level: Option<DebugLogLevel>,
    /// Exact level to include.
    pub level_exact: Option<DebugLogLevel>,
    /// Earliest timestamp, as unix seconds or RFC3339.
    pub from: Option<String>,
    /// Latest timestamp, as unix seconds or RFC3339.
    pub to: Option<String>,
    /// Log target substrings.
    pub target: Vec<String>,
    /// Module path substrings.
    pub module: Vec<String>,
    /// Source file substrings.
    pub file: Vec<String>,
    /// Thread ids.
    pub thread_id: Vec<String>,
    /// Text to search in log bodies.
    pub search: Option<String>,
    /// Include only rows without a thread id.
    pub threadless: bool,
    /// Maximum rows to print when inspecting logs.
    pub backfill: usize,
    /// Print a shorter one-line row format.
    pub compact: bool,
    /// Delete matching rows.
    pub delete: bool,
    /// Actually perform a delete or vacuum operation.
    pub yes: bool,
    /// Rebuild the log database so that deleted rows return disk space.
    pub vacuum: bool,
}

/// The filter that the options select.
pub struct LogFilter {
    pub levels_upper: Vec<String>,
    pub from_ts: Option<i64>,
    pub to_ts: Option<i64>,
    pub target_like: Vec<String>,
    pub module_like: Vec<String>,
    pub file_like: Vec<String>,
    pub thread_ids: Vec<String>,
    pub search: Option<String>,
    pub include_threadless: bool,
}

/// A query against the log store.
pub struct LogQuery {
    pub levels_upper: Vec<String>,
    pub from_ts: Option<i64>,
    pub to_ts: Option<i64>,
    pub target_like: Vec<String>,
    pub module_like: Vec<String>,
    pub file_like: Vec<String>,
    pub thread_ids: Vec<String>,
    pub search: Option<String>,
    pub include_threadless: bool,
    pub after_id: Option<i64>,
    pub limit: Option<usize>,
    pub descending: bool,
}

/// A timestamp option that failed to parse, with chrono's reason for refusing it
/// as RFC3339.
pub struct InvalidTimestamp {
    pub value: String,
    pub cause: String,
}

/// Which timestamp option a value came from.
#[derive(Clone, Copy, Debug, PartialEq, Eq, Structural)]
pub enum TimestampFlag {
    From,
    To,
}

/// Why the command refuses its options.
pub enum DebugLogsError {
    /// `--from` or `--to` is neither unix seconds nor RFC3339.
    InvalidTimestamp { flag: TimestampFlag, source: InvalidTimestamp },
    /// `--level` and `--level-exact` are both given.
    ConflictingLevels,
    /// `--delete` is given without any filter.
    DeleteWithoutFilter,
}

/// A step of the command, in the order it runs them. `confirmed` steps change
/// the store; the others only report what they would do.
#[derive(Clone, Copy, Debug, PartialEq, Eq, Structural)]
pub enum DebugLogsStep {
    DeleteMatching { confirmed: bool },
    Vacuum { confirmed: bool },
    PrintBackfill { limit: usize, compact: bool },
}

/// Whether a character is an ASCII digit.
pub open spec fn is_ascii_digit(c: char) -> bool {
    '0' <= c && c <= '9'
}

/// Whether every character is an ASCII digit.
pub open spec fn all_digits(s: Seq<char>) -> bool {
    forall|i: int| 0 <= i < s.len() ==> is_ascii_digit(#[trigger] s[i])
}

/// The number that a run of decimal digits denotes.
pub open spec fn digits_value(s: Seq<char>) -> nat
    decreases s.len(),
{
    if s.len() == 0 {
        0
    } else {
        digits_value(s.drop_last()) * 10 + (s.last() as int - '0' as int) as nat
    }
}

/// Whether a text starts with a `+` or `-` sign.
pub open spec fn has_sign(s: Seq<char>) -> bool {
    s.len() > 0 && (s[0] == '-' || s[0] == '+')
}

/// The digits of a text after its optional sign.
pub open spec fn unsigned_part(s: Seq<char>) -> Seq<char> {
    if has_sign(s) {
        s.drop_first()
    } else {
        s
    }
}

/// The `i64` that a text denotes in decimal, as `str::parse::<i64>` reads it: an
/// optional sign, then one or more ASCII digits, within the range of `i64`.
pub open spec fn decimal_i64(s: Seq<char>) -> Option<i64> {
    let digits = unsigned_part(s);
    let v: int = if s.len() > 0 && s[0] == '-' {
        -(digits_value(digits) as int)
    } else {
        digits_value(digits) as int
    };
    if digits.len() > 0 && all_digits(digits) && i64::MIN <= v <= i64::MAX {
        Some(v as i64)
    } else {
        None
    }
}

/// The unix seconds of a timestamp option: a decimal number of seconds, else an
/// RFC3339 date-time.
pub open spec fn timestamp_of(text: Seq<char>) -> Option<i64> {
    match decimal_i64(text) {
        Some(v) => Some(v),
        None => match rfc3339_parse(text) {
            Ok(v) => Some(v),
            Err(_) => None,
        },
    }
}

/// The value an optional timestamp option gives the filter: `None` when the
/// option does not parse, else the parsed bound (absent when the option is).
pub open spec fn bound_of(option: Option<Seq<char>>) -> Option<Option<i64>> {
    match option {
        None => Some(None),
        Some(text) => match timestamp_of(text) {
            Some(v) => Some(Some(v)),
            None => None,
        },
    }
}

/// The level names that the level options select.
pub open spec fn levels_for(
    level_exact: Option<DebugLogLevel>,
    level: Option<DebugLogLevel>,
) -> Seq<Seq<char>> {
    match (level_exact, level) {
        (Some(l), None) => seq![level_name(l)],
        (None, Some(l)) => threshold_names(l),
        _ => Seq::empty(),
    }
}

/// The texts that are not empty, in order.
pub open spec fn non_empty_texts(values: Seq<Seq<char>>) -> Seq<Seq<char>>
    decreases values.len(),
{
    if values.len() == 0 {
        Seq::empty()
    } else if values.last().len() > 0 {
        non_empty_texts(values.drop_last()).push(values.last())
    } else {
        non_empty_texts(values.drop_last())
    }
}

/// The search text, unless it is empty.
pub open spec fn non_empty_search(search: Option<Seq<char>>) -> Option<Seq<char>> {
    match search {
        Some(s) => if s.len() > 0 {
            Some(s)
        } else {
            None
        },
        None => None,
    }
}

/// The filter that a command's options select, once they are accepted.
pub open spec fn filter_selected_by(f: LogFilter, cmd: DebugLogsCommand) -> bool {
    &&& f.levels_upper.deep_view() == levels_for(cmd.level_exact, cmd.level)
    &&& bound_of(cmd.from.deep_view()) == Some(f.from_ts)
    &&& bound_of(cmd.to.deep_view()) == Some(f.to_ts)
    &&& f.target_like.deep_view() == non_empty_texts(cmd.target.deep_view())
    &&& f.module_like.deep_view() == non_empty_texts(cmd.module.deep_view())
    &&& f.file_like.deep_view() == non_empty_texts(cmd.file.deep_view())
    &&& f.thread_ids.deep_view() == non_empty_texts(cmd.thread_id.deep_view())
    &&& f.search.deep_view() == non_empty_search(cmd.search.deep_view())
    &&& f.include_threadless == cmd.threadless
}

/// Whether a filter restricts the rows at all.
pub open spec fn has_any_filter(f: LogFilter) -> bool {
    ||| f.levels_upper.len() > 0
    ||| f.from_ts is Some
    ||| f.to_ts is Some
    ||| f.target_like.len() > 0
    ||| f.module_like.len() > 0
    ||| f.file_like.len() > 0
    ||| f.thread_ids.len() > 0
    ||| f.search is Some
    ||| f.include_threadless
}

/// The query that a filter gives with a limit, a starting id and an order.
pub open spec fn query_for(
    q: LogQuery,
    f: LogFilter,
    limit: Option<usize>,
    after_id: Option<i64>,
    descending: bool,
) -> bool {
    &&& q.levels_upper.deep_view() == f.levels_upper.deep_view()
    &&& q.from_ts == f.from_ts
    &&& q.to_ts == f.to_ts
    &&& q.target_like.deep_view() == f.target_like.deep_view()
    &&& q.module_like.deep_view() == f.module_like.deep_view()
    &&& q.file_like.deep_view() == f.file_like.deep_view()
    &&& q.thread_ids.deep_view() == f.thread_ids.deep_view()
    &&& q.search.deep_view() == f.search.deep_view()
    &&& q.include_threadless == f.include_threadless
    &&& q.after_id == after_id
    &&& q.limit == limit
    &&& q.descending == descending
}

/// The steps that the options ask for: delete, then vacuum (each confirmed by
/// `--yes`), and print the most recent rows only when neither is asked for.
pub open spec fn steps_for(cmd: DebugLogsCommand) -> Seq<DebugLogsStep> {
    let first: Seq<DebugLogsStep> = if cmd.delete {
        seq![DebugLogsStep::DeleteMatching { confirmed: cmd.yes }]
    } else {
        seq![]
    };
    let second: Seq<DebugLogsStep> = if cmd.vacuum {
        seq![DebugLogsStep::Vacuum { confirmed: cmd.yes }]
    } else {
        seq![]
    };
    let third: Seq<DebugLogsStep> = if !cmd.delete && !cmd.vacuum {
        seq![DebugLogsStep::PrintBackfill { limit: cmd.backfill, compact: cmd.compact }]
    } else {
        seq![]
    };
    first + second + third
}

proof fn lemma_digits_prefix_le(s: Seq<char>, k: int)
    requires
        0 <= k <= s.len(),
        all_digits(s),
    ensures
        digits_value(s.subrange(0, k)) <= digits_value(s),
    decreases s.len(),
{
    if k < s.len() {
        let t = s.drop_last();
        assert(all_digits(t)) by {
            assert forall|i: int| 0 <= i < t.len() implies is_ascii_digit(#[trigger] t[i]) by {
                assert(t[i] == s[i]);
            }
        }
        lemma_digits_prefix_le(t, k);
        assert(t.subrange(0, k) =~= s.subrange(0, k));
    } else {
        assert(s.subrange(0, k) =~= s);
    }
}

/// Reads an `i64` in decimal: an optional `+` or `-`, then ASCII digits.
pub fn parse_i64_decimal(value: &str) -> (r: Option<i64>)
    ensures
        r == decimal_i64(value@),
{
    let n = value.unicode_len();
    if n == 0 {
        return None;
    }
    let first = value.get_char(0);
    let negative = first == '-';
    let start: usize = if first == '-' || first == '+' {
        1
    } else {
        0
    };
    let ghost digits = unsigned_part(value@);
    assert(digits =~= value@.subrange(start as int, n as int));
    if start == n {
        return None;
    }
    let mut acc: u128 = 0;
    let mut i: usize = start;
    assert(digits.subrange(0, 0) =~= Seq::<char>::empty());
    while i < n
        invariant
            n == value@.len(),
            start <= i <= n,
            start < n,
            digits == unsigned_part(value@),
            digits == value@.subrange(start as int, n as int),
            all_digits(digits.subrange(0, i - start)),
            acc == digits_value(digits.subrange(0, i - start)),
            acc <= 9223372036854775808u128,
        decreases n - i,
    {
        let c = value.get_char(i);
        if !('0' <= c && c <= '9') {
            assert(digits[i - start] == c);
            assert(!all_digits(digits));
            return None;
        }
        let d: u128 = (c as u32 - 48) as u128;
        let ghost before = digits.subrange(0, i - start);
        let ghost after = digits.subrange(0, i - start + 1);
        assert(after.drop_last() =~= before);
        assert(after.last() == c);
        acc = acc * 10 + d;
        assert(all_digits(after)) by {
            assert forall|j: int| 0 <= j < after.len() implies is_ascii_digit(#[trigger] after[j]) by {
                if j < before.len() {
                    assert(after[j] == before[j]);
                }
            }
        }
        if acc > 9223372036854775808u128 {
            proof {
                if all_digits(digits) {
                    lemma_digits_prefix_le(digits, i - start + 1);
                }
            }
            return None;
        }
        i = i + 1;
    }
    assert(digits.subrange(0, n - start) =~= digits);
    if negative {
        let v: i128 = 0i128 - (acc as i128);
        Some(v as i64)
    } else if acc <= 9223372036854775807u128 {
        Some(acc as i64)
    } else {
        None
    }
}

/// Reads a timestamp option: unix seconds, or else an RFC3339 date-time.
pub fn parse_timestamp(value: &str) -> (r: Result<i64, InvalidTimestamp>)
    ensures
        r matches Ok(v) ==> timestamp_of(value@) == Some(v),
        r matches Err(e) ==> timestamp_of(value@) is None && e.value@ == value@
            && rfc3339_parse(value@) == Err::<i64, Seq<char>>(e.cause@),
{
    if let Some(secs) = parse_i64_decimal(value) {
        return Ok(secs);
    }
    match rfc3339_seconds(value) {
        Ok(secs) => Ok(secs),
        Err(cause) => Err(InvalidTimestamp { value: String::from_str(value), cause }),
    }
}

fn parse_bound(option: &Option<String>, flag: TimestampFlag) -> (r: Result<
    Option<i64>,
    DebugLogsError,
>)
    ensures
        r matches Ok(v) ==> bound_of(option.deep_view()) == Some(v),
        r is Err ==> bound_of(option.deep_view()) is None,
        r matches Err(e) ==> (e matches DebugLogsError::InvalidTimestamp { flag: f, source } && f
            == flag && source.value@ == option.deep_view()->0),
{
    match option {
        None => Ok(None),
        Some(text) => match parse_timestamp(text.as_str()) {
            Ok(v) => Ok(Some(v)),
            Err(source) => Err(DebugLogsError::InvalidTimestamp { flag, source }),
        },
    }
}

/// The non-empty values, in order.
pub fn non_empty_values(values: &Vec<String>) -> (r: Vec<String>)
    ensures
        r.deep_view() == non_empty_texts(values.deep_view()),
{
    let mut out: Vec<String> = Vec::new();
    let n = values.len();
    let mut i: usize = 0;
    assert(values.deep_view().subrange(0, 0) =~= Seq::<Seq<char>>::empty());
    while i < n
        invariant
            n == values.len(),
            i <= n,
            out.deep_view() == non_empty_texts(values.deep_view().subrange(0, i as int)),
        decreases n - i,
    {
        let ghost prefix = values.deep_view().subrange(0, i as int + 1);
        assert(prefix.drop_last() =~= values.deep_view().subrange(0, i as int));
        assert(prefix.last() == values[i as int]@);
        if values[i].as_str().unicode_len() > 0 {
            out.push(values[i].clone());
            assert(out.deep_view() =~= non_empty_texts(prefix));
        }
        i = i + 1;
    }
    assert(values.deep_view().subrange(0, n as int) =~= values.deep_view());
    out
}

fn copy_texts(values: &Vec<String>) -> (r: Vec<String>)
    ensures
        r.deep_view() == values.deep_view(),
{
    let mut out: Vec<String> = Vec::new();
    let n = values.len();
    let mut i: usize = 0;
    while i < n
        invariant
            n == values.len(),
            i <= n,
            out.deep_view() == values.deep_view().subrange(0, i as int),
        decreases n - i,
    {
        let x = values[i].clone();
        assert(x@ == values.deep_view()[i as int]);
        let ghost before = out.deep_view();
        out.push(x);
        assert(out.deep_view() =~= before.push(values.deep_view()[i as int]));
        assert(values.deep_view().subrange(0, i as int + 1) =~= values.deep_view().subrange(
            0,
            i as int,
        ).push(values.deep_view()[i as int]));
        i = i + 1;
    }
    assert(values.deep_view().subrange(0, n as int) =~= values.deep_view());
    out
}

fn copy_text_option(value: &Option<String>) -> (r: Option<String>)
    ensures
        r.deep_view() == value.deep_view(),
{
    match value {
        Some(s) => Some(s.clone()),
        None => None,
    }
}

/// Builds the filter that the options select, or refuses them: an unreadable
/// `--from`, then an unreadable `--to`, then both level options.
pub fn build_filter(cmd: &DebugLogsCommand) -> (r: Result<LogFilter, DebugLogsError>)
    ensures
        bound_of(cmd.from.deep_view()) is None ==> (r matches Err(
            DebugLogsError::InvalidTimestamp { flag, source },
        ) && flag == TimestampFlag::From && source.value@ == cmd.from.deep_view()->0),
        bound_of(cmd.from.deep_view()) is Some && bound_of(cmd.to.deep_view()) is None ==> (r matches Err(
            DebugLogsError::InvalidTimestamp { flag, source },
        ) && flag == TimestampFlag::To && source.value@ == cmd.to.deep_view()->0),
        bound_of(cmd.from.deep_view()) is Some && bound_of(cmd.to.deep_view()) is Some
            && cmd.level_exact is Some && cmd.level is Some ==> r matches Err(
            DebugLogsError::ConflictingLevels,
        ),
        bound_of(cmd.from.deep_view()) is Some && bound_of(cmd.to.deep_view()) is Some && !(
        cmd.level_exact is Some && cmd.level is Some) ==> (r matches Ok(f) && filter_selected_by(
            f,
            *cmd,
        )),
{
    let from_ts = parse_bound(&cmd.from, TimestampFlag::From)?;
    let to_ts = parse_bound(&cmd.to, TimestampFlag::To)?;
    let levels_upper = match (cmd.level_exact, cmd.level) {
        (Some(level), None) => {
            let mut v: Vec<String> = Vec::new();
            v.push(String::from_str(level.as_upper()));
            assert(v.deep_view() =~= seq![level_name(level)]);
            v
        },
        (None, Some(level)) => level.threshold_levels_upper(),
        (None, None) => {
            let v: Vec<String> = Vec::new();
            assert(v.deep_view() =~= Seq::<Seq<char>>::empty());
            v
        },
        (Some(_), Some(_)) => {
            return Err(DebugLogsError::ConflictingLevels);
        },
    };
    let search = match &cmd.search {
        Some(value) => if value.as_str().unicode_len() > 0 {
            Some(value.clone())
        } else {
            None
        },
        None => None,
    };
    Ok(
        LogFilter {
            levels_upper,
            from_ts,
            to_ts,
            target_like: non_empty_values(&cmd.target),
            module_like: non_empty_values(&cmd.module),
            file_like: non_empty_values(&cmd.file),
            thread_ids: non_empty_values(&cmd.thread_id),
            search,
            include_threadless: cmd.threadless,
        },
    )
}

/// Accepts a filter for deletion only when it restricts the rows.
pub fn ensure_delete_filter(filter: &LogFilter) -> (r: Result<(), DebugLogsError>)
    ensures
        r is Ok <==> has_any_filter(*filter),
        r is Err ==> r matches Err(DebugLogsError::DeleteWithoutFilter),
{
    let has_filter = filter.levels_upper.len() > 0 || filter.from_ts.is_some()
        || filter.to_ts.is_some() || filter.target_like.len() > 0 || filter.module_like.len() > 0
        || filter.file_like.len() > 0 || filter.thread_ids.len() > 0 || filter.search.is_some()
        || filter.include_threadless;
    if has_filter {
        Ok(())
    } else {
        Err(DebugLogsError::DeleteWithoutFilter)
    }
}

/// The query that a filter gives with a limit, a starting id and an order.
pub fn to_log_query(
    filter: &LogFilter,
    limit: Option<usize>,
    after_id: Option<i64>,
    descending: bool,
) -> (r: LogQuery)
    ensures
        query_for(r, *filter, limit, after_id, descending),
{
    LogQuery {
        levels_upper: copy_texts(&filter.levels_upper),
        from_ts: filter.from_ts,
        to_ts: filter.to_ts,
        target_like: copy_texts(&filter.target_like),
        module_like: copy_texts(&filter.module_like),
        file_like: copy_texts(&filter.file_like),
        thread_ids: copy_texts(&filter.thread_ids),
        search: copy_text_option(&filter.search),
        include_threadless: filter.include_threadless,
        after_id,
        limit,
        descending,
    }
}

/// The query that a deletion runs: every matching row, oldest first.
pub fn delete_query(filter: &LogFilter) -> (r: Result<LogQuery, DebugLogsError>)
    ensures
        r is Ok <==> has_any_filter(*filter),
        r is Err ==> r matches Err(DebugLogsError::DeleteWithoutFilter),
        r matches Ok(q) ==> query_for(q, *filter, None, None, false),
{
    ensure_delete_filter(filter)?;
    Ok(to_log_query(filter, None, None, false))
}

/// The query that prints the most recent rows: none when no row is asked for,
/// else at most `backfill` rows, newest first.
pub fn backfill_query(filter: &LogFilter, backfill: usize) -> (r: Option<LogQuery>)
    ensures
        r is None <==> backfill == 0,
        r matches Some(q) ==> query_for(q, *filter, Some(backfill), None, true),
{
    if backfill == 0 {
        return None;
    }
    Some(to_log_query(filter, Some(backfill), None, true))
}

/// The line a deletion prints: what was deleted, or (without `--yes`) what would be.
pub fn delete_report(yes: bool, rows: u64, logs_db_path: &str) -> (r: String)
    ensures
        yes ==> r@ == "Deleted "@ + decimal(rows as nat) + " matching log rows from "@
            + logs_db_path@ + "."@,
        !yes ==> r@ == "Would delete "@ + decimal(rows as nat) + " matching log rows from "@
            + logs_db_path@ + ". Re-run with --yes to delete."@,
{
    let count = decimal_text(rows);
    let mut line = if yes {
        String::from_str("Deleted ")
    } else {
        String::from_str("Would delete ")
    };
    line.append(count.as_str());
    line.append(" matching log rows from ");
    line.append(logs_db_path);
    if yes {
        line.append(".");
    } else {
        line.append(". Re-run with --yes to delete.");
    }
    line
}

/// The line printed before a vacuum: that it runs, or (without `--yes`) that it
/// would.
pub fn vacuum_intro(yes: bool, logs_db_path: &str) -> (r: String)
    ensures
        yes ==> r@ == "Running VACUUM on "@ + logs_db_path@ + "."@,
        !yes ==> r@ == "Would run VACUUM on "@ + logs_db_path@
            + ". Re-run with --yes to compact the file."@,
{
    let mut line = if yes {
        String::from_str("Running VACUUM on ")
    } else {
        String::from_str("Would run VACUUM on ")
    };
    line.append(logs_db_path);
    if yes {
        line.append(".");
    } else {
        line.append(". Re-run with --yes to compact the file.");
    }
    line
}

/// The line printed after a vacuum.
pub fn vacuum_done(logs_db_path: &str) -> (r: String)
    ensures
        r@ == "Vacuumed "@ + logs_db_path@ + "."@,
{
    let mut line = String::from_str("Vacuumed ");
    line.append(logs_db_path);
    line.append(".");
    line
}

impl DebugLogsCommand {
    /// The steps the command runs once its filter is built: delete (when asked),
    /// vacuum (when asked), and print the most recent rows when neither is asked.
    pub fn steps(&self) -> (r: Vec<DebugLogsStep>)
        ensures
            r@ == steps_for(*self),
    {
        let mut steps: Vec<DebugLogsStep> = Vec::new();
        if self.delete {
            steps.push(DebugLogsStep::DeleteMatching { confirmed: self.yes });
        }
        if self.vacuum {
            steps.push(DebugLogsStep::Vacuum { confirmed: self.yes });
        }
        if !self.delete && !self.vacuum {
            steps.push(DebugLogsStep::PrintBackfill { limit: self.backfill, compact: self.compact });
        }
        assert(steps@ =~= steps_for(*self));
        steps
    }
}

impl InvalidTimestamp {
    /// The reason the value was refused.
    pub fn message(&self) -> (r: String)
        ensures
            r@ == "expected RFC3339 or unix seconds, got "@ + self.value@,
    {
        let mut m = String::from_str("expected RFC3339 or unix seconds, got ");
        m.append(self.value.as_str());
        m
    }
}

impl DebugLogsError {
    /// The message the command fails with.
    pub fn message(&self) -> (r: String)
        ensures
            self matches DebugLogsError::InvalidTimestamp { flag, .. } ==> r@ == (if flag
                == TimestampFlag::From {
                "failed to parse --from"@
            } else {
                "failed to parse --to"@
            }),
            self is ConflictingLevels ==> r@ == "--level and --level-exact cannot be used together"@,
            self is DeleteWithoutFilter ==> r@ == "--delete requires at least one filter"@,
    {
        match self {
            DebugLogsError::InvalidTimestamp { flag, .. } => match flag {
                TimestampFlag::From => String::from_str("failed to parse --from"),
                TimestampFlag::To => String::from_str("failed to parse --to"),
            },
            DebugLogsError::ConflictingLevels => String::from_str(
                "--level and --level-exact cannot be used together",
            ),
            DebugLogsError::DeleteWithoutFilter => String::from_str(
                "--delete requires at least one filter",
            ),
        }
    }
}

/// A level's threshold is the level itself followed by every more severe level,
/// in order: it holds a level's name exactly when that level is at least as severe.
pub proof fn lemma_threshold_holds_more_severe(level: DebugLogLevel, other: DebugLogLevel)
    ensures
        threshold_names(level)[0] == level_name(level),
        threshold_names(level).len() == 5 - level_rank(level),
        threshold_names(level).contains(level_name(other)) <==> level_rank(other) >= level_rank(
            level,
        ),
{
    reveal_strlit("TRACE");
    reveal_strlit("DEBUG");
    reveal_strlit("INFO");
    reveal_strlit("WARN");
    reveal_strlit("ERROR");
    let t = threshold_names(level);
    if level_rank(other) >= level_rank(level) {
        assert(t[level_rank(other) - level_rank(level)] == level_name(other));
    }
    let names = all_level_names();
    assert(names[0][0] == 'T' && names[1][0] == 'D' && names[2][0] == 'I' && names[3][0] == 'W'
        && names[4][0] == 'E');
    if t.contains(level_name(other)) {
        let j = choose|j: int| 0 <= j < t.len() && t[j] == level_name(other);
        let k = j + level_rank(level);
        assert(names[k] == names[level_rank(other)]);
        assert(names[k][0] == names[level_rank(other)][0]);
        assert(level_rank(other) == k);
    }
}

/// Deleting is refused exactly when the filter restricts nothing; a command with
/// no filtering option builds such a filter.
pub proof fn lemma_unfiltered_delete_refused(cmd: DebugLogsCommand, f: LogFilter)
    requires
        filter_selected_by(f, cmd),
        cmd.level is None,
        cmd.level_exact is None,
        cmd.from is None,
        cmd.to is None,
        cmd.target.len() == 0,
        cmd.module.len() == 0,
        cmd.file.len() == 0,
        cmd.thread_id.len() == 0,
        cmd.search is None,
        !cmd.threadless,
    ensures
        !has_any_filter(f),
{
    assert(cmd.target.deep_view() =~= Seq::<Seq<char>>::empty());
    assert(cmd.module.deep_view() =~= Seq::<Seq<char>>::empty());
    assert(cmd.file.deep_view() =~= Seq::<Seq<char>>::empty());
    assert(cmd.thread_id.deep_view() =~= Seq::<Seq<char>>::empty());
}

/// Rows are printed only when nothing is deleted or vacuumed; deleting and
/// vacuuming run only when asked for, and change the store only with `--yes`.
pub proof fn lemma_steps_follow_options(cmd: DebugLogsCommand)
    ensures
        (exists|i: int|
            0 <= i < steps_for(cmd).len() && #[trigger] steps_for(cmd)[i] is PrintBackfill) <==> (
        !cmd.delete && !cmd.vacuum),
        (exists|i: int|
            0 <= i < steps_for(cmd).len() && #[trigger] steps_for(cmd)[i] is DeleteMatching)
            <==> cmd.delete,
        (exists|i: int| 0 <= i < steps_for(cmd).len() && #[trigger] steps_for(cmd)[i] is Vacuum)
            <==> cmd.vacuum,
        forall|i: int|
            0 <= i < steps_for(cmd).len() ==> match #[trigger] steps_for(cmd)[i] {
                DebugLogsStep::DeleteMatching { confirmed } => confirmed == cmd.yes,
                DebugLogsStep::Vacuum { confirmed } => confirmed == cmd.yes,
                DebugLogsStep::PrintBackfill { limit, compact } => limit == cmd.backfill
                    && compact == cmd.compact,
            },
{
    let s = steps_for(cmd);
    if !cmd.delete && !cmd.vacuum {
        assert(s[0] is PrintBackfill);
    }
    if cmd.delete {
        assert(s[0] is DeleteMatching);
    }
    if cmd.vacuum {
        assert(s[s.len() - 1] is Vacuum);
    }
}

/// The filter that a command selects includes rows without a thread id exactly
/// when `--threadless` is given, whatever thread ids are asked for; its thread ids,
/// targets, modules and files are the given ones without the empty ones, in order;
/// an exact level selects that level alone, a minimum level the levels at least
/// as severe, and no level option no level restriction (both together are
/// refused before any filter is built).
pub proof fn lemma_filter_follows_options(f: LogFilter, cmd: DebugLogsCommand)
    requires
        filter_selected_by(f, cmd),
    ensures
        f.include_threadless == cmd.threadless,
        f.thread_ids.deep_view() == cmd.thread_id.deep_view().filter(|t: Seq<char>| t.len() > 0),
        f.target_like.deep_view() == cmd.target.deep_view().filter(|t: Seq<char>| t.len() > 0),
        f.module_like.deep_view() == cmd.module.deep_view().filter(|t: Seq<char>| t.len() > 0),
        f.file_like.deep_view() == cmd.file.deep_view().filter(|t: Seq<char>| t.len() > 0),
        cmd.level is None ==> (cmd.level_exact matches Some(l) ==> f.levels_upper.deep_view()
            == seq![level_name(l)]),
        (cmd.level_exact is None && cmd.level is None) ==> f.levels_upper.deep_view().len() == 0,
        cmd.level_exact is None ==> (cmd.level matches Some(l) ==> forall|other: DebugLogLevel|
            #[trigger] f.levels_upper.deep_view().contains(level_name(other)) <==> level_rank(other)
                >= level_rank(l)),
{
    if cmd.level_exact is None {
        if let Some(l) = cmd.level {
            assert forall|other: DebugLogLevel|
                #[trigger] f.levels_upper.deep_view().contains(level_name(other)) <==> level_rank(
                    other,
                ) >= level_rank(l) by {
                lemma_threshold_holds_more_severe(l, other);
            }
        }
    }
    lemma_non_empty_texts_filter(cmd.thread_id.deep_view());
    lemma_non_empty_texts_filter(cmd.target.deep_view());
    lemma_non_empty_texts_filter(cmd.module.deep_view());
    lemma_non_empty_texts_filter(cmd.file.deep_view());
}

proof fn lemma_non_empty_texts_filter(values: Seq<Seq<char>>)
    ensures
        non_empty_texts(values) == values.filter(|t: Seq<char>| t.len() > 0),
    decreases values.len(),
{
    reveal(Seq::filter);
    if values.len() > 0 {
        lemma_non_empty_texts_filter(values.drop_last());
    }
}


proof fn lemma_decimal_digits(n: nat)
    ensures
        decimal(n).len() >= 1,
        all_digits(decimal(n)),
        digits_value(decimal(n)) == n,
    decreases n,
{
    if n >= 10 {
        lemma_decimal_digits(n / 10);
        let d = n % 10;
        let s = decimal(n);
        assert(s.drop_last() == decimal(n / 10));
        assert(digit_char(d) as int - '0' as int == d);
        assert(s.last() == digit_char(d));
        assert(digits_value(s) == digits_value(s.drop_last()) * 10 + d);
        assert((n / 10) * 10 + d == n);
        assert forall|i: int| 0 <= i < s.len() implies is_ascii_digit(#[trigger] s[i]) by {
            if i < s.len() - 1 {
                assert(s[i] == decimal(n / 10)[i]);
            }
        }
    } else {
        assert(digit_char(n) as int - '0' as int == n);
        assert(decimal(n).drop_last() =~= Seq::<char>::empty());
        assert(decimal(n).last() == digit_char(n));
        assert(digits_value(decimal(n)) == digits_value(decimal(n).drop_last()) * 10 + n);
    }
}

/// Every `i64` written in decimal (with a `-` when negative) reads back as itself,
/// both as a number of seconds and as a timestamp option.
pub proof fn lemma_decimal_seconds_round_trip(v: i64)
    ensures
        decimal_i64(signed_decimal(v as int)) == Some(v),
        timestamp_of(signed_decimal(v as int)) == Some(v),
{
    if v < 0 {
        let digits = decimal((-v) as nat);
        lemma_decimal_digits((-v) as nat);
        let s = seq!['-'] + digits;
        assert(s.drop_first() =~= digits);
        assert(s[0] == '-');
        assert(signed_decimal(v as int) == s);
    } else {
        let digits = decimal(v as nat);
        lemma_decimal_digits(v as nat);
        assert(is_ascii_digit(digits[0]));
    }
}


} // verus!
