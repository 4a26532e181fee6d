//! The rotating TUI log: when the log file is rotated into its backup, how much
//! of it the backup keeps, and which bytes of a write reach the file. The file
//! operations themselves are performed by the caller, step by step, as these
//! functions decide.
use vstd::prelude::*;

verus! {

/// The name of the TUI log file.
pub const TUI_LOG_FILE_NAME: &'static str = "codex-tui.log";

/// The name of the backup that a rotation writes.
pub const TUI_LOG_BACKUP_FILE_NAME: &'static str = "codex-tui.log.1";

/// The size above which the TUI log is rotated: 10 MiB.
pub const TUI_LOG_MAX_BYTES: u64 = 10485760;

/// The bookkeeping of a rotating log: the bytes the log file holds and its limit.
pub struct RotatingLogWriter {
    pub current_len: u64,
    pub max_bytes: u64,
}

/// What a write does: rotate first or not, then write the bytes of the buffer
/// from `skip` on.
#[derive(Clone, Copy, Debug, PartialEq, Eq, Structural)]
pub struct WritePlan {
    pub rotate_first: bool,
    pub skip: usize,
}

/// A number of bytes as a `u64`, saturating (as `u64::try_from(..).unwrap_or(u64::MAX)`).
pub open spec fn len_u64(n: nat) -> int {
    if n <= u64::MAX {
        n as int
    } else {
        u64::MAX as int
    }
}

/// Saturating addition of `u64` values.
pub open spec fn sat_add(a: int, b: int) -> int {
    if a + b <= u64::MAX {
        a + b
    } else {
        u64::MAX as int
    }
}

/// The limit as a `usize`, saturating (as `usize::try_from(..).unwrap_or(usize::MAX)`).
pub open spec fn max_as_usize(max_bytes: u64) -> int {
    if max_bytes <= usize::MAX {
        max_bytes as int
    } else {
        usize::MAX as int
    }
}

/// Whether a write of `buf_len` bytes rotates the log first: when the log would
/// grow past its limit.
pub open spec fn rotates_before_write(current_len: u64, max_bytes: u64, buf_len: nat) -> bool {
    sat_add(current_len as int, len_u64(buf_len)) > max_bytes
}

/// The bytes of the buffer skipped: all but the last `max_bytes` when the buffer
/// is longer than the limit.
pub open spec fn skipped_bytes(max_bytes: u64, buf_len: nat) -> int {
    if buf_len > max_as_usize(max_bytes) {
        buf_len - max_as_usize(max_bytes)
    } else {
        0
    }
}

/// The bytes the log file holds after a write of `buf_len` bytes.
pub open spec fn len_after_write(current_len: u64, max_bytes: u64, buf_len: nat) -> int {
    let base: int = if rotates_before_write(current_len, max_bytes, buf_len) {
        0
    } else {
        current_len as int
    };
    sat_add(base, len_u64((buf_len - skipped_bytes(max_bytes, buf_len)) as nat))
}

/// Whether the log found at startup is rotated before it is opened: when it exists
/// and holds more than the limit.
pub open spec fn rotates_at_startup(existing_len: Option<u64>, max_bytes: u64) -> bool {
    match existing_len {
        Some(len) => len > max_bytes,
        None => false,
    }
}

impl RotatingLogWriter {
    /// A writer for a log file that holds `current_len` bytes (zero when it is new).
    pub fn new(current_len: u64, max_bytes: u64) -> (r: Self)
        ensures
            r.current_len == current_len,
            r.max_bytes == max_bytes,
    {
        RotatingLogWriter { current_len, max_bytes }
    }

    /// What a write of `buf_len` bytes does.
    pub fn plan_write(&self, buf_len: usize) -> (plan: WritePlan)
        ensures
            plan.rotate_first == rotates_before_write(self.current_len, self.max_bytes, buf_len as nat),
            plan.skip == skipped_bytes(self.max_bytes, buf_len as nat),
            plan.skip <= buf_len,
    {
        let incoming_len: u64 = if (buf_len as u128) <= (u64::MAX as u128) {
            buf_len as u64
        } else {
            u64::MAX
        };
        let total: u64 = self.current_len.saturating_add(incoming_len);
        let rotate_first = total > self.max_bytes;
        let max_bytes: usize = if (self.max_bytes as u128) <= (usize::MAX as u128) {
            self.max_bytes as usize
        } else {
            usize::MAX
        };
        let skip: usize = if buf_len > max_bytes {
            buf_len - max_bytes
        } else {
            0
        };
        WritePlan { rotate_first, skip }
    }

    /// Records that the log was rotated: the log file is empty again.
    pub fn rotated(&mut self)
        ensures
            final(self).current_len == 0,
            final(self).max_bytes == old(self).max_bytes,
    {
        self.current_len = 0;
    }

    /// Records that `written` bytes were appended to the log file.
    pub fn wrote(&mut self, written: usize)
        ensures
            final(self).current_len == sat_add(old(self).current_len as int, len_u64(written as nat)),
            final(self).max_bytes == old(self).max_bytes,
    {
        let n: u64 = if (written as u128) <= (u64::MAX as u128) {
            written as u64
        } else {
            u64::MAX
        };
        self.current_len = self.current_len.saturating_add(n);
    }
}

/// Whether the log found at startup is rotated before it is opened.
pub fn rotate_oversized_log(existing_len: Option<u64>, max_bytes: u64) -> (r: bool)
    ensures
        r == rotates_at_startup(existing_len, max_bytes),
{
    match existing_len {
        Some(len) => len > max_bytes,
        None => false,
    }
}

/// How a rotation copies the log into its backup: it keeps the last
/// `min(max_bytes, log_len)` bytes, reading them from that many bytes before the
/// end (as far back as an `i64` offset reaches).
pub fn rotate_log(max_bytes: u64, log_len: u64) -> (r: (u64, i64))
    ensures
        r.0 as int == if max_bytes <= log_len {
            max_bytes as int
        } else {
            log_len as int
        },
        r.1 as int == if r.0 <= i64::MAX {
            r.0 as int
        } else {
            i64::MAX as int
        },
{
    let keep_bytes = if max_bytes <= log_len {
        max_bytes
    } else {
        log_len
    };
    let seek_offset: i64 = if keep_bytes <= (i64::MAX as u64) {
        keep_bytes as i64
    } else {
        i64::MAX
    };
    (keep_bytes, seek_offset)
}

/// After any write the log file holds at most its limit: either the write fit, or
/// the log was rotated and at most the last `max_bytes` bytes of the buffer were
/// written.
pub proof fn lemma_write_keeps_log_within_limit(current_len: u64, max_bytes: u64, buf_len: nat)
    requires
        buf_len <= usize::MAX,
    ensures
        len_after_write(current_len, max_bytes, buf_len) <= max_bytes,
{
}

/// A write never writes more than the limit, and what it writes is the end of the
/// buffer: the whole buffer when it fits the limit.
pub proof fn lemma_write_keeps_tail(max_bytes: u64, buf_len: nat)
    requires
        buf_len <= usize::MAX,
    ensures
        0 <= skipped_bytes(max_bytes, buf_len) <= buf_len,
        buf_len - skipped_bytes(max_bytes, buf_len) <= max_bytes,
        buf_len <= max_bytes ==> skipped_bytes(max_bytes, buf_len) == 0,
{
}

/// The bytes of a buffer that a write appends to the log: all but the skipped ones.
pub open spec fn written_tail(max_bytes: u64, buf: Seq<u8>) -> Seq<u8> {
    buf.subrange(skipped_bytes(max_bytes, buf.len()), buf.len() as int)
}

/// The log file after a write performed as the writer plans it: emptied by a
/// rotation first when the log would grow past its limit, then the written bytes
/// appended.
pub open spec fn log_after_write(log: Seq<u8>, max_bytes: u64, buf: Seq<u8>) -> Seq<u8> {
    if rotates_before_write(log.len() as u64, max_bytes, buf.len()) {
        written_tail(max_bytes, buf)
    } else {
        log + written_tail(max_bytes, buf)
    }
}

/// The backup file after a write performed as the writer plans it: a rotation
/// copies the last `min(max_bytes, log length)` bytes of the log into it; without
/// a rotation it is not touched.
pub open spec fn backup_after_write(log: Seq<u8>, max_bytes: u64, buf: Seq<u8>) -> Option<Seq<u8>> {
    if rotates_before_write(log.len() as u64, max_bytes, buf.len()) {
        let keep: int = if max_bytes <= log.len() {
            max_bytes as int
        } else {
            log.len() as int
        };
        Some(log.subrange(log.len() - keep, log.len() as int))
    } else {
        None
    }
}

/// A write to a log that holds at most its limit: when the buffer fits, the log
/// becomes the old log followed by the whole buffer and no backup is written;
/// otherwise the backup holds the whole old log and the log the last
/// `min(buffer length, limit)` bytes of the buffer. Either way the log holds
/// exactly the bytes the writer counts, which is at most its limit. (With a limit
/// of `u64::MAX` the writer's count saturates, so the law asks that the log and
/// the buffer together fit in a `u64` there.)
pub proof fn lemma_write_log_contents(log: Seq<u8>, max_bytes: u64, buf: Seq<u8>)
    requires
        log.len() <= max_bytes,
        buf.len() <= usize::MAX,
        max_bytes < u64::MAX || log.len() + buf.len() <= u64::MAX,
    ensures
        log_after_write(log, max_bytes, buf).len() == len_after_write(
            log.len() as u64,
            max_bytes,
            buf.len(),
        ),
        log_after_write(log, max_bytes, buf).len() <= max_bytes,
        !rotates_before_write(log.len() as u64, max_bytes, buf.len()) ==> log_after_write(
            log,
            max_bytes,
            buf,
        ) == log + buf && backup_after_write(log, max_bytes, buf) is None,
        rotates_before_write(log.len() as u64, max_bytes, buf.len()) ==> backup_after_write(
            log,
            max_bytes,
            buf,
        ) == Some(log) && log_after_write(log, max_bytes, buf) == buf.subrange(
            buf.len() - (if buf.len() <= max_bytes {
                buf.len() as int
            } else {
                max_bytes as int
            }),
            buf.len() as int,
        ),
{
    let current = log.len() as u64;
    assert(current == log.len());
    let skip = skipped_bytes(max_bytes, buf.len());
    assert(0 <= skip <= buf.len());
    assert(buf.len() - skip <= max_bytes);
    assert(written_tail(max_bytes, buf).len() == buf.len() - skip);
    if rotates_before_write(current, max_bytes, buf.len()) {
        assert(log.subrange(0, log.len() as int) =~= log);
    } else {
        assert(current + buf.len() <= max_bytes);
        assert(buf.subrange(0, buf.len() as int) =~= buf);
    }
}

} // verus!
