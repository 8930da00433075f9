//! Progress of a long byte-moving operation, with its throughput.
use vstd::prelude::*;

verus! {

/// A progress tracker: counts bytes, and reports whenever the count crosses
/// a multiple of the reporting interval. Times are milliseconds on a
/// monotonic clock, handed in by the caller.
pub struct ProgressTracker {
    pub operation_name: String,
    pub module_name: String,
    pub total_bytes: u64,
    pub processed_bytes: u64,
    pub start_ms: u64,
    pub last_log_ms: u64,
    pub last_log_bytes: u64,
    pub log_interval_bytes: u64,
}

/// A report of progress since the previous one.
#[derive(Clone, Copy, Debug, PartialEq, Eq, Structural)]
pub struct ProgressUpdate {
    pub current_bytes: u64,
    pub total_bytes: u64,
    /// Whole percent done; 0 when the total is unknown.
    pub percent: u64,
    /// Bytes per second since the previous report; 0 when no time passed.
    pub speed_bytes_per_sec: u64,
}

/// The summary of a finished operation.
#[derive(Clone, Copy, Debug, PartialEq, Eq, Structural)]
pub struct ProgressSummary {
    pub total_bytes: u64,
    pub elapsed_ms: u64,
    /// Bytes per second over the whole operation; 0 when no time passed.
    pub avg_bytes_per_sec: u64,
}

pub open spec fn elapsed(from: u64, to: u64) -> nat {
    if to >= from {
        (to - from) as nat
    } else {
        0
    }
}

pub open spec fn rate(bytes: nat, ms: nat) -> nat {
    if ms == 0 {
        0
    } else {
        bytes * 1000 / ms
    }
}

/// Whole percent of `total` that `done` is, capped at the largest `u64`;
/// 0 when the total is unknown.
pub open spec fn percent_of(done: nat, total: nat) -> nat {
    if total == 0 {
        0
    } else if done * 100 / total > u64::MAX {
        u64::MAX as nat
    } else {
        done * 100 / total
    }
}

fn percent(done: u64, total: u64) -> (r: u64)
    ensures
        r as nat == percent_of(done as nat, total as nat),
{
    if total == 0 {
        return 0;
    }
    let q = (done as u128) * 100 / (total as u128);
    if q > u64::MAX as u128 {
        u64::MAX
    } else {
        q as u64
    }
}

fn rate_of(bytes: u64, ms: u64) -> (r: u64)
    ensures
        r as nat == if rate(bytes as nat, ms as nat) > u64::MAX {
            u64::MAX as nat
        } else {
            rate(bytes as nat, ms as nat)
        },
{
    if ms == 0 {
        return 0;
    }
    let q = (bytes as u128) * 1000 / (ms as u128);
    if q > u64::MAX as u128 {
        u64::MAX
    } else {
        q as u64
    }
}

impl ProgressTracker {
    /// A tracker for `total_bytes` (0 when unknown) that reports every
    /// `log_interval_mb` megabytes, started at `now_ms`.
    pub fn new(operation: &str, module: &str, total_bytes: u64, log_interval_mb: u64, now_ms: u64) -> (r: ProgressTracker)
        requires
            log_interval_mb <= u64::MAX / 1048576,
        ensures
            r.operation_name@ == operation@,
            r.module_name@ == module@,
            r.total_bytes == total_bytes,
            r.processed_bytes == 0,
            r.start_ms == now_ms && r.last_log_ms == now_ms,
            r.last_log_bytes == 0,
            r.log_interval_bytes == log_interval_mb * 1048576,
    {
        ProgressTracker {
            operation_name: String::from_str(operation),
            module_name: String::from_str(module),
            total_bytes,
            processed_bytes: 0,
            start_ms: now_ms,
            last_log_ms: now_ms,
            last_log_bytes: 0,
            log_interval_bytes: log_interval_mb * 1048576,
        }
    }

    /// Counts `bytes_added` more bytes at `now_ms`. Reports when the count has
    /// crossed into a new multiple of the interval since the last report,
    /// with the speed over the time since that report.
    pub fn update(&mut self, bytes_added: u64, now_ms: u64) -> (r: Option<ProgressUpdate>)
        requires
            old(self).processed_bytes + bytes_added <= u64::MAX,
            old(self).last_log_bytes <= old(self).processed_bytes,
        ensures
            final(self).processed_bytes == old(self).processed_bytes + bytes_added,
            final(self).last_log_bytes <= final(self).processed_bytes,
            final(self).total_bytes == old(self).total_bytes,
            final(self).log_interval_bytes == old(self).log_interval_bytes,
            final(self).start_ms == old(self).start_ms,
            final(self).operation_name == old(self).operation_name,
            final(self).module_name == old(self).module_name,
            ({
                let p = final(self).processed_bytes;
                let i = old(self).log_interval_bytes;
                let due = i > 0 && p / i > old(self).last_log_bytes / i;
                &&& r is Some <==> due
                &&& due ==> final(self).last_log_bytes == p && final(self).last_log_ms == now_ms
                &&& !due ==> final(self).last_log_bytes == old(self).last_log_bytes
                    && final(self).last_log_ms == old(self).last_log_ms
                &&& r matches Some(u) ==> {
                    &&& u.current_bytes == p
                    &&& u.total_bytes == old(self).total_bytes
                    &&& u.percent == percent_of(p as nat, old(self).total_bytes as nat)
                    &&& u.speed_bytes_per_sec as nat == if rate(
                        (p - old(self).last_log_bytes) as nat,
                        elapsed(old(self).last_log_ms, now_ms),
                    ) > u64::MAX {
                        u64::MAX as nat
                    } else {
                        rate(
                            (p - old(self).last_log_bytes) as nat,
                            elapsed(old(self).last_log_ms, now_ms),
                        )
                    }
                }
            }),
    {
        self.processed_bytes = self.processed_bytes + bytes_added;
        if self.log_interval_bytes == 0 {
            return None;
        }
        let current = self.processed_bytes / self.log_interval_bytes;
        let last = self.last_log_bytes / self.log_interval_bytes;
        if current > last {
            let ms = if now_ms >= self.last_log_ms {
                now_ms - self.last_log_ms
            } else {
                0
            };
            let since = self.processed_bytes - self.last_log_bytes;
            let speed = rate_of(since, ms);
            let percent = percent(self.processed_bytes, self.total_bytes);
            self.last_log_ms = now_ms;
            self.last_log_bytes = self.processed_bytes;
            Some(
                ProgressUpdate {
                    current_bytes: self.processed_bytes,
                    total_bytes: self.total_bytes,
                    percent,
                    speed_bytes_per_sec: speed,
                },
            )
        } else {
            None
        }
    }

    /// The summary at `now_ms`: bytes counted, time since the start, and the
    /// average speed.
    pub fn finish(&self, now_ms: u64) -> (r: ProgressSummary)
        ensures
            r.total_bytes == self.processed_bytes,
            r.elapsed_ms == elapsed(self.start_ms, now_ms),
            r.avg_bytes_per_sec as nat == if rate(self.processed_bytes as nat, r.elapsed_ms as nat)
                > u64::MAX {
                u64::MAX as nat
            } else {
                rate(self.processed_bytes as nat, r.elapsed_ms as nat)
            },
    {
        let ms = if now_ms >= self.start_ms {
            now_ms - self.start_ms
        } else {
            0
        };
        ProgressSummary {
            total_bytes: self.processed_bytes,
            elapsed_ms: ms,
            avg_bytes_per_sec: rate_of(self.processed_bytes, ms),
        }
    }
}

} // verus!
