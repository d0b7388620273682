//! Ring log of the latest faults.

use crate::bounded::{new_log, slice_of, take_at, try_push, Items};
use vstd::prelude::*;

verus! {

/// One log entry.
#[derive(Clone, Copy, Debug, PartialEq, Eq, Structural)]
pub struct LogEntry {
    /// Seconds since start-up.
    pub timestamp_s: u32,
    /// 0 information, 1 warning, 2 error, 3 critical.
    pub level: u8,
    pub module_id: u8,
    pub code: u16,
    pub context: u32,
}

impl LogEntry {
    pub fn empty() -> (r: Self)
        ensures
            r == (LogEntry { timestamp_s: 0, level: 0, module_id: 0, code: 0, context: 0 }),
    {
        LogEntry { timestamp_s: 0, level: 0, module_id: 0, code: 0, context: 0 }
    }
}

/// Entries that the log holds.
pub const LOG_CAPACITY: usize = 100;

/// The latest entries, oldest first.
pub struct RingLog {
    entries: heapless::Vec<LogEntry, 100>,
    write_count: u32,
}

/// The log as plain values.
#[verifier::ext_equal]
pub struct RingLogView {
    pub entries: Seq<LogEntry>,
    pub write_count: u32,
}

impl View for RingLog {
    type V = RingLogView;

    closed spec fn view(&self) -> RingLogView {
        RingLogView { entries: self.entries.items(), write_count: self.write_count }
    }
}

/// The log with an entry added; a full log loses its oldest one.
pub open spec fn recorded(l: RingLogView, e: LogEntry) -> RingLogView {
    RingLogView {
        entries: if l.entries.len() < LOG_CAPACITY {
            l.entries.push(e)
        } else {
            l.entries.drop_first().push(e)
        },
        write_count: l.write_count.wrapping_add(1),
    }
}

impl RingLog {
    pub fn new() -> (r: Self)
        ensures
            r@ == (RingLogView { entries: Seq::empty(), write_count: 0 }),
    {
        RingLog { entries: new_log(), write_count: 0 }
    }

    /// Adds an entry at a time (s since start-up).
    pub fn record(&mut self, level: u8, module_id: u8, code: u16, context: u32, now_s: u32)
        ensures
            final(self)@ == recorded(
                old(self)@,
                LogEntry { timestamp_s: now_s, level, module_id, code, context },
            ),
            final(self)@.entries.len() <= LOG_CAPACITY,
    {
        let entry = LogEntry { timestamp_s: now_s, level, module_id, code, context };
        let full: bool = slice_of(&self.entries).len() >= LOG_CAPACITY;
        if full {
            let _oldest = take_at(&mut self.entries, 0);
            assert(self.entries.items() =~= old(self).entries.items().drop_first());
        }
        let _ = try_push(&mut self.entries, entry);
        self.write_count = self.write_count.wrapping_add(1);
    }

    /// The entries, oldest first.
    pub fn entries(&self) -> (r: &[LogEntry])
        ensures
            r@ == self@.entries,
            r@.len() <= LOG_CAPACITY,
    {
        slice_of(&self.entries)
    }

    /// Number of entries.
    pub fn len(&self) -> (r: usize)
        ensures
            r == self@.entries.len(),
            r <= LOG_CAPACITY,
    {
        slice_of(&self.entries).len()
    }

    /// Number of entries ever added, modulo 2^32.
    pub fn write_count(&self) -> (r: u32)
        ensures
            r == self@.write_count,
    {
        self.write_count
    }
}

impl Default for RingLog {
    fn default() -> (r: Self)
        ensures
            r@ == (RingLogView { entries: Seq::empty(), write_count: 0 }),
    {
        RingLog::new()
    }
}

/// The log and the count that is published for quick polling.
pub struct LogState {
    pub ring: RingLog,
    pub published_count: u32,
}

/// The log state as plain values.
#[verifier::ext_equal]
pub struct LogView {
    pub ring: RingLogView,
    pub published_count: u32,
}

impl View for LogState {
    type V = LogView;

    open spec fn view(&self) -> LogView {
        LogView { ring: self.ring@, published_count: self.published_count }
    }
}

impl LogState {
    pub fn new() -> (r: Self)
        ensures
            r@ == (LogView {
                ring: RingLogView { entries: Seq::empty(), write_count: 0 },
                published_count: 0,
            }),
    {
        LogState { ring: RingLog::new(), published_count: 0 }
    }
}

/// The log state after an entry of the given level.
pub open spec fn logged(
    l: LogView,
    level: u8,
    module_id: u8,
    code: u16,
    context: u32,
    now_s: u32,
) -> LogView {
    let ring = recorded(l.ring, LogEntry { timestamp_s: now_s, level, module_id, code, context });
    LogView { ring, published_count: ring.write_count }
}

fn log_at(log: &mut LogState, level: u8, module_id: u8, code: u16, context: u32, now_s: u32)
    ensures
        final(log)@ == logged(old(log)@, level, module_id, code, context, now_s),
{
    log.ring.record(level, module_id, code, context, now_s);
    log.published_count = log.ring.write_count();
}

/// Logs an error.
pub fn log_error(log: &mut LogState, module_id: u8, code: u16, context: u32, now_s: u32)
    ensures
        final(log)@ == logged(old(log)@, 2, module_id, code, context, now_s),
{
    log_at(log, 2, module_id, code, context, now_s);
}

/// Logs a warning.
pub fn log_warn(log: &mut LogState, module_id: u8, code: u16, context: u32, now_s: u32)
    ensures
        final(log)@ == logged(old(log)@, 1, module_id, code, context, now_s),
{
    log_at(log, 1, module_id, code, context, now_s);
}

/// Logs a critical error.
pub fn log_critical(log: &mut LogState, module_id: u8, code: u16, context: u32, now_s: u32)
    ensures
        final(log)@ == logged(old(log)@, 3, module_id, code, context, now_s),
{
    log_at(log, 3, module_id, code, context, now_s);
}

// ---- Laws ----

/// A log after the first `n` of some entries were added.
pub open spec fn all_recorded(l: RingLogView, all: Seq<LogEntry>, n: nat) -> RingLogView
    decreases n,
{
    if n == 0 {
        l
    } else {
        recorded(all_recorded(l, all, (n - 1) as nat), all[n - 1])
    }
}

/// The latest of some entries, as many as the log holds.
pub open spec fn latest(all: Seq<LogEntry>) -> Seq<LogEntry> {
    if all.len() <= LOG_CAPACITY {
        all
    } else {
        all.skip(all.len() - LOG_CAPACITY)
    }
}

proof fn lemma_latest(all: Seq<LogEntry>, n: nat)
    requires
        n <= all.len(),
    ensures
        all_recorded(RingLogView { entries: Seq::empty(), write_count: 0 }, all, n).entries == latest(
            all.take(n as int),
        ),
    decreases n,
{
    if n > 0 {
        lemma_latest(all, (n - 1) as nat);
        let before = all.take(n - 1);
        assert(all.take(n as int) =~= before.push(all[n - 1]));
        if n - 1 < LOG_CAPACITY {
            assert(latest(before).push(all[n - 1]) =~= latest(all.take(n as int)));
        } else {
            assert(latest(before).drop_first().push(all[n - 1]) =~= latest(all.take(n as int)));
        }
    } else {
        assert(all.take(0) =~= Seq::empty());
    }
}

/// The log always holds the latest entries in the order in which they were added.
pub proof fn law_log_holds_the_latest(all: Seq<LogEntry>)
    ensures
        all_recorded(RingLogView { entries: Seq::empty(), write_count: 0 }, all, all.len()).entries == latest(all),
{
    lemma_latest(all, all.len());
    assert(all.take(all.len() as int) =~= all);
}

} // verus!
