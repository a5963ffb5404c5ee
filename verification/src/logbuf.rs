use vstd::prelude::*;
use std::collections::VecDeque;

verus! {

/// One line captured from the supervised process.
///
/// Entries are immutable once stored; the message has already been
/// sanitized and trimmed when the entry is built.
#[derive(Debug)]
pub struct LogEntry {
    pub timestamp: String,
    pub level: String,
    pub message: String,
}

impl Clone for LogEntry {
    fn clone(&self) -> (r: Self)
        ensures
            r == *self,
    {
        LogEntry {
            timestamp: self.timestamp.clone(),
            level: self.level.clone(),
            message: self.message.clone(),
        }
    }
}

/// The log buffer never holds more lines than this.
pub const MAX_LOG_ENTRIES: usize = 1000;

/// The buffer after one entry is appended at the newest end and the oldest
/// entries are evicted until the capacity bound holds again.
pub open spec fn push_evict(logs: Seq<LogEntry>, e: LogEntry) -> Seq<LogEntry> {
    let t = logs.push(e);
    if t.len() > MAX_LOG_ENTRIES as int {
        t.skip(t.len() - MAX_LOG_ENTRIES as int)
    } else {
        t
    }
}

/// An append never grows the buffer beyond its capacity.
pub proof fn lemma_append_bounded(logs: Seq<LogEntry>, e: LogEntry)
    requires
        logs.len() <= MAX_LOG_ENTRIES as int,
    ensures
        push_evict(logs, e).len() <= MAX_LOG_ENTRIES as int,
{
}

/// An append to a full buffer evicts exactly the single oldest entry.
pub proof fn lemma_append_evicts_oldest(logs: Seq<LogEntry>, e: LogEntry)
    requires
        logs.len() == MAX_LOG_ENTRIES as int,
    ensures
        push_evict(logs, e) == logs.skip(1).push(e),
{
    assert(push_evict(logs, e) =~= logs.skip(1).push(e));
}

/// An append to a buffer below capacity evicts nothing.
pub proof fn lemma_append_keeps_all(logs: Seq<LogEntry>, e: LogEntry)
    requires
        logs.len() < MAX_LOG_ENTRIES as int,
    ensures
        push_evict(logs, e) == logs.push(e),
{
}

/// Appends the entry, evicting from the oldest end while over capacity.
pub fn push_log(logs: &mut VecDeque<LogEntry>, e: LogEntry)
    requires
        old(logs)@.len() <= MAX_LOG_ENTRIES as int,
    ensures
        final(logs)@ == push_evict(old(logs)@, e),
        final(logs)@.len() <= MAX_LOG_ENTRIES as int,
{
    let ghost t = old(logs)@.push(e);
    logs.push_back(e);
    while logs.len() > MAX_LOG_ENTRIES
        invariant
            t.len() <= MAX_LOG_ENTRIES + 1,
            logs@.len() <= t.len(),
            logs@ == t.skip(t.len() - logs@.len()),
            logs@.len() >= MAX_LOG_ENTRIES || logs@ == t,
        decreases logs@.len(),
    {
        let ghost before = logs@;
        logs.pop_front();
        assert(logs@ =~= t.skip(t.len() - logs@.len()));
    }
    assert(final(logs)@ =~= push_evict(old(logs)@, e));
}

} // verus!
