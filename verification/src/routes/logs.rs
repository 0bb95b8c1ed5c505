//! Following the log.
use vstd::prelude::*;

use crate::logs::{LogBuffer, LogBufferView, LogEntry};
use crate::text::list_view;

verus! {

/// How many entries one response holds at most.
pub const MAX_BATCH: usize = 1000;

pub struct LogsQuery {
    /// Give the entries from this position on; without it, the newest.
    pub after: Option<u64>,
    /// How many entries to give at most.
    pub limit: Option<usize>,
}

pub struct LogsResponse {
    pub entries: Vec<LogEntry>,
    /// The position to ask from next time.
    pub head: u64,
}

/// How many entries a query gets at most.
pub open spec fn batch_limit(asked: Option<usize>) -> usize {
    match asked {
        Some(n) if n < MAX_BATCH => n,
        _ => MAX_BATCH,
    }
}

/// The position from which a query gets entries.
pub open spec fn batch_start(buffer: LogBufferView, asked: Option<u64>, limit: usize) -> u64 {
    match asked {
        Some(after) => after,
        None => if buffer.head >= limit {
            (buffer.head - limit) as u64
        } else {
            0
        },
    }
}

/// The recent entries that a query asks for.
pub fn get_logs(buffer: &LogBuffer, q: &LogsQuery) -> (response: LogsResponse)
    ensures
        list_view(response.entries@) == buffer@.since(
            batch_start(buffer@, q.after, batch_limit(q.limit)),
            batch_limit(q.limit),
        ),
        response.head == buffer@.head,
{
    let limit: usize = match q.limit {
        Some(n) => if n < MAX_BATCH {
            n
        } else {
            MAX_BATCH
        },
        None => MAX_BATCH,
    };
    let head: u64 = buffer.head();
    let after: u64 = match q.after {
        Some(after) => after,
        None => if head >= limit as u64 {
            head - limit as u64
        } else {
            0
        },
    };
    LogsResponse { entries: buffer.since(after, limit), head }
}

/// No response holds more than its limit.
pub proof fn lemma_batches_are_bounded(buffer: LogBufferView, after: u64, asked: Option<usize>)
    ensures
        buffer.since(after, batch_limit(asked)).len() <= batch_limit(asked) <= MAX_BATCH,
{
}

} // verus!
