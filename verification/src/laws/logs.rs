//! Following the log.
use vstd::prelude::*;

use crate::laws::text::{all_are, number};
use crate::logs::{
    clock, gathered, lemma_since_is_a_tail, FieldValueView, LogBufferView, LogEntryView,
    LogFieldView, MessageVisitorView,
};
use crate::routes::logs::{batch_limit, batch_start};
use crate::text::{has_prefix, trimmed_end, trimmed_start};

verus! {

/// A new entry has the next position and stands behind all that are kept. While there are fewer
/// than five thousand, all are; then the oldest goes.
pub proof fn lemma_entries_are_kept(
    buffer: LogBufferView,
    timestamp: Seq<char>,
    level: Seq<char>,
    target: Seq<char>,
    message: Seq<char>,
)
    requires
        buffer.wf(),
        buffer.head < u64::MAX,
    ensures
        ({
            let after = buffer.pushed(timestamp, level, target, message);
            let entry = LogEntryView { seq: buffer.head, timestamp, level, target, message };
            &&& after.head == buffer.head + 1
            &&& buffer.entries.len() < 5000 ==> after.entries == buffer.entries.push(entry)
            &&& buffer.entries.len() == 5000 ==> after.entries == buffer.entries.skip(1).push(entry)
            &&& buffer.entries.len() <= 5000
        }),
{
}

/// One who asks from a position on gets the entries that the buffer holds from there on, the very
/// ones and in order; where these are more than the limit, the newest of them.
pub proof fn lemma_followers_get_the_newest(buffer: LogBufferView, after: u64, limit: usize, i: int)
    requires
        buffer.wf(),
        buffer.head - buffer.entries.len() <= after <= buffer.head,
        0 <= i,
    ensures
        ({
            let there = buffer.head - after;
            let given = buffer.since(after, limit);
            let n = if there <= limit as int {
                there
            } else {
                limit as int
            };
            &&& given.len() == n
            &&& i < n ==> given[i] == buffer.entries[buffer.entries.len() - n + i]
        }),
{
    lemma_since_is_a_tail(buffer, after);
}

/// One who asks from before the oldest entry gets the same as from it.
pub proof fn lemma_followers_start_at_the_oldest(buffer: LogBufferView, after: u64, limit: usize)
    requires
        buffer.wf(),
        after <= buffer.head - buffer.entries.len(),
    ensures
        buffer.since(after, limit) == buffer.since(
            (buffer.head - buffer.entries.len()) as u64,
            limit,
        ),
{
    let oldest = (buffer.head - buffer.entries.len()) as u64;
    lemma_all_are_kept(buffer.entries, after);
    lemma_all_are_kept(buffer.entries, oldest);
}

proof fn lemma_all_are_kept(entries: Seq<LogEntryView>, after: u64)
    requires
        forall|i: int| 0 <= i < entries.len() ==> (#[trigger] entries[i]).seq >= after,
    ensures
        entries.filter(crate::logs::from_position(after)) == entries,
    decreases entries.len(),
{
    reveal(Seq::filter);
    if entries.len() > 0 {
        let front = entries.drop_last();
        assert forall|i: int| 0 <= i < front.len() implies (#[trigger] front[i]).seq >= after by {
            assert(front[i] == entries[i]);
        }
        lemma_all_are_kept(front, after);
        assert(front.push(entries.last()) =~= entries);
        assert(entries[entries.len() - 1].seq >= after);
    } else {
        assert(entries.filter(crate::logs::from_position(after)) =~= entries);
    }
}

/// A response holds what is asked for, but never more than a thousand entries; without a position
/// it holds the newest.
pub proof fn lemma_batches(buffer: LogBufferView, asked: usize, after: u64, limit: usize)
    ensures
        batch_limit(Some(asked)) == if asked < 1000 {
            asked
        } else {
            1000
        },
        batch_limit(None) == 1000,
        batch_start(buffer, Some(after), limit) == after,
        batch_start(buffer, None, limit) == if buffer.head >= limit {
            buffer.head - limit
        } else {
            0
        },
{
}

/// The message of an event is its own text, and each further field by name and value behind a blank;
/// the bridge's target takes the place of the event's, and its other fields do not show.
pub proof fn lemma_fields_make_the_message(
    fields: Seq<LogFieldView>,
    name: Seq<char>,
    value: FieldValueView,
)
    ensures
        ({
            let before = gathered(fields);
            let after = gathered(fields.push(LogFieldView { name, value }));
            let text = match value {
                FieldValueView::Str(t) => t,
                FieldValueView::Debug(t) => t,
            };
            if name == "message"@ {
                after == MessageVisitorView { message: before.message + text, ..before }
            } else if name == "log.target"@ {
                after == MessageVisitorView {
                    log_target: Some(
                        match value {
                            FieldValueView::Str(t) => t,
                            FieldValueView::Debug(t) => trimmed_end(trimmed_start(t, '"'), '"'),
                        },
                    ),
                    ..before
                }
            } else if has_prefix(name, "log."@) {
                after == before
            } else {
                after == MessageVisitorView {
                    message: if before.message.len() == 0 {
                        name + "="@ + text
                    } else {
                        before.message + " "@ + name + "="@ + text
                    },
                    ..before
                }
            }
        }),
        gathered(Seq::empty()) == (MessageVisitorView { message: Seq::empty(), log_target: None }),
{
    let field = LogFieldView { name, value };
    assert(fields.push(field).drop_last() =~= fields);
    assert(fields.push(field).last() == field);
}

/// The time of day stands as hours, minutes and seconds of two digits each, with colons between
/// them, and is that of the seconds since the start of a day.
pub proof fn lemma_the_time_of_day(secs: nat)
    ensures
        ({
            let t = clock(secs);
            let h = number(t.subrange(0, 2));
            let m = number(t.subrange(3, 5));
            let s = number(t.subrange(6, 8));
            &&& t.len() == 8
            &&& t[2] == ':' && t[5] == ':'
            &&& 0 <= h < 24 && 0 <= m < 60 && 0 <= s < 60
            &&& h * 3600 + m * 60 + s == secs % 86400
        }),
{
    reveal_strlit(":");
    let s = secs % 86400;
    let t = clock(secs);
    let hh = crate::text::two_digits(s / 3600);
    let mm = crate::text::two_digits((s % 3600) / 60);
    let ss = crate::text::two_digits(s % 60);
    assert(t.subrange(0, 2) =~= hh);
    assert(t.subrange(3, 5) =~= mm);
    assert(t.subrange(6, 8) =~= ss);
    crate::laws::text::lemma_two_digits(s / 3600);
    crate::laws::text::lemma_two_digits((s % 3600) / 60);
    crate::laws::text::lemma_two_digits(s % 60);
    assert((s % 3600) % 60 == s % 60);
}

} // verus!
