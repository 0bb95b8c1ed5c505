//! Recent log entries, kept in memory.
//!
//! Every event is mirrored into a bounded buffer, so that what would otherwise be
//! seen on a terminal only can be followed from elsewhere.
use std::collections::VecDeque;
use vstd::prelude::*;

use crate::text::{
    has_prefix, list_view, opt_view, starts_with, text_eq, trim_end_matches, trim_start_matches,
    trimmed_end, trimmed_start, two_digit_text, two_digits,
};

verus! {

/// How many entries are kept. Older ones are dropped.
pub const CAPACITY: usize = 5000;

/// A log entry.
pub struct LogEntry {
    /// The position of the entry among all that there ever were: a cursor for those
    /// who follow the log.
    pub seq: u64,
    pub timestamp: String,
    pub level: String,
    pub target: String,
    pub message: String,
}

pub ghost struct LogEntryView {
    pub seq: u64,
    pub timestamp: Seq<char>,
    pub level: Seq<char>,
    pub target: Seq<char>,
    pub message: Seq<char>,
}

impl View for LogEntry {
    type V = LogEntryView;

    open spec fn view(&self) -> LogEntryView {
        LogEntryView {
            seq: self.seq,
            timestamp: self.timestamp@,
            level: self.level@,
            target: self.target@,
            message: self.message@,
        }
    }
}

impl LogEntry {
    fn copy(&self) -> (copy: LogEntry)
        ensures
            copy@ == self@,
    {
        LogEntry {
            seq: self.seq,
            timestamp: self.timestamp.clone(),
            level: self.level.clone(),
            target: self.target.clone(),
            message: self.message.clone(),
        }
    }
}

/// A bounded buffer of recent entries.
pub struct LogBuffer {
    entries: VecDeque<LogEntry>,
    next_seq: u64,
}

/// What a buffer holds, and the position of the next entry.
pub ghost struct LogBufferView {
    pub entries: Seq<LogEntryView>,
    pub head: u64,
}

impl View for LogBuffer {
    type V = LogBufferView;

    closed spec fn view(&self) -> LogBufferView {
        LogBufferView { entries: list_view(self.entries@), head: self.next_seq }
    }
}

impl LogBufferView {
    /// The buffer holds the newest entries, in the order of their positions and
    /// without a gap, and no more than its capacity; as long as it is not full, it
    /// holds all.
    pub open spec fn wf(self) -> bool {
        &&& self.entries.len() <= CAPACITY
        &&& self.entries.len() <= self.head
        &&& self.entries.len() < CAPACITY ==> self.entries.len() == self.head
        &&& forall|i: int|
            0 <= i < self.entries.len() ==> (#[trigger] self.entries[i]).seq == self.head
                - self.entries.len() + i
    }

    /// The buffer with one entry more: where it is full, the oldest goes.
    pub open spec fn pushed(
        self,
        timestamp: Seq<char>,
        level: Seq<char>,
        target: Seq<char>,
        message: Seq<char>,
    ) -> LogBufferView {
        let kept = if self.entries.len() >= CAPACITY {
            self.entries.skip(1)
        } else {
            self.entries
        };
        LogBufferView {
            entries: kept.push(
                LogEntryView { seq: self.head, timestamp, level, target, message },
            ),
            head: (self.head + 1) as u64,
        }
    }

    /// The newest `limit` of the entries from position `after` on, oldest first.
    pub open spec fn since(self, after: u64, limit: usize) -> Seq<LogEntryView> {
        newest(self.entries.filter(from_position(after)), limit)
    }
}

/// The entries from a position on.
pub open spec fn from_position(after: u64) -> spec_fn(LogEntryView) -> bool {
    |e: LogEntryView| e.seq >= after
}

/// The last `limit` of some entries.
pub open spec fn newest(entries: Seq<LogEntryView>, limit: usize) -> Seq<LogEntryView> {
    if entries.len() <= limit {
        entries
    } else {
        entries.skip(entries.len() - limit)
    }
}

impl LogBuffer {
    /// An empty buffer.
    pub fn new() -> (buffer: LogBuffer)
        ensures
            buffer@.wf(),
            buffer@.entries == Seq::<LogEntryView>::empty(),
            buffer@.head == 0,
    {
        let buffer = LogBuffer { entries: VecDeque::new(), next_seq: 0 };
        assert(list_view(buffer.entries@) =~= Seq::empty());
        buffer
    }

    /// Adds an entry.
    pub fn push(&mut self, timestamp: String, level: String, target: String, message: String)
        requires
            old(self)@.wf(),
            old(self)@.head < u64::MAX,
        ensures
            final(self)@.wf(),
            final(self)@ == old(self)@.pushed(timestamp@, level@, target@, message@),
    {
        let ghost before = self@;
        let seq: u64 = self.next_seq;
        self.next_seq = seq + 1;
        if self.entries.len() >= CAPACITY {
            let ghost all = self.entries@;
            let _ = self.entries.pop_front();
            assert(list_view(self.entries@) =~= list_view(all).skip(1));
        }
        let ghost kept = self.entries@;
        let entry = LogEntry { seq, timestamp, level, target, message };
        self.entries.push_back(entry);
        proof {
            assert(list_view(kept.push(entry)) =~= list_view(kept).push(entry@));
            assert(self@ == before.pushed(timestamp@, level@, target@, message@));
            let after = self@;
            assert forall|i: int| 0 <= i < after.entries.len() implies (#[trigger] after.entries[i]).seq
                == after.head - after.entries.len() + i by {
                if i < after.entries.len() - 1 {
                    if before.entries.len() >= CAPACITY {
                        assert(after.entries[i] == before.entries[i + 1]);
                    } else {
                        assert(after.entries[i] == before.entries[i]);
                    }
                }
            }
        }
    }

    /// The entries from position `after` on, oldest first, but no more than the
    /// newest `limit` of them, so that one who has fallen behind sees what is recent.
    pub fn since(&self, after: u64, limit: usize) -> (recent: Vec<LogEntry>)
        ensures
            list_view(recent@) == self@.since(after, limit),
    {
        let ghost all = list_view(self.entries@);
        let ghost wanted = from_position(after);
        let n: usize = self.entries.len();
        let mut matching: Vec<usize> = Vec::new();
        let ghost mut found: Seq<LogEntryView> = Seq::empty();
        let mut i: usize = 0;
        proof {
            reveal(Seq::filter);
            assert(all.take(0) =~= Seq::empty());
            assert(all.take(0).filter(wanted) =~= Seq::empty());
        }
        while i < n
            invariant
                n == self.entries@.len(),
                i <= n,
                all == list_view(self.entries@),
                wanted == from_position(after),
                found == all.take(i as int).filter(wanted),
                found.len() == matching@.len(),
                forall|j: int|
                    0 <= j < matching@.len() ==> (#[trigger] matching@[j]) < n && found[j]
                        == self.entries@[matching@[j] as int]@,
            decreases n - i,
        {
            proof {
                reveal(Seq::filter);
                assert(all.take(i + 1).drop_last() =~= all.take(i as int));
                assert(all.take(i + 1).last() == self.entries@[i as int]@);
            }
            if self.entries[i].seq >= after {
                matching.push(i);
                proof {
                    found = found.push(self.entries@[i as int]@);
                }
            }
            i = i + 1;
        }
        assert(all.take(n as int) =~= all);
        let m: usize = matching.len();
        let start: usize = if m > limit {
            m - limit
        } else {
            0
        };
        let mut recent: Vec<LogEntry> = Vec::new();
        let mut k: usize = start;
        assert(list_view(recent@) =~= found.subrange(start as int, k as int));
        while k < m
            invariant
                n == self.entries@.len(),
                m == matching@.len() == found.len(),
                start <= k <= m,
                forall|j: int|
                    0 <= j < matching@.len() ==> (#[trigger] matching@[j]) < n && found[j]
                        == self.entries@[matching@[j] as int]@,
                list_view(recent@) == found.subrange(start as int, k as int),
            decreases m - k,
        {
            let at: usize = matching[k];
            assert(found[k as int] == self.entries@[matching@[k as int] as int]@);
            let ghost before = recent@;
            recent.push(self.entries[at].copy());
            k = k + 1;
            assert(recent@ =~= before.push(recent@.last()));
            assert(list_view(recent@) =~= list_view(before).push(found[k - 1]));
            assert(list_view(recent@) =~= found.subrange(start as int, k as int));
        }
        assert(found.subrange(start as int, m as int) =~= newest(found, limit));
        recent
    }

    /// The position after the newest entry.
    pub fn head(&self) -> (position: u64)
        ensures
            position == self@.head,
    {
        self.next_seq
    }
}

// ---------------------------------------------------------------------------
// Following the log
// ---------------------------------------------------------------------------

/// In a sound buffer the entries from a position on are its last ones.
pub proof fn lemma_since_is_a_tail(buffer: LogBufferView, after: u64)
    requires
        buffer.wf(),
        buffer.head - buffer.entries.len() <= after <= buffer.head,
    ensures
        buffer.entries.filter(from_position(after)) == buffer.entries.skip(
            after - (buffer.head - buffer.entries.len()),
        ),
{
    lemma_filter_is_a_tail(
        buffer.entries,
        (buffer.head - buffer.entries.len()) as int,
        after,
    );
}

proof fn lemma_filter_is_a_tail(entries: Seq<LogEntryView>, first: int, after: u64)
    requires
        forall|i: int| 0 <= i < entries.len() ==> (#[trigger] entries[i]).seq == first + i,
        first <= after <= first + entries.len(),
    ensures
        entries.filter(from_position(after)) == entries.skip(after - first),
    decreases entries.len(),
{
    reveal(Seq::filter);
    if entries.len() == 0 {
        assert(entries.skip(after - first) =~= Seq::empty());
        assert(entries.filter(from_position(after)) =~= Seq::empty());
    } else if after == first + entries.len() {
        lemma_filter_drops_all(entries, after);
        assert(entries.skip(after - first) =~= Seq::empty());
    } else {
        let front = entries.drop_last();
        assert forall|i: int| 0 <= i < front.len() implies (#[trigger] front[i]).seq == first + i by {
            assert(front[i] == entries[i]);
        }
        lemma_filter_is_a_tail(front, first, after);
        assert(entries.skip(after - first) =~= front.skip(after - first).push(entries.last()));
    }
}

proof fn lemma_filter_drops_all(entries: Seq<LogEntryView>, after: u64)
    requires
        forall|i: int| 0 <= i < entries.len() ==> (#[trigger] entries[i]).seq < after,
    ensures
        entries.filter(from_position(after)) == Seq::<LogEntryView>::empty(),
    decreases entries.len(),
{
    reveal(Seq::filter);
    if entries.len() > 0 {
        let front = entries.drop_last();
        assert forall|i: int| 0 <= i < front.len() implies (#[trigger] front[i]).seq < after by {
            assert(front[i] == entries[i]);
        }
        lemma_filter_drops_all(front, after);
    } else {
        assert(entries.filter(from_position(after)) =~= Seq::empty());
    }
}

/// One who asks for what came since the last head gets exactly the entries that
/// came since, each once and in order, as long as they are not more than the limit
/// and the buffer still holds them.
pub proof fn lemma_following_misses_nothing(buffer: LogBufferView, last_head: u64, limit: usize)
    requires
        buffer.wf(),
        last_head <= buffer.head,
        buffer.head - last_head <= buffer.entries.len(),
        buffer.head - last_head <= limit,
    ensures
        buffer.since(last_head, limit).len() == buffer.head - last_head,
        forall|i: int|
            0 <= i < buffer.head - last_head ==> (#[trigger] buffer.since(last_head, limit)[i]).seq
                == last_head + i,
{
    lemma_since_is_a_tail(buffer, last_head);
    let tail = buffer.entries.skip(last_head - (buffer.head - buffer.entries.len()));
    assert(buffer.since(last_head, limit) == tail);
    assert forall|i: int| 0 <= i < tail.len() implies (#[trigger] tail[i]).seq == last_head + i by {
        assert(tail[i] == buffer.entries[last_head - (buffer.head - buffer.entries.len()) + i]);
    }
}

/// Right after an entry was added, one who asks from the head before it gets that
/// entry and no other.
pub proof fn lemma_a_new_entry_is_seen(
    buffer: LogBufferView,
    timestamp: Seq<char>,
    level: Seq<char>,
    target: Seq<char>,
    message: Seq<char>,
    limit: usize,
)
    requires
        buffer.wf(),
        buffer.head < u64::MAX,
        limit > 0,
    ensures
        buffer.pushed(timestamp, level, target, message).since(buffer.head, limit) == seq![
            LogEntryView { seq: buffer.head, timestamp, level, target, message },
        ],
{
    let after = buffer.pushed(timestamp, level, target, message);
    lemma_pushed_is_sound(buffer, timestamp, level, target, message);
    lemma_since_is_a_tail(after, buffer.head);
    assert(after.entries.skip(after.entries.len() - 1) =~= seq![after.entries.last()]);
}

/// Adding an entry keeps a buffer sound.
pub proof fn lemma_pushed_is_sound(
    buffer: LogBufferView,
    timestamp: Seq<char>,
    level: Seq<char>,
    target: Seq<char>,
    message: Seq<char>,
)
    requires
        buffer.wf(),
        buffer.head < u64::MAX,
    ensures
        buffer.pushed(timestamp, level, target, message).wf(),
{
    let after = buffer.pushed(timestamp, level, target, message);
    assert forall|i: int| 0 <= i < after.entries.len() implies (#[trigger] after.entries[i]).seq
        == after.head - after.entries.len() + i by {
        if i < after.entries.len() - 1 {
            if buffer.entries.len() >= CAPACITY {
                assert(after.entries[i] == buffer.entries[i + 1]);
            } else {
                assert(after.entries[i] == buffer.entries[i]);
            }
        }
    }
}

// ---------------------------------------------------------------------------
// Messages
// ---------------------------------------------------------------------------

/// The value of a field: a text, or the `Debug` form of something else.
pub enum FieldValue {
    Str(String),
    Debug(String),
}

pub ghost enum FieldValueView {
    Str(Seq<char>),
    Debug(Seq<char>),
}

impl View for FieldValue {
    type V = FieldValueView;

    open spec fn view(&self) -> FieldValueView {
        match self {
            FieldValue::Str(t) => FieldValueView::Str(t@),
            FieldValue::Debug(t) => FieldValueView::Debug(t@),
        }
    }
}

impl FieldValueView {
    /// The text that is shown.
    pub open spec fn text(self) -> Seq<char> {
        match self {
            FieldValueView::Str(t) => t,
            FieldValueView::Debug(t) => t,
        }
    }

    /// The text without the quotes of a `Debug` form.
    pub open spec fn unquoted(self) -> Seq<char> {
        match self {
            FieldValueView::Str(t) => t,
            FieldValueView::Debug(t) => trimmed_end(trimmed_start(t, '"'), '"'),
        }
    }
}

/// Gathers the fields of an event into one message.
///
/// Events of crates that log otherwise come through a bridge, which puts the real
/// target into a field `log.target`, and some noise into other fields whose names
/// start with `log.`.
pub struct MessageVisitor {
    pub message: String,
    pub log_target: Option<String>,
}

pub ghost struct MessageVisitorView {
    pub message: Seq<char>,
    pub log_target: Option<Seq<char>>,
}

impl View for MessageVisitor {
    type V = MessageVisitorView;

    open spec fn view(&self) -> MessageVisitorView {
        MessageVisitorView { message: self.message@, log_target: opt_view(self.log_target) }
    }
}

impl MessageVisitorView {
    /// The message with one field more.
    pub open spec fn recorded(self, name: Seq<char>, value: FieldValueView) -> MessageVisitorView {
        if name == "message"@ {
            MessageVisitorView { message: self.message + value.text(), ..self }
        } else if name == "log.target"@ {
            MessageVisitorView { log_target: Some(value.unquoted()), ..self }
        } else if has_prefix(name, "log."@) {
            self
        } else if self.message.len() == 0 {
            MessageVisitorView { message: name + "="@ + value.text(), ..self }
        } else {
            MessageVisitorView {
                message: self.message + " "@ + name + "="@ + value.text(),
                ..self
            }
        }
    }
}

impl MessageVisitor {
    /// No fields yet.
    pub fn new() -> (visitor: MessageVisitor)
        ensures
            visitor@ == (MessageVisitorView { message: Seq::empty(), log_target: None }),
    {
        MessageVisitor { message: String::new(), log_target: None }
    }

    /// Whether a field comes from the bridge.
    pub fn is_bridge_field(name: &str) -> (yes: bool)
        ensures
            yes == has_prefix(name@, "log."@),
    {
        starts_with(name, "log.")
    }

    fn with_field(self, name: &str, value: &str) -> (visitor: MessageVisitor)
        ensures
            visitor@ == (MessageVisitorView {
                message: if self@.message.len() == 0 {
                    name@ + "="@ + value@
                } else {
                    self@.message + " "@ + name@ + "="@ + value@
                },
                ..self@
            }),
    {
        let message = if self.message.as_str().is_empty() {
            name.to_owned().concat("=").concat(value)
        } else {
            self.message.concat(" ").concat(name).concat("=").concat(value)
        };
        MessageVisitor { message, log_target: self.log_target }
    }

    /// Takes in a field with a text.
    pub fn record_str(self, name: &str, value: &str) -> (visitor: MessageVisitor)
        ensures
            visitor@ == self@.recorded(name@, FieldValueView::Str(value@)),
    {
        proof {
            lemma_target_is_bridged();
        }
        if text_eq(name, "message") {
            MessageVisitor { message: self.message.concat(value), log_target: self.log_target }
        } else if Self::is_bridge_field(name) {
            if text_eq(name, "log.target") {
                MessageVisitor { message: self.message, log_target: Some(value.to_owned()) }
            } else {
                self
            }
        } else {
            self.with_field(name, value)
        }
    }

    /// Takes in a field with something else, given in its `Debug` form.
    pub fn record_debug(self, name: &str, value: &str) -> (visitor: MessageVisitor)
        ensures
            visitor@ == self@.recorded(name@, FieldValueView::Debug(value@)),
    {
        proof {
            lemma_target_is_bridged();
        }
        if text_eq(name, "message") {
            MessageVisitor { message: self.message.concat(value), log_target: self.log_target }
        } else if Self::is_bridge_field(name) {
            if text_eq(name, "log.target") {
                let target = trim_end_matches(trim_start_matches(value, '"'), '"');
                MessageVisitor { message: self.message, log_target: Some(target.to_owned()) }
            } else {
                self
            }
        } else {
            self.with_field(name, value)
        }
    }
}

proof fn lemma_target_is_bridged()
    ensures
        has_prefix("log.target"@, "log."@),
        !has_prefix("message"@, "log."@),
        "message"@ != "log.target"@,
{
    reveal_strlit("log.target");
    reveal_strlit("log.");
    reveal_strlit("message");
    assert("log.target"@.take(4) =~= "log."@);
    assert("message"@[0] != "log."@[0]);
    assert("message"@.take(4)[0] == "message"@[0]);
    assert("message"@[0] != "log.target"@[0]);
}

/// A field of an event.
pub struct LogField {
    pub name: String,
    pub value: FieldValue,
}

pub ghost struct LogFieldView {
    pub name: Seq<char>,
    pub value: FieldValueView,
}

impl View for LogField {
    type V = LogFieldView;

    open spec fn view(&self) -> LogFieldView {
        LogFieldView { name: self.name@, value: self.value@ }
    }
}

/// What the fields of an event come to.
pub open spec fn gathered(fields: Seq<LogFieldView>) -> MessageVisitorView
    decreases fields.len(),
{
    if fields.len() == 0 {
        MessageVisitorView { message: Seq::empty(), log_target: None }
    } else {
        gathered(fields.drop_last()).recorded(fields.last().name, fields.last().value)
    }
}

/// The time of day, in hours, minutes and seconds.
pub open spec fn clock(secs: nat) -> Seq<char> {
    let s = secs % 86400;
    two_digits(s / 3600) + ":"@ + two_digits((s % 3600) / 60) + ":"@ + two_digits(s % 60)
}

/// The time of day, some seconds after the start of a day.
pub fn clock_text(secs: u64) -> (text: String)
    ensures
        text@ == clock(secs as nat),
{
    let s: u64 = secs % 86_400;
    two_digit_text(s / 3600).concat(":").concat(two_digit_text((s % 3600) / 60).as_str()).concat(
        ":",
    ).concat(two_digit_text(s % 60).as_str())
}

/// Mirrors events into a buffer.
pub struct LogCaptureLayer {
    pub buffer: LogBuffer,
}

/// A layer with an empty buffer.
pub fn capture_layer() -> (layer: LogCaptureLayer)
    ensures
        layer.buffer@.wf(),
        layer.buffer@.entries == Seq::<LogEntryView>::empty(),
        layer.buffer@.head == 0,
{
    LogCaptureLayer::new(LogBuffer::new())
}

impl LogCaptureLayer {
    /// A layer on a buffer.
    pub fn new(buffer: LogBuffer) -> (layer: LogCaptureLayer)
        ensures
            layer.buffer == buffer,
    {
        LogCaptureLayer { buffer }
    }

    /// Mirrors an event: its time of day, its level, its target or the one that the
    /// bridge gives, and its fields as one message.
    pub fn on_event(&mut self, secs: u64, level: &str, target: &str, fields: &Vec<LogField>)
        requires
            old(self).buffer@.wf(),
            old(self).buffer@.head < u64::MAX,
        ensures
            final(self).buffer@.wf(),
            ({
                let seen = gathered(list_view(fields@));
                final(self).buffer@ == old(self).buffer@.pushed(
                    clock(secs as nat),
                    level@,
                    match seen.log_target {
                        Some(t) => t,
                        None => target@,
                    },
                    seen.message,
                )
            }),
    {
        let mut visitor = MessageVisitor::new();
        let ghost all = list_view(fields@);
        let mut i: usize = 0;
        assert(all.take(0) =~= Seq::empty());
        while i < fields.len()
            invariant
                i <= fields.len(),
                all == list_view(fields@),
                visitor@ == gathered(all.take(i as int)),
            decreases fields.len() - i,
        {
            let field = &fields[i];
            i = i + 1;
            assert(all.take(i as int).drop_last() =~= all.take(i - 1));
            assert(all.take(i as int).last() == fields@[i - 1]@);
            visitor = match &field.value {
                FieldValue::Str(t) => visitor.record_str(field.name.as_str(), t.as_str()),
                FieldValue::Debug(t) => visitor.record_debug(field.name.as_str(), t.as_str()),
            };
        }
        assert(all.take(i as int) =~= all);
        let shown = match visitor.log_target {
            Some(t) => t,
            None => target.to_owned(),
        };
        self.buffer.push(clock_text(secs), level.to_owned(), shown, visitor.message);
    }
}

} // verus!
