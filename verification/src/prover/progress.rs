//! Live progress of a proving job.
//!
//! The session tells how many segments there are before proving starts, and each
//! segment is counted as it is proven. Together those turn "processing" into a
//! projection, measured on this machine and for this job.
//!
//! Times are nanoseconds on a clock that never goes back.
use vstd::prelude::*;

verus! {

/// Nanoseconds in a millisecond.
pub const NANOS_PER_MILLI: u64 = 1_000_000;

/// How the total time of a job is projected from the time that it has taken: the
/// base, and the rest of the time spread over some segments and scaled up to
/// others.
#[derive(Debug, Clone, Copy, PartialEq, Eq, Structural)]
pub struct Projection {
    pub base_millis: u64,
    /// How many segments took the time beyond the base.
    pub over: usize,
    /// How many segments will take such time.
    pub segments: usize,
}

/// A snapshot of a job's progress.
#[derive(Debug, Clone, Copy, PartialEq, Eq, Structural)]
pub struct Snapshot {
    /// Cycles that the guest executed.
    pub total_cycles: u64,
    /// Padded proving cycles of the segments proven so far.
    pub proving_cycles_done: u64,
    /// Segments that the job will prove.
    pub segments: usize,
    /// Segments proven so far.
    pub segments_done: usize,
    /// Time since proving began.
    pub elapsed_nanos: u64,
    /// How to project the total time, once a segment is proven.
    pub projection: Option<Projection>,
    /// Time that the first segment took.
    pub first_segment_millis: Option<u64>,
}

/// Nothing can be projected before a segment is proven. The first segment carries
/// the warming up of the machine, so once there is a second one, only the later
/// ones count towards the rate.
pub open spec fn projected(done: usize, segments: usize, first_millis: u64) -> Option<Projection> {
    if done == 0 || segments == 0 {
        None
    } else if done == 1 {
        Some(Projection { base_millis: 0, over: 1, segments })
    } else {
        Some(
            Projection {
                base_millis: first_millis,
                over: (done - 1) as usize,
                segments: (segments - 1) as usize,
            },
        )
    }
}

/// How to project the total time of a job.
pub fn project(done: usize, segments: usize, first_millis: u64) -> (projection: Option<Projection>)
    ensures
        projection == projected(done, segments, first_millis),
{
    if done == 0 || segments == 0 {
        None
    } else if done == 1 {
        Some(Projection { base_millis: 0, over: 1, segments })
    } else {
        Some(Projection { base_millis: first_millis, over: done - 1, segments: segments - 1 })
    }
}

/// The progress counters of a job.
#[derive(Debug, Clone, Copy, PartialEq, Eq, Structural)]
pub struct ProgressSink {
    /// When proving began.
    pub started: u64,
    pub total_cycles: u64,
    pub segments: usize,
    pub segments_done: usize,
    pub proving_cycles_done: u64,
    pub first_segment_millis: u64,
    /// The time that the job took, once it is over.
    pub finished: Option<u64>,
}

/// A count that wraps around at the end of its word.
pub open spec fn wrapped_u64(n: int) -> u64 {
    if n <= u64::MAX {
        n as u64
    } else {
        (n - u64::MAX - 1) as u64
    }
}

/// A count that wraps around at the end of its word.
pub open spec fn wrapped_usize(n: int) -> usize {
    if n <= usize::MAX {
        n as usize
    } else {
        (n - usize::MAX - 1) as usize
    }
}

/// The cycles of a segment: two to a power.
pub open spec fn segment_cycles(po2: nat) -> nat
    decreases po2,
{
    if po2 == 0 {
        1
    } else {
        2 * segment_cycles((po2 - 1) as nat)
    }
}

proof fn lemma_segment_cycles(po2: u64)
    requires
        po2 < 64,
    ensures
        1u64 << po2 == segment_cycles(po2 as nat),
        segment_cycles(po2 as nat) <= u64::MAX,
    decreases po2,
{
    if po2 == 0 {
        assert(1u64 << 0u64 == 1u64) by (bit_vector);
    } else {
        let less: u64 = (po2 - 1) as u64;
        lemma_segment_cycles(less);
        assert(po2 == less + 1);
        assert(1u64 << po2 == 2u64 * (1u64 << less)) by (bit_vector)
            requires
                po2 < 64,
                po2 == (less + 1) as u64,
                less < 63,
        ;
        assert((2u64 * (1u64 << less)) as int == 2 * (1u64 << less)) by {
            assert((1u64 << less) <= 0x4000_0000_0000_0000u64) by (bit_vector)
                requires
                    less < 63,
            ;
        }
    }
}

impl ProgressSink {
    /// The time that a job has taken, at a given time.
    pub open spec fn elapsed_at(self, now: u64) -> u64 {
        match self.finished {
            Some(nanos) => nanos,
            None => if now >= self.started {
                (now - self.started) as u64
            } else {
                0
            },
        }
    }

    /// The counters after a segment of `2^po2` cycles was proven at a given time.
    pub open spec fn after_segment(self, po2: usize, now: u64) -> ProgressSink {
        let done = wrapped_usize(self.segments_done + 1);
        ProgressSink {
            proving_cycles_done: wrapped_u64(
                self.proving_cycles_done + segment_cycles(po2 as nat),
            ),
            segments_done: done,
            first_segment_millis: if done == 1 {
                (self.elapsed_at(now) / NANOS_PER_MILLI) as u64
            } else {
                self.first_segment_millis
            },
            ..self
        }
    }

    /// The snapshot at a given time.
    pub open spec fn snapshot_at(self, now: u64) -> Snapshot {
        Snapshot {
            total_cycles: self.total_cycles,
            proving_cycles_done: self.proving_cycles_done,
            segments: self.segments,
            segments_done: self.segments_done,
            elapsed_nanos: self.elapsed_at(now),
            projection: projected(self.segments_done, self.segments, self.first_segment_millis),
            first_segment_millis: if self.first_segment_millis > 0 {
                Some(self.first_segment_millis)
            } else {
                None
            },
        }
    }

    /// The counters of a job whose proving begins at a given time.
    pub fn new(started: u64) -> (sink: ProgressSink)
        ensures
            sink == (ProgressSink {
                started,
                total_cycles: 0,
                segments: 0,
                segments_done: 0,
                proving_cycles_done: 0,
                first_segment_millis: 0,
                finished: None,
            }),
    {
        ProgressSink {
            started,
            total_cycles: 0,
            segments: 0,
            segments_done: 0,
            proving_cycles_done: 0,
            first_segment_millis: 0,
            finished: None,
        }
    }

    /// Records what the session tells before any segment is proven.
    pub fn on_session_ready(&mut self, total_cycles: u64, segments: usize)
        ensures
            *final(self) == (ProgressSink { total_cycles, segments, ..*old(self) }),
    {
        self.total_cycles = total_cycles;
        self.segments = segments;
    }

    /// The time that the job has taken.
    pub fn elapsed(&self, now: u64) -> (nanos: u64)
        ensures
            nanos == self.elapsed_at(now),
    {
        match self.finished {
            Some(nanos) => nanos,
            None => if now >= self.started {
                now - self.started
            } else {
                0
            },
        }
    }

    /// Counts a segment of `2^po2` cycles that was proven.
    pub fn on_segment_proven(&mut self, po2: usize, now: u64)
        requires
            po2 < 64,
        ensures
            *final(self) == old(self).after_segment(po2, now),
    {
        proof {
            lemma_segment_cycles(po2 as u64);
        }
        let power: u64 = po2 as u64;
        let cycles: u64 = 1u64 << power;
        self.proving_cycles_done = self.proving_cycles_done.wrapping_add(cycles);
        self.segments_done = self.segments_done.wrapping_add(1);
        if self.segments_done == 1 {
            self.first_segment_millis = self.elapsed(now) / NANOS_PER_MILLI;
        }
    }

    /// Stops the clock, so that a job that is over reports how long it took rather
    /// than how long ago it started.
    pub fn finish(&mut self, now: u64)
        ensures
            *final(self) == (ProgressSink {
                finished: Some(old(self).elapsed_at(now)),
                ..*old(self)
            }),
    {
        let nanos: u64 = self.elapsed(now);
        self.finished = Some(nanos);
    }

    /// The progress at a given time.
    pub fn snapshot(&self, now: u64) -> (snapshot: Snapshot)
        ensures
            snapshot == self.snapshot_at(now),
    {
        Snapshot {
            total_cycles: self.total_cycles,
            proving_cycles_done: self.proving_cycles_done,
            segments: self.segments,
            segments_done: self.segments_done,
            elapsed_nanos: self.elapsed(now),
            projection: project(self.segments_done, self.segments, self.first_segment_millis),
            first_segment_millis: if self.first_segment_millis > 0 {
                Some(self.first_segment_millis)
            } else {
                None
            },
        }
    }
}

/// Feeds the prover's hook for each segment into the counters.
pub struct SegmentProgress {
    pub sink: ProgressSink,
}

impl SegmentProgress {
    /// Feeds into the given counters.
    pub fn new(sink: ProgressSink) -> (progress: SegmentProgress)
        ensures
            progress.sink == sink,
    {
        SegmentProgress { sink }
    }

    /// A segment of `2^po2` cycles was proven.
    pub fn on_post_prove_segment(&mut self, po2: usize, now: u64)
        requires
            po2 < 64,
        ensures
            final(self).sink == old(self).sink.after_segment(po2, now),
    {
        self.sink.on_segment_proven(po2, now);
    }
}

/// The counters after a number of segments.
pub open spec fn after_segments(sink: ProgressSink, segments: Seq<(usize, u64)>) -> ProgressSink
    decreases segments.len(),
{
    if segments.len() == 0 {
        sink
    } else {
        after_segments(sink, segments.drop_last()).after_segment(
            segments.last().0,
            segments.last().1,
        )
    }
}

/// The cycles of a number of segments.
pub open spec fn cycles_of(segments: Seq<(usize, u64)>) -> nat
    decreases segments.len(),
{
    if segments.len() == 0 {
        0
    } else {
        cycles_of(segments.drop_last()) + segment_cycles(segments.last().0 as nat)
    }
}

/// The counters count: after some segments the sink tells how many there were, the
/// sum of their cycles, and how long the first one took, as far as these fit in a
/// word.
pub proof fn lemma_counters_count(started: u64, sink: ProgressSink, segments: Seq<(usize, u64)>)
    requires
        sink.segments_done == 0,
        sink.proving_cycles_done == 0,
        sink.started == started,
        sink.finished is None,
        segments.len() <= usize::MAX,
        cycles_of(segments) <= u64::MAX,
    ensures
        after_segments(sink, segments).segments_done == segments.len(),
        after_segments(sink, segments).proving_cycles_done == cycles_of(segments),
        after_segments(sink, segments).segments == sink.segments,
        after_segments(sink, segments).started == started,
        after_segments(sink, segments).finished is None,
        segments.len() > 0 ==> after_segments(sink, segments).first_segment_millis == (if segments[0].1
            >= started {
            (segments[0].1 - started) / NANOS_PER_MILLI as int
        } else {
            0
        }),
    decreases segments.len(),
{
    if segments.len() > 0 {
        lemma_counters_count(started, sink, segments.drop_last());
        if segments.len() > 1 {
            assert(segments.drop_last()[0] == segments[0]);
        } else {
            assert(segments.last() == segments[0]);
        }
    }
}

/// Once the clock is stopped, the time that a job took stays the same.
pub proof fn lemma_finished_clock_stands_still(sink: ProgressSink, end: u64, later: u64)
    ensures
        (ProgressSink { finished: Some(sink.elapsed_at(end)), ..sink }).elapsed_at(later)
            == sink.elapsed_at(end),
{
}

/// Nothing is projected exactly as long as no segment is proven or none is known.
pub proof fn lemma_projection_needs_a_segment(sink: ProgressSink, now: u64)
    ensures
        sink.snapshot_at(now).projection is None <==> sink.segments_done == 0 || sink.segments
            == 0,
        sink.snapshot_at(now).projection matches Some(p) ==> p.over >= 1,
{
}

} // verus!
