//! The aggregation engine: a single logical consumer that absorbs response
//! metrics into open per-second accumulators and cumulative totals, closes
//! second buckets into the circular history buffers on rollover, and emits
//! one broadcast message per closed second.

use vstd::prelude::*;
use crate::buffer::{CircularBuffer, ring_push, total_count};
use crate::buffer::{lemma_total_count_ring_push, lemma_total_count_take};
use crate::period::StatsForPeriod;
use crate::totals::{AppStatsTotals, Endpoint, spec_bump_code, spec_merge_endpoint};

verus! {

/// Metrics for a single response, produced once per completed request and
/// consumed exactly once by the aggregation engine.
pub struct ResponseMetrics {
    /// The endpoint that was requested.
    pub endpoint: Endpoint,
    /// The time the request started, in whole seconds.
    pub started_at: u64,
    /// The time the response took to be generated, in microseconds.
    pub time_taken: u64,
    /// The status code of the response.
    pub status_code: u16,
    /// The number of open connections at the time the response was generated.
    pub connections: u64,
    /// The amount of memory allocated at the time the response was generated,
    /// in bytes.
    pub memory: u64,
}

/// Average, maximum, minimum, and count of values for one closed second, for
/// all areas being measured: the payload of one live-feed message.
#[derive(Clone, Copy, Debug, PartialEq, Eq, Structural)]
pub struct AllStatsForPeriod {
    /// The response times for the closed second, in microseconds.
    pub times: StatsForPeriod,
    /// The open connections for the closed second.
    pub connections: StatsForPeriod,
    /// The memory usage for the closed second, in bytes.
    pub memory: StatsForPeriod,
}

/// The circular history buffers, one per measured quantity.
pub struct AppStatsBuffers {
    /// Response time stats per second.
    pub responses: CircularBuffer,
    /// Connection stats per second.
    pub connections: CircularBuffer,
    /// Memory usage stats per second.
    pub memory: CircularBuffer,
}

/// The shared application statistics: cumulative totals and history buffers,
/// written only by the aggregation engine and read by the query side.
pub struct AppStats {
    /// The time the application was started, in whole seconds.
    pub started_at: u64,
    /// The most recent second boundary the engine has rolled over to.
    pub last_second: u64,
    /// The all-time totals for each area sampled.
    pub totals: AppStatsTotals,
    /// The circular history buffers for each area sampled.
    pub buffers: AppStatsBuffers,
}

/// The engine's private working state: the accumulators of the currently
/// open second, and the boundary of that second.
pub struct OpenStats {
    /// The open accumulator for response times.
    pub times: StatsForPeriod,
    /// The open accumulator for connection counts.
    pub connections: StatsForPeriod,
    /// The open accumulator for memory usage.
    pub memory: StatsForPeriod,
    /// The second currently being accumulated into.
    pub current_second: u64,
}

impl AppStats {
    /// Well-formedness: the totals and every buffer are well formed, and no
    /// buffer can account for more samples than its cumulative total.
    pub open spec fn wf(self) -> bool {
        &&& self.totals.wf()
        &&& self.buffers.responses.wf()
        &&& self.buffers.connections.wf()
        &&& self.buffers.memory.wf()
        &&& total_count(self.buffers.responses@) <= self.totals.times.count
        &&& total_count(self.buffers.connections@) <= self.totals.connections.count
        &&& total_count(self.buffers.memory@) <= self.totals.memory.count
    }

    /// Creates the statistics store, reserving each buffer's full capacity up
    /// front so that memory use is constant from startup.  A zero-size buffer
    /// is a misconfiguration that must be rejected before this point.
    pub fn new(
        started_at: u64,
        timing_buffer_size: usize,
        connection_buffer_size: usize,
        memory_buffer_size: usize,
    ) -> (r: AppStats)
        requires
            timing_buffer_size >= 1,
            connection_buffer_size >= 1,
            memory_buffer_size >= 1,
        ensures
            r.wf(),
            r.started_at == started_at,
            r.last_second == 0,
            r.totals.wf(),
            r.totals.codes@ == seq![(200u16, 0u64), (401u16, 0u64), (404u16, 0u64), (500u16, 0u64)],
            r.totals.times == StatsForPeriod::spec_zero(),
            r.totals.endpoints@ == Seq::<(Endpoint, StatsForPeriod)>::empty(),
            r.totals.connections == StatsForPeriod::spec_zero(),
            r.totals.memory == StatsForPeriod::spec_zero(),
            r.buffers.responses@ == Seq::<StatsForPeriod>::empty(),
            r.buffers.connections@ == Seq::<StatsForPeriod>::empty(),
            r.buffers.memory@ == Seq::<StatsForPeriod>::empty(),
            r.buffers.responses.spec_capacity() == timing_buffer_size,
            r.buffers.connections.spec_capacity() == connection_buffer_size,
            r.buffers.memory.spec_capacity() == memory_buffer_size,
    {
        AppStats {
            started_at,
            last_second: 0,
            totals: AppStatsTotals::new(),
            buffers: AppStatsBuffers {
                responses: CircularBuffer::new(timing_buffer_size),
                connections: CircularBuffer::new(connection_buffer_size),
                memory: CircularBuffer::new(memory_buffer_size),
            },
        }
    }
}

impl OpenStats {
    /// Well-formedness of the three open accumulators.
    pub open spec fn wf(self) -> bool {
        &&& self.times.wf()
        &&& self.connections.wf()
        &&& self.memory.wf()
    }

    /// Fresh working state: empty accumulators, open at `current_second`.
    pub fn new(current_second: u64) -> (r: OpenStats)
        ensures
            r.wf(),
            r.times == StatsForPeriod::spec_zero(),
            r.connections == StatsForPeriod::spec_zero(),
            r.memory == StatsForPeriod::spec_zero(),
            r.current_second == current_second,
    {
        OpenStats {
            times: StatsForPeriod::default(),
            connections: StatsForPeriod::default(),
            memory: StatsForPeriod::default(),
            current_second,
        }
    }
}

/// The engine's single-writer invariant: everything is well formed, and the
/// samples held in each history buffer together with the open accumulator
/// never account for more than the cumulative total of that quantity.
pub open spec fn engine_inv(data: AppStats, open: OpenStats) -> bool {
    &&& data.wf()
    &&& open.wf()
    &&& total_count(data.buffers.responses@) + open.times.count <= data.totals.times.count
    &&& total_count(data.buffers.connections@) + open.connections.count
        <= data.totals.connections.count
    &&& total_count(data.buffers.memory@) + open.memory.count <= data.totals.memory.count
}

/// The accumulator flushed for the `i`-th elapsed second of a rollover: the
/// open accumulator, tagged with the second it covered, for the first
/// elapsed second, and an empty accumulator for every later (idle) second.
pub open spec fn flush_entry(open: StatsForPeriod, from: u64, i: int) -> StatsForPeriod {
    if i == 0 {
        StatsForPeriod { started_at: from, ..open }
    } else {
        StatsForPeriod { started_at: (from + i) as u64, ..StatsForPeriod::spec_zero() }
    }
}

/// A history buffer after a rollover of `elapsed` seconds: one entry pushed
/// per elapsed second, oldest first, each evicting the oldest entry once the
/// buffer is full.
pub open spec fn flushed_buffer(
    v: Seq<StatsForPeriod>,
    cap: nat,
    open: StatsForPeriod,
    from: u64,
    elapsed: int,
) -> Seq<StatsForPeriod>
    decreases elapsed,
{
    if elapsed <= 0 {
        v
    } else {
        ring_push(
            flushed_buffer(v, cap, open, from, elapsed - 1),
            cap,
            flush_entry(open, from, elapsed - 1),
        )
    }
}

/// The live-feed messages published by a rollover: one message per closed
/// second, oldest first, carrying that second's accumulators for all three
/// quantities.
pub open spec fn rollover_messages(open: OpenStats, elapsed: int) -> Seq<AllStatsForPeriod> {
    Seq::new(
        elapsed as nat,
        |i: int|
            AllStatsForPeriod {
                times: flush_entry(open.times, open.current_second, i),
                connections: flush_entry(open.connections, open.current_second, i),
                memory: flush_entry(open.memory, open.current_second, i),
            },
    )
}

/// The open working state after absorbing an optional metrics sample: each
/// quantity's single-value accumulator is merged into the matching open
/// accumulator.
pub open spec fn absorbed(open: OpenStats, metrics: Option<&ResponseMetrics>) -> OpenStats {
    match metrics {
        Some(m) => OpenStats {
            times: open.times.merged(StatsForPeriod::spec_single(m.time_taken)),
            connections: open.connections.merged(StatsForPeriod::spec_single(m.connections)),
            memory: open.memory.merged(StatsForPeriod::spec_single(m.memory)),
            current_second: open.current_second,
        },
        None => open,
    }
}

/// The full contract of one engine step: how the totals, the buffers, the
/// open accumulators, the rollover marker and the published messages after
/// the step relate to the state before it.
pub open spec fn processed(
    data0: AppStats,
    open0: OpenStats,
    metrics: Option<&ResponseMetrics>,
    now_second: u64,
    data1: AppStats,
    open1: OpenStats,
    messages: Seq<AllStatsForPeriod>,
) -> bool {
    let new_second = match metrics {
        Some(m) => m.started_at,
        None => now_second,
    };
    let elapsed = new_second - open0.current_second;
    &&& data1.started_at == data0.started_at
    &&& match metrics {
        Some(m) => {
            &&& data1.totals.times == data0.totals.times.merged(
                StatsForPeriod::spec_single(m.time_taken),
            )
            &&& data1.totals.connections == data0.totals.connections.merged(
                StatsForPeriod::spec_single(m.connections),
            )
            &&& data1.totals.memory == data0.totals.memory.merged(
                StatsForPeriod::spec_single(m.memory),
            )
            &&& data1.totals.codes@ == spec_bump_code(data0.totals.codes@, m.status_code)
            &&& data1.totals.endpoints@ == spec_merge_endpoint(
                data0.totals.endpoints@,
                m.endpoint,
                StatsForPeriod::spec_single(m.time_taken),
            )
        },
        None => data1.totals == data0.totals,
    }
    &&& data1.buffers.responses.spec_capacity() == data0.buffers.responses.spec_capacity()
    &&& data1.buffers.connections.spec_capacity() == data0.buffers.connections.spec_capacity()
    &&& data1.buffers.memory.spec_capacity() == data0.buffers.memory.spec_capacity()
    &&& if new_second > open0.current_second {
        &&& data1.buffers.responses@ == flushed_buffer(
            data0.buffers.responses@,
            data0.buffers.responses.spec_capacity(),
            open0.times,
            open0.current_second,
            elapsed,
        )
        &&& data1.buffers.connections@ == flushed_buffer(
            data0.buffers.connections@,
            data0.buffers.connections.spec_capacity(),
            open0.connections,
            open0.current_second,
            elapsed,
        )
        &&& data1.buffers.memory@ == flushed_buffer(
            data0.buffers.memory@,
            data0.buffers.memory.spec_capacity(),
            open0.memory,
            open0.current_second,
            elapsed,
        )
        &&& data1.last_second == new_second
        &&& open1 == absorbed(
            OpenStats {
                times: StatsForPeriod::spec_zero(),
                connections: StatsForPeriod::spec_zero(),
                memory: StatsForPeriod::spec_zero(),
                current_second: new_second,
            },
            metrics,
        )
        &&& messages == rollover_messages(open0, elapsed)
    } else {
        &&& data1.buffers.responses@ == data0.buffers.responses@
        &&& data1.buffers.connections@ == data0.buffers.connections@
        &&& data1.buffers.memory@ == data0.buffers.memory@
        &&& data1.last_second == data0.last_second
        &&& open1 == absorbed(open0, metrics)
        &&& messages == Seq::<AllStatsForPeriod>::empty()
    }
}

/// Flushes `elapsed` seconds into one history buffer: the open accumulator
/// `stats`, tagged with the second it covered, goes in first, followed by an
/// empty accumulator per idle second.  Returns the accumulator for the newly
/// opened second (empty whenever anything was flushed).
fn update_buffer(
    buffer: &mut CircularBuffer,
    stats: StatsForPeriod,
    current_second: u64,
    elapsed: u64,
) -> (r: StatsForPeriod)
    requires
        old(buffer).wf(),
        stats.wf(),
        current_second + elapsed <= u64::MAX,
    ensures
        final(buffer).wf(),
        final(buffer).spec_capacity() == old(buffer).spec_capacity(),
        final(buffer)@ == flushed_buffer(
            old(buffer)@,
            old(buffer).spec_capacity(),
            stats,
            current_second,
            elapsed as int,
        ),
        r == if elapsed == 0 {
            stats
        } else {
            StatsForPeriod::spec_zero()
        },
        r.wf(),
        total_count(final(buffer)@) <= total_count(old(buffer)@) + stats.count,
{
    proof {
        lemma_total_count_take(old(buffer)@, old(buffer)@.len() as int);
    }
    let ghost orig = stats;
    let mut stats = stats;
    let mut i: u64 = 0;
    while i < elapsed
        invariant
            0 <= i <= elapsed,
            current_second + elapsed <= u64::MAX,
            orig.wf(),
            buffer.wf(),
            buffer.spec_capacity() == old(buffer).spec_capacity(),
            buffer@ == flushed_buffer(
                old(buffer)@,
                old(buffer).spec_capacity(),
                orig,
                current_second,
                i as int,
            ),
            stats == if i == 0 {
                orig
            } else {
                StatsForPeriod::spec_zero()
            },
            total_count(buffer@) <= total_count(old(buffer)@) + orig.count,
        decreases elapsed - i,
    {
        let mut entry = stats;
        entry.started_at = current_second + i;
        proof {
            assert(entry == flush_entry(orig, current_second, i as int));
            lemma_total_count_ring_push(buffer@, buffer.spec_capacity(), entry);
        }
        buffer.push_front(entry);
        stats = StatsForPeriod::default();
        i = i + 1;
    }
    stats
}

/// Processes one engine event: a metrics sample from the queue, or a timer
/// tick (no sample).
///
/// When a sample is present, it is recorded into the cumulative totals (the
/// all-time, status-code and endpoint counters), and the rollover check uses
/// the sample's own timestamp; a tick performs only the rollover check, at
/// the current wall-clock second, so that quiet periods still close their
/// buckets.  The rollover closes one bucket per elapsed whole second into
/// each history buffer and returns one broadcast message per closed second,
/// oldest first; with no elapsed second it returns no messages.  The sample
/// itself is then merged into the open accumulators of the second it opened
/// (or, when its timestamp is older than the open second, of that older
/// stretch's still-open bucket — an accepted approximation for stragglers).
#[verifier::loop_isolation(false)]
pub fn stats_processor(
    data: &mut AppStats,
    open: &mut OpenStats,
    metrics: Option<&ResponseMetrics>,
    now_second: u64,
) -> (messages: Vec<AllStatsForPeriod>)
    requires
        engine_inv(*old(data), *old(open)),
        metrics is Some ==> old(data).totals.times.count < u64::MAX
            && old(data).totals.connections.count < u64::MAX && old(data).totals.memory.count
            < u64::MAX,
    ensures
        engine_inv(*final(data), *final(open)),
        processed(*old(data), *old(open), metrics, now_second, *final(data), *final(open), messages@),
{
    proof {
        lemma_total_count_take(data.buffers.responses@, 0);
        lemma_total_count_take(data.buffers.connections@, 0);
        lemma_total_count_take(data.buffers.memory@, 0);
    }
    let new_second: u64 = match metrics {
        Some(m) => {
            data.totals.record(&m.endpoint, m.status_code, m.time_taken, m.connections, m.memory);
            m.started_at
        },
        None => now_second,
    };
    let ghost op = *old(open);
    let mut messages: Vec<AllStatsForPeriod> = Vec::new();
    if new_second > open.current_second {
        let elapsed: u64 = new_second - open.current_second;
        let flushed_times = open.times;
        let flushed_conns = open.connections;
        let flushed_memory = open.memory;
        let current = open.current_second;
        open.times = update_buffer(&mut data.buffers.responses, flushed_times, current, elapsed);
        open.connections = update_buffer(
            &mut data.buffers.connections,
            flushed_conns,
            current,
            elapsed,
        );
        open.memory = update_buffer(&mut data.buffers.memory, flushed_memory, current, elapsed);
        open.current_second = new_second;
        data.last_second = new_second;
        let mut i: u64 = 0;
        while i < elapsed
            invariant
                0 <= i <= elapsed,
                current + elapsed <= u64::MAX,
                op.current_second == current,
                messages@ =~= rollover_messages(op, elapsed as int).take(i as int),
            decreases elapsed - i,
        {
            let mut entry_times = if i == 0 {
                flushed_times
            } else {
                StatsForPeriod::default()
            };
            let mut entry_conns = if i == 0 {
                flushed_conns
            } else {
                StatsForPeriod::default()
            };
            let mut entry_memory = if i == 0 {
                flushed_memory
            } else {
                StatsForPeriod::default()
            };
            entry_times.started_at = current + i;
            entry_conns.started_at = current + i;
            entry_memory.started_at = current + i;
            messages.push(
                AllStatsForPeriod {
                    times: entry_times,
                    connections: entry_conns,
                    memory: entry_memory,
                },
            );
            proof {
                assert(messages@ =~= rollover_messages(op, elapsed as int).take(i + 1));
            }
            i = i + 1;
        }
        proof {
            assert(messages@ =~= rollover_messages(op, elapsed as int));
        }
    }
    match metrics {
        Some(m) => {
            let new_timing = StatsForPeriod::initialize(m.time_taken);
            let new_conns = StatsForPeriod::initialize(m.connections);
            let new_memory = StatsForPeriod::initialize(m.memory);
            open.times.update(&new_timing);
            open.connections.update(&new_conns);
            open.memory.update(&new_memory);
        },
        None => {},
    }
    messages
}

/// The buckets a rollover closes, in the order they are pushed: the open
/// accumulator's bucket first, then one empty bucket per idle second.
pub open spec fn flush_entries(open: StatsForPeriod, from: u64, elapsed: int) -> Seq<
    StatsForPeriod,
> {
    Seq::new(elapsed as nat, |i: int| flush_entry(open, from, i))
}

/// Flushing a rollover is exactly pushing its buckets in order.
proof fn lemma_flushed_is_push_all(
    v: Seq<StatsForPeriod>,
    cap: nat,
    open: StatsForPeriod,
    from: u64,
    elapsed: int,
)
    requires
        0 <= elapsed,
    ensures
        flushed_buffer(v, cap, open, from, elapsed) == crate::buffer::ring_push_all(
            v,
            cap,
            flush_entries(open, from, elapsed),
        ),
    decreases elapsed,
{
    if elapsed > 0 {
        lemma_flushed_is_push_all(v, cap, open, from, elapsed - 1);
        assert(flush_entries(open, from, elapsed).drop_last() =~= flush_entries(
            open,
            from,
            elapsed - 1,
        ));
        assert(flush_entries(open, from, elapsed).last() == flush_entry(open, from, elapsed - 1));
    } else {
        assert(flush_entries(open, from, 0) =~= Seq::<StatsForPeriod>::empty());
    }
}

/// Rollover correctness under a gap: flushing `elapsed` seconds leaves, at
/// the front of the buffer, one entry per elapsed second in newest-first
/// order — empty accumulators for the idle seconds and, oldest among them,
/// the open accumulator's data tagged with the second it covered — followed
/// by the previous entries that escaped eviction, with the whole buffer
/// still capped at its capacity.
pub proof fn lemma_rollover_gap(
    v: Seq<StatsForPeriod>,
    cap: nat,
    open: StatsForPeriod,
    from: u64,
    elapsed: int,
)
    requires
        cap > 0,
        v.len() <= cap,
        0 <= elapsed,
    ensures
        ({
            let f = flushed_buffer(v, cap, open, from, elapsed);
            &&& f.len() == if v.len() + elapsed < cap {
                v.len() + elapsed
            } else {
                cap as int
            }
            &&& forall|i: int|
                0 <= i < elapsed && i < cap ==> #[trigger] f[i] == flush_entry(
                    open,
                    from,
                    elapsed - 1 - i,
                )
            &&& forall|i: int| elapsed <= i < f.len() ==> #[trigger] f[i] == v[i - elapsed]
        }),
{
    lemma_flushed_is_push_all(v, cap, open, from, elapsed);
    let xs = flush_entries(open, from, elapsed);
    crate::buffer::lemma_ring_push_all(v, cap, xs);
    let f = flushed_buffer(v, cap, open, from, elapsed);
    assert forall|i: int| 0 <= i < elapsed && i < cap implies #[trigger] f[i] == flush_entry(
        open,
        from,
        elapsed - 1 - i,
    ) by {
        assert((xs.reverse() + v)[i] == xs[elapsed - 1 - i]);
    }
    assert forall|i: int| elapsed <= i < f.len() implies #[trigger] f[i] == v[i - elapsed] by {
        assert((xs.reverse() + v)[i] == v[i - elapsed]);
    }
}

/// No data loss: an engine step over a metrics sample raises each
/// quantity's cumulative count by exactly one, and a timer tick raises
/// none, so draining a queue of samples accounts for every single one.
pub proof fn lemma_no_sample_loss(
    data0: AppStats,
    open0: OpenStats,
    metrics: Option<&ResponseMetrics>,
    now_second: u64,
    data1: AppStats,
    open1: OpenStats,
    messages: Seq<AllStatsForPeriod>,
)
    requires
        data0.wf(),
        metrics is Some ==> data0.totals.times.count < u64::MAX && data0.totals.connections.count
            < u64::MAX && data0.totals.memory.count < u64::MAX,
        processed(data0, open0, metrics, now_second, data1, open1, messages),
    ensures
        metrics is Some ==> data1.totals.times.count == data0.totals.times.count + 1
            && data1.totals.connections.count == data0.totals.connections.count + 1
            && data1.totals.memory.count == data0.totals.memory.count + 1,
        metrics is None ==> data1.totals.times.count == data0.totals.times.count
            && data1.totals.connections.count == data0.totals.connections.count
            && data1.totals.memory.count == data0.totals.memory.count,
{
}

/// A complete drain of a queue of samples: the engine state steps once per
/// sample, in order, each step satisfying the engine contract and keeping
/// the engine invariant.
pub open spec fn drained(
    data0: AppStats,
    open0: OpenStats,
    samples: Seq<ResponseMetrics>,
    data1: AppStats,
    open1: OpenStats,
) -> bool
    decreases samples.len(),
{
    if samples.len() == 0 {
        data1 == data0 && open1 == open0
    } else {
        exists|mid: (AppStats, OpenStats, Seq<AllStatsForPeriod>)|
            {
                &&& #[trigger] processed(
                    data0,
                    open0,
                    Some(&samples[0]),
                    samples[0].started_at,
                    mid.0,
                    mid.1,
                    mid.2,
                )
                &&& engine_inv(mid.0, mid.1)
                &&& drained(mid.0, mid.1, samples.drop_first(), data1, open1)
            }
    }
}

/// No data loss over a whole queue: draining any sequence of samples raises
/// each quantity's cumulative count by exactly the number of samples — every
/// sample sent by every producer is accounted for exactly once.
pub proof fn lemma_drained_counts(
    data0: AppStats,
    open0: OpenStats,
    samples: Seq<ResponseMetrics>,
    data1: AppStats,
    open1: OpenStats,
)
    requires
        engine_inv(data0, open0),
        data0.totals.times.count + samples.len() <= u64::MAX,
        data0.totals.connections.count + samples.len() <= u64::MAX,
        data0.totals.memory.count + samples.len() <= u64::MAX,
        drained(data0, open0, samples, data1, open1),
    ensures
        data1.totals.times.count == data0.totals.times.count + samples.len(),
        data1.totals.connections.count == data0.totals.connections.count + samples.len(),
        data1.totals.memory.count == data0.totals.memory.count + samples.len(),
    decreases samples.len(),
{
    if samples.len() > 0 {
        let mid = choose|mid: (AppStats, OpenStats, Seq<AllStatsForPeriod>)|
            {
                &&& #[trigger] processed(
                    data0,
                    open0,
                    Some(&samples[0]),
                    samples[0].started_at,
                    mid.0,
                    mid.1,
                    mid.2,
                )
                &&& engine_inv(mid.0, mid.1)
                &&& drained(mid.0, mid.1, samples.drop_first(), data1, open1)
            };
        lemma_no_sample_loss(
            data0,
            open0,
            Some(&samples[0]),
            samples[0].started_at,
            mid.0,
            mid.1,
            mid.2,
        );
        lemma_drained_counts(mid.0, mid.1, samples.drop_first(), data1, open1);
    }
}

/// A drain extends at its far end: running one more engine step after a
/// drained trace drains the longer queue.
proof fn lemma_drained_snoc(
    data0: AppStats,
    open0: OpenStats,
    samples: Seq<ResponseMetrics>,
    datam: AppStats,
    openm: OpenStats,
    last: ResponseMetrics,
    data1: AppStats,
    open1: OpenStats,
    messages: Seq<AllStatsForPeriod>,
)
    requires
        drained(data0, open0, samples, datam, openm),
        engine_inv(datam, openm),
        processed(datam, openm, Some(&last), last.started_at, data1, open1, messages),
        engine_inv(data1, open1),
    ensures
        drained(data0, open0, samples.push(last), data1, open1),
    decreases samples.len(),
{
    if samples.len() == 0 {
        assert(samples.push(last)[0] == last);
        assert(samples.push(last).drop_first() =~= Seq::<ResponseMetrics>::empty());
        let witness = (data1, open1, messages);
        assert(processed(
            data0,
            open0,
            Some(&samples.push(last)[0]),
            samples.push(last)[0].started_at,
            witness.0,
            witness.1,
            witness.2,
        ));
        assert(drained(witness.0, witness.1, samples.push(last).drop_first(), data1, open1));
    } else {
        let mid = choose|mid: (AppStats, OpenStats, Seq<AllStatsForPeriod>)|
            {
                &&& #[trigger] processed(
                    data0,
                    open0,
                    Some(&samples[0]),
                    samples[0].started_at,
                    mid.0,
                    mid.1,
                    mid.2,
                )
                &&& engine_inv(mid.0, mid.1)
                &&& drained(mid.0, mid.1, samples.drop_first(), datam, openm)
            };
        lemma_drained_snoc(
            mid.0,
            mid.1,
            samples.drop_first(),
            datam,
            openm,
            last,
            data1,
            open1,
            messages,
        );
        assert(samples.push(last)[0] == samples[0]);
        assert(samples.push(last).drop_first() =~= samples.drop_first().push(last));
        let witness = (mid.0, mid.1, mid.2);
        assert(processed(
            data0,
            open0,
            Some(&samples.push(last)[0]),
            samples.push(last)[0].started_at,
            witness.0,
            witness.1,
            witness.2,
        ));
        assert(drained(witness.0, witness.1, samples.push(last).drop_first(), data1, open1));
    }
}

/// Drains a whole queue of pending samples through the engine in order, as
/// on a clean shutdown once the producers are gone.  The per-second
/// broadcast messages are discarded: with the process going down there is
/// no live feed left to serve.
#[verifier::loop_isolation(false)]
pub fn drain_queue(data: &mut AppStats, open: &mut OpenStats, samples: &Vec<ResponseMetrics>)
    requires
        engine_inv(*old(data), *old(open)),
        old(data).totals.times.count + samples@.len() <= u64::MAX,
        old(data).totals.connections.count + samples@.len() <= u64::MAX,
        old(data).totals.memory.count + samples@.len() <= u64::MAX,
    ensures
        engine_inv(*final(data), *final(open)),
        drained(*old(data), *old(open), samples@, *final(data), *final(open)),
        final(data).totals.times.count == old(data).totals.times.count + samples@.len(),
        final(data).totals.connections.count == old(data).totals.connections.count
            + samples@.len(),
        final(data).totals.memory.count == old(data).totals.memory.count + samples@.len(),
{
    proof {
        assert(samples@.take(0) =~= Seq::<ResponseMetrics>::empty());
    }
    let n: usize = samples.len();
    let mut i: usize = 0;
    while i < n
        invariant
            0 <= i <= n,
            engine_inv(*data, *open),
            drained(*old(data), *old(open), samples@.take(i as int), *data, *open),
            data.totals.times.count == old(data).totals.times.count + i,
            data.totals.connections.count == old(data).totals.connections.count + i,
            data.totals.memory.count == old(data).totals.memory.count + i,
        decreases n - i,
    {
        let ghost datam = *data;
        let ghost openm = *open;
        let messages = stats_processor(data, open, Some(&samples[i]), samples[i].started_at);
        proof {
            lemma_drained_snoc(
                *old(data),
                *old(open),
                samples@.take(i as int),
                datam,
                openm,
                samples@[i as int],
                *data,
                *open,
                messages@,
            );
            assert(samples@.take(i + 1) =~= samples@.take(i as int).push(samples@[i as int]));
        }
        i = i + 1;
    }
    proof {
        assert(samples@.take(n as int) =~= samples@);
    }
}

/// Live feed ordering: a rollover publishes exactly one message per closed
/// second, tagged with strictly increasing second boundaries, oldest first.
pub proof fn lemma_rollover_messages_ordered(open: OpenStats, elapsed: int)
    requires
        0 <= elapsed,
        open.current_second + elapsed <= u64::MAX,
    ensures
        rollover_messages(open, elapsed).len() == elapsed,
        forall|i: int|
            0 <= i < elapsed ==> (#[trigger] rollover_messages(open, elapsed)[i]).times.started_at
                == open.current_second + i,
        forall|i: int, j: int|
            0 <= i < j < elapsed ==> (#[trigger] rollover_messages(open, elapsed)[i]).times.started_at
                < (#[trigger] rollover_messages(open, elapsed)[j]).times.started_at,
{
}

/// Live feed ordering across successive rollovers: when a second rollover
/// starts at or after the boundary the first one ended on, every message of
/// the first batch is tagged strictly before every message of the second, so
/// a subscriber that stays connected sees one message per closed second with
/// strictly increasing tags.
pub proof fn lemma_feed_ordering(open1: OpenStats, e1: int, open2: OpenStats, e2: int)
    requires
        0 < e1,
        0 < e2,
        open1.current_second + e1 <= open2.current_second,
        open2.current_second + e2 <= u64::MAX,
    ensures
        ({
            let all = rollover_messages(open1, e1) + rollover_messages(open2, e2);
            forall|i: int, j: int|
                0 <= i < j < all.len() ==> (#[trigger] all[i]).times.started_at < (
                #[trigger] all[j]).times.started_at
        }),
{
    let all = rollover_messages(open1, e1) + rollover_messages(open2, e2);
    assert forall|i: int, j: int| 0 <= i < j < all.len() implies (#[trigger] all[i]).times.started_at
        < (#[trigger] all[j]).times.started_at by {
        if j < e1 {
        } else if i >= e1 {
            assert(all[i] == rollover_messages(open2, e2)[i - e1]);
            assert(all[j] == rollover_messages(open2, e2)[j - e1]);
        } else {
            assert(all[i] == rollover_messages(open1, e1)[i]);
            assert(all[j] == rollover_messages(open2, e2)[j - e1]);
        }
    }
}

} // verus!
