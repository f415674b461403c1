//! The read side: measurement-type filters, point-in-time snapshots over the
//! configured named period windows, and bounded historical replay.

use vstd::prelude::*;
use crate::buffer::{CircularBuffer, kept_len, limited_len, total_count};
use crate::buffer::{lemma_total_count_parts, lemma_total_count_take};
use crate::engine::AppStats;
use crate::period::StatsForPeriod;
use crate::totals::Endpoint;
use vstd::string::StringSliceAdditionalSpecFns;

verus! {

/// The type of measurement to get statistics for.
#[derive(Clone, Copy, Debug, PartialEq, Eq, Structural)]
pub enum MeasurementType {
    /// Response times.
    Times,
    /// Active connections.
    Connections,
    /// Memory usage.
    Memory,
}

/// The error returned for an unrecognised measurement-type filter.
#[derive(Clone, Copy, Debug, PartialEq, Eq, Structural)]
pub enum FilterError {
    /// The filter names no known measurement type.
    InvalidFilter,
}

/// ASCII lower-casing of one byte.
pub open spec fn lower_byte(b: u8) -> u8 {
    if 65 <= b && b <= 90 {
        (b + 32) as u8
    } else {
        b
    }
}

/// ASCII lower-casing of a byte sequence.
pub open spec fn lower_bytes(s: Seq<u8>) -> Seq<u8> {
    s.map_values(|b: u8| lower_byte(b))
}

/// The total, explicit mapping from a filter name (compared
/// case-insensitively over its bytes) to a measurement type.
pub open spec fn spec_parse_measurement(s: Seq<u8>) -> Result<MeasurementType, FilterError> {
    if lower_bytes(s) == seq![116u8, 105, 109, 101, 115] {
        Ok(MeasurementType::Times)
    } else if lower_bytes(s) == seq![99u8, 111, 110, 110, 101, 99, 116, 105, 111, 110, 115] {
        Ok(MeasurementType::Connections)
    } else if lower_bytes(s) == seq![109u8, 101, 109, 111, 114, 121] {
        Ok(MeasurementType::Memory)
    } else {
        Err(FilterError::InvalidFilter)
    }
}

impl MeasurementType {
    /// Parses a measurement-type filter, ignoring ASCII case: exactly the
    /// names `times`, `connections` and `memory` are accepted, and every
    /// other input is rejected as an invalid filter.
    pub fn from_str(s: &str) -> (r: Result<MeasurementType, FilterError>)
        ensures
            r == spec_parse_measurement(s.spec_bytes()),
    {
        let bytes = s.as_bytes();
        let lowered = lower_ascii(bytes);
        let times: Vec<u8> = vec![116u8, 105, 109, 101, 115];
        let connections: Vec<u8> = vec![99u8, 111, 110, 110, 101, 99, 116, 105, 111, 110, 115];
        let memory: Vec<u8> = vec![109u8, 101, 109, 111, 114, 121];
        proof {
            assert(times@ =~= seq![116u8, 105, 109, 101, 115]);
            assert(connections@ =~= seq![99u8, 111, 110, 110, 101, 99, 116, 105, 111, 110, 115]);
            assert(memory@ =~= seq![109u8, 101, 109, 111, 114, 121]);
        }
        if bytes_eq(lowered.as_slice(), times.as_slice()) {
            Ok(MeasurementType::Times)
        } else if bytes_eq(lowered.as_slice(), connections.as_slice()) {
            Ok(MeasurementType::Connections)
        } else if bytes_eq(lowered.as_slice(), memory.as_slice()) {
            Ok(MeasurementType::Memory)
        } else {
            Err(FilterError::InvalidFilter)
        }
    }
}

/// ASCII lower-casing of a byte slice.
fn lower_ascii(bytes: &[u8]) -> (r: Vec<u8>)
    ensures
        r@ == lower_bytes(bytes@),
{
    let mut out: Vec<u8> = Vec::new();
    let n: usize = bytes.len();
    let mut i: usize = 0;
    while i < n
        invariant
            0 <= i <= n,
            n == bytes@.len(),
            out@ =~= lower_bytes(bytes@.take(i as int)),
        decreases n - i,
    {
        let b = bytes[i];
        let lowered: u8 = if 65 <= b && b <= 90 {
            b + 32
        } else {
            b
        };
        out.push(lowered);
        proof {
            assert(out@ =~= lower_bytes(bytes@.take(i + 1)));
        }
        i = i + 1;
    }
    proof {
        assert(bytes@.take(n as int) =~= bytes@);
    }
    out
}

/// Byte-slice equality.
fn bytes_eq(a: &[u8], b: &[u8]) -> (r: bool)
    ensures
        r == (a@ == b@),
{
    if a.len() != b.len() {
        return false;
    }
    let n: usize = a.len();
    let mut i: usize = 0;
    while i < n
        invariant
            0 <= i <= n,
            n == a@.len(),
            n == b@.len(),
            forall|j: int| 0 <= j < i ==> a@[j] == b@[j],
        decreases n - i,
    {
        if a[i] != b[i] {
            return false;
        }
        i = i + 1;
    }
    proof {
        assert(a@ =~= b@);
    }
    true
}

/// The parameters for a historical statistics query.
#[derive(Clone, Copy, Debug)]
pub struct GetStatsHistoryParams {
    /// The buffer to get the statistics for; all three when absent.
    pub buffer: Option<MeasurementType>,
    /// The start time (in whole seconds) to get the statistics from:
    /// entries at or after this point are kept.
    pub from: Option<u64>,
    /// The maximum number of buffer entries to return, most recent first.
    pub limit: Option<usize>,
}

/// The parameters for a live statistics feed subscription.
#[derive(Clone, Copy, Debug)]
pub struct GetStatsFeedParams {
    /// The type of measurement to subscribe to statistics for; all three
    /// when absent.
    pub filter: Option<MeasurementType>,
}

/// Average, maximum, minimum, and count of values for a period of time, as
/// reported to consumers: the exact average rounded down to a whole value.
#[derive(Clone, Copy, Debug, PartialEq, Eq, Structural)]
pub struct StatsResponseForPeriod {
    /// Average value, rounded down.
    pub average: u64,
    /// Maximum value.
    pub maximum: u64,
    /// Minimum value.
    pub minimum: u64,
    /// The total number of values.
    pub count: u64,
}

/// The reported form of an accumulator.  The average saturates at the
/// largest representable value; for a well-formed accumulator it is always
/// the exact average rounded down.
pub open spec fn spec_response_of(stats: StatsForPeriod) -> StatsResponseForPeriod {
    StatsResponseForPeriod {
        average: if stats.spec_average() > u64::MAX {
            u64::MAX
        } else {
            stats.spec_average() as u64
        },
        maximum: stats.maximum,
        minimum: stats.minimum,
        count: stats.count,
    }
}

impl From<StatsForPeriod> for StatsResponseForPeriod {
    /// Drops the period start time and reports the exact average rounded
    /// down.
    fn from(stats: StatsForPeriod) -> (r: Self)
        ensures
            r == spec_response_of(stats),
    {
        let average: u64 = if stats.count == 0 {
            0
        } else {
            let q: u128 = stats.sum / (stats.count as u128);
            if q > u64::MAX as u128 {
                u64::MAX
            } else {
                q as u64
            }
        };
        StatsResponseForPeriod {
            average,
            maximum: stats.maximum,
            minimum: stats.minimum,
            count: stats.count,
        }
    }
}

impl vstd::std_specs::convert::FromSpecImpl<StatsForPeriod> for StatsResponseForPeriod {
    open spec fn obeys_from_spec() -> bool {
        true
    }

    open spec fn from_spec(stats: StatsForPeriod) -> Self {
        spec_response_of(stats)
    }
}

/// The fold of a sequence of accumulators, merged left to right starting
/// from the empty accumulator.
pub open spec fn merged_all(s: Seq<StatsForPeriod>) -> StatsForPeriod
    decreases s.len(),
{
    if s.len() == 0 {
        StatsForPeriod::spec_zero()
    } else {
        merged_all(s.drop_last()).merged(s.last())
    }
}

/// Folding well-formed accumulators is well formed and counts every sample
/// exactly once.
pub proof fn lemma_merged_all(s: Seq<StatsForPeriod>)
    requires
        forall|i: int| 0 <= i < s.len() ==> (#[trigger] s[i]).wf(),
        total_count(s) <= u64::MAX,
    ensures
        merged_all(s).wf(),
        merged_all(s).count == total_count(s),
    decreases s.len(),
{
    lemma_total_count_take(s, s.len() as int);
    if s.len() > 0 {
        lemma_total_count_parts(s);
        lemma_total_count_take(s.drop_last(), s.drop_last().len() as int);
        lemma_merged_all(s.drop_last());
        crate::period::lemma_merged_wf(merged_all(s.drop_last()), s.last());
    }
}

/// The merged statistics of the most recent `window` entries of a buffer;
/// a window longer than the available history merges only what exists.
pub open spec fn spec_window(buf: Seq<StatsForPeriod>, window: int) -> StatsForPeriod {
    merged_all(
        buf.take(
            if window < buf.len() {
                window
            } else {
                buf.len() as int
            },
        ),
    )
}

/// Windowed query matches buffer content: the derived accumulator of a
/// window is exactly the manual merge of its most recent `window` entries,
/// and a window longer than the available history merges only the entries
/// that exist, never fabricated ones.
pub proof fn lemma_window_matches_buffer(buf: Seq<StatsForPeriod>, window: int)
    requires
        0 <= window,
    ensures
        window <= buf.len() ==> spec_window(buf, window) == merged_all(buf.take(window)),
        window >= buf.len() ==> spec_window(buf, window) == merged_all(buf),
{
    assert(buf.take(buf.len() as int) =~= buf);
}

/// Merges the most recent `window` entries of a buffer.
#[verifier::loop_isolation(false)]
fn fold_window(buffer: &CircularBuffer, window: usize) -> (r: StatsForPeriod)
    requires
        buffer.wf(),
        total_count(buffer@) <= u64::MAX,
    ensures
        r == spec_window(buffer@, window as int),
        r.wf(),
{
    let len = buffer.len();
    let n: usize = if window < len {
        window
    } else {
        len
    };
    let mut acc = StatsForPeriod::default();
    proof {
        assert(buffer@.take(0) =~= Seq::<StatsForPeriod>::empty());
        lemma_merged_all(buffer@.take(0));
        lemma_total_count_take(buffer@, 0);
    }
    let mut j: usize = 0;
    while j < n
        invariant
            0 <= j <= n,
            acc == merged_all(buffer@.take(j as int)),
            acc.wf(),
            acc.count == total_count(buffer@.take(j as int)),
        decreases n - j,
    {
        proof {
            lemma_total_count_parts(buffer@.take(j + 1));
            assert(buffer@.take(j + 1).drop_last() =~= buffer@.take(j as int));
            lemma_total_count_take(buffer@, j + 1);
        }
        acc.update(buffer.entry(j));
        j = j + 1;
    }
    acc
}

/// Whether a named-period sequence is ordered by ascending window length.
pub open spec fn sorted_by_window(s: Seq<(String, usize)>) -> bool {
    forall|i: int, j: int| 0 <= i < j < s.len() ==> (#[trigger] s[i]).1 <= (#[trigger] s[j]).1
}

/// Insertion of a named period into a sequence, before the first entry with
/// a strictly longer window (so entries with equal windows keep their
/// relative order).
pub open spec fn spec_insert_period(p: (String, usize), s: Seq<(String, usize)>) -> Seq<
    (String, usize),
>
    decreases s.len(),
{
    if s.len() == 0 {
        seq![p]
    } else if p.1 < s[0].1 {
        seq![p] + s
    } else {
        seq![s[0]] + spec_insert_period(p, s.drop_first())
    }
}

/// Stable insertion sort of named periods by ascending window length.
pub open spec fn spec_sort_periods(s: Seq<(String, usize)>) -> Seq<(String, usize)>
    decreases s.len(),
{
    if s.len() == 0 {
        Seq::<(String, usize)>::empty()
    } else {
        spec_insert_period(s.last(), spec_sort_periods(s.drop_last()))
    }
}

/// Inserting at the first position whose window is strictly longer realises
/// `spec_insert_period`, and keeps the sequence sorted.
proof fn lemma_insert_period_at(p: (String, usize), s: Seq<(String, usize)>, pos: int)
    requires
        0 <= pos <= s.len(),
        forall|j: int| 0 <= j < pos ==> (#[trigger] s[j]).1 <= p.1,
        pos < s.len() ==> s[pos].1 > p.1,
        sorted_by_window(s),
    ensures
        spec_insert_period(p, s) =~= s.insert(pos, p),
        sorted_by_window(s.insert(pos, p)),
    decreases s.len(),
{
    if s.len() == 0 {
        assert(spec_insert_period(p, s) =~= s.insert(0, p));
    } else if pos == 0 {
        assert(spec_insert_period(p, s) =~= s.insert(0, p));
    } else {
        lemma_insert_period_at(p, s.drop_first(), pos - 1);
        assert(s.insert(pos, p).drop_first() =~= s.drop_first().insert(pos - 1, p));
        assert(spec_insert_period(p, s) =~= seq![s[0]] + s.drop_first().insert(pos - 1, p));
    }
    let r = s.insert(pos, p);
    assert forall|i: int, j: int| 0 <= i < j < r.len() implies (#[trigger] r[i]).1 <= (
    #[trigger] r[j]).1 by {
        if i < pos && j > pos {
            assert(r[i] == s[i]);
            assert(r[j] == s[j - 1]);
        }
    }
}

/// Sorts the configured named periods by ascending window length, keeping
/// the relative order of periods with equal lengths.
#[verifier::loop_isolation(false)]
fn sort_periods(periods: &Vec<(String, usize)>) -> (r: Vec<(String, usize)>)
    ensures
        r@ == spec_sort_periods(periods@),
        sorted_by_window(r@),
        r@.len() == periods@.len(),
{
    let mut out: Vec<(String, usize)> = Vec::new();
    proof {
        assert(periods@.take(0) =~= Seq::<(String, usize)>::empty());
    }
    let mut k: usize = 0;
    while k < periods.len()
        invariant
            0 <= k <= periods@.len(),
            out@ == spec_sort_periods(periods@.take(k as int)),
            out@.len() == k,
            sorted_by_window(out@),
        decreases periods@.len() - k,
    {
        let window: usize = periods[k].1;
        let mut pos: usize = 0;
        while pos < out.len() && out[pos].1 <= window
            invariant
                0 <= pos <= out@.len(),
                forall|j: int| 0 <= j < pos ==> (#[trigger] out@[j]).1 <= window,
            decreases out@.len() - pos,
        {
            pos = pos + 1;
        }
        let name = periods[k].0.clone();
        let ghost before = out@;
        out.insert(pos, (name, window));
        proof {
            assert((name, window) == periods@[k as int]);
            lemma_insert_period_at(periods@[k as int], before, pos as int);
            assert(periods@.take(k + 1).drop_last() =~= periods@.take(k as int));
            assert(periods@.take(k + 1).last() == periods@[k as int]);
            assert(out@ == spec_sort_periods(periods@.take(k + 1)));
        }
        k = k + 1;
    }
    proof {
        assert(periods@.take(periods@.len() as int) =~= periods@);
    }
    out
}

/// Whether a status-code counter sequence is ordered by ascending code.
pub open spec fn sorted_by_code(s: Seq<(u16, u64)>) -> bool {
    forall|i: int, j: int| 0 <= i < j < s.len() ==> (#[trigger] s[i]).0 <= (#[trigger] s[j]).0
}

/// Insertion of a status-code counter before the first entry with a
/// strictly greater code.
pub open spec fn spec_insert_code(p: (u16, u64), s: Seq<(u16, u64)>) -> Seq<(u16, u64)>
    decreases s.len(),
{
    if s.len() == 0 {
        seq![p]
    } else if p.0 < s[0].0 {
        seq![p] + s
    } else {
        seq![s[0]] + spec_insert_code(p, s.drop_first())
    }
}

/// Insertion sort of status-code counters by ascending code.
pub open spec fn spec_sort_codes(s: Seq<(u16, u64)>) -> Seq<(u16, u64)>
    decreases s.len(),
{
    if s.len() == 0 {
        Seq::<(u16, u64)>::empty()
    } else {
        spec_insert_code(s.last(), spec_sort_codes(s.drop_last()))
    }
}

/// Inserting at the first position whose code is strictly greater realises
/// `spec_insert_code`, and keeps the sequence sorted.
proof fn lemma_insert_code_at(p: (u16, u64), s: Seq<(u16, u64)>, pos: int)
    requires
        0 <= pos <= s.len(),
        forall|j: int| 0 <= j < pos ==> (#[trigger] s[j]).0 <= p.0,
        pos < s.len() ==> s[pos].0 > p.0,
        sorted_by_code(s),
    ensures
        spec_insert_code(p, s) =~= s.insert(pos, p),
        sorted_by_code(s.insert(pos, p)),
    decreases s.len(),
{
    if s.len() == 0 {
        assert(spec_insert_code(p, s) =~= s.insert(0, p));
    } else if pos == 0 {
        assert(spec_insert_code(p, s) =~= s.insert(0, p));
    } else {
        lemma_insert_code_at(p, s.drop_first(), pos - 1);
        assert(s.insert(pos, p).drop_first() =~= s.drop_first().insert(pos - 1, p));
        assert(spec_insert_code(p, s) =~= seq![s[0]] + s.drop_first().insert(pos - 1, p));
    }
    let r = s.insert(pos, p);
    assert forall|i: int, j: int| 0 <= i < j < r.len() implies (#[trigger] r[i]).0 <= (
    #[trigger] r[j]).0 by {
        if i < pos && j > pos {
            assert(r[i] == s[i]);
            assert(r[j] == s[j - 1]);
        }
    }
}

/// Returns the status-code counters sorted by ascending code, the order in
/// which they are reported.
#[verifier::loop_isolation(false)]
pub fn serialize_status_codes(codes: &Vec<(u16, u64)>) -> (r: Vec<(u16, u64)>)
    ensures
        r@ == spec_sort_codes(codes@),
        sorted_by_code(r@),
        r@.len() == codes@.len(),
{
    let mut out: Vec<(u16, u64)> = Vec::new();
    proof {
        assert(codes@.take(0) =~= Seq::<(u16, u64)>::empty());
    }
    let mut k: usize = 0;
    while k < codes.len()
        invariant
            0 <= k <= codes@.len(),
            out@ == spec_sort_codes(codes@.take(k as int)),
            out@.len() == k,
            sorted_by_code(out@),
        decreases codes@.len() - k,
    {
        let entry = codes[k];
        let mut pos: usize = 0;
        while pos < out.len() && out[pos].0 <= entry.0
            invariant
                0 <= pos <= out@.len(),
                forall|j: int| 0 <= j < pos ==> (#[trigger] out@[j]).0 <= entry.0,
            decreases out@.len() - pos,
        {
            pos = pos + 1;
        }
        let ghost before = out@;
        out.insert(pos, entry);
        proof {
            lemma_insert_code_at(codes@[k as int], before, pos as int);
            assert(codes@.take(k + 1).drop_last() =~= codes@.take(k as int));
            assert(codes@.take(k + 1).last() == codes@[k as int]);
            assert(out@ == spec_sort_codes(codes@.take(k + 1)));
        }
        k = k + 1;
    }
    proof {
        assert(codes@.take(codes@.len() as int) =~= codes@);
    }
    out
}

/// The application statistics snapshot served to consumers: counters,
/// per-status-code counts, and the per-period and per-endpoint aggregates.
pub struct StatsResponse {
    /// The time the application was started, in whole seconds.
    pub started_at: u64,
    /// The most recent second boundary the engine has rolled over to.
    pub last_second: u64,
    /// The amount of time the application has been running, in seconds.
    pub uptime: u64,
    /// The current number of open connections.
    pub active: u64,
    /// The number of requests that have been made.
    pub requests: u64,
    /// The number of responses that have been handled, by status code,
    /// sorted by ascending code.
    pub codes: Vec<(u16, u64)>,
    /// The response times grouped by configured time period (ascending
    /// window length), with the all-time aggregate last under `all`.
    pub times: Vec<(String, StatsResponseForPeriod)>,
    /// The all-time response times grouped by endpoint.
    pub endpoints: Vec<(Endpoint, StatsResponseForPeriod)>,
    /// The open connections grouped by configured time period, with the
    /// all-time aggregate last under `all`.
    pub connections: Vec<(String, StatsResponseForPeriod)>,
    /// The memory usage grouped by configured time period, with the
    /// all-time aggregate last under `all`.
    pub memory: Vec<(String, StatsResponseForPeriod)>,
}

/// Whether `map` reports, for every named period of `sorted` in order, the
/// merged window of `buf`, followed by a final `all` entry holding the
/// reported form of `all_time`.
pub open spec fn spec_period_map(
    map: Seq<(String, StatsResponseForPeriod)>,
    sorted: Seq<(String, usize)>,
    buf: Seq<StatsForPeriod>,
    all_time: StatsForPeriod,
) -> bool {
    &&& map.len() == sorted.len() + 1
    &&& forall|i: int|
        0 <= i < sorted.len() ==> (#[trigger] map[i]).0 == sorted[i].0 && map[i].1
            == spec_response_of(spec_window(buf, sorted[i].1 as int))
    &&& map[sorted.len() as int].0@ == "all"@
    &&& map[sorted.len() as int].1 == spec_response_of(all_time)
}

/// Builds the per-period report for one quantity: one merged window per
/// configured period, in the given (sorted) order, and the all-time
/// aggregate last under the name `all`.
#[verifier::loop_isolation(false)]
fn period_map(
    buffer: &CircularBuffer,
    sorted: &Vec<(String, usize)>,
    all_time: &StatsForPeriod,
) -> (r: Vec<(String, StatsResponseForPeriod)>)
    requires
        buffer.wf(),
        total_count(buffer@) <= u64::MAX,
    ensures
        spec_period_map(r@, sorted@, buffer@, *all_time),
{
    let mut out: Vec<(String, StatsResponseForPeriod)> = Vec::new();
    let mut i: usize = 0;
    while i < sorted.len()
        invariant
            0 <= i <= sorted@.len(),
            out@.len() == i,
            forall|j: int|
                0 <= j < i ==> (#[trigger] out@[j]).0 == sorted@[j].0 && out@[j].1
                    == spec_response_of(spec_window(buffer@, sorted@[j].1 as int)),
        decreases sorted@.len() - i,
    {
        let window = fold_window(buffer, sorted[i].1);
        out.push((sorted[i].0.clone(), StatsResponseForPeriod::from(window)));
        i = i + 1;
    }
    out.push(("all".to_owned(), StatsResponseForPeriod::from(*all_time)));
    out
}

/// Converts the per-endpoint totals into their reported form, keeping the
/// endpoints in their stored order.
#[verifier::loop_isolation(false)]
fn endpoint_map(endpoints: &Vec<(Endpoint, StatsForPeriod)>) -> (r: Vec<
    (Endpoint, StatsResponseForPeriod),
>)
    ensures
        r@.len() == endpoints@.len(),
        forall|i: int|
            0 <= i < endpoints@.len() ==> (#[trigger] r@[i]).0 == endpoints@[i].0 && r@[i].1
                == spec_response_of(endpoints@[i].1),
{
    let mut out: Vec<(Endpoint, StatsResponseForPeriod)> = Vec::new();
    let mut i: usize = 0;
    while i < endpoints.len()
        invariant
            0 <= i <= endpoints@.len(),
            out@.len() == i,
            forall|j: int|
                0 <= j < i ==> (#[trigger] out@[j]).0 == endpoints@[j].0 && out@[j].1
                    == spec_response_of(endpoints@[j].1),
        decreases endpoints@.len() - i,
    {
        let entry = &endpoints[i];
        out.push((entry.0.clone(), StatsResponseForPeriod::from(entry.1)));
        i = i + 1;
    }
    out
}

/// Application statistics overview: a point-in-time snapshot of the
/// counters, the per-status-code counts sorted by code, the merged window
/// per configured named period (ascending window length, all-time last
/// under `all`) for each quantity, and the all-time per-endpoint response
/// times.  Read-only: the statistics are not modified.
pub fn get_stats(
    data: &AppStats,
    periods: &Vec<(String, usize)>,
    now: u64,
    active: u64,
    requests: u64,
) -> (r: StatsResponse)
    requires
        data.wf(),
        now >= data.started_at,
    ensures
        r.started_at == data.started_at,
        r.last_second == data.last_second,
        r.uptime == now - data.started_at,
        r.active == active,
        r.requests == requests,
        r.codes@ == spec_sort_codes(data.totals.codes@),
        spec_period_map(
            r.times@,
            spec_sort_periods(periods@),
            data.buffers.responses@,
            data.totals.times,
        ),
        spec_period_map(
            r.connections@,
            spec_sort_periods(periods@),
            data.buffers.connections@,
            data.totals.connections,
        ),
        spec_period_map(
            r.memory@,
            spec_sort_periods(periods@),
            data.buffers.memory@,
            data.totals.memory,
        ),
        r.endpoints@.len() == data.totals.endpoints@.len(),
        forall|i: int|
            0 <= i < data.totals.endpoints@.len() ==> (#[trigger] r.endpoints@[i]).0
                == data.totals.endpoints@[i].0 && r.endpoints@[i].1 == spec_response_of(
                data.totals.endpoints@[i].1,
            ),
{
    let sorted = sort_periods(periods);
    let times = period_map(&data.buffers.responses, &sorted, &data.totals.times);
    let connections = period_map(&data.buffers.connections, &sorted, &data.totals.connections);
    let memory = period_map(&data.buffers.memory, &sorted, &data.totals.memory);
    StatsResponse {
        started_at: data.started_at,
        last_second: data.last_second,
        uptime: now - data.started_at,
        active,
        requests,
        codes: serialize_status_codes(&data.totals.codes),
        times,
        endpoints: endpoint_map(&data.totals.endpoints),
        connections,
        memory,
    }
}

/// The historical application statistics for the configured buffers.
pub struct StatsHistoryResponse {
    /// The most recent second boundary the engine has rolled over to.
    pub last_second: u64,
    /// Response time stats per second, most recent first.
    pub times: Vec<StatsResponseForPeriod>,
    /// Connection stats per second, most recent first.
    pub connections: Vec<StatsResponseForPeriod>,
    /// Memory usage stats per second, most recent first.
    pub memory: Vec<StatsResponseForPeriod>,
}

/// The reported slice of one history buffer: the longest prefix of entries
/// at or after `from` (when given), bounded to `limit` entries (when
/// given), each in its reported form.
pub open spec fn spec_history_slice(
    buf: Seq<StatsForPeriod>,
    from: Option<u64>,
    limit: Option<usize>,
) -> Seq<StatsResponseForPeriod> {
    buf.take(limited_len(kept_len(buf, from), limit)).map_values(
        |e: StatsForPeriod| spec_response_of(e),
    )
}

/// Converts the matching slice of one history buffer into its reported
/// form.
#[verifier::loop_isolation(false)]
fn process_buffer(buffer: &CircularBuffer, from: Option<u64>, limit: Option<usize>) -> (r: Vec<
    StatsResponseForPeriod,
>)
    ensures
        r@ == spec_history_slice(buffer@, from, limit),
{
    let entries = buffer.recent(limit, from);
    let ghost taken = buffer@.take(limited_len(kept_len(buffer@, from), limit));
    let mut out: Vec<StatsResponseForPeriod> = Vec::new();
    let mut i: usize = 0;
    while i < entries.len()
        invariant
            0 <= i <= entries@.len(),
            entries@ == taken,
            out@.len() == i,
            forall|j: int| 0 <= j < i ==> (#[trigger] out@[j]) == spec_response_of(taken[j]),
        decreases entries@.len() - i,
    {
        out.push(StatsResponseForPeriod::from(entries[i]));
        i = i + 1;
    }
    proof {
        assert(out@ =~= spec_history_slice(buffer@, from, limit));
    }
    out
}

/// Historical application statistics interval data: the per-second entries
/// of the selected buffer (or of all three when no filter is given), most
/// recent first, bounded by the optional start time and item limit.
/// Read-only: the statistics are not modified.
pub fn get_stats_history(data: &AppStats, params: &GetStatsHistoryParams) -> (r:
    StatsHistoryResponse)
    requires
        data.wf(),
    ensures
        r.last_second == data.last_second,
        ({
            let times = spec_history_slice(data.buffers.responses@, params.from, params.limit);
            let connections = spec_history_slice(
                data.buffers.connections@,
                params.from,
                params.limit,
            );
            let memory = spec_history_slice(data.buffers.memory@, params.from, params.limit);
            match params.buffer {
                Some(MeasurementType::Times) => r.times@ == times && r.connections@.len() == 0
                    && r.memory@.len() == 0,
                Some(MeasurementType::Connections) => r.times@.len() == 0 && r.connections@
                    == connections && r.memory@.len() == 0,
                Some(MeasurementType::Memory) => r.times@.len() == 0 && r.connections@.len() == 0
                    && r.memory@ == memory,
                None => r.times@ == times && r.connections@ == connections && r.memory@ == memory,
            }
        }),
{
    let mut response = StatsHistoryResponse {
        last_second: data.last_second,
        times: Vec::new(),
        connections: Vec::new(),
        memory: Vec::new(),
    };
    match params.buffer {
        Some(MeasurementType::Times) => {
            response.times = process_buffer(&data.buffers.responses, params.from, params.limit);
        },
        Some(MeasurementType::Connections) => {
            response.connections = process_buffer(
                &data.buffers.connections,
                params.from,
                params.limit,
            );
        },
        Some(MeasurementType::Memory) => {
            response.memory = process_buffer(&data.buffers.memory, params.from, params.limit);
        },
        None => {
            response.times = process_buffer(&data.buffers.responses, params.from, params.limit);
            response.connections = process_buffer(
                &data.buffers.connections,
                params.from,
                params.limit,
            );
            response.memory = process_buffer(&data.buffers.memory, params.from, params.limit);
        },
    }
    response
}

} // verus!
