//! All-time cumulative totals: per-status-code response counts and per-quantity
//! and per-endpoint accumulators, mutated only by the aggregation engine.

use vstd::prelude::*;
use crate::period::StatsForPeriod;

verus! {

/// An endpoint of the application: the HTTP method and the request path,
/// used as a grouping key for per-endpoint statistics.
#[derive(Debug)]
pub struct Endpoint {
    /// The HTTP method, e.g. `GET`.
    pub method: String,
    /// The request path, e.g. `/api/stats`.
    pub path: String,
}

impl Endpoint {
    /// The grouping key of the endpoint: the method and path character
    /// sequences.
    pub open spec fn key(self) -> (Seq<char>, Seq<char>) {
        (self.method@, self.path@)
    }
}

impl Clone for Endpoint {
    /// Cloning keeps the method and the path.
    fn clone(&self) -> (r: Self)
        ensures
            r == *self,
    {
        Endpoint { method: self.method.clone(), path: self.path.clone() }
    }
}

impl PartialEq for Endpoint {
    fn eq(&self, other: &Self) -> (r: bool)
        ensures
            r == (self.key() == other.key()),
    {
        let same: bool = self.method == other.method && self.path == other.path;
        proof {
            if same {
                assert(self.key() == other.key());
            }
        }
        same
    }
}

impl vstd::std_specs::cmp::PartialEqSpecImpl for Endpoint {
    open spec fn obeys_eq_spec() -> bool {
        true
    }

    open spec fn eq_spec(&self, other: &Self) -> bool {
        self.key() == other.key()
    }
}

/// The per-status-code counters after one more response with `code`: the
/// first entry for `code` is incremented, or a fresh entry with count 1 is
/// appended when none exists.
pub open spec fn spec_bump_code(s: Seq<(u16, u64)>, code: u16) -> Seq<(u16, u64)>
    decreases s.len(),
{
    if s.len() == 0 {
        seq![(code, 1u64)]
    } else if s[0].0 == code {
        seq![(s[0].0, (s[0].1 + 1) as u64)] + s.drop_first()
    } else {
        seq![s[0]] + spec_bump_code(s.drop_first(), code)
    }
}

/// The per-endpoint accumulators after merging `new` into the first entry
/// whose key matches `endpoint`, or appending `(endpoint, new)` when none
/// does.
pub open spec fn spec_merge_endpoint(
    s: Seq<(Endpoint, StatsForPeriod)>,
    endpoint: Endpoint,
    new: StatsForPeriod,
) -> Seq<(Endpoint, StatsForPeriod)>
    decreases s.len(),
{
    if s.len() == 0 {
        seq![(endpoint, new)]
    } else if s[0].0.key() == endpoint.key() {
        seq![(s[0].0, s[0].1.merged(new))] + s.drop_first()
    } else {
        seq![s[0]] + spec_merge_endpoint(s.drop_first(), endpoint, new)
    }
}

/// The all-time application statistics totals for each area sampled.
pub struct AppStatsTotals {
    /// The number of responses that have been handled, by status code.
    pub codes: Vec<(u16, u64)>,
    /// The response times since the application last started.
    pub times: StatsForPeriod,
    /// The response times by endpoint since the application last started.
    pub endpoints: Vec<(Endpoint, StatsForPeriod)>,
    /// The open connections since the application last started.
    pub connections: StatsForPeriod,
    /// The memory usage since the application last started.
    pub memory: StatsForPeriod,
}

impl AppStatsTotals {
    /// Well-formedness: status codes and endpoint keys are unique, every
    /// accumulator is well formed, and no single counter can exceed the
    /// total number of timed responses.
    pub open spec fn wf(self) -> bool {
        &&& self.times.wf()
        &&& self.connections.wf()
        &&& self.memory.wf()
        &&& forall|i: int, j: int|
            0 <= i < j < self.codes@.len() ==> (#[trigger] self.codes@[i]).0 != (
            #[trigger] self.codes@[j]).0
        &&& forall|i: int| 0 <= i < self.codes@.len() ==> (#[trigger] self.codes@[i]).1 <= self.times.count
        &&& forall|i: int, j: int|
            0 <= i < j < self.endpoints@.len() ==> (#[trigger] self.endpoints@[i]).0.key() != (
            #[trigger] self.endpoints@[j]).0.key()
        &&& forall|i: int|
            0 <= i < self.endpoints@.len() ==> (#[trigger] self.endpoints@[i]).1.wf() && self.endpoints@[i].1.count
                <= self.times.count
    }

    /// The canonical starting totals: one zeroed counter for each of the
    /// status codes the application reports by default, and empty
    /// accumulators everywhere else.
    pub fn new() -> (r: AppStatsTotals)
        ensures
            r.wf(),
            r.codes@ == seq![(200u16, 0u64), (401u16, 0u64), (404u16, 0u64), (500u16, 0u64)],
            r.times == StatsForPeriod::spec_zero(),
            r.endpoints@ == Seq::<(Endpoint, StatsForPeriod)>::empty(),
            r.connections == StatsForPeriod::spec_zero(),
            r.memory == StatsForPeriod::spec_zero(),
    {
        let mut codes: Vec<(u16, u64)> = Vec::new();
        codes.push((200, 0));
        codes.push((401, 0));
        codes.push((404, 0));
        codes.push((500, 0));
        proof {
            assert(codes@ =~= seq![(200u16, 0u64), (401u16, 0u64), (404u16, 0u64), (500u16, 0u64)]);
        }
        AppStatsTotals {
            codes,
            times: StatsForPeriod::default(),
            endpoints: Vec::new(),
            connections: StatsForPeriod::default(),
            memory: StatsForPeriod::default(),
        }
    }

    /// Records one completed response into the totals: the status-code
    /// counter is bumped, the timing sample is merged into the all-time and
    /// the per-endpoint accumulators, and the connection and memory samples
    /// are merged into theirs.
    pub fn record(
        &mut self,
        endpoint: &Endpoint,
        status_code: u16,
        time_taken: u64,
        connections: u64,
        memory: u64,
    )
        requires
            old(self).wf(),
            old(self).times.count < u64::MAX,
            old(self).connections.count < u64::MAX,
            old(self).memory.count < u64::MAX,
        ensures
            final(self).wf(),
            final(self).codes@ == spec_bump_code(old(self).codes@, status_code),
            final(self).times == old(self).times.merged(StatsForPeriod::spec_single(time_taken)),
            final(self).endpoints@ == spec_merge_endpoint(
                old(self).endpoints@,
                *endpoint,
                StatsForPeriod::spec_single(time_taken),
            ),
            final(self).connections == old(self).connections.merged(
                StatsForPeriod::spec_single(connections),
            ),
            final(self).memory == old(self).memory.merged(StatsForPeriod::spec_single(memory)),
    {
        let new_timing = StatsForPeriod::initialize(time_taken);
        let new_conns = StatsForPeriod::initialize(connections);
        let new_memory = StatsForPeriod::initialize(memory);
        self.bump_code(status_code);
        self.times.update(&new_timing);
        self.merge_endpoint(endpoint, new_timing);
        self.connections.update(&new_conns);
        self.memory.update(&new_memory);
        proof {
            lemma_bump_code_wf(old(self).codes@, status_code, old(self).times.count as int);
            lemma_merge_endpoint_wf(
                old(self).endpoints@,
                *endpoint,
                new_timing,
                old(self).times.count as int,
            );
        }
    }

    /// Increments the counter of `status_code`, inserting it at count 1 when
    /// it has not been seen before.
    #[verifier::loop_isolation(false)]
    fn bump_code(&mut self, status_code: u16)
        requires
            forall|i: int, j: int|
                0 <= i < j < old(self).codes@.len() ==> (#[trigger] old(self).codes@[i]).0 != (
                #[trigger] old(self).codes@[j]).0,
            forall|i: int| 0 <= i < old(self).codes@.len() ==> (#[trigger] old(self).codes@[i]).1 < u64::MAX,
        ensures
            final(self).codes@ == spec_bump_code(old(self).codes@, status_code),
            *final(self) == (AppStatsTotals { codes: final(self).codes, ..*old(self) }),
    {
        let n: usize = self.codes.len();
        let mut i: usize = 0;
        while i < n
            invariant
                0 <= i <= n,
                n == self.codes@.len(),
                *self == *old(self),
                forall|j: int| 0 <= j < i ==> (#[trigger] self.codes@[j]).0 != status_code,
            decreases n - i,
        {
            if self.codes[i].0 == status_code {
                let count: u64 = self.codes[i].1;
                self.codes[i] = (status_code, count + 1);
                proof {
                    lemma_bump_code_found(old(self).codes@, status_code, i as int);
                }
                return ;
            }
            i = i + 1;
        }
        self.codes.push((status_code, 1));
        proof {
            lemma_bump_code_absent(old(self).codes@, status_code);
        }
    }

    /// Merges `new` into the accumulator of `endpoint`, inserting the pair
    /// when the endpoint has not been seen before.
    #[verifier::loop_isolation(false)]
    fn merge_endpoint(&mut self, endpoint: &Endpoint, new: StatsForPeriod)
        requires
            new.wf(),
            forall|i: int, j: int|
                0 <= i < j < old(self).endpoints@.len() ==> (#[trigger] old(
                    self,
                ).endpoints@[i]).0.key() != (#[trigger] old(self).endpoints@[j]).0.key(),
            forall|i: int|
                0 <= i < old(self).endpoints@.len() ==> (#[trigger] old(self).endpoints@[i]).1.wf()
                    && old(self).endpoints@[i].1.count + new.count <= u64::MAX,
        ensures
            final(self).endpoints@ == spec_merge_endpoint(old(self).endpoints@, *endpoint, new),
            *final(self) == (AppStatsTotals { endpoints: final(self).endpoints, ..*old(self) }),
    {
        let n: usize = self.endpoints.len();
        let mut i: usize = 0;
        while i < n
            invariant
                0 <= i <= n,
                n == self.endpoints@.len(),
                *self == *old(self),
                forall|j: int| 0 <= j < i ==> (#[trigger] self.endpoints@[j]).0.key() != endpoint.key(),
            decreases n - i,
        {
            let found: bool = {
                let entry = &self.endpoints[i];
                entry.0.method == endpoint.method && entry.0.path == endpoint.path
            };
            if found {
                let (key, mut stats) = self.endpoints.remove(i);
                stats.update(&new);
                self.endpoints.insert(i, (key, stats));
                proof {
                    lemma_merge_endpoint_found(old(self).endpoints@, *endpoint, new, i as int);
                    assert(self.endpoints@ =~= old(self).endpoints@.update(
                        i as int,
                        (old(self).endpoints@[i as int].0, old(self).endpoints@[i as int].1.merged(new)),
                    ));
                }
                return ;
            }
            i = i + 1;
        }
        self.endpoints.push((endpoint.clone(), new));
        proof {
            lemma_merge_endpoint_absent(old(self).endpoints@, *endpoint, new);
            assert(self.endpoints@ =~= old(self).endpoints@.push((
                *endpoint,
                new,
            )));
        }
    }
}

/// Bumping a status code keeps the keys unique and raises no counter by more
/// than one.
proof fn lemma_bump_code_wf(s: Seq<(u16, u64)>, code: u16, bound: int)
    requires
        forall|i: int, j: int| 0 <= i < j < s.len() ==> (#[trigger] s[i]).0 != (#[trigger] s[j]).0,
        forall|i: int| 0 <= i < s.len() ==> (#[trigger] s[i]).1 <= bound,
        bound < u64::MAX,
        bound >= 0,
    ensures
        ({
            let b = spec_bump_code(s, code);
            &&& forall|i: int, j: int|
                0 <= i < j < b.len() ==> (#[trigger] b[i]).0 != (#[trigger] b[j]).0
            &&& forall|i: int| 0 <= i < b.len() ==> (#[trigger] b[i]).1 <= bound + 1
        }),
    decreases s.len(),
{
    let b = spec_bump_code(s, code);
    if s.len() == 0 {
    } else if s[0].0 == code {
        assert forall|i: int, j: int| 0 <= i < j < b.len() implies (#[trigger] b[i]).0 != (
        #[trigger] b[j]).0 by {
            assert(b[i].0 == s[i].0);
            assert(b[j].0 == s[j].0);
        }
        assert forall|i: int| 0 <= i < b.len() implies (#[trigger] b[i]).1 <= bound + 1 by {
            if i > 0 {
                assert(b[i] == s[i]);
            }
        }
    } else {
        lemma_bump_code_wf(s.drop_first(), code, bound);
        let br = spec_bump_code(s.drop_first(), code);
        assert forall|i: int, j: int| 0 <= i < j < b.len() implies (#[trigger] b[i]).0 != (
        #[trigger] b[j]).0 by {
            if i > 0 {
                assert(b[i] == br[i - 1]);
                assert(b[j] == br[j - 1]);
            } else {
                assert(b[j] == br[j - 1]);
                lemma_bump_code_keys(s.drop_first(), code, j - 1);
            }
        }
        assert forall|i: int| 0 <= i < b.len() implies (#[trigger] b[i]).1 <= bound + 1 by {
            if i > 0 {
                assert(b[i] == br[i - 1]);
            }
        }
    }
}

/// Every key of a bumped counter sequence is either `code` or a key that was
/// already present.
proof fn lemma_bump_code_keys(s: Seq<(u16, u64)>, code: u16, i: int)
    requires
        0 <= i < spec_bump_code(s, code).len(),
    ensures
        spec_bump_code(s, code)[i].0 == code || exists|j: int|
            0 <= j < s.len() && (#[trigger] s[j]).0 == spec_bump_code(s, code)[i].0,
    decreases s.len(),
{
    let b = spec_bump_code(s, code);
    if s.len() == 0 {
    } else if s[0].0 == code {
        if i > 0 {
            assert(b[i] == s[i]);
        }
    } else {
        if i == 0 {
            assert(b[0] == s[0]);
        } else {
            lemma_bump_code_keys(s.drop_first(), code, i - 1);
            assert(b[i] == spec_bump_code(s.drop_first(), code)[i - 1]);
            if b[i].0 != code {
                let j = choose|j: int|
                    0 <= j < s.drop_first().len() && (#[trigger] s.drop_first()[j]).0 == b[i].0;
                assert(s[j + 1].0 == b[i].0);
            }
        }
    }
}

/// Merging into the per-endpoint accumulators keeps the keys unique and
/// keeps every accumulator well formed, raising no count by more than the
/// merged sample's.
proof fn lemma_merge_endpoint_wf(
    s: Seq<(Endpoint, StatsForPeriod)>,
    endpoint: Endpoint,
    new: StatsForPeriod,
    bound: int,
)
    requires
        new.wf(),
        forall|i: int, j: int|
            0 <= i < j < s.len() ==> (#[trigger] s[i]).0.key() != (#[trigger] s[j]).0.key(),
        forall|i: int| 0 <= i < s.len() ==> (#[trigger] s[i]).1.wf() && s[i].1.count <= bound,
        new.count <= bound + new.count,
        bound + new.count <= u64::MAX,
        bound >= 0,
    ensures
        ({
            let b = spec_merge_endpoint(s, endpoint, new);
            &&& forall|i: int, j: int|
                0 <= i < j < b.len() ==> (#[trigger] b[i]).0.key() != (#[trigger] b[j]).0.key()
            &&& forall|i: int|
                0 <= i < b.len() ==> (#[trigger] b[i]).1.wf() && b[i].1.count <= bound + new.count
        }),
    decreases s.len(),
{
    let b = spec_merge_endpoint(s, endpoint, new);
    if s.len() == 0 {
    } else if s[0].0.key() == endpoint.key() {
        crate::period::lemma_merged_wf(s[0].1, new);
        assert forall|i: int, j: int| 0 <= i < j < b.len() implies (#[trigger] b[i]).0.key() != (
        #[trigger] b[j]).0.key() by {
            assert(b[i].0 == s[i].0);
            assert(b[j].0 == s[j].0);
        }
        assert forall|i: int| 0 <= i < b.len() implies (#[trigger] b[i]).1.wf() && b[i].1.count
            <= bound + new.count by {
            if i > 0 {
                assert(b[i] == s[i]);
            }
        }
    } else {
        lemma_merge_endpoint_wf(s.drop_first(), endpoint, new, bound);
        let br = spec_merge_endpoint(s.drop_first(), endpoint, new);
        assert forall|i: int, j: int| 0 <= i < j < b.len() implies (#[trigger] b[i]).0.key() != (
        #[trigger] b[j]).0.key() by {
            if i > 0 {
                assert(b[i] == br[i - 1]);
                assert(b[j] == br[j - 1]);
            } else {
                assert(b[j] == br[j - 1]);
                lemma_merge_endpoint_keys(s.drop_first(), endpoint, new, j - 1);
            }
        }
        assert forall|i: int| 0 <= i < b.len() implies (#[trigger] b[i]).1.wf() && b[i].1.count
            <= bound + new.count by {
            if i > 0 {
                assert(b[i] == br[i - 1]);
            }
        }
    }
}

/// Every key of a merged per-endpoint sequence is either the merged
/// endpoint's key or a key that was already present.
proof fn lemma_merge_endpoint_keys(
    s: Seq<(Endpoint, StatsForPeriod)>,
    endpoint: Endpoint,
    new: StatsForPeriod,
    i: int,
)
    requires
        0 <= i < spec_merge_endpoint(s, endpoint, new).len(),
    ensures
        spec_merge_endpoint(s, endpoint, new)[i].0.key() == endpoint.key() || exists|j: int|
            0 <= j < s.len() && (#[trigger] s[j]).0.key() == spec_merge_endpoint(
                s,
                endpoint,
                new,
            )[i].0.key(),
    decreases s.len(),
{
    let b = spec_merge_endpoint(s, endpoint, new);
    if s.len() == 0 {
    } else if s[0].0.key() == endpoint.key() {
        if i > 0 {
            assert(b[i] == s[i]);
        } else {
            assert(s[0].0.key() == b[0].0.key());
        }
    } else {
        if i == 0 {
            assert(b[0] == s[0]);
        } else {
            lemma_merge_endpoint_keys(s.drop_first(), endpoint, new, i - 1);
            assert(b[i] == spec_merge_endpoint(s.drop_first(), endpoint, new)[i - 1]);
            if b[i].0.key() != endpoint.key() {
                let j = choose|j: int|
                    0 <= j < s.drop_first().len() && (#[trigger] s.drop_first()[j]).0.key()
                        == b[i].0.key();
                assert(s[j + 1].0.key() == b[i].0.key());
            }
        }
    }
}

/// When `code` occurs first at position `i`, bumping rewrites exactly that
/// entry.
proof fn lemma_bump_code_found(s: Seq<(u16, u64)>, code: u16, i: int)
    requires
        0 <= i < s.len(),
        s[i].0 == code,
        forall|j: int| 0 <= j < i ==> (#[trigger] s[j]).0 != code,
    ensures
        spec_bump_code(s, code) =~= s.update(i, (code, (s[i].1 + 1) as u64)),
    decreases s.len(),
{
    if i > 0 {
        lemma_bump_code_found(s.drop_first(), code, i - 1);
        assert(s.update(i, (code, (s[i].1 + 1) as u64)).drop_first() =~= s.drop_first().update(
            i - 1,
            (code, (s[i].1 + 1) as u64),
        ));
    }
}

/// When `code` does not occur, bumping appends a fresh entry with count 1.
proof fn lemma_bump_code_absent(s: Seq<(u16, u64)>, code: u16)
    requires
        forall|j: int| 0 <= j < s.len() ==> (#[trigger] s[j]).0 != code,
    ensures
        spec_bump_code(s, code) =~= s.push((code, 1u64)),
    decreases s.len(),
{
    if s.len() > 0 {
        lemma_bump_code_absent(s.drop_first(), code);
        assert(s.push((code, 1u64)).drop_first() =~= s.drop_first().push((code, 1u64)));
    }
}

/// When the endpoint's key occurs first at position `i`, merging rewrites
/// exactly that entry.
proof fn lemma_merge_endpoint_found(
    s: Seq<(Endpoint, StatsForPeriod)>,
    endpoint: Endpoint,
    new: StatsForPeriod,
    i: int,
)
    requires
        0 <= i < s.len(),
        s[i].0.key() == endpoint.key(),
        forall|j: int| 0 <= j < i ==> (#[trigger] s[j]).0.key() != endpoint.key(),
    ensures
        spec_merge_endpoint(s, endpoint, new) =~= s.update(i, (s[i].0, s[i].1.merged(new))),
    decreases s.len(),
{
    if i > 0 {
        lemma_merge_endpoint_found(s.drop_first(), endpoint, new, i - 1);
        assert(s.update(i, (s[i].0, s[i].1.merged(new))).drop_first() =~= s.drop_first().update(
            i - 1,
            (s[i].0, s[i].1.merged(new)),
        ));
    }
}

/// When the endpoint's key does not occur, merging appends the fresh pair.
proof fn lemma_merge_endpoint_absent(
    s: Seq<(Endpoint, StatsForPeriod)>,
    endpoint: Endpoint,
    new: StatsForPeriod,
)
    requires
        forall|j: int| 0 <= j < s.len() ==> (#[trigger] s[j]).0.key() != endpoint.key(),
    ensures
        spec_merge_endpoint(s, endpoint, new) =~= s.push((endpoint, new)),
    decreases s.len(),
{
    if s.len() > 0 {
        lemma_merge_endpoint_absent(s.drop_first(), endpoint, new);
        assert(s.push((endpoint, new)).drop_first() =~= s.drop_first().push((endpoint, new)));
    }
}

} // verus!
