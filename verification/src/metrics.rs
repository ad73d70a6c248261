//! Request metrics: per method the requests counted and in flight, per method
//! and status the distribution of handling times.

use crate::http::{header_pairs, Header};
use crate::text::{decimal, push_decimal, str_eq};
use std::time::Instant;
use vstd::prelude::*;
use vstd::utf8::encode_utf8;

verus! {

/// Upper bounds of the duration buckets, in whole seconds; a last bucket
/// without a bound follows them.
pub const BUCKET_BOUNDS: [u64; 15] = [
    0,
    5,
    10,
    25,
    50,
    75,
    100,
    250,
    500,
    750,
    1000,
    2500,
    5000,
    7500,
    10000,
];

/// The nanoseconds of one second.
pub const NANOS_PER_SECOND: u128 = 1_000_000_000;

/// `n` held to the range of a `u64`.
pub open spec fn clip_u64(n: nat) -> nat {
    if n > u64::MAX {
        u64::MAX as nat
    } else {
        n
    }
}

/// `n` held to the range of a `u128`.
pub open spec fn clip_u128(n: nat) -> nat {
    if n > u128::MAX {
        u128::MAX as nat
    } else {
        n
    }
}

/// `n` held to the range of an `i64`.
pub open spec fn clip_i64(n: int) -> int {
    if n > i64::MAX {
        i64::MAX as int
    } else if n < i64::MIN {
        i64::MIN as int
    } else {
        n
    }
}

/// The bucket a handling time of `nanos` nanoseconds falls into: the first
/// whose bound it does not exceed, counted from `from`; the last where it
/// exceeds them all.
pub open spec fn bucket_from(nanos: nat, from: int) -> int
    decreases 15 - from,
{
    if from < 0 || from >= 15 || nanos <= BUCKET_BOUNDS@[from] * NANOS_PER_SECOND {
        from
    } else {
        bucket_from(nanos, from + 1)
    }
}

/// The bucket a handling time of `nanos` nanoseconds falls into.
pub open spec fn bucket_of(nanos: nat) -> int {
    bucket_from(nanos, 0)
}

/// What the bucket of a handling time is: the first bucket whose bound the
/// time does not exceed, or the last, which has no bound.
pub proof fn lemma_bucket_of(nanos: nat)
    ensures
        0 <= bucket_of(nanos) <= 15,
        bucket_of(nanos) < 15 ==> nanos <= BUCKET_BOUNDS@[bucket_of(nanos)] * NANOS_PER_SECOND,
        forall|k: int|
            0 <= k < bucket_of(nanos) ==> nanos > (#[trigger] BUCKET_BOUNDS@[k])
                * NANOS_PER_SECOND,
{
    lemma_bucket_from(nanos, 0);
}

proof fn lemma_bucket_from(nanos: nat, from: int)
    requires
        0 <= from <= 15,
    ensures
        from <= bucket_from(nanos, from) <= 15,
        bucket_from(nanos, from) < 15 ==> nanos <= BUCKET_BOUNDS@[bucket_from(nanos, from)]
            * NANOS_PER_SECOND,
        forall|k: int|
            from <= k < bucket_from(nanos, from) ==> nanos > (#[trigger] BUCKET_BOUNDS@[k])
                * NANOS_PER_SECOND,
    decreases 15 - from,
{
    if from < 15 && nanos > BUCKET_BOUNDS@[from] * NANOS_PER_SECOND {
        lemma_bucket_from(nanos, from + 1);
    }
}

/// The counters of one method.
pub struct MethodRow {
    pub method: Seq<char>,
    pub requests: nat,
    pub in_flight: int,
}

/// The handling times seen for one method and status.
pub struct DurationRow {
    pub method: Seq<char>,
    pub status: u16,
    pub count: nat,
    pub sum_nanos: nat,
    pub buckets: Seq<nat>,
}

/// The metrics as plain mathematical values: rows in the order in which
/// their keys were first seen.
pub struct MetricsView {
    pub methods: Seq<MethodRow>,
    pub durations: Seq<DurationRow>,
}

/// `i` is where the first row for `method` stands, or the number of rows
/// where there is none.
pub open spec fn is_method_row(rows: Seq<MethodRow>, method: Seq<char>, i: int) -> bool {
    &&& 0 <= i <= rows.len()
    &&& i < rows.len() ==> rows[i].method == method
    &&& forall|j: int| 0 <= j < i ==> (#[trigger] rows[j]).method != method
}

/// Where the first row for `method` stands; the number of rows where there
/// is none.
pub open spec fn method_row(rows: Seq<MethodRow>, method: Seq<char>) -> int {
    choose|i: int| is_method_row(rows, method, i)
}

/// `i` is where the first row for `method` and `status` stands, or the number
/// of rows where there is none.
pub open spec fn is_duration_row(
    rows: Seq<DurationRow>,
    method: Seq<char>,
    status: u16,
    i: int,
) -> bool {
    &&& 0 <= i <= rows.len()
    &&& i < rows.len() ==> rows[i].method == method && rows[i].status == status
    &&& forall|j: int|
        0 <= j < i ==> !((#[trigger] rows[j]).method == method && rows[j].status == status)
}

/// Where the first row for `method` and `status` stands; the number of rows
/// where there is none.
pub open spec fn duration_row(rows: Seq<DurationRow>, method: Seq<char>, status: u16) -> int {
    choose|i: int| is_duration_row(rows, method, status, i)
}

/// A row for `method` and `status` that has seen nothing.
pub open spec fn fresh_duration_row(method: Seq<char>, status: u16) -> DurationRow {
    DurationRow { method, status, count: 0, sum_nanos: 0, buckets: Seq::new(16, |k: int| 0nat) }
}

/// `row` after one more handling time of `nanos` nanoseconds.
pub open spec fn observed(row: DurationRow, nanos: nat) -> DurationRow {
    DurationRow {
        method: row.method,
        status: row.status,
        count: clip_u64(row.count + 1),
        sum_nanos: clip_u128(row.sum_nanos + nanos),
        buckets: row.buckets.update(
            bucket_of(nanos),
            clip_u64(row.buckets[bucket_of(nanos)] + 1),
        ),
    }
}

impl MetricsView {
    /// No request seen.
    pub open spec fn empty() -> MetricsView {
        MetricsView { methods: Seq::empty(), durations: Seq::empty() }
    }

    /// The metrics after a request with `method` has begun: one more request
    /// counted and one more in flight for that method.
    pub open spec fn begin(self, method: Seq<char>) -> MetricsView {
        let i = method_row(self.methods, method);
        MetricsView {
            methods: if i < self.methods.len() {
                self.methods.update(
                    i,
                    MethodRow {
                        method,
                        requests: clip_u64(self.methods[i].requests + 1),
                        in_flight: clip_i64(self.methods[i].in_flight + 1),
                    },
                )
            } else {
                self.methods.push(MethodRow { method, requests: 1, in_flight: 1 })
            },
            durations: self.durations,
        }
    }

    /// The metrics after a request with `method` has been answered with
    /// `status` in `nanos` nanoseconds: the time is added to the distribution
    /// for that method and status, and one request fewer is in flight.
    pub open spec fn end(self, method: Seq<char>, status: u16, nanos: nat) -> MetricsView {
        let i = method_row(self.methods, method);
        let k = duration_row(self.durations, method, status);
        MetricsView {
            methods: if i < self.methods.len() {
                self.methods.update(
                    i,
                    MethodRow {
                        method,
                        requests: self.methods[i].requests,
                        in_flight: clip_i64(self.methods[i].in_flight - 1),
                    },
                )
            } else {
                self.methods.push(MethodRow { method, requests: 0, in_flight: -1 })
            },
            durations: if k < self.durations.len() {
                self.durations.update(k, observed(self.durations[k], nanos))
            } else {
                self.durations.push(observed(fresh_duration_row(method, status), nanos))
            },
        }
    }

    /// The requests counted for `method`.
    pub open spec fn requests(self, method: Seq<char>) -> nat {
        let i = method_row(self.methods, method);
        if i < self.methods.len() {
            self.methods[i].requests
        } else {
            0
        }
    }

    /// The requests of `method` in flight.
    pub open spec fn in_flight(self, method: Seq<char>) -> int {
        let i = method_row(self.methods, method);
        if i < self.methods.len() {
            self.methods[i].in_flight
        } else {
            0
        }
    }

    /// The handling times seen for `method` and `status`.
    pub open spec fn observations(self, method: Seq<char>, status: u16) -> nat {
        let k = duration_row(self.durations, method, status);
        if k < self.durations.len() {
            self.durations[k].count
        } else {
            0
        }
    }
}

/// The first row for a method stands at one place only.
pub proof fn lemma_method_row_unique(rows: Seq<MethodRow>, method: Seq<char>, i: int)
    requires
        is_method_row(rows, method, i),
    ensures
        method_row(rows, method) == i,
{
    let c = method_row(rows, method);
    assert(is_method_row(rows, method, c));
    if c < i {
        assert(rows[c].method != method);
    } else if i < c {
        assert(rows[i].method != method);
    }
}

/// The first row for a method and status stands at one place only.
pub proof fn lemma_duration_row_unique(
    rows: Seq<DurationRow>,
    method: Seq<char>,
    status: u16,
    i: int,
)
    requires
        is_duration_row(rows, method, status, i),
    ensures
        duration_row(rows, method, status) == i,
{
    let c = duration_row(rows, method, status);
    assert(is_duration_row(rows, method, status, c));
    if c < i {
        assert(!(rows[c].method == method && rows[c].status == status));
    } else if i < c {
        assert(!(rows[i].method == method && rows[i].status == status));
    }
}

struct MethodCounters {
    method: String,
    requests: u64,
    in_flight: i64,
}

struct DurationSeries {
    method: String,
    status: u16,
    count: u64,
    sum_nanos: u128,
    buckets: [u64; 16],
}

impl MethodCounters {
    spec fn row(self) -> MethodRow {
        MethodRow {
            method: self.method@,
            requests: self.requests as nat,
            in_flight: self.in_flight as int,
        }
    }
}

impl DurationSeries {
    spec fn row(self) -> DurationRow {
        DurationRow {
            method: self.method@,
            status: self.status,
            count: self.count as nat,
            sum_nanos: self.sum_nanos as nat,
            buckets: Seq::new(16, |k: int| self.buckets@[k] as nat),
        }
    }
}

/// The request metrics of one server.
pub struct Metrics {
    methods: Vec<MethodCounters>,
    durations: Vec<DurationSeries>,
}

impl View for Metrics {
    type V = MetricsView;

    closed spec fn view(&self) -> MetricsView {
        MetricsView {
            methods: Seq::new(self.methods@.len(), |i: int| self.methods@[i].row()),
            durations: Seq::new(self.durations@.len(), |i: int| self.durations@[i].row()),
        }
    }
}

impl Default for Metrics {
    /// Metrics that have seen no request.
    fn default() -> (metrics: Metrics)
        ensures
            metrics@ == MetricsView::empty(),
    {
        Metrics::new()
    }
}

/// The bucket a handling time of `nanos` nanoseconds falls into.
pub fn bucket_index(nanos: u128) -> (bucket: usize)
    ensures
        bucket == bucket_of(nanos as nat),
        bucket < 16,
{
    let mut i: usize = 0;
    while i < 15
        invariant
            i <= 15,
            bucket_of(nanos as nat) == bucket_from(nanos as nat, i as int),
        decreases 15 - i,
    {
        let bound: u64 = BUCKET_BOUNDS[i];
        assert(bound <= 10000) by {
            assert(forall|k: int| 0 <= k < 15 ==> BUCKET_BOUNDS@[k] <= 10000);
        }
        if nanos <= (bound as u128) * NANOS_PER_SECOND {
            return i;
        }
        i = i + 1;
    }
    i
}

impl Metrics {
    /// Metrics that have seen no request.
    pub fn new() -> (metrics: Metrics)
        ensures
            metrics@ == MetricsView::empty(),
    {
        let metrics = Metrics { methods: Vec::new(), durations: Vec::new() };
        assert(metrics@.methods =~= Seq::empty());
        assert(metrics@.durations =~= Seq::empty());
        metrics
    }

    fn find_method(&self, method: &str) -> (i: usize)
        ensures
            i == method_row(self@.methods, method@),
            i <= self.methods@.len(),
            is_method_row(self@.methods, method@, i as int),
    {
        let mut i: usize = 0;
        while i < self.methods.len() && !str_eq(self.methods[i].method.as_str(), method)
            invariant
                i <= self.methods@.len(),
                forall|j: int| 0 <= j < i ==> (#[trigger] self@.methods[j]).method != method@,
            decreases self.methods@.len() - i,
        {
            i = i + 1;
        }
        proof {
            lemma_method_row_unique(self@.methods, method@, i as int);
        }
        i
    }

    fn find_duration(&self, method: &str, status: u16) -> (i: usize)
        ensures
            i == duration_row(self@.durations, method@, status),
            i <= self.durations@.len(),
            is_duration_row(self@.durations, method@, status, i as int),
    {
        let mut i: usize = 0;
        while i < self.durations.len() && !(self.durations[i].status == status && str_eq(
            self.durations[i].method.as_str(),
            method,
        ))
            invariant
                i <= self.durations@.len(),
                forall|j: int|
                    0 <= j < i ==> !((#[trigger] self@.durations[j]).method == method@
                        && self@.durations[j].status == status),
            decreases self.durations@.len() - i,
        {
            i = i + 1;
        }
        proof {
            lemma_duration_row_unique(self@.durations, method@, status, i as int);
        }
        i
    }

    /// Records that a request with `method` has begun.
    pub fn record_request(&mut self, method: &str)
        ensures
            final(self)@ == old(self)@.begin(method@),
    {
        let i = self.find_method(method);
        if i < self.methods.len() {
            let row = &mut self.methods[i];
            row.requests = row.requests.saturating_add(1);
            row.in_flight = if row.in_flight == i64::MAX {
                i64::MAX
            } else {
                row.in_flight + 1
            };
        } else {
            self.methods.push(MethodCounters { method: method.to_owned(), requests: 1, in_flight: 1 });
        }
        proof {
            assert(self@.methods =~= old(self)@.begin(method@).methods);
            assert(self@.durations =~= old(self)@.begin(method@).durations);
        }
    }

    /// Records that a request with `method` was answered with `status` after
    /// `nanos` nanoseconds.
    pub fn observe(&mut self, method: &str, status: u16, nanos: u128)
        ensures
            final(self)@ == old(self)@.end(method@, status, nanos as nat),
    {
        let bucket = bucket_index(nanos);
        let k = self.find_duration(method, status);
        if k == self.durations.len() {
            self.durations.push(
                DurationSeries {
                    method: method.to_owned(),
                    status,
                    count: 0,
                    sum_nanos: 0,
                    buckets: [0; 16],
                },
            );
            assert(self.durations@[k as int].row() =~= fresh_duration_row(method@, status)) by {
                assert(self.durations@[k as int].row().buckets =~= fresh_duration_row(
                    method@,
                    status,
                ).buckets);
            }
        }
        let ghost before = self.durations@[k as int].row();
        let series = &mut self.durations[k];
        series.count = series.count.saturating_add(1);
        series.sum_nanos = series.sum_nanos.saturating_add(nanos);
        series.buckets[bucket] = series.buckets[bucket].saturating_add(1);
        proof {
            assert(self.durations@[k as int].row().buckets =~= observed(
                before,
                nanos as nat,
            ).buckets);
            assert(self.durations@[k as int].row() == observed(before, nanos as nat));
        }
        let i = self.find_method(method);
        if i < self.methods.len() {
            let row = &mut self.methods[i];
            row.in_flight = if row.in_flight == i64::MIN {
                i64::MIN
            } else {
                row.in_flight - 1
            };
        } else {
            self.methods.push(MethodCounters { method: method.to_owned(), requests: 0, in_flight: -1 });
        }
        proof {
            assert(self@.methods =~= old(self)@.end(method@, status, nanos as nat).methods);
            assert(self@.durations =~= old(self)@.end(method@, status, nanos as nat).durations);
        }
    }

    /// Records that a request with `method`, begun at `start`, was answered
    /// with `status`: as `observe`, with the time the clock gives.
    pub fn record_response(&mut self, method: &str, status: u16, start: Instant)
        ensures
            exists|nanos: nat| final(self)@ == #[trigger] old(self)@.end(method@, status, nanos),
    {
        let nanos: u128 = start.elapsed().as_nanos();
        self.observe(method, status, nanos);
    }
}

/// A first row for `method`, or the number of rows, can always be found.
pub proof fn lemma_method_row_exists(rows: Seq<MethodRow>, method: Seq<char>)
    ensures
        is_method_row(rows, method, method_row(rows, method)),
    decreases rows.len(),
{
    if rows.len() == 0 {
        assert(is_method_row(rows, method, 0));
    } else {
        let front = rows.drop_last();
        lemma_method_row_exists(front, method);
        let i = method_row(front, method);
        assert forall|j: int| 0 <= j < i implies (#[trigger] rows[j]).method != method by {
            assert(front[j].method != method);
        }
        if i < front.len() {
            assert(rows[i] == front[i]);
            assert(is_method_row(rows, method, i));
        } else if rows.last().method == method {
            assert(is_method_row(rows, method, i));
        } else {
            assert(is_method_row(rows, method, i + 1));
        }
    }
}

/// A first row for `method` and `status`, or the number of rows, can always
/// be found.
pub proof fn lemma_duration_row_exists(rows: Seq<DurationRow>, method: Seq<char>, status: u16)
    ensures
        is_duration_row(rows, method, status, duration_row(rows, method, status)),
    decreases rows.len(),
{
    if rows.len() == 0 {
        assert(is_duration_row(rows, method, status, 0));
    } else {
        let front = rows.drop_last();
        lemma_duration_row_exists(front, method, status);
        let i = duration_row(front, method, status);
        assert forall|j: int| 0 <= j < i implies !((#[trigger] rows[j]).method == method
            && rows[j].status == status) by {
            assert(!(front[j].method == method && front[j].status == status));
        }
        if i < front.len() {
            assert(rows[i] == front[i]);
            assert(is_duration_row(rows, method, status, i));
        } else if rows.last().method == method && rows.last().status == status {
            assert(is_duration_row(rows, method, status, i));
        } else {
            assert(is_duration_row(rows, method, status, i + 1));
        }
    }
}

/// What a begun request changes: for its method one more request is counted
/// and one more is in flight (as far as the counters reach); every other
/// method and every distribution stays as it was.
pub proof fn lemma_begin_changes(v: MetricsView, method: Seq<char>, other: Seq<char>, status: u16)
    ensures
        v.begin(method).requests(other) == if other == method {
            clip_u64(v.requests(method) + 1)
        } else {
            v.requests(other)
        },
        v.begin(method).in_flight(other) == if other == method {
            clip_i64(v.in_flight(method) + 1)
        } else {
            v.in_flight(other)
        },
        v.begin(method).observations(other, status) == v.observations(other, status),
{
    let rows = v.methods;
    let after = v.begin(method).methods;
    lemma_method_row_exists(rows, method);
    lemma_method_row_exists(rows, other);
    let i = method_row(rows, method);
    let j = method_row(rows, other);
    if other == method {
        assert(after[i].method == method);
        assert forall|k: int| 0 <= k < i implies (#[trigger] after[k]).method != method by {
            assert(rows[k].method != method);
        }
        assert(is_method_row(after, method, i));
        lemma_method_row_unique(after, method, i);
    } else {
        assert forall|k: int| 0 <= k < j implies (#[trigger] after[k]).method != other by {
            assert(rows[k].method != other);
        }
        if j < rows.len() {
            assert(i != j);
            assert(after[j] == rows[j]);
            assert(is_method_row(after, other, j));
            lemma_method_row_unique(after, other, j);
        } else if i < rows.len() {
            assert(is_method_row(after, other, j));
            lemma_method_row_unique(after, other, j);
        } else {
            assert(after[j].method == method);
            assert(is_method_row(after, other, j + 1));
            lemma_method_row_unique(after, other, j + 1);
        }
    }
}

/// What an answered request changes: for its method one request fewer is in
/// flight, for its method and status one more handling time is seen (as far
/// as the counters reach); the requests counted, and every other method and
/// distribution, stay as they were.
pub proof fn lemma_end_changes(
    v: MetricsView,
    method: Seq<char>,
    status: u16,
    nanos: nat,
    other: Seq<char>,
    other_status: u16,
)
    ensures
        v.end(method, status, nanos).requests(other) == v.requests(other),
        v.end(method, status, nanos).in_flight(other) == if other == method {
            clip_i64(v.in_flight(method) - 1)
        } else {
            v.in_flight(other)
        },
        v.end(method, status, nanos).observations(other, other_status) == if other == method
            && other_status == status {
            clip_u64(v.observations(method, status) + 1)
        } else {
            v.observations(other, other_status)
        },
{
    let rows = v.methods;
    let after = v.end(method, status, nanos).methods;
    lemma_method_row_exists(rows, method);
    lemma_method_row_exists(rows, other);
    let i = method_row(rows, method);
    let j = method_row(rows, other);
    if other == method {
        assert(after[i].method == method);
        assert forall|k: int| 0 <= k < i implies (#[trigger] after[k]).method != method by {
            assert(rows[k].method != method);
        }
        assert(is_method_row(after, method, i));
        lemma_method_row_unique(after, method, i);
    } else {
        assert forall|k: int| 0 <= k < j implies (#[trigger] after[k]).method != other by {
            assert(rows[k].method != other);
        }
        if j < rows.len() {
            assert(i != j);
            assert(after[j] == rows[j]);
            assert(is_method_row(after, other, j));
            lemma_method_row_unique(after, other, j);
        } else if i < rows.len() {
            assert(is_method_row(after, other, j));
            lemma_method_row_unique(after, other, j);
        } else {
            assert(after[j].method == method);
            assert(is_method_row(after, other, j + 1));
            lemma_method_row_unique(after, other, j + 1);
        }
    }
    let series = v.durations;
    let seen = v.end(method, status, nanos).durations;
    lemma_duration_row_exists(series, method, status);
    lemma_duration_row_exists(series, other, other_status);
    let a = duration_row(series, method, status);
    let b = duration_row(series, other, other_status);
    if other == method && other_status == status {
        assert(seen[a].method == method && seen[a].status == status);
        assert forall|k: int| 0 <= k < a implies !((#[trigger] seen[k]).method == method
            && seen[k].status == status) by {
            assert(!(series[k].method == method && series[k].status == status));
        }
        assert(is_duration_row(seen, method, status, a));
        lemma_duration_row_unique(seen, method, status, a);
    } else {
        assert forall|k: int| 0 <= k < b implies !((#[trigger] seen[k]).method == other
            && seen[k].status == other_status) by {
            assert(!(series[k].method == other && series[k].status == other_status));
        }
        if b < series.len() {
            assert(a != b);
            assert(seen[b] == series[b]);
            assert(is_duration_row(seen, other, other_status, b));
            lemma_duration_row_unique(seen, other, other_status, b);
        } else if a < series.len() {
            assert(is_duration_row(seen, other, other_status, b));
            lemma_duration_row_unique(seen, other, other_status, b);
        } else {
            assert(seen[b].method == method && seen[b].status == status);
            assert(is_duration_row(seen, other, other_status, b + 1));
            lemma_duration_row_unique(seen, other, other_status, b + 1);
        }
    }
}

/// A request that is begun and answered leaves in flight what was in flight,
/// counts one more request for its method and one more handling time for its
/// method and status, and touches nothing else, as long as the counters have
/// room.
pub proof fn lemma_handled_request(
    v: MetricsView,
    method: Seq<char>,
    status: u16,
    nanos: nat,
    other: Seq<char>,
    other_status: u16,
)
    requires
        v.requests(method) < u64::MAX,
        v.observations(method, status) < u64::MAX,
        i64::MIN <= v.in_flight(method) < i64::MAX,
    ensures
        ({
            let w = v.begin(method).end(method, status, nanos);
            &&& w.in_flight(other) == v.in_flight(other)
            &&& w.requests(other) == if other == method {
                v.requests(other) + 1
            } else {
                v.requests(other)
            }
            &&& w.observations(other, other_status) == if other == method && other_status
                == status {
                v.observations(other, other_status) + 1
            } else {
                v.observations(other, other_status)
            }
        }),
{
    lemma_begin_changes(v, method, other, other_status);
    lemma_begin_changes(v, method, method, status);
    lemma_end_changes(v.begin(method), method, status, nanos, other, other_status);
}

/// One step in the life of the metrics.
pub enum Event {
    /// A request with `method` has begun.
    Begin { method: Seq<char> },
    /// A request with `method` was answered with `status` after `nanos`
    /// nanoseconds.
    End { method: Seq<char>, status: u16, nanos: nat },
}

/// The metrics after `event`.
pub open spec fn after(v: MetricsView, event: Event) -> MetricsView {
    match event {
        Event::Begin { method } => v.begin(method),
        Event::End { method, status, nanos } => v.end(method, status, nanos),
    }
}

/// The metrics after the events of `trace`, in their order, starting from
/// none. However requests overlap, what the metrics saw is one such trace.
pub open spec fn replay(trace: Seq<Event>) -> MetricsView
    decreases trace.len(),
{
    if trace.len() == 0 {
        MetricsView::empty()
    } else {
        after(replay(trace.drop_last()), trace.last())
    }
}

/// How many requests with `method` begin in `trace`.
pub open spec fn begun(trace: Seq<Event>, method: Seq<char>) -> nat
    decreases trace.len(),
{
    if trace.len() == 0 {
        0
    } else {
        begun(trace.drop_last(), method) + match trace.last() {
            Event::Begin { method: m } => if m == method {
                1nat
            } else {
                0nat
            },
            Event::End { .. } => 0nat,
        }
    }
}

/// How many requests with `method` are answered in `trace`.
pub open spec fn answered(trace: Seq<Event>, method: Seq<char>) -> nat
    decreases trace.len(),
{
    if trace.len() == 0 {
        0
    } else {
        answered(trace.drop_last(), method) + match trace.last() {
            Event::Begin { .. } => 0nat,
            Event::End { method: m, .. } => if m == method {
                1nat
            } else {
                0nat
            },
        }
    }
}

/// How many requests begin in `trace`, whatever their method.
pub open spec fn requests_in(trace: Seq<Event>) -> nat
    decreases trace.len(),
{
    if trace.len() == 0 {
        0
    } else {
        requests_in(trace.drop_last()) + match trace.last() {
            Event::Begin { .. } => 1nat,
            Event::End { .. } => 0nat,
        }
    }
}

/// The requests counted in `rows`, all methods together.
pub open spec fn sum_requests(rows: Seq<MethodRow>) -> nat
    decreases rows.len(),
{
    if rows.len() == 0 {
        0
    } else {
        sum_requests(rows.drop_last()) + rows.last().requests
    }
}

impl MetricsView {
    /// The requests counted, all methods together.
    pub open spec fn total_requests(self) -> nat {
        sum_requests(self.methods)
    }
}

proof fn lemma_sum_requests_update(rows: Seq<MethodRow>, i: int, row: MethodRow)
    requires
        0 <= i < rows.len(),
    ensures
        sum_requests(rows.update(i, row)) + rows[i].requests == sum_requests(rows) + row.requests,
    decreases rows.len(),
{
    let changed = rows.update(i, row);
    if i == rows.len() - 1 {
        assert(changed.drop_last() =~= rows.drop_last());
    } else {
        assert(changed.drop_last() =~= rows.drop_last().update(i, row));
        lemma_sum_requests_update(rows.drop_last(), i, row);
    }
}

proof fn lemma_sum_requests_push(rows: Seq<MethodRow>, row: MethodRow)
    ensures
        sum_requests(rows.push(row)) == sum_requests(rows) + row.requests,
{
    assert(rows.push(row).drop_last() =~= rows);
}

/// After any trace that is not too long to count, the requests counted for a
/// method are those that began, and those in flight are those that began
/// and were not answered.
pub proof fn lemma_replay_counts(trace: Seq<Event>, method: Seq<char>)
    requires
        trace.len() <= i64::MAX,
    ensures
        replay(trace).requests(method) == begun(trace, method),
        replay(trace).in_flight(method) == begun(trace, method) - answered(trace, method),
        begun(trace, method) + answered(trace, method) <= trace.len(),
    decreases trace.len(),
{
    if trace.len() == 0 {
        lemma_method_row_exists(Seq::<MethodRow>::empty(), method);
    } else {
        let front = trace.drop_last();
        let v = replay(front);
        lemma_replay_counts(front, method);
        match trace.last() {
            Event::Begin { method: m } => {
                lemma_replay_counts(front, m);
                lemma_begin_changes(v, m, method, 0);
            },
            Event::End { method: m, status, nanos } => {
                lemma_replay_counts(front, m);
                lemma_end_changes(v, m, status, nanos, method, 0);
            },
        }
    }
}

/// After any trace that is not too long to count, the requests counted over
/// all methods are the requests that began.
pub proof fn lemma_replay_total(trace: Seq<Event>)
    requires
        trace.len() <= i64::MAX,
    ensures
        replay(trace).total_requests() == requests_in(trace),
    decreases trace.len(),
{
    if trace.len() > 0 {
        let front = trace.drop_last();
        let v = replay(front);
        lemma_replay_total(front);
        match trace.last() {
            Event::Begin { method } => {
                lemma_replay_counts(front, method);
                lemma_method_row_exists(v.methods, method);
                let i = method_row(v.methods, method);
                if i < v.methods.len() {
                    lemma_sum_requests_update(v.methods, i, v.begin(method).methods[i]);
                } else {
                    lemma_sum_requests_push(v.methods, v.begin(method).methods[i]);
                }
            },
            Event::End { method, status, nanos } => {
                lemma_method_row_exists(v.methods, method);
                let i = method_row(v.methods, method);
                let w = v.end(method, status, nanos);
                if i < v.methods.len() {
                    lemma_sum_requests_update(v.methods, i, w.methods[i]);
                } else {
                    lemma_sum_requests_push(v.methods, w.methods[i]);
                }
            },
        }
    }
}

/// Once every request that began has been answered, in whatever order the
/// requests overlapped, no request is in flight for any method, each method
/// counts the requests it had, and together they are all the requests.
pub proof fn lemma_all_answered(trace: Seq<Event>)
    requires
        trace.len() <= i64::MAX,
        forall|method: Seq<char>| #[trigger] begun(trace, method) == answered(trace, method),
    ensures
        forall|method: Seq<char>| #[trigger] replay(trace).in_flight(method) == 0,
        forall|method: Seq<char>| #[trigger] replay(trace).requests(method) == begun(trace, method),
        replay(trace).total_requests() == requests_in(trace),
{
    assert forall|method: Seq<char>| #[trigger] replay(trace).in_flight(method) == 0 by {
        lemma_replay_counts(trace, method);
        assert(begun(trace, method) == answered(trace, method));
    }
    assert forall|method: Seq<char>| #[trigger]
        replay(trace).requests(method) == begun(trace, method) by {
        lemma_replay_counts(trace, method);
    }
    lemma_replay_total(trace);
}

/// The kind of a metric family.
#[derive(Clone, Copy, Debug, PartialEq, Eq)]
pub enum MetricKind {
    Counter,
    Gauge,
    Histogram,
}

/// One bucket of a distribution as it is exposed: the handling times up to
/// the bound (all of them, where there is none), counted together.
#[derive(Debug)]
pub struct Bucket {
    pub upper_bound_seconds: Option<u64>,
    pub cumulative_count: u64,
}

/// The value of one metric.
#[derive(Debug)]
pub enum MetricValue {
    Counter(u64),
    Gauge(i64),
    Histogram { sample_count: u64, sample_sum_nanos: u128, buckets: Vec<Bucket> },
}

/// One label of a metric.
#[derive(Debug)]
pub struct Label {
    pub name: &'static str,
    pub value: String,
}

/// Labels as pairs of name and value, in their order.
pub open spec fn label_pairs(labels: Seq<Label>) -> Seq<(Seq<char>, Seq<char>)> {
    Seq::new(labels.len(), |i: int| (labels[i].name@, labels[i].value@))
}

/// One metric of a family: its labels and its value.
#[derive(Debug)]
pub struct Metric {
    pub labels: Vec<Label>,
    pub value: MetricValue,
}

/// A family of metrics under one name.
#[derive(Debug)]
pub struct MetricFamily {
    pub name: &'static str,
    pub help: &'static str,
    pub kind: MetricKind,
    pub metrics: Vec<Metric>,
}

/// The bound of bucket `k`, in seconds; the last bucket has none.
pub open spec fn bucket_bound(k: int) -> Option<u64> {
    if 0 <= k < 15 {
        Some(BUCKET_BOUNDS@[k])
    } else {
        None
    }
}

/// The handling times in the buckets up to `upto`, that one included.
pub open spec fn cumulative(counts: Seq<nat>, upto: int) -> nat
    decreases upto + 1,
{
    if upto < 0 {
        0
    } else {
        cumulative(counts, upto - 1) + counts[upto]
    }
}

/// `buckets` exposes the distribution whose buckets hold `counts`.
pub open spec fn exposes_buckets(buckets: Seq<Bucket>, counts: Seq<nat>) -> bool {
    &&& buckets.len() == 16
    &&& forall|k: int|
        0 <= k < 16 ==> (#[trigger] buckets[k]).upper_bound_seconds == bucket_bound(k)
            && buckets[k].cumulative_count == clip_u64(cumulative(counts, k))
}

/// `metric` exposes the requests counted in `row`.
pub open spec fn exposes_requests(metric: Metric, row: MethodRow) -> bool {
    &&& label_pairs(metric.labels@) == seq![("method"@, row.method)]
    &&& metric.value matches MetricValue::Counter(n)
    &&& n == row.requests
}

/// `metric` exposes the requests in flight in `row`.
pub open spec fn exposes_in_flight(metric: Metric, row: MethodRow) -> bool {
    &&& label_pairs(metric.labels@) == seq![("method"@, row.method)]
    &&& metric.value matches MetricValue::Gauge(n)
    &&& n == row.in_flight
}

/// `metric` exposes the distribution in `row`.
pub open spec fn exposes_durations(metric: Metric, row: DurationRow) -> bool {
    &&& label_pairs(metric.labels@) == seq![
        ("method"@, row.method),
        ("status"@, decimal(row.status as nat)),
    ]
    &&& metric.value matches MetricValue::Histogram { sample_count, sample_sum_nanos, buckets }
    &&& sample_count == row.count
    &&& sample_sum_nanos == row.sum_nanos
    &&& exposes_buckets(buckets@, row.buckets)
}

/// `family` exposes the requests counted in `rows`, one metric a row.
pub open spec fn is_requests_family(family: MetricFamily, rows: Seq<MethodRow>) -> bool {
    &&& family.name@ == "http_requests_total"@
    &&& family.help@ == "Total number of HTTP requests"@
    &&& family.kind == MetricKind::Counter
    &&& family.metrics@.len() == rows.len()
    &&& forall|i: int|
        0 <= i < rows.len() ==> exposes_requests(#[trigger] family.metrics@[i], rows[i])
}

/// `family` exposes the requests in flight in `rows`, one metric a row.
pub open spec fn is_in_flight_family(family: MetricFamily, rows: Seq<MethodRow>) -> bool {
    &&& family.name@ == "http_requests_in_flight"@
    &&& family.help@ == "Number of HTTP requests currently in flight"@
    &&& family.kind == MetricKind::Gauge
    &&& family.metrics@.len() == rows.len()
    &&& forall|i: int|
        0 <= i < rows.len() ==> exposes_in_flight(#[trigger] family.metrics@[i], rows[i])
}

/// `family` exposes the handling times in `rows`, one metric a row.
pub open spec fn is_durations_family(family: MetricFamily, rows: Seq<DurationRow>) -> bool {
    &&& family.name@ == "http_request_duration_seconds"@
    &&& family.help@ == "HTTP request duration in seconds"@
    &&& family.kind == MetricKind::Histogram
    &&& family.metrics@.len() == rows.len()
    &&& forall|i: int|
        0 <= i < rows.len() ==> exposes_durations(#[trigger] family.metrics@[i], rows[i])
}

/// `families` exposes the metrics `v`: the requests counted, the requests in
/// flight and the handling times, in this order. A family without a row is
/// left out.
pub open spec fn exposes(families: Seq<MetricFamily>, v: MetricsView) -> bool {
    let counted: int = if v.methods.len() > 0 {
        2
    } else {
        0
    };
    let timed: int = if v.durations.len() > 0 {
        1
    } else {
        0
    };
    &&& families.len() == counted + timed
    &&& v.methods.len() > 0 ==> is_requests_family(families[0], v.methods)
    &&& v.methods.len() > 0 ==> is_in_flight_family(families[1], v.methods)
    &&& v.durations.len() > 0 ==> is_durations_family(families[counted], v.durations)
}

/// The label that names the method.
fn method_label(method: &String) -> (label: Label)
    ensures
        label.name@ == "method"@,
        label.value@ == method@,
{
    Label { name: "method", value: method.clone() }
}

/// The label that names the status.
fn status_label(status: u16) -> (label: Label)
    ensures
        label.name@ == "status"@,
        label.value@ == decimal(status as nat),
{
    let mut value = String::new();
    push_decimal(&mut value, status as u64);
    assert(value@ =~= decimal(status as nat));
    Label { name: "status", value }
}

/// The buckets of a distribution as they are exposed.
fn cumulative_buckets(counts: &[u64; 16]) -> (buckets: Vec<Bucket>)
    ensures
        exposes_buckets(buckets@, Seq::new(16, |k: int| counts@[k] as nat)),
{
    let ghost held = Seq::new(16, |k: int| counts@[k] as nat);
    let mut buckets: Vec<Bucket> = Vec::new();
    let mut running: u64 = 0;
    let mut k: usize = 0;
    while k < 16
        invariant
            k <= 16,
            held == Seq::new(16, |k: int| counts@[k] as nat),
            buckets@.len() == k,
            running == clip_u64(cumulative(held, k - 1)),
            forall|j: int|
                0 <= j < k ==> (#[trigger] buckets@[j]).upper_bound_seconds == bucket_bound(j)
                    && buckets@[j].cumulative_count == clip_u64(cumulative(held, j)),
        decreases 16 - k,
    {
        running = running.saturating_add(counts[k]);
        let upper_bound_seconds = if k < 15 {
            Some(BUCKET_BOUNDS[k])
        } else {
            None
        };
        buckets.push(Bucket { upper_bound_seconds, cumulative_count: running });
        k = k + 1;
    }
    buckets
}

impl Metrics {
    /// The metrics as they are exposed.
    pub fn get_metrics(&self) -> (families: Vec<MetricFamily>)
        ensures
            exposes(families@, self@),
    {
        let mut requests: Vec<Metric> = Vec::new();
        let mut in_flight: Vec<Metric> = Vec::new();
        let mut i: usize = 0;
        while i < self.methods.len()
            invariant
                i <= self.methods@.len(),
                requests@.len() == i,
                in_flight@.len() == i,
                forall|j: int|
                    0 <= j < i ==> exposes_requests(#[trigger] requests@[j], self@.methods[j]),
                forall|j: int|
                    0 <= j < i ==> exposes_in_flight(#[trigger] in_flight@[j], self@.methods[j]),
            decreases self.methods@.len() - i,
        {
            let row = &self.methods[i];
            let mut counted: Vec<Label> = Vec::new();
            counted.push(method_label(&row.method));
            let mut flying: Vec<Label> = Vec::new();
            flying.push(method_label(&row.method));
            proof {
                assert(label_pairs(counted@) =~= seq![("method"@, self@.methods[i as int].method)]);
                assert(label_pairs(flying@) =~= seq![("method"@, self@.methods[i as int].method)]);
            }
            requests.push(Metric { labels: counted, value: MetricValue::Counter(row.requests) });
            in_flight.push(Metric { labels: flying, value: MetricValue::Gauge(row.in_flight) });
            i = i + 1;
        }
        let mut durations: Vec<Metric> = Vec::new();
        let mut k: usize = 0;
        while k < self.durations.len()
            invariant
                k <= self.durations@.len(),
                durations@.len() == k,
                forall|j: int|
                    0 <= j < k ==> exposes_durations(
                        #[trigger] durations@[j],
                        self@.durations[j],
                    ),
            decreases self.durations@.len() - k,
        {
            let series = &self.durations[k];
            let mut labels: Vec<Label> = Vec::new();
            labels.push(method_label(&series.method));
            labels.push(status_label(series.status));
            proof {
                assert(label_pairs(labels@) =~= seq![
                    ("method"@, self@.durations[k as int].method),
                    ("status"@, decimal(self@.durations[k as int].status as nat)),
                ]);
            }
            durations.push(
                Metric {
                    labels,
                    value: MetricValue::Histogram {
                        sample_count: series.count,
                        sample_sum_nanos: series.sum_nanos,
                        buckets: cumulative_buckets(&series.buckets),
                    },
                },
            );
            k = k + 1;
        }
        let mut families: Vec<MetricFamily> = Vec::new();
        if self.methods.len() > 0 {
            families.push(
                MetricFamily {
                    name: "http_requests_total",
                    help: "Total number of HTTP requests",
                    kind: MetricKind::Counter,
                    metrics: requests,
                },
            );
            families.push(
                MetricFamily {
                    name: "http_requests_in_flight",
                    help: "Number of HTTP requests currently in flight",
                    kind: MetricKind::Gauge,
                    metrics: in_flight,
                },
            );
        }
        if self.durations.len() > 0 {
            families.push(
                MetricFamily {
                    name: "http_request_duration_seconds",
                    help: "HTTP request duration in seconds",
                    kind: MetricKind::Histogram,
                    metrics: durations,
                },
            );
        }
        families
    }
}

/// Where a request to the metrics listener goes.
#[derive(Clone, Copy, Debug, PartialEq, Eq)]
pub enum MetricsRoute {
    /// To the exposition of the metrics.
    Exposition,
    /// Nowhere.
    NotFound,
}

/// The route of `path`: the exposition is at `/metrics` and nowhere else.
pub open spec fn routed(path: Seq<char>) -> MetricsRoute {
    if path == "/metrics"@ {
        MetricsRoute::Exposition
    } else {
        MetricsRoute::NotFound
    }
}

/// Decides where a request for `path` goes.
pub fn route(path: &str) -> (r: MetricsRoute)
    ensures
        r == routed(path@),
{
    if str_eq(path, "/metrics") {
        MetricsRoute::Exposition
    } else {
        MetricsRoute::NotFound
    }
}

/// An answer of the metrics listener.
#[derive(Debug)]
pub struct MetricsReply<'a> {
    pub status: u16,
    pub headers: Vec<Header>,
    pub body: &'a [u8],
}

/// A `MetricsReply` as plain mathematical values; a header is a pair of name
/// and value.
pub struct MetricsReplyView {
    pub status: u16,
    pub headers: Seq<(Seq<char>, Seq<char>)>,
    pub body: Seq<u8>,
}

impl<'a> View for MetricsReply<'a> {
    type V = MetricsReplyView;

    open spec fn view(&self) -> MetricsReplyView {
        MetricsReplyView {
            status: self.status,
            headers: header_pairs(self.headers@),
            body: self.body@,
        }
    }
}

/// The answer on `route`, where `rendered` is the exposition text, or nothing
/// if rendering it failed: the text as `text/plain` with status 200, status
/// 500 where there is no text, and status 404 off the exposition's path.
pub open spec fn reply_of(route: MetricsRoute, rendered: Option<Seq<u8>>) -> MetricsReplyView {
    match route {
        MetricsRoute::NotFound => MetricsReplyView {
            status: 404,
            headers: Seq::empty(),
            body: encode_utf8("Not Found"@),
        },
        MetricsRoute::Exposition => match rendered {
            Some(text) => MetricsReplyView {
                status: 200,
                headers: seq![("Content-Type"@, "text/plain"@)],
                body: text,
            },
            None => MetricsReplyView { status: 500, headers: Seq::empty(), body: Seq::empty() },
        },
    }
}

/// Builds the answer on `route` from the rendered exposition.
pub fn metrics_reply<'a>(route: MetricsRoute, rendered: Option<&'a [u8]>) -> (reply: MetricsReply<
    'a,
>)
    ensures
        reply@ == reply_of(
            route,
            match rendered {
                Some(text) => Some(text@),
                None => None,
            },
        ),
{
    let mut headers: Vec<Header> = Vec::new();
    match route {
        MetricsRoute::NotFound => {
            assert(header_pairs(headers@) =~= Seq::empty());
            MetricsReply { status: 404, headers, body: "Not Found".as_bytes() }
        },
        MetricsRoute::Exposition => match rendered {
            Some(text) => {
                headers.push(Header { name: "Content-Type", value: "text/plain".to_owned() });
                assert(header_pairs(headers@) =~= seq![("Content-Type"@, "text/plain"@)]);
                MetricsReply { status: 200, headers, body: text }
            },
            None => {
                let nothing: &'static [u8] = &[];
                assert(nothing@ =~= Seq::empty());
                assert(header_pairs(headers@) =~= Seq::empty());
                MetricsReply { status: 500, headers, body: nothing }
            },
        },
    }
}

} // verus!
