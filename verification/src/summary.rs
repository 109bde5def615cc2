//! The exact parts of the end-of-run summary: latencies in order, their
//! extremes and percentiles, and how many requests failed.
use vstd::prelude::*;

use crate::services::{IterationInfo, RequestInfo};
use crate::time::Duration;

verus! {

broadcast use vstd::seq_lib::to_multiset_insert, vstd::seq_lib::to_multiset_build;

/// Something whose latency and outcome the summary counts.
pub trait LatencyInfo {
    /// The latency, in nanoseconds.
    spec fn spec_latency(&self) -> nat;

    /// Whether it succeeded.
    spec fn spec_successful(&self) -> bool;

    /// How long it took.
    fn latency(&self) -> (d: Duration)
        ensures
            d@ == self.spec_latency(),
    ;

    /// Whether it succeeded.
    fn successful(&self) -> (b: bool)
        ensures
            b == self.spec_successful(),
    ;
}

impl LatencyInfo for RequestInfo {
    open spec fn spec_latency(&self) -> nat {
        self.latency@
    }

    open spec fn spec_successful(&self) -> bool {
        self.successful
    }

    fn latency(&self) -> (d: Duration) {
        self.latency
    }

    fn successful(&self) -> (b: bool) {
        self.successful
    }
}

impl LatencyInfo for IterationInfo {
    open spec fn spec_latency(&self) -> nat {
        self.latency@
    }

    /// An iteration that finished counts as a success.
    open spec fn spec_successful(&self) -> bool {
        true
    }

    fn latency(&self) -> (d: Duration) {
        self.latency
    }

    fn successful(&self) -> (b: bool) {
        true
    }
}

/// How many of `items` failed.
pub open spec fn failures<T: LatencyInfo>(items: Seq<T>) -> nat
    decreases items.len(),
{
    if items.len() == 0 {
        0
    } else {
        failures(items.drop_last()) + if items.last().spec_successful() { 0nat } else { 1nat }
    }
}

/// The counts of a summary.
#[derive(Debug, Clone, Copy, PartialEq, Eq, Structural)]
pub struct SummaryCounts {
    pub total: usize,
    pub success_count: usize,
    pub fail_count: usize,
}

/// How many of `items` there are, succeeded and failed.
pub fn summary_counts<T: LatencyInfo>(items: &Vec<T>) -> (c: SummaryCounts)
    ensures
        c.total == items@.len(),
        c.fail_count == failures(items@),
        c.fail_count == items@.filter(|x: T| !x.spec_successful()).len(),
        c.success_count + c.fail_count == c.total,
{
    let mut fail_count: usize = 0;
    let mut i: usize = 0;
    while i < items.len()
        invariant
            0 <= i <= items.len(),
            fail_count == failures(items@.take(i as int)),
            fail_count <= i,
        decreases items.len() - i,
    {
        assert(items@.take(i + 1).drop_last() =~= items@.take(i as int));
        if !items[i].successful() {
            fail_count += 1;
        }
        i += 1;
    }
    assert(items@.take(items.len() as int) =~= items@);
    proof { lemma_failures_count(items@); }
    SummaryCounts { total: items.len(), success_count: items.len() - fail_count, fail_count }
}

/// The latencies of `items`, in nanoseconds.
pub open spec fn latency_nanos<T: LatencyInfo>(items: Seq<T>) -> Seq<nat> {
    items.map_values(|x: T| x.spec_latency())
}

/// The latencies of `items`, in order.
pub fn latencies<T: LatencyInfo>(items: &Vec<T>) -> (r: Vec<Duration>)
    ensures
        r@.map_values(|d: Duration| d@) == latency_nanos(items@),
{
    let mut r: Vec<Duration> = Vec::new();
    let mut i: usize = 0;
    while i < items.len()
        invariant
            0 <= i <= items.len(),
            r@.map_values(|d: Duration| d@) == latency_nanos(items@).take(i as int),
        decreases items.len() - i,
    {
        let d = items[i].latency();
        let ghost before = r@;
        r.push(d);
        proof {
            assert(latency_nanos(items@)[i as int] == d@);
            assert(latency_nanos(items@).take(i + 1) =~= latency_nanos(items@).take(i as int).push(d@));
            assert(r@ =~= before.push(d));
            assert(r@.map_values(|d: Duration| d@) =~= before.map_values(|d: Duration| d@).push(d@));
        }
        i += 1;
    }
    assert(latency_nanos(items@).take(items.len() as int) =~= latency_nanos(items@));
    r
}

/// The durations are in ascending order.
pub open spec fn sorted(s: Seq<Duration>) -> bool {
    forall|i: int, j: int| 0 <= i <= j < s.len() ==> (#[trigger] s[i])@ <= (#[trigger] s[j])@
}

/// The durations, shortest first.
pub fn sort_latencies(latencies: &Vec<Duration>) -> (r: Vec<Duration>)
    ensures
        sorted(r@),
        r@.to_multiset() == latencies@.to_multiset(),
{
    let mut r: Vec<Duration> = Vec::new();
    let mut i: usize = 0;
    assert(r@ =~= latencies@.take(0));
    while i < latencies.len()
        invariant
            0 <= i <= latencies.len(),
            sorted(r@),
            r@.to_multiset() == latencies@.take(i as int).to_multiset(),
            r.len() == i,
        decreases latencies.len() - i,
    {
        let x = latencies[i];
        let mut j: usize = 0;
        while j < r.len() && !x.lt(&r[j])
            invariant
                0 <= j <= r.len(),
                forall|k: int| 0 <= k < j ==> (#[trigger] r@[k])@ <= x@,
            decreases r.len() - j,
        {
            j += 1;
        }
        let ghost before = r@;
        r.insert(j, x);
        proof {
            assert(latencies@.take(i + 1) =~= latencies@.take(i as int).push(x));
            assert(r@ =~= before.insert(j as int, x));
            assert forall|a: int, b: int| 0 <= a <= b < r@.len() implies (#[trigger] r@[a])@ <= (#[trigger] r@[b])@ by {
                if a < j && b > j {
                    assert(r@[b] == before[b - 1]);
                } else if a == j && b > j {
                    assert(r@[b] == before[b - 1]);
                    assert(j < before.len());
                    assert(x@ < before[j as int]@);
                    assert(before[j as int]@ <= before[b - 1]@);
                } else if a > j {
                    assert(r@[a] == before[a - 1]);
                    assert(r@[b] == before[b - 1]);
                }
            }
        }
        i += 1;
    }
    assert(latencies@.take(latencies.len() as int) =~= latencies@);
    r
}

/// The shortest of the durations.
pub fn calculate_min(latencies: &Vec<Duration>) -> (m: Duration)
    requires
        latencies.len() > 0,
    ensures
        latencies@.contains(m),
        forall|i: int| 0 <= i < latencies.len() ==> m@ <= (#[trigger] latencies@[i])@,
{
    let mut m = latencies[0];
    let mut i: usize = 1;
    while i < latencies.len()
        invariant
            1 <= i <= latencies.len(),
            latencies@.contains(m),
            forall|k: int| 0 <= k < i ==> m@ <= (#[trigger] latencies@[k])@,
        decreases latencies.len() - i,
    {
        if latencies[i].lt(&m) {
            m = latencies[i];
        }
        i += 1;
    }
    m
}

/// The longest of the durations.
pub fn calculate_max(latencies: &Vec<Duration>) -> (m: Duration)
    requires
        latencies.len() > 0,
    ensures
        latencies@.contains(m),
        forall|i: int| 0 <= i < latencies.len() ==> (#[trigger] latencies@[i])@ <= m@,
{
    let mut m = latencies[0];
    let mut i: usize = 1;
    while i < latencies.len()
        invariant
            1 <= i <= latencies.len(),
            latencies@.contains(m),
            forall|k: int| 0 <= k < i ==> (#[trigger] latencies@[k])@ <= m@,
        decreases latencies.len() - i,
    {
        if m.lt(&latencies[i]) {
            m = latencies[i];
        }
        i += 1;
    }
    m
}

/// The position of the `percentile` percentile among `len` sorted values:
/// one less than `percentile` hundredths of `len`, rounded up.
pub fn percentile_index(len: usize, percentile: u8) -> (i: usize)
    requires
        len > 0,
        0 < percentile <= 100,
    ensures
        i < len,
        i * 100 < percentile * len <= (i + 1) * 100,
{
    let p = percentile as u128;
    let n = len as u128;
    assert(p * n <= 100 * n && 100 * n <= 100 * 0xffff_ffff_ffff_ffffu128 && p * n >= 1) by (nonlinear_arith)
        requires p <= 100, 1 <= p, 1 <= n, n <= 0xffff_ffff_ffff_ffffu128;
    let product = p * n;
    let rounded_up = (product + 99) / 100;
    assert(rounded_up * 100 >= product && (rounded_up - 1) * 100 < product) by (nonlinear_arith)
        requires rounded_up == (product + 99) / 100, product >= 1;
    assert(rounded_up <= n) by (nonlinear_arith)
        requires rounded_up == (product + 99) / 100, product == p * n, p <= 100, n >= 1;
    (rounded_up - 1) as usize
}

/// The `percentile` percentile of durations sorted shortest first.
pub fn calculate_percentile(latencies: &Vec<Duration>, percentile: u8) -> (d: Duration)
    requires
        latencies.len() > 0,
        0 < percentile <= 100,
    ensures
        exists|i: int| 0 <= i < latencies.len() && i * 100 < percentile * latencies.len() <= (i + 1) * 100
            && d == latencies@[i],
{
    let i = percentile_index(latencies.len(), percentile);
    latencies[i]
}

/// Every request either succeeded or failed, so the two counts add up to
/// the total.
pub proof fn lemma_failures_bounded<T: LatencyInfo>(items: Seq<T>)
    ensures
        failures(items) <= items.len(),
    decreases items.len(),
{
    if items.len() > 0 {
        lemma_failures_bounded(items.drop_last());
    }
}

/// Each item adds exactly one failure when it failed and none when it
/// succeeded.
pub proof fn lemma_failures_push<T: LatencyInfo>(items: Seq<T>, x: T)
    ensures
        failures(items.push(x)) == failures(items) + if x.spec_successful() { 0int } else { 1int },
{
    assert(items.push(x).drop_last() =~= items);
}

/// The failures are exactly the items that did not succeed.
pub proof fn lemma_failures_count<T: LatencyInfo>(items: Seq<T>)
    ensures
        failures(items) == items.filter(|x: T| !x.spec_successful()).len(),
    decreases items.len(),
{
    reveal(Seq::filter);
    if items.len() > 0 {
        lemma_failures_count(items.drop_last());
    }
}

/// Iterations never fail.
pub proof fn lemma_iterations_never_fail(items: Seq<IterationInfo>)
    ensures
        failures(items) == 0,
    decreases items.len(),
{
    if items.len() > 0 {
        lemma_iterations_never_fail(items.drop_last());
    }
}

} // verus!
