use vstd::prelude::*;
use vstd::relations::{sorted_by, total_ordering};
use vstd::seq_lib::lemma_sorted_unique;
use vstd::arithmetic::div_mod::{lemma_div_is_ordered, lemma_div_by_multiple};
use crate::sample::SampleSet;

verus! {

/// The ascending order on durations by which samples are sorted.
pub open spec fn dur_leq() -> spec_fn(u64, u64) -> bool {
    |a: u64, b: u64| a <= b
}

/// The ascending rearrangement of a sequence of durations.
pub open spec fn sorted_of(s: Seq<u64>) -> Seq<u64> {
    s.sort_by(dur_leq())
}

/// The sum of a sequence of durations, as an unbounded integer.
pub open spec fn sum_of(s: Seq<u64>) -> int
    decreases s.len(),
{
    if s.len() == 0 {
        0
    } else {
        sum_of(s.drop_last()) + s.last()
    }
}

/// The average duration: the sum divided by the number of *successful*
/// samples (never by the requested count), rounded down to whole nanoseconds.
pub open spec fn average_of(s: Seq<u64>) -> int
    recommends
        s.len() > 0,
{
    sum_of(s) / (s.len() as int)
}

/// The median duration under the lower-middle-index rule: the element at
/// index `len / 2` (zero-based) of the ascending rearrangement. For an odd
/// count this is the exact middle; for an even count it is the upper of the
/// two central elements, matching the single-index selection convention.
pub open spec fn median_of(s: Seq<u64>) -> u64
    recommends
        s.len() > 0,
{
    sorted_of(s)[(s.len() / 2) as int]
}

/// Raised by the reduction when there is nothing to reduce.
#[derive(Clone, Copy, PartialEq, Eq, Structural, Debug)]
pub enum StatsError {
    /// Every request failed at the transport level, so no duration was
    /// sampled; an average over zero samples is undefined.
    NoSuccessfulSamples,
}

/// Summary latency statistics of one finalized run, in whole nanoseconds.
/// Computed once, from a finalized sample set; never mutated afterwards.
#[derive(Clone, Copy, PartialEq, Eq, Structural, Debug)]
pub struct Statistic {
    pub average: u64,
    pub median: u64,
    pub success_count: usize,
    pub failure_count: usize,
}

/// What reducing a sample set yields: statistics over the successful
/// durations, or `NoSuccessfulSamples` when there are none. The reduction is
/// a pure function of the set's contents — it has no hidden state.
pub open spec fn reduce_spec(durations: Seq<u64>, failure_count: nat) -> Result<
    Statistic,
    StatsError,
> {
    if durations.len() == 0 {
        Err(StatsError::NoSuccessfulSamples)
    } else {
        Ok(
            Statistic {
                average: average_of(durations) as u64,
                median: median_of(durations),
                success_count: durations.len() as usize,
                failure_count: failure_count as usize,
            },
        )
    }
}

/// The order on durations is total, so the ascending rearrangement of a
/// sequence of durations is unique.
pub proof fn lemma_dur_leq_total_ordering()
    ensures
        total_ordering(dur_leq()),
{
}

/// Reducing the same sample set any number of times yields identical
/// statistics: the reduction is a pure function of the set's durations and
/// failure count, with no hidden state.
pub proof fn lemma_reduction_idempotent(
    durations: Seq<u64>,
    failure_count: nat,
    r1: Result<Statistic, StatsError>,
    r2: Result<Statistic, StatsError>,
)
    requires
        r1 == reduce_spec(durations, failure_count),
        r2 == reduce_spec(durations, failure_count),
    ensures
        r1 == r2,
{
}

/// Appending one duration grows the sum by exactly that duration.
proof fn lemma_sum_push(s: Seq<u64>, x: u64)
    ensures
        sum_of(s.push(x)) == sum_of(s) + x,
{
    assert(s.push(x).drop_last() =~= s);
}

/// No sequence of durations sums to more than one maximal duration per
/// element.
proof fn lemma_sum_upper_bound(s: Seq<u64>)
    ensures
        0 <= sum_of(s) <= s.len() * u64::MAX,
    decreases s.len(),
{
    if s.len() > 0 {
        lemma_sum_upper_bound(s.drop_last());
        assert(s.len() * u64::MAX == (s.len() - 1) * u64::MAX + u64::MAX) by (nonlinear_arith);
    }
}

/// Removing one duration from anywhere in a sequence takes exactly that
/// duration out of the sum.
proof fn lemma_sum_remove(s: Seq<u64>, i: int)
    requires
        0 <= i < s.len(),
    ensures
        sum_of(s.remove(i)) == sum_of(s) - s[i],
    decreases s.len(),
{
    if i == s.len() - 1 {
        assert(s.remove(i) =~= s.drop_last());
    } else {
        assert(s.remove(i).drop_last() =~= s.drop_last().remove(i));
        lemma_sum_remove(s.drop_last(), i);
    }
}

/// The sum of a sequence of durations depends only on which durations it
/// holds, each counted with its multiplicity — not on their order.
proof fn lemma_sum_of_multiset(a: Seq<u64>, b: Seq<u64>)
    requires
        a.to_multiset() == b.to_multiset(),
    ensures
        sum_of(a) == sum_of(b),
    decreases a.len(),
{
    broadcast use vstd::seq_lib::group_to_multiset_ensures;
    broadcast use vstd::multiset::group_multiset_axioms;

    vstd::seq_lib::to_multiset_len(a);
    vstd::seq_lib::to_multiset_len(b);
    if a.len() > 0 {
        let x = a.last();
        assert(a.contains(x));
        assert(b.to_multiset().count(x) > 0);
        assert(b.contains(x));
        let i = choose|i: int| 0 <= i < b.len() && b[i] == x;
        lemma_sum_remove(b, i);
        assert(a.drop_last().push(x) =~= a);
        assert(a.drop_last().to_multiset().insert(x) == a.to_multiset());
        assert(b.remove(i).to_multiset() == b.to_multiset().remove(x));
        assert(a.drop_last().to_multiset() =~= b.remove(i).to_multiset());
        lemma_sum_of_multiset(a.drop_last(), b.remove(i));
    }
}

/// Two sample sets holding the same durations, however ordered, reduce to
/// the same statistics: the aggregation is ordering-independent, so it does
/// not matter in which order concurrent requests completed.
pub proof fn lemma_reduction_order_irrelevant(a: Seq<u64>, b: Seq<u64>, failure_count: nat)
    requires
        a.to_multiset() == b.to_multiset(),
    ensures
        reduce_spec(a, failure_count) == reduce_spec(b, failure_count),
{
    vstd::seq_lib::to_multiset_len(a);
    vstd::seq_lib::to_multiset_len(b);
    if a.len() > 0 {
        lemma_sum_of_multiset(a, b);
        lemma_dur_leq_total_ordering();
        a.lemma_sort_by_ensures(dur_leq());
        b.lemma_sort_by_ensures(dur_leq());
        lemma_sorted_unique(sorted_of(a), sorted_of(b), dur_leq());
    }
}

/// Sums the durations without overflow; the sum of at most `usize::MAX`
/// values of at most `u64::MAX` each fits in a `u128`.
fn sum_durations(v: &Vec<u64>) -> (sum: u128)
    ensures
        sum == sum_of(v@),
{
    let mut sum: u128 = 0;
    let n = v.len();
    proof {
        assert(v@.take(0) =~= Seq::<u64>::empty());
    }
    for i in 0..n
        invariant
            n == v@.len(),
            sum == sum_of(v@.take(i as int)),
            sum <= i * (u64::MAX as int),
    {
        proof {
            lemma_sum_push(v@.take(i as int), v@[i as int]);
            assert(v@.take(i as int).push(v@[i as int]) =~= v@.take(i + 1));
            assert((i + 1) * (u64::MAX as int) == i * (u64::MAX as int) + u64::MAX)
                by (nonlinear_arith);
            assert(i * (u64::MAX as int) <= (usize::MAX as int) * (u64::MAX as int))
                by (nonlinear_arith)
                requires
                    0 <= i <= usize::MAX as int,
            ;
        }
        sum = sum + v[i] as u128;
    }
    proof {
        assert(v@.take(n as int) =~= v@);
    }
    sum
}

/// Copies the durations into ascending order by insertion sort.
fn sorted_copy(v: &Vec<u64>) -> (r: Vec<u64>)
    ensures
        r@ == sorted_of(v@),
        r@.len() == v@.len(),
{
    broadcast use vstd::seq_lib::group_to_multiset_ensures;

    let mut r: Vec<u64> = Vec::new();
    let n = v.len();
    proof {
        assert(v@.take(0) =~= Seq::<u64>::empty());
    }
    for idx in 0..n
        invariant
            n == v@.len(),
            r@.to_multiset() == v@.take(idx as int).to_multiset(),
            sorted_by(r@, dur_leq()),
    {
        let x = v[idx];
        let ghost r_snap = r@;
        let mut j: usize = r.len();
        while j > 0 && r[j - 1] > x
            invariant
                r@ == r_snap,
                0 <= j <= r@.len(),
                forall|k: int| j <= k < r@.len() ==> r@[k] > x,
            decreases j,
        {
            j = j - 1;
        }
        proof {
            assert(sorted_by(r@.insert(j as int, x), dur_leq())) by {
                let r2 = r@.insert(j as int, x);
                assert forall|a: int, b: int| 0 <= a < b < r2.len() implies #[trigger] dur_leq()(
                    r2[a],
                    r2[b],
                ) by {
                    if b < j {
                        assert(r2[a] == r@[a] && r2[b] == r@[b]);
                    } else if b == j {
                        assert(r2[b] == x && r2[a] == r@[a]);
                        assert(j > 0 && r@[j - 1] <= x);
                        assert(a == j - 1 || dur_leq()(r@[a], r@[j - 1]));
                    } else if a < j {
                        assert(r2[a] == r@[a] && r2[b] == r@[b - 1] && b - 1 >= j);
                        assert(r@[b - 1] > x);
                        assert(a == b - 1 || dur_leq()(r@[a], r@[b - 1]));
                    } else if a == j {
                        assert(r2[a] == x && r2[b] == r@[b - 1] && b - 1 >= j);
                        assert(r@[b - 1] > x);
                    } else {
                        assert(r2[a] == r@[a - 1] && r2[b] == r@[b - 1]);
                    }
                }
            }
            assert(v@.take(idx as int).push(x) =~= v@.take(idx + 1));
        }
        r.insert(j, x);
        proof {
            vstd::seq_lib::to_multiset_insert(r_snap, j as int, x);
            vstd::seq_lib::to_multiset_build(v@.take(idx as int), x);
        }
    }
    proof {
        assert(v@.take(n as int) =~= v@);
        v@.lemma_sort_by_ensures(dur_leq());
        lemma_dur_leq_total_ordering();
        lemma_sorted_unique(r@, sorted_of(v@), dur_leq());
        vstd::seq_lib::to_multiset_len(r@);
        vstd::seq_lib::to_multiset_len(v@);
    }
    r
}

impl Statistic {
    /// Reduces a finalized sample set to its summary statistics.
    ///
    /// The average is the duration sum divided by the number of successful
    /// samples, never by the requested count; the median follows the
    /// lower-middle-index rule of `median_of`. When no request succeeded
    /// there is nothing to average, and the reduction reports
    /// `NoSuccessfulSamples` instead of producing a misleading value.
    pub fn new(set: &SampleSet) -> (r: Result<Statistic, StatsError>)
        ensures
            r == reduce_spec(set.durations@, set.failure_count as nat),
            set.durations@.len() > 0 <==> r is Ok,
    {
        let n = set.durations.len();
        if n == 0 {
            return Err(StatsError::NoSuccessfulSamples);
        }
        let sum = sum_durations(&set.durations);
        proof {
            lemma_sum_upper_bound(set.durations@);
            lemma_div_is_ordered(sum as int, n * (u64::MAX as int), n as int);
            lemma_div_by_multiple(u64::MAX as int, n as int);
            assert(n * (u64::MAX as int) == (u64::MAX as int) * n) by (nonlinear_arith);
        }
        let average = (sum / n as u128) as u64;
        let sorted = sorted_copy(&set.durations);
        let median = sorted[n / 2];
        Ok(
            Statistic {
                average,
                median,
                success_count: n,
                failure_count: set.failure_count,
            },
        )
    }
}

} // verus!
