use vstd::prelude::*;
use crate::sample::{RequestOutcome, SampleSet};

verus! {

/// The durations of the successful outcomes among `outcomes`, in the order
/// the outcomes were reported. Failures contribute no duration.
pub open spec fn successes_of(outcomes: Seq<RequestOutcome>) -> Seq<u64>
    decreases outcomes.len(),
{
    if outcomes.len() == 0 {
        Seq::empty()
    } else {
        let rest = successes_of(outcomes.drop_last());
        match outcomes.last() {
            RequestOutcome::Success { elapsed_nanos, .. } => rest.push(elapsed_nanos),
            RequestOutcome::Failure { .. } => rest,
        }
    }
}

/// How many of `outcomes` are transport-level failures.
pub open spec fn failure_count_of(outcomes: Seq<RequestOutcome>) -> nat
    decreases outcomes.len(),
{
    if outcomes.len() == 0 {
        0
    } else {
        failure_count_of(outcomes.drop_last()) + if outcomes.last() is Failure {
            1nat
        } else {
            0nat
        }
    }
}

/// Gathers the outcome of every dispatched request into one collection.
///
/// Each runner hands its outcome over exactly once; the collector keeps the
/// duration of every success and counts the failures. The insertion order of
/// the kept durations carries no meaning for the statistics computed later.
pub struct SampleCollector {
    samples: Vec<u64>,
    failure_count: usize,
}

impl SampleCollector {
    /// The durations reported by successful requests so far.
    pub closed spec fn successes(&self) -> Seq<u64> {
        self.samples@
    }

    /// How many failures have been reported so far.
    pub closed spec fn failures(&self) -> nat {
        self.failure_count as nat
    }

    /// How many outcomes have been reported so far: every report lands in
    /// exactly one of the two tallies, so none is lost or counted twice.
    pub open spec fn reported(&self) -> nat {
        self.successes().len() + self.failures()
    }

    /// A fresh collector that has seen no outcome.
    pub fn new() -> (c: SampleCollector)
        ensures
            c.successes() == Seq::<u64>::empty(),
            c.failures() == 0,
    {
        SampleCollector { samples: Vec::new(), failure_count: 0 }
    }

    /// Records one outcome: a success appends its duration, a failure bumps
    /// the failure tally. Nothing else changes, so outcomes are never lost,
    /// duplicated, or mixed up between the tallies.
    pub fn report(&mut self, outcome: RequestOutcome)
        requires
            old(self).reported() < usize::MAX,
        ensures
            outcome is Success ==> final(self).successes() == old(self).successes().push(
                outcome.spec_elapsed(),
            ) && final(self).failures() == old(self).failures(),
            outcome is Failure ==> final(self).successes() == old(self).successes()
                && final(self).failures() == old(self).failures() + 1,
    {
        match outcome {
            RequestOutcome::Success { elapsed_nanos, .. } => {
                self.samples.push(elapsed_nanos);
            },
            RequestOutcome::Failure { .. } => {
                self.failure_count = self.failure_count + 1;
            },
        }
    }

    /// Releases the accumulated samples once all expected outcomes are in.
    ///
    /// The caller states how many outcomes it dispatched; the collector hands
    /// the sample set out only when exactly that many have been reported, so
    /// the set never reflects a partial run.
    pub fn finalize(self, expected_count: usize) -> (r: SampleSet)
        requires
            self.reported() == expected_count,
        ensures
            r.durations@ == self.successes(),
            r.failure_count == self.failures(),
            r.durations@.len() + r.failure_count == expected_count,
    {
        SampleSet { durations: self.samples, failure_count: self.failure_count }
    }
}

/// Feeds every outcome of a finished run to a fresh collector, in reporting
/// order, and finalizes it. This is the whole collection step of the driver:
/// the sample set holds the duration of every success and the count of every
/// failure, and nothing else.
pub fn collect_outcomes(outcomes: Vec<RequestOutcome>) -> (r: SampleSet)
    ensures
        r.durations@ == successes_of(outcomes@),
        r.failure_count == failure_count_of(outcomes@),
        r.durations@.len() + r.failure_count == outcomes@.len(),
{
    proof {
        lemma_no_outcome_lost(outcomes@);
    }
    let n = outcomes.len();
    let mut collector = SampleCollector::new();
    let mut remaining = outcomes;
    let ghost all = remaining@;
    let mut i: usize = 0;
    proof {
        assert(all.take(0) =~= Seq::<RequestOutcome>::empty());
        assert(all.skip(0) =~= all);
    }
    while i < n
        invariant
            n == all.len(),
            i <= n,
            remaining@ == all.skip(i as int),
            collector.successes() == successes_of(all.take(i as int)),
            collector.failures() == failure_count_of(all.take(i as int)),
        decreases n - i,
    {
        let outcome = remaining.remove(0);
        proof {
            assert(outcome == all[i as int]);
            assert(all.skip(i as int).remove(0) =~= all.skip(i + 1));
            assert(all.take(i + 1).drop_last() =~= all.take(i as int));
            assert(all.take(i + 1).last() == all[i as int]);
            lemma_no_outcome_lost(all.take(i as int));
        }
        collector.report(outcome);
        i = i + 1;
    }
    proof {
        assert(all.take(n as int) =~= all);
    }
    collector.finalize(n)
}

/// Every reported outcome is accounted for exactly once: the number of kept
/// sample durations plus the number of counted failures always equals the
/// number of outcomes reported, however the successes and failures are
/// interleaved.
pub proof fn lemma_no_outcome_lost(outcomes: Seq<RequestOutcome>)
    ensures
        successes_of(outcomes).len() + failure_count_of(outcomes) == outcomes.len(),
    decreases outcomes.len(),
{
    if outcomes.len() > 0 {
        lemma_no_outcome_lost(outcomes.drop_last());
    }
}

/// In a run whose every outcome is a success, the collected sample set holds
/// exactly one duration per dispatched request.
pub proof fn lemma_all_successes_collected(outcomes: Seq<RequestOutcome>)
    requires
        forall|i: int| 0 <= i < outcomes.len() ==> outcomes[i] is Success,
    ensures
        successes_of(outcomes).len() == outcomes.len(),
        failure_count_of(outcomes) == 0,
    decreases outcomes.len(),
{
    if outcomes.len() > 0 {
        lemma_all_successes_collected(outcomes.drop_last());
    }
}

} // verus!
