use vstd::prelude::*;
use crate::collector::{collect_outcomes, failure_count_of, successes_of};
use crate::sample::RequestOutcome;
use crate::stats::{reduce_spec, StatsError, Statistic};

verus! {

/// The computing half of one benchmark run, once every dispatched request
/// has its outcome: collect the samples and reduce them to statistics.
///
/// The result is a pure function of the outcomes — the duration of every
/// success and the count of every failure go in, `reduce_spec` says what
/// comes out. When every request failed there is no sample to average, and
/// the run surfaces `NoSuccessfulSamples` instead of a statistic.
pub fn reduce_outcomes(outcomes: Vec<RequestOutcome>) -> (r: Result<Statistic, StatsError>)
    ensures
        r == reduce_spec(successes_of(outcomes@), failure_count_of(outcomes@)),
        r is Ok <==> successes_of(outcomes@).len() > 0,
{
    let set = collect_outcomes(outcomes);
    Statistic::new(&set)
}

} // verus!
