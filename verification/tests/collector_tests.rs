use std::sync::mpsc;

use http_bench::collector::{collect_outcomes, SampleCollector};
use http_bench::driver::reduce_outcomes;
use http_bench::sample::RequestOutcome;
use http_bench::stats::StatsError;

const MS: u64 = 1_000_000;

fn success(ordinal: usize, elapsed_nanos: u64) -> RequestOutcome {
    RequestOutcome::Success { ordinal, elapsed_nanos, status_code: 200 }
}

fn failure(ordinal: usize, elapsed_nanos: u64) -> RequestOutcome {
    RequestOutcome::Failure {
        ordinal,
        elapsed_nanos,
        error_description: String::from("connection refused"),
    }
}

#[test]
fn all_success_runs_keep_one_duration_per_request() {
    // every valid repeat count against a target that always succeeds
    for n in 1..=10usize {
        let mut collector = SampleCollector::new();
        for i in 1..=n {
            collector.report(success(i, i as u64 * MS));
        }
        let set = collector.finalize(n);
        assert_eq!(set.durations.len(), n);
        assert_eq!(set.failure_count, 0);
    }
}

#[test]
fn mixed_outcomes_are_all_accounted_for() {
    let mut collector = SampleCollector::new();
    for i in 1..=10usize {
        if i % 3 == 0 {
            collector.report(failure(i, 5 * MS));
        } else {
            collector.report(success(i, i as u64 * MS));
        }
    }
    let set = collector.finalize(10);
    assert_eq!(set.durations.len() + set.failure_count, 10);
    assert_eq!(set.durations.len(), 7);
    assert_eq!(set.failure_count, 3);
}

#[test]
fn collect_outcomes_keeps_success_durations() {
    let outcomes = vec![success(1, 10 * MS), failure(2, 99 * MS), success(3, 30 * MS)];
    let set = collect_outcomes(outcomes);
    assert_eq!(set.durations, vec![10 * MS, 30 * MS]);
    assert_eq!(set.failure_count, 1);
}

#[test]
fn reduce_outcomes_mixed_run() {
    let outcomes = vec![success(1, 10 * MS), success(2, 30 * MS), failure(3, 2 * MS)];
    let stat = reduce_outcomes(outcomes).unwrap();
    assert_eq!(stat.average, 20 * MS);
    assert_eq!(stat.median, 30 * MS);
    assert_eq!(stat.success_count, 2);
    assert_eq!(stat.failure_count, 1);
}

#[test]
fn reduce_outcomes_all_transport_failures() {
    // N = 3, every request fails at the transport level
    let outcomes = vec![failure(1, MS), failure(2, MS), failure(3, MS)];
    assert_eq!(reduce_outcomes(outcomes), Err(StatsError::NoSuccessfulSamples));
}

#[test]
fn empty_run_yields_error_not_statistics() {
    assert_eq!(reduce_outcomes(vec![]), Err(StatsError::NoSuccessfulSamples));
}

#[test]
fn concurrent_reporters_lose_no_outcome() {
    // ten runners race to completion; the channel is the only shared
    // resource, and every outcome must land exactly once
    let runtime = tokio::runtime::Builder::new_multi_thread().worker_threads(4).build().unwrap();
    let (sender, receiver) = mpsc::channel();
    runtime.block_on(async {
        let mut handles = Vec::new();
        for i in 1..=10usize {
            let sender = sender.clone();
            handles.push(tokio::spawn(async move {
                for _ in 0..i {
                    tokio::task::yield_now().await;
                }
                let outcome = if i % 4 == 0 {
                    failure(i, i as u64 * 7 * MS % 13)
                } else {
                    success(i, i as u64 * 11 * MS % 17)
                };
                sender.send(outcome).unwrap();
            }));
        }
        for handle in handles {
            handle.await.unwrap();
        }
    });
    drop(sender);
    let outcomes: Vec<RequestOutcome> = receiver.try_iter().collect();
    assert_eq!(outcomes.len(), 10);
    let set = collect_outcomes(outcomes);
    assert_eq!(set.durations.len() + set.failure_count, 10);
    assert_eq!(set.failure_count, 2);
    assert_eq!(set.durations.len(), 8);
}
