use vstd::prelude::*;

verus! {

/// One dispatched request: its position in the run (1-based) and the target
/// it is aimed at. Created once per dispatch and read-only for its lifetime.
pub struct BenchmarkRequest {
    pub ordinal: usize,
    pub target_uri: String,
}

/// The terminal result of one dispatched request.
///
/// Any HTTP status code counts as a success — latency is measured regardless
/// of the server-side outcome. Only transport-level errors (connection, TLS,
/// timeout, protocol) are failures. Elapsed times are whole nanoseconds.
pub enum RequestOutcome {
    Success { ordinal: usize, elapsed_nanos: u64, status_code: u16 },
    Failure { ordinal: usize, elapsed_nanos: u64, error_description: String },
}

impl RequestOutcome {
    /// The measured wall-clock time of this request, success or failure.
    pub open spec fn spec_elapsed(&self) -> u64 {
        match self {
            RequestOutcome::Success { elapsed_nanos, .. } => *elapsed_nanos,
            RequestOutcome::Failure { elapsed_nanos, .. } => *elapsed_nanos,
        }
    }
}

/// The finalized collection of successful-request durations (nanoseconds),
/// together with the number of transport-level failures observed. The order
/// of the durations carries no meaning.
pub struct SampleSet {
    pub durations: Vec<u64>,
    pub failure_count: usize,
}

impl SampleSet {
    /// How many requests succeeded: one duration is kept per success.
    pub open spec fn success_count(&self) -> nat {
        self.durations@.len()
    }
}

} // verus!
