//! Metrics of the shadow parity monitor.
//!
//! The monitor reports through counters and gauges. The library records each
//! update in order; the service that embeds it drains the record and emits the
//! updates to its metrics backend.

use vstd::prelude::*;

verus! {

/// A monotonically increasing metric of the shadow parity monitor.
#[derive(Clone, Copy, Debug, PartialEq, Eq, Structural)]
pub enum Counter {
    /// Canonical batch inbox payloads observed.
    CanonicalPayloads,
    /// Shadow batch inbox payloads observed.
    ShadowPayloads,
    /// Canonical complete channels decoded.
    CanonicalCompleteChannels,
    /// Shadow complete channels decoded.
    ShadowCompleteChannels,
    /// Canonical batches decoded.
    CanonicalBatches,
    /// Shadow batches decoded.
    ShadowBatches,
    /// Canonical L2 blocks decoded.
    CanonicalL2Blocks,
    /// Shadow L2 blocks decoded.
    ShadowL2Blocks,
    /// Matching batch comparisons.
    Matches,
    /// Diverging batch comparisons.
    Divergences,
    /// Matching decoded L2 block comparisons.
    L2BlockMatches,
    /// Matching decoded L2 block comparisons whose blocks hold transactions.
    L2BlockNonEmptyMatches,
    /// Diverging decoded L2 block comparisons.
    L2BlockMismatches,
    /// L2 block mismatches caused by L1 origin number differences.
    L2BlockOriginMismatches,
    /// L2 block mismatches caused by transaction count differences.
    L2BlockTxCountMismatches,
    /// L2 block mismatches caused by transaction hash differences.
    L2BlockTxHashMismatches,
    /// L1 fetch errors.
    L1FetchErrors,
    /// Blob sidecar fetch errors.
    BlobFetchErrors,
    /// Payload, frame and channel extraction errors.
    ExtractionErrors,
    /// Incomplete channels evicted.
    EvictedChannels,
    /// Blob submissions skipped because no L1 beacon URL is configured.
    MissingBeacon,
}

/// A metric of the shadow parity monitor that holds its latest value.
#[derive(Clone, Copy, Debug, PartialEq, Eq, Structural)]
pub enum Gauge {
    /// Whether the monitor is running.
    Enabled,
    /// Latest L1 block processed.
    LatestL1Block,
    /// Canonical decoded batches waiting for a shadow comparison.
    CanonicalPendingBatches,
    /// Shadow decoded batches waiting for a canonical comparison.
    ShadowPendingBatches,
    /// Absolute decoded-batch queue length difference between the sides.
    PendingBatchDelta,
    /// Canonical decoded L2 blocks waiting for shadow content parity.
    CanonicalPendingL2Blocks,
    /// Shadow decoded L2 blocks waiting for canonical content parity.
    ShadowPendingL2Blocks,
    /// Absolute decoded L2 block queue length difference between the sides.
    PendingL2BlockDelta,
    /// Oldest unmatched canonical L2 block timestamp.
    OldestUnmatchedCanonicalL2Timestamp,
    /// Oldest unmatched shadow L2 block timestamp.
    OldestUnmatchedShadowL2Timestamp,
    /// Latest alignment state: 1 for aligned, 0 for divergence or lag.
    Aligned,
    /// Latest L1 block where a batch comparison matched.
    LastMatchL1Block,
    /// Latest L1 block where a batch comparison diverged.
    LastDivergenceL1Block,
    /// Latest L2 block timestamp where decoded content matched.
    LastL2BlockMatchTimestamp,
    /// Latest L1 block where decoded L2 block content matched.
    LastL2BlockMatchL1Block,
    /// Latest L2 block timestamp where decoded content diverged.
    LastL2BlockMismatchTimestamp,
    /// Latest L1 block where decoded L2 block content diverged.
    LastL2BlockMismatchL1Block,
}

/// One update of a metric.
#[derive(Clone, Copy, Debug, PartialEq, Eq, Structural)]
pub enum MetricEvent {
    /// Increment a counter by an amount.
    Increment(Counter, u64),
    /// Set a gauge to a value.
    SetGauge(Gauge, u64),
}

/// The metric updates recorded so far, in the order they were made.
#[derive(Debug)]
pub struct BatcherServiceMetrics {
    /// Recorded updates, oldest first.
    pub events: Vec<MetricEvent>,
}

impl View for BatcherServiceMetrics {
    type V = Seq<MetricEvent>;

    open spec fn view(&self) -> Seq<MetricEvent> {
        self.events@
    }
}

impl Default for BatcherServiceMetrics {
    /// An empty record.
    fn default() -> (metrics: Self)
        ensures
            metrics@ == Seq::<MetricEvent>::empty(),
    {
        BatcherServiceMetrics { events: Vec::new() }
    }
}

impl BatcherServiceMetrics {
    /// Records a counter increment.
    pub fn increment(&mut self, counter: Counter, amount: u64)
        ensures
            final(self)@ == old(self)@.push(MetricEvent::Increment(counter, amount)),
    {
        self.events.push(MetricEvent::Increment(counter, amount));
    }

    /// Records a new gauge value.
    pub fn set(&mut self, gauge: Gauge, value: u64)
        ensures
            final(self)@ == old(self)@.push(MetricEvent::SetGauge(gauge, value)),
    {
        self.events.push(MetricEvent::SetGauge(gauge, value));
    }

    /// Hands out the recorded updates and starts an empty record.
    pub fn drain(&mut self) -> (events: Vec<MetricEvent>)
        ensures
            events@ == old(self)@,
            final(self)@ == Seq::<MetricEvent>::empty(),
    {
        let mut events: Vec<MetricEvent> = Vec::new();
        events.append(&mut self.events);
        proof {
            assert(events@ =~= old(self)@);
        }
        events
    }
}

} // verus!
