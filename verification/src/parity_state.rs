//! Comparison state of the canonical and the shadow side.

use crate::channel::{
    BlobDecodeError, BlockInfo, Channel, DerivationCodec, Frame, FrameOutcome, FrameParseError,
    NormalizedChannel,
};
use crate::comparison;
use crate::comparison::L2Pair;
use crate::divergence::{Divergence, DivergenceLog};
use crate::error::ParityError;
use crate::l2_queue;
use crate::metrics::{BatcherServiceMetrics, Counter, Gauge, MetricEvent};
use crate::normalized::NormalizedL2Block;
use crate::side_state::{IngestedPayload, ParitySideState, SideView};
use std::collections::{BTreeMap, VecDeque};
use vstd::prelude::*;

verus! {

broadcast use {
    vstd::std_specs::btree::group_btree_axioms,
    vstd::std_specs::vecdeque::group_vec_dequeue_axioms,
};

/// Pending-batch queue delta that triggers an operator-facing drift warning.
pub const PENDING_QUEUE_DRIFT_WARN_THRESHOLD: usize = 10;

/// Side of the parity comparison.
#[derive(Clone, Copy, Debug, PartialEq, Eq, Structural)]
pub enum ParitySide {
    /// Canonical op-batcher submissions to the rollup-config inbox.
    Canonical,
    /// Shadow base-batcher submissions to the override inbox.
    Shadow,
}

/// Result counts from one comparison pass.
#[derive(Clone, Copy, Debug, PartialEq, Eq, Structural)]
pub struct ParityCompareStats {
    /// Number of matching batches compared.
    pub matches: usize,
    /// Number of diverging batches compared.
    pub divergences: usize,
    /// Number of matching decoded L2 blocks compared by timestamp and content.
    pub l2_block_matches: usize,
    /// Number of diverging decoded L2 blocks compared by timestamp and content.
    pub l2_block_mismatches: usize,
}

/// Stateful parity comparison data.
#[derive(Debug)]
pub struct ParityState {
    /// Canonical side channel/batch state.
    pub canonical: ParitySideState,
    /// Shadow side channel/batch state.
    pub shadow: ParitySideState,
    /// Last comparison result, if any comparison has completed.
    pub last_result: Option<bool>,
    /// Last decoded L2 block content comparison result, if any has completed.
    pub last_l2_result: Option<bool>,
    /// Last pending queue drift reported to logs.
    pub last_reported_pending_drift: usize,
}

/// An operator-facing warning that the pending queues drifted apart.
#[derive(Clone, Copy, Debug, PartialEq, Eq, Structural)]
pub struct PendingDriftWarning {
    /// L1 block after which the drift was seen.
    pub l1_block: u64,
    /// Absolute difference between the queue lengths.
    pub drift: usize,
    /// Canonical batches waiting for comparison.
    pub canonical_pending: usize,
    /// Shadow batches waiting for comparison.
    pub shadow_pending: usize,
}

/// What the comparison state holds.
#[verifier::ext_equal]
pub struct StateView {
    pub canonical: SideView,
    pub shadow: SideView,
    pub last_result: Option<bool>,
    pub last_l2_result: Option<bool>,
    pub last_reported_pending_drift: usize,
}

/// The absolute difference of two counts.
pub open spec fn distance(left: int, right: int) -> int {
    if left <= right {
        right - left
    } else {
        left - right
    }
}

impl View for ParityState {
    type V = StateView;

    open spec fn view(&self) -> StateView {
        StateView {
            canonical: self.canonical@,
            shadow: self.shadow@,
            last_result: self.last_result,
            last_l2_result: self.last_l2_result,
            last_reported_pending_drift: self.last_reported_pending_drift,
        }
    }
}

impl StateView {
    /// A state that has seen and compared nothing.
    pub open spec fn empty() -> StateView {
        StateView {
            canonical: SideView::empty(),
            shadow: SideView::empty(),
            last_result: None,
            last_l2_result: None,
            last_reported_pending_drift: 0,
        }
    }

    /// Both sides are well formed.
    pub open spec fn well_formed(self) -> bool {
        self.canonical.well_formed() && self.shadow.well_formed()
    }

    /// Neither side holds a complete channel that was not drained.
    pub open spec fn settled(self) -> bool {
        self.canonical.ready_ids().len() == 0 && self.shadow.ready_ids().len() == 0
    }

    /// The selected side.
    pub open spec fn side(self, side: ParitySide) -> SideView {
        match side {
            ParitySide::Canonical => self.canonical,
            ParitySide::Shadow => self.shadow,
        }
    }

    /// The state with one side replaced.
    pub open spec fn with_side(self, side: ParitySide, view: SideView) -> StateView {
        match side {
            ParitySide::Canonical => StateView { canonical: view, ..self },
            ParitySide::Shadow => StateView { shadow: view, ..self },
        }
    }

    /// The number of batch pairs that can be compared.
    pub open spec fn batch_pairs(self) -> nat {
        comparison::batch_pair_count(self.canonical.batches, self.shadow.batches)
    }

    /// The number of batch pairs that match.
    pub open spec fn batch_matches(self) -> nat {
        comparison::batch_matches(
            self.canonical.batches,
            self.shadow.batches,
            self.batch_pairs(),
        )
    }

    /// The state after the first `count` batch pairs were compared: the pairs
    /// left their queues and the last of them decided the result.
    pub open spec fn after_batch_pairs(self, count: nat) -> StateView {
        let canonical = self.canonical.batches;
        let shadow = self.shadow.batches;
        StateView {
            canonical: SideView { batches: canonical.skip(count as int), ..self.canonical },
            shadow: SideView { batches: shadow.skip(count as int), ..self.shadow },
            last_result: if count == 0 {
                self.last_result
            } else {
                Some(canonical[count - 1]@ == shadow[count - 1]@)
            },
            ..self
        }
    }

    /// The decoded L2 blocks that can be compared.
    pub open spec fn l2_pairs(self) -> Seq<L2Pair> {
        comparison::l2_pairs(self.canonical.l2_blocks, self.shadow.l2_blocks)
    }

    /// The state after all paired L2 blocks were compared.
    pub open spec fn after_l2_pairs(self) -> StateView {
        StateView {
            canonical: SideView {
                l2_blocks: comparison::unpaired(
                    self.canonical.l2_blocks,
                    self.shadow.l2_blocks,
                ),
                ..self.canonical
            },
            shadow: SideView {
                l2_blocks: comparison::unpaired(
                    self.shadow.l2_blocks,
                    self.canonical.l2_blocks,
                ),
                ..self.shadow
            },
            last_l2_result: comparison::l2_result(self.l2_pairs(), self.last_l2_result),
            ..self
        }
    }

    /// The state while L2 blocks are compared: the pairs of timestamps below
    /// `reached` have been.
    spec fn after_l2_progress(self, reached: nat) -> StateView {
        let canonical = self.canonical.l2_blocks;
        let shadow = self.shadow.l2_blocks;
        StateView {
            canonical: SideView {
                l2_blocks: comparison::unpaired_below(canonical, shadow, reached),
                ..self.canonical
            },
            shadow: SideView {
                l2_blocks: comparison::unpaired_below(shadow, canonical, reached),
                ..self.shadow
            },
            last_l2_result: comparison::l2_result(
                comparison::l2_pairs_below(canonical, shadow, reached),
                self.last_l2_result,
            ),
            ..self
        }
    }

    /// The pairs that wait at one timestamp.
    pub open spec fn l2_pairs_at(self, timestamp: u64) -> Seq<L2Pair> {
        comparison::l2_pairs_at(self.canonical.l2_blocks, self.shadow.l2_blocks, timestamp)
    }

    /// The state after the pairs of one timestamp were compared.
    pub open spec fn after_l2_pairs_at(self, timestamp: u64) -> StateView {
        let pairs = self.l2_pairs_at(timestamp);
        self.after_l2_pops(timestamp, pairs)
    }

    /// The state after as many L2 blocks as there are pairs left the queues of
    /// a timestamp and the last pair decided the result.
    pub open spec fn after_l2_pops(self, timestamp: u64, pairs: Seq<L2Pair>) -> StateView {
        if pairs.len() == 0 {
            self
        } else {
            StateView {
                canonical: SideView {
                    l2_blocks: l2_queue::advanced(
                        self.canonical.l2_blocks,
                        timestamp,
                        pairs.len(),
                    ),
                    ..self.canonical
                },
                shadow: SideView {
                    l2_blocks: l2_queue::advanced(self.shadow.l2_blocks, timestamp, pairs.len()),
                    ..self.shadow
                },
                last_l2_result: comparison::l2_result(pairs, self.last_l2_result),
                ..self
            }
        }
    }

    /// The counts of an L2 block comparison.
    pub open spec fn l2_stats(self) -> ParityCompareStats {
        ParityCompareStats {
            matches: 0,
            divergences: 0,
            l2_block_matches: l2_queue::saturated(comparison::l2_matches(self.l2_pairs())),
            l2_block_mismatches: l2_queue::saturated(comparison::l2_mismatches(self.l2_pairs())),
        }
    }

    /// The state after a comparison pass.
    pub open spec fn after_compare(self) -> StateView {
        self.after_batch_pairs(self.batch_pairs()).after_l2_pairs()
    }

    /// The counts of a comparison pass.
    pub open spec fn compare_stats(self) -> ParityCompareStats {
        ParityCompareStats {
            matches: self.batch_matches() as usize,
            divergences: (self.batch_pairs() - self.batch_matches()) as usize,
            ..self.l2_stats()
        }
    }

    /// The metric updates of a comparison pass.
    pub open spec fn compare_events(self, l1_block: u64) -> Seq<MetricEvent> {
        comparison::batch_events(
            self.canonical.batches,
            self.shadow.batches,
            self.batch_pairs(),
            l1_block,
        ) + comparison::l2_events(self.l2_pairs(), l1_block)
    }

    /// The records of a comparison pass: one for each pair of batches and then
    /// one for each pair of L2 blocks that differ, in the order of comparison.
    pub open spec fn divergences(self, l1_block: u64) -> Seq<Divergence> {
        comparison::batch_divergences(
            self.canonical.batches,
            self.shadow.batches,
            self.batch_pairs(),
            l1_block,
        ) + comparison::l2_divergences(self.l2_pairs(), l1_block)
    }

    /// The absolute pending-batch queue delta between the sides.
    pub open spec fn batch_drift(self) -> int {
        distance(self.canonical.batches.len() as int, self.shadow.batches.len() as int)
    }

    /// The number of L2 blocks that wait on a side.
    pub open spec fn waiting_l2_blocks(self, side: ParitySide) -> nat {
        l2_queue::block_total(self.side(side).l2_blocks)
    }

    /// The reported absolute L2 block queue delta between the sides.
    pub open spec fn l2_drift(self) -> int {
        distance(
            l2_queue::saturated(self.waiting_l2_blocks(ParitySide::Canonical)) as int,
            l2_queue::saturated(self.waiting_l2_blocks(ParitySide::Shadow)) as int,
        )
    }

    /// The alignment, if a comparison has completed. The result of L2 block
    /// comparisons takes precedence over that of batch comparisons; either
    /// counts only while nothing of its kind waits.
    pub open spec fn alignment(self) -> Option<bool> {
        match self.last_l2_result {
            Some(matched) => Some(
                matched && self.waiting_l2_blocks(ParitySide::Canonical) == 0
                    && self.waiting_l2_blocks(ParitySide::Shadow) == 0,
            ),
            None => match self.last_result {
                Some(matched) => Some(
                    matched && self.canonical.batches.len() == 0 && self.shadow.batches.len() == 0,
                ),
                None => None,
            },
        }
    }

    /// The gauge updates that report what waits.
    pub open spec fn pending_events(self) -> Seq<MetricEvent> {
        let canonical_l2 = l2_queue::saturated(self.waiting_l2_blocks(ParitySide::Canonical));
        let shadow_l2 = l2_queue::saturated(self.waiting_l2_blocks(ParitySide::Shadow));
        seq![
            MetricEvent::SetGauge(
                Gauge::CanonicalPendingBatches,
                self.canonical.batches.len() as u64,
            ),
            MetricEvent::SetGauge(Gauge::ShadowPendingBatches, self.shadow.batches.len() as u64),
            MetricEvent::SetGauge(Gauge::PendingBatchDelta, self.batch_drift() as u64),
            MetricEvent::SetGauge(Gauge::CanonicalPendingL2Blocks, canonical_l2 as u64),
            MetricEvent::SetGauge(Gauge::ShadowPendingL2Blocks, shadow_l2 as u64),
            MetricEvent::SetGauge(Gauge::PendingL2BlockDelta, self.l2_drift() as u64),
            MetricEvent::SetGauge(
                Gauge::OldestUnmatchedCanonicalL2Timestamp,
                match l2_queue::oldest(self.canonical.l2_blocks) {
                    Some(timestamp) => timestamp,
                    None => 0,
                },
            ),
            MetricEvent::SetGauge(
                Gauge::OldestUnmatchedShadowL2Timestamp,
                match l2_queue::oldest(self.shadow.l2_blocks) {
                    Some(timestamp) => timestamp,
                    None => 0,
                },
            ),
        ]
    }

    /// The gauge update that reports the alignment.
    pub open spec fn alignment_events(self) -> Seq<MetricEvent> {
        match self.alignment() {
            Some(aligned) => seq![
                MetricEvent::SetGauge(
                    Gauge::Aligned,
                    if aligned {
                        1
                    } else {
                        0
                    },
                ),
            ],
            None => Seq::empty(),
        }
    }

    /// The state after the drift was checked.
    pub open spec fn after_drift_check(self) -> StateView {
        StateView {
            last_reported_pending_drift: if self.batch_drift()
                < PENDING_QUEUE_DRIFT_WARN_THRESHOLD {
                0
            } else {
                self.batch_drift() as usize
            },
            ..self
        }
    }

    /// The warning that a drift check gives: once for each new drift at or
    /// above the threshold.
    pub open spec fn drift_warning(self, l1_block: u64) -> Option<PendingDriftWarning> {
        if self.batch_drift() >= PENDING_QUEUE_DRIFT_WARN_THRESHOLD && self.batch_drift()
            != self.last_reported_pending_drift {
            Some(
                PendingDriftWarning {
                    l1_block,
                    drift: self.batch_drift() as usize,
                    canonical_pending: self.canonical.batches.len() as usize,
                    shadow_pending: self.shadow.batches.len() as usize,
                },
            )
        } else {
            None
        }
    }
}

impl Default for ParityCompareStats {
    /// Nothing compared.
    fn default() -> (stats: Self)
        ensures
            stats.matches == 0,
            stats.divergences == 0,
            stats.l2_block_matches == 0,
            stats.l2_block_mismatches == 0,
    {
        ParityCompareStats {
            matches: 0,
            divergences: 0,
            l2_block_matches: 0,
            l2_block_mismatches: 0,
        }
    }
}

impl Default for ParityState {
    /// A state that has seen and compared nothing.
    fn default() -> (state: Self)
        ensures
            state@ == StateView::empty(),
    {
        ParityState {
            canonical: ParitySideState::default(),
            shadow: ParitySideState::default(),
            last_result: None,
            last_l2_result: None,
            last_reported_pending_drift: 0,
        }
    }
}

impl ParitySide {
    /// The payload counter of a side.
    pub open spec fn payload_counter(self) -> Counter {
        match self {
            ParitySide::Canonical => Counter::CanonicalPayloads,
            ParitySide::Shadow => Counter::ShadowPayloads,
        }
    }

    /// The complete-channel counter of a side.
    pub open spec fn complete_channel_counter(self) -> Counter {
        match self {
            ParitySide::Canonical => Counter::CanonicalCompleteChannels,
            ParitySide::Shadow => Counter::ShadowCompleteChannels,
        }
    }

    /// The decoded-batch counter of a side.
    pub open spec fn batch_counter(self) -> Counter {
        match self {
            ParitySide::Canonical => Counter::CanonicalBatches,
            ParitySide::Shadow => Counter::ShadowBatches,
        }
    }

    /// The decoded L2 block counter of a side.
    pub open spec fn l2_block_counter(self) -> Counter {
        match self {
            ParitySide::Canonical => Counter::CanonicalL2Blocks,
            ParitySide::Shadow => Counter::ShadowL2Blocks,
        }
    }

    /// Increment the payload counter for this side.
    pub fn increment_payloads(self, metrics: &mut BatcherServiceMetrics)
        ensures
            final(metrics)@ == old(metrics)@.push(
                MetricEvent::Increment(self.payload_counter(), 1),
            ),
    {
        match self {
            ParitySide::Canonical => metrics.increment(Counter::CanonicalPayloads, 1),
            ParitySide::Shadow => metrics.increment(Counter::ShadowPayloads, 1),
        }
    }

    /// Increment the complete-channel counter for this side.
    pub fn increment_complete_channels(self, count: u64, metrics: &mut BatcherServiceMetrics)
        ensures
            final(metrics)@ == old(metrics)@.push(
                MetricEvent::Increment(self.complete_channel_counter(), count),
            ),
    {
        match self {
            ParitySide::Canonical => metrics.increment(Counter::CanonicalCompleteChannels, count),
            ParitySide::Shadow => metrics.increment(Counter::ShadowCompleteChannels, count),
        }
    }

    /// Increment the decoded-batch counter for this side.
    pub fn increment_batches(self, count: u64, metrics: &mut BatcherServiceMetrics)
        ensures
            final(metrics)@ == old(metrics)@.push(
                MetricEvent::Increment(self.batch_counter(), count),
            ),
    {
        match self {
            ParitySide::Canonical => metrics.increment(Counter::CanonicalBatches, count),
            ParitySide::Shadow => metrics.increment(Counter::ShadowBatches, count),
        }
    }

    /// Increment the decoded L2 block counter for this side.
    pub fn increment_l2_blocks(self, count: u64, metrics: &mut BatcherServiceMetrics)
        ensures
            final(metrics)@ == old(metrics)@.push(
                MetricEvent::Increment(self.l2_block_counter(), count),
            ),
    {
        match self {
            ParitySide::Canonical => metrics.increment(Counter::CanonicalL2Blocks, count),
            ParitySide::Shadow => metrics.increment(Counter::ShadowL2Blocks, count),
        }
    }
}

/// Number of blocks that wait at a timestamp.
fn waiting_count(
    map: &BTreeMap<u64, VecDeque<NormalizedL2Block>>,
    timestamp: u64,
) -> (count: usize)
    ensures
        count == l2_queue::waiting_at(l2_queue::queues(*map), timestamp).len(),
{
    match map.get(&timestamp) {
        Some(queue) => queue.len(),
        None => 0,
    }
}

/// The absolute difference of two counts.
fn difference(left: usize, right: usize) -> (delta: usize)
    ensures
        delta == distance(left as int, right as int),
{
    if left <= right {
        right - left
    } else {
        left - right
    }
}

/// Timestamps at which the canonical side holds no queue change nothing.
proof fn lemma_l2_gap(pre: StateView, timestamps: Seq<u64>, i: int, start: nat, end: nat)
    requires
        l2_queue::ascending_keys(pre.canonical.l2_blocks, timestamps),
        0 <= i <= timestamps.len(),
        i == 0 ==> start == 0,
        i > 0 ==> start == timestamps[i - 1] + 1,
        i < timestamps.len() ==> end == timestamps[i],
        i == timestamps.len() ==> end == l2_queue::timestamp_end(),
    ensures
        start <= end,
        pre.after_l2_progress(start) == pre.after_l2_progress(end),
        comparison::l2_pairs_below(pre.canonical.l2_blocks, pre.shadow.l2_blocks, start)
            == comparison::l2_pairs_below(pre.canonical.l2_blocks, pre.shadow.l2_blocks, end),
{
    let cq = pre.canonical.l2_blocks;
    let sq = pre.shadow.l2_blocks;
    assert forall|t: u64| start <= t < end implies !#[trigger] cq.contains_key(t) by {
        if cq.contains_key(t) {
            let k = timestamps.index_of(t);
            assert(timestamps[k] == t);
        }
    }
    comparison::lemma_l2_pairs_gap(cq, sq, start, end);
    comparison::lemma_unpaired_gap(cq, sq, start, end);
    comparison::lemma_unpaired_gap(sq, cq, start, end);
}

/// Comparing one more timestamp of the canonical side.
proof fn lemma_l2_step(pre: StateView, timestamp: u64)
    requires
        pre.canonical.l2_blocks.contains_key(timestamp),
    ensures
        ({
            let before = pre.after_l2_progress(timestamp as nat);
            let after = pre.after_l2_progress((timestamp + 1) as nat);
            let cq = pre.canonical.l2_blocks;
            let sq = pre.shadow.l2_blocks;
            &&& before.l2_pairs_at(timestamp) == comparison::l2_pairs_at(cq, sq, timestamp)
            &&& after == before.after_l2_pairs_at(timestamp)
            &&& comparison::l2_pairs_below(cq, sq, (timestamp + 1) as nat)
                == comparison::l2_pairs_below(cq, sq, timestamp as nat)
                + comparison::l2_pairs_at(cq, sq, timestamp)
        }),
{
    let before = pre.after_l2_progress(timestamp as nat);
    let after = pre.after_l2_progress((timestamp + 1) as nat);
    let cq = pre.canonical.l2_blocks;
    let sq = pre.shadow.l2_blocks;
    let more = comparison::l2_pairs_at(cq, sq, timestamp);
    assert(((timestamp + 1) as nat - 1) as u64 == timestamp);
    comparison::lemma_l2_pairs_concat(
        comparison::l2_pairs_below(cq, sq, timestamp as nat),
        more,
        pre.last_l2_result,
        0,
    );
    if sq.contains_key(timestamp) {
        comparison::lemma_unpaired_step(cq, sq, timestamp);
        comparison::lemma_unpaired_step(sq, cq, timestamp);
    } else {
        comparison::lemma_unpaired_gap(cq, sq, timestamp as nat, (timestamp + 1) as nat);
        comparison::lemma_unpaired_gap(sq, cq, timestamp as nat, (timestamp + 1) as nat);
    }
    assert(before.l2_pairs_at(timestamp) =~= more);
    if more.len() == 0 {
        assert(comparison::l2_pairs_below(cq, sq, timestamp as nat) + more
            =~= comparison::l2_pairs_below(cq, sq, timestamp as nat));
    }
    assert(after =~= before.after_l2_pairs_at(timestamp));
}

impl ParityState {
    /// Compares the L2 blocks of one timestamp that have partners, oldest
    /// first, and counts the matches and the mismatches.
    fn compare_l2_timestamp(
        &mut self,
        timestamp: u64,
        l1_block: u64,
        metrics: &mut BatcherServiceMetrics,
        log: &mut DivergenceLog,
    ) -> (counts: (usize, usize))
        ensures
            final(log)@ == old(log)@ + comparison::l2_divergences(
                old(self)@.l2_pairs_at(timestamp),
                l1_block,
            ),
            counts.0 == comparison::l2_matches(old(self)@.l2_pairs_at(timestamp)),
            counts.1 == comparison::l2_mismatches(old(self)@.l2_pairs_at(timestamp)),
            final(self)@ == old(self)@.after_l2_pairs_at(timestamp),
            final(metrics)@ == old(metrics)@ + comparison::l2_events(
                old(self)@.l2_pairs_at(timestamp),
                l1_block,
            ),
    {
        let ghost pre = self@;
        let ghost all = pre.l2_pairs_at(timestamp);
        let ghost recorded = metrics@;
        let ghost logged = log@;
        let canonical_count = waiting_count(&self.canonical.l2_blocks, timestamp);
        let shadow_count = waiting_count(&self.shadow.l2_blocks, timestamp);
        let pair_count = if canonical_count <= shadow_count {
            canonical_count
        } else {
            shadow_count
        };
        let mut matched: usize = 0;
        let mut mismatched: usize = 0;
        let mut k: usize = 0;
        proof {
            assert(all.take(0) =~= Seq::empty());
            assert(recorded =~= recorded + comparison::l2_events(all.take(0), l1_block));
            assert(logged =~= logged + comparison::l2_divergences(all.take(0), l1_block));
        }
        while k < pair_count
            invariant
                k <= pair_count,
                all == pre.l2_pairs_at(timestamp),
                all.len() == pair_count,
                matched == comparison::l2_matches(all.take(k as int)),
                mismatched == comparison::l2_mismatches(all.take(k as int)),
                matched + mismatched == k,
                self@ == pre.after_l2_pops(timestamp, all.take(k as int)),
                metrics@ == recorded + comparison::l2_events(all.take(k as int), l1_block),
                log@ == logged + comparison::l2_divergences(all.take(k as int), l1_block),
            decreases pair_count - k,
        {
            proof {
                comparison::lemma_advanced_step(pre.canonical.l2_blocks, timestamp, k as nat);
                comparison::lemma_advanced_step(pre.shadow.l2_blocks, timestamp, k as nat);
            }
            let canonical = self.canonical.pop_l2_block(timestamp).unwrap();
            let shadow = self.shadow.pop_l2_block(timestamp).unwrap();
            let is_match = comparison::compare_l2_pair(
                timestamp,
                &canonical,
                &shadow,
                l1_block,
                metrics,
                log,
            );
            if is_match {
                matched = matched + 1;
            } else {
                mismatched = mismatched + 1;
            }
            self.last_l2_result = Some(is_match);
            proof {
                let pair = all[k as int];
                assert(all.take(k + 1) =~= all.take(k as int).push(pair));
                comparison::lemma_l2_pair_push(all.take(k as int), pair, l1_block);
                assert(pair.canonical == canonical);
                assert(pair.shadow == shadow);
                assert(metrics@ =~= recorded + comparison::l2_events(all.take(k + 1), l1_block));
                assert(log@ =~= logged + comparison::l2_divergences(all.take(k + 1), l1_block));
                assert(self@ =~= pre.after_l2_pops(timestamp, all.take(k + 1)));
            }
            k = k + 1;
        }
        assert(all.take(all.len() as int) =~= all);
        (matched, mismatched)
    }

    /// Ingest one DA payload into the selected side.
    pub fn ingest_payload<
        P: Fn(&[u8]) -> Result<Vec<Frame>, FrameParseError>,
        A: Fn(&Channel, &Frame, &BlockInfo) -> FrameOutcome,
        N: Fn(&Channel, u64) -> Option<NormalizedChannel>,
        T: Fn(u64) -> u64,
        D: Fn(&Vec<u8>) -> Result<Vec<u8>, BlobDecodeError>,
    >(
        &mut self,
        side: ParitySide,
        payload: &[u8],
        block_info: BlockInfo,
        codec: &DerivationCodec<P, A, N, T, D>,
        metrics: &mut BatcherServiceMetrics,
    ) -> (result: Result<IngestedPayload, ParityError>)
        requires
            codec.total(),
        ensures
            final(self)@ == old(self)@.with_side(side, final(self)@.side(side)),
            exists|events: Seq<MetricEvent>|
                #[trigger] codec.ingests(
                    old(self)@.side(side),
                    payload@,
                    block_info,
                    final(self)@.side(side),
                    result,
                    events,
                ) && final(metrics)@ == old(metrics)@ + events,
    {
        let ghost pre = self@;
        let ghost recorded = metrics@;
        let result = match side {
            ParitySide::Canonical => self.canonical.ingest_payload(
                payload,
                block_info,
                codec,
                metrics,
            ),
            ParitySide::Shadow => self.shadow.ingest_payload(payload, block_info, codec, metrics),
        };
        proof {
            let after = self@.side(side);
            let events = choose|events: Seq<MetricEvent>| #[trigger]
                codec.ingests(pre.side(side), payload@, block_info, after, result, events)
                    && metrics@ == recorded + events;
            assert(codec.ingests(pre.side(side), payload@, block_info, after, result, events));
        }
        result
    }

    /// Compare all currently paired decoded batches.
    ///
    /// Batches are compared by position: once one side emits an extra or
    /// missing batch, later comparisons may be offset, and the pending queue
    /// delta is the operator's signal. Batches without a partner keep waiting.
    /// Each pair that differs is recorded in the log.
    pub fn compare_ready(
        &mut self,
        l1_block: u64,
        metrics: &mut BatcherServiceMetrics,
        log: &mut DivergenceLog,
    ) -> (stats: ParityCompareStats)
        ensures
            final(log)@ == old(log)@ + old(self)@.divergences(l1_block),
            stats == old(self)@.compare_stats(),
            final(self)@ == old(self)@.after_compare(),
            final(metrics)@ == old(metrics)@ + old(self)@.compare_events(l1_block),
    {
        let ghost pre = self@;
        let ghost canonical = pre.canonical.batches;
        let ghost shadow = pre.shadow.batches;
        let ghost recorded = metrics@;
        let ghost logged = log@;
        let mut stats = ParityCompareStats::default();
        let ghost mut count: nat = 0;
        proof {
            assert(self.canonical.batches.len() == canonical.len());
            assert(canonical.skip(0) =~= canonical);
            assert(shadow.skip(0) =~= shadow);
            assert(recorded =~= recorded + comparison::batch_events(
                canonical,
                shadow,
                0,
                l1_block,
            ));
            assert(logged =~= logged + comparison::batch_divergences(
                canonical,
                shadow,
                0,
                l1_block,
            ));
        }
        while self.canonical.batches.len() > 0 && self.shadow.batches.len() > 0
            invariant
                canonical == pre.canonical.batches,
                shadow == pre.shadow.batches,
                canonical.len() <= usize::MAX,
                count <= pre.batch_pairs(),
                self@ == pre.after_batch_pairs(count),
                stats.matches == comparison::batch_matches(canonical, shadow, count),
                stats.matches + stats.divergences == count,
                stats.l2_block_matches == 0,
                stats.l2_block_mismatches == 0,
                metrics@ == recorded + comparison::batch_events(
                    canonical,
                    shadow,
                    count,
                    l1_block,
                ),
                log@ == logged + comparison::batch_divergences(
                    canonical,
                    shadow,
                    count,
                    l1_block,
                ),
            decreases canonical.len() - count,
        {
            let ghost before = metrics@;
            let left = self.canonical.batches.pop_front().unwrap();
            let right = self.shadow.batches.pop_front().unwrap();
            let is_match = comparison::compare_batch_pair(&left, &right, l1_block, metrics, log);
            if is_match {
                stats.matches = stats.matches + 1;
            } else {
                stats.divergences = stats.divergences + 1;
            }
            self.last_result = Some(is_match);
            proof {
                assert(left == canonical[count as int]);
                assert(right == shadow[count as int]);
                count = count + 1;
                assert(self.canonical.batches@ =~= canonical.skip(count as int));
                assert(self.shadow.batches@ =~= shadow.skip(count as int));
                assert(metrics@ =~= recorded + comparison::batch_events(
                    canonical,
                    shadow,
                    count,
                    l1_block,
                ));
                assert(log@ =~= logged + comparison::batch_divergences(
                    canonical,
                    shadow,
                    count,
                    l1_block,
                ));
            }
        }
        proof {
            assert(count == pre.batch_pairs());
            assert(pre.after_batch_pairs(count).l2_pairs() == pre.l2_pairs());
        }
        let l2_stats = self.compare_l2_blocks(l1_block, metrics, log);
        stats.l2_block_matches = l2_stats.l2_block_matches;
        stats.l2_block_mismatches = l2_stats.l2_block_mismatches;
        assert(metrics@ =~= recorded + pre.compare_events(l1_block));
        assert(log@ =~= logged + pre.divergences(l1_block));
        stats
    }

    /// Compare decoded L2 blocks by timestamp and content, independent of submission order.
    pub fn compare_l2_blocks(
        &mut self,
        l1_block: u64,
        metrics: &mut BatcherServiceMetrics,
        log: &mut DivergenceLog,
    ) -> (stats: ParityCompareStats)
        ensures
            final(log)@ == old(log)@ + comparison::l2_divergences(
                old(self)@.l2_pairs(),
                l1_block,
            ),
            stats == old(self)@.l2_stats(),
            final(self)@ == old(self)@.after_l2_pairs(),
            final(metrics)@ == old(metrics)@ + comparison::l2_events(
                old(self)@.l2_pairs(),
                l1_block,
            ),
    {
        let ghost pre = self@;
        let ghost cq = pre.canonical.l2_blocks;
        let ghost sq = pre.shadow.l2_blocks;
        let ghost recorded = metrics@;
        let ghost logged = log@;
        let timestamps = l2_queue::keys_in_order(&self.canonical.l2_blocks);
        let mut stats = ParityCompareStats::default();
        let ghost mut reached: nat = 0;
        let ghost mut pairs: Seq<L2Pair> = Seq::empty();
        let mut i: usize = 0;
        proof {
            assert(comparison::unpaired_below(cq, sq, 0) =~= cq);
            assert(comparison::unpaired_below(sq, cq, 0) =~= sq);
            assert(recorded =~= recorded + comparison::l2_events(pairs, l1_block));
            assert(logged =~= logged + comparison::l2_divergences(pairs, l1_block));
            assert forall|t: u64| #[trigger] cq.contains_key(t) <==> timestamps@.contains(t) by {
                assert(self.canonical.l2_blocks@.contains_key(t) <==> timestamps@.contains(t));
            }
        }
        while i < timestamps.len()
            invariant
                i <= timestamps.len(),
                cq == pre.canonical.l2_blocks,
                sq == pre.shadow.l2_blocks,
                l2_queue::ascending_keys(cq, timestamps@),
                reached <= l2_queue::timestamp_end(),
                i == 0 ==> reached == 0,
                i > 0 ==> reached == timestamps@[i - 1] + 1,
                pairs == comparison::l2_pairs_below(cq, sq, reached),
                self@ == pre.after_l2_progress(reached),
                stats.matches == 0,
                stats.divergences == 0,
                stats.l2_block_matches == l2_queue::saturated(comparison::l2_matches(pairs)),
                stats.l2_block_mismatches == l2_queue::saturated(
                    comparison::l2_mismatches(pairs),
                ),
                metrics@ == recorded + comparison::l2_events(pairs, l1_block),
                log@ == logged + comparison::l2_divergences(pairs, l1_block),
            decreases timestamps.len() - i,
        {
            let timestamp = timestamps[i];
            proof {
                assert(timestamps@.contains(timestamp));
                lemma_l2_gap(pre, timestamps@, i as int, reached, timestamp as nat);
                reached = timestamp as nat;
            }
            let (matched, mismatched) = self.compare_l2_timestamp(
                timestamp,
                l1_block,
                metrics,
                log,
            );
            stats.l2_block_matches = stats.l2_block_matches.saturating_add(matched);
            stats.l2_block_mismatches = stats.l2_block_mismatches.saturating_add(mismatched);
            proof {
                let more = comparison::l2_pairs_at(cq, sq, timestamp);
                lemma_l2_step(pre, timestamp);
                comparison::lemma_l2_pairs_concat(pairs, more, pre.last_l2_result, l1_block);
                reached = (timestamp + 1) as nat;
                pairs = pairs + more;
                assert(metrics@ =~= recorded + comparison::l2_events(pairs, l1_block));
                assert(log@ =~= logged + comparison::l2_divergences(pairs, l1_block));
            }
            i = i + 1;
        }
        proof {
            lemma_l2_gap(pre, timestamps@, i as int, reached, l2_queue::timestamp_end());
        }
        stats
    }

    /// Record pending-batch gauges.
    pub fn record_pending_metrics(&self, metrics: &mut BatcherServiceMetrics)
        ensures
            final(metrics)@ == old(metrics)@ + self@.pending_events(),
    {
        let ghost recorded = metrics@;
        metrics.set(Gauge::CanonicalPendingBatches, self.canonical.pending_batches() as u64);
        metrics.set(Gauge::ShadowPendingBatches, self.shadow.pending_batches() as u64);
        metrics.set(Gauge::PendingBatchDelta, self.pending_batch_delta() as u64);
        metrics.set(Gauge::CanonicalPendingL2Blocks, self.canonical.pending_l2_blocks() as u64);
        metrics.set(Gauge::ShadowPendingL2Blocks, self.shadow.pending_l2_blocks() as u64);
        metrics.set(Gauge::PendingL2BlockDelta, self.pending_l2_block_delta() as u64);
        metrics.set(
            Gauge::OldestUnmatchedCanonicalL2Timestamp,
            self.canonical.oldest_l2_timestamp().unwrap_or(0),
        );
        metrics.set(
            Gauge::OldestUnmatchedShadowL2Timestamp,
            self.shadow.oldest_l2_timestamp().unwrap_or(0),
        );
        assert(metrics@ =~= recorded + self@.pending_events());
    }

    /// Warn when positional comparison queues are persistently drifting apart.
    pub fn warn_on_pending_drift(&mut self, l1_block: u64) -> (warning: Option<
        PendingDriftWarning,
    >)
        ensures
            warning == old(self)@.drift_warning(l1_block),
            final(self)@ == old(self)@.after_drift_check(),
    {
        let drift = self.pending_batch_delta();
        if drift < PENDING_QUEUE_DRIFT_WARN_THRESHOLD {
            self.last_reported_pending_drift = 0;
            return None;
        }
        if drift == self.last_reported_pending_drift {
            return None;
        }
        self.last_reported_pending_drift = drift;
        Some(
            PendingDriftWarning {
                l1_block,
                drift,
                canonical_pending: self.canonical.pending_batches(),
                shadow_pending: self.shadow.pending_batches(),
            },
        )
    }

    /// Return the absolute pending-batch queue delta between sides.
    pub fn pending_batch_delta(&self) -> (delta: usize)
        ensures
            delta == self@.batch_drift(),
    {
        difference(self.canonical.pending_batches(), self.shadow.pending_batches())
    }

    /// Return the absolute pending decoded L2 block delta between sides.
    pub fn pending_l2_block_delta(&self) -> (delta: usize)
        ensures
            delta == self@.l2_drift(),
    {
        difference(self.canonical.pending_l2_blocks(), self.shadow.pending_l2_blocks())
    }

    /// Evict incomplete channels that have exceeded the rollup channel timeout.
    pub fn evict_expired_channels<
        P: Fn(&[u8]) -> Result<Vec<Frame>, FrameParseError>,
        A: Fn(&Channel, &Frame, &BlockInfo) -> FrameOutcome,
        N: Fn(&Channel, u64) -> Option<NormalizedChannel>,
        T: Fn(u64) -> u64,
        D: Fn(&Vec<u8>) -> Result<Vec<u8>, BlobDecodeError>,
    >(
        &mut self,
        l1_block: u64,
        l1_timestamp: u64,
        codec: &DerivationCodec<P, A, N, T, D>,
    ) -> (evicted: usize)
        requires
            codec.total(),
        ensures
            codec.evicts(old(self)@, l1_block, l1_timestamp, final(self)@, evicted),
    {
        let ghost pre = self@;
        let from_canonical = self.canonical.evict_expired_channels(l1_block, l1_timestamp, codec);
        let from_shadow = self.shadow.evict_expired_channels(l1_block, l1_timestamp, codec);
        let evicted = from_canonical.saturating_add(from_shadow);
        proof {
            let c = choose|timeout: u64|
                {
                    &&& #[trigger] codec.times_out(l1_timestamp, timeout)
                    &&& from_canonical == pre.canonical.expired_ids(l1_block, timeout).len()
                    &&& self@.canonical == pre.canonical.without_expired(l1_block, timeout)
                };
            let s = choose|timeout: u64|
                {
                    &&& #[trigger] codec.times_out(l1_timestamp, timeout)
                    &&& from_shadow == pre.shadow.expired_ids(l1_block, timeout).len()
                    &&& self@.shadow == pre.shadow.without_expired(l1_block, timeout)
                };
            assert(codec.times_out(l1_timestamp, c) && codec.times_out(l1_timestamp, s));
            assert(self@ =~= pre.without_expired(l1_block, c, s));
            assert(evicted == pre.expired_count(l1_block, c, s));
        }
        evicted
    }

    /// Record the alignment gauge.
    pub fn record_alignment_metric(&self, metrics: &mut BatcherServiceMetrics)
        ensures
            final(metrics)@ == old(metrics)@ + self@.alignment_events(),
    {
        let ghost recorded = metrics@;
        match self.is_aligned() {
            Some(aligned) => {
                let value: u64 = if aligned {
                    1
                } else {
                    0
                };
                metrics.set(Gauge::Aligned, value);
            },
            None => {},
        }
        assert(metrics@ =~= recorded + self@.alignment_events());
    }

    /// Return the current alignment state, if at least one comparison has completed.
    pub fn is_aligned(&self) -> (aligned: Option<bool>)
        ensures
            aligned == self@.alignment(),
    {
        match self.last_l2_result {
            Some(matched) => Some(
                matched && self.canonical.pending_l2_blocks() == 0
                    && self.shadow.pending_l2_blocks() == 0,
            ),
            None => match self.last_result {
                Some(matched) => Some(
                    matched && self.canonical.pending_batches() == 0
                        && self.shadow.pending_batches() == 0,
                ),
                None => None,
            },
        }
    }
}

impl<
    P: Fn(&[u8]) -> Result<Vec<Frame>, FrameParseError>,
    A: Fn(&Channel, &Frame, &BlockInfo) -> FrameOutcome,
    N: Fn(&Channel, u64) -> Option<NormalizedChannel>,
    T: Fn(u64) -> u64,
    D: Fn(&Vec<u8>) -> Result<Vec<u8>, BlobDecodeError>,
> DerivationCodec<P, A, N, T, D> {
    /// Evicting expired channels may take the state from `pre` to `post` and
    /// count as many channels as given: each side is judged by a timeout that
    /// may be in force at the timestamp.
    pub open spec fn evicts(
        self,
        pre: StateView,
        l1_block: u64,
        l1_timestamp: u64,
        post: StateView,
        evicted: usize,
    ) -> bool {
        exists|canonical: u64, shadow: u64|
            {
                &&& #[trigger] self.times_out(l1_timestamp, canonical)
                &&& #[trigger] self.times_out(l1_timestamp, shadow)
                &&& evicted == pre.expired_count(l1_block, canonical, shadow)
                &&& post == pre.without_expired(l1_block, canonical, shadow)
            }
    }
}

impl StateView {
    /// The reported number of expired channels under each side's timeout.
    pub open spec fn expired_count(self, l1_block: u64, canonical: u64, shadow: u64) -> usize {
        l2_queue::saturated(
            self.canonical.expired_ids(l1_block, canonical).len() + self.shadow.expired_ids(
                l1_block,
                shadow,
            ).len(),
        )
    }

    /// The state without the channels that expired under each side's timeout.
    pub open spec fn without_expired(
        self,
        l1_block: u64,
        canonical: u64,
        shadow: u64,
    ) -> StateView {
        StateView {
            canonical: self.canonical.without_expired(l1_block, canonical),
            shadow: self.shadow.without_expired(l1_block, shadow),
            ..self
        }
    }
}

} // verus!
