//! What a comparison pass pairs up, and what each pair reports.

use crate::divergence::{BatchDivergence, Divergence, DivergenceLog, L2Divergence};
use crate::l2_queue;
use crate::l2_queue::L2Queues;
use crate::metrics::{BatcherServiceMetrics, Counter, Gauge, MetricEvent};
use crate::normalized::{NormalizedBatch, NormalizedL2Block};
use vstd::prelude::*;

verus! {

/// Why the contents of two L2 blocks differ.
#[derive(Clone, Copy, Debug, PartialEq, Eq, Structural)]
pub enum L2MismatchReason {
    /// The L1 origin numbers differ.
    Origin,
    /// The L1 origins agree and the transaction counts differ.
    TxCount,
    /// The L1 origins and the transaction counts agree and the hashes differ.
    TxHash,
}

/// Two L2 blocks of one timestamp that are compared.
pub struct L2Pair {
    pub timestamp: u64,
    pub canonical: NormalizedL2Block,
    pub shadow: NormalizedL2Block,
}

/// The smaller of two lengths.
pub open spec fn shorter(left: nat, right: nat) -> nat {
    if left <= right {
        left
    } else {
        right
    }
}

/// The number of pairs that two batch queues form.
pub open spec fn batch_pair_count(
    canonical: Seq<NormalizedBatch>,
    shadow: Seq<NormalizedBatch>,
) -> nat {
    shorter(canonical.len(), shadow.len())
}

/// The number of matching pairs among the first `count`.
pub open spec fn batch_matches(
    canonical: Seq<NormalizedBatch>,
    shadow: Seq<NormalizedBatch>,
    count: nat,
) -> nat
    decreases count,
{
    if count == 0 {
        0
    } else {
        batch_matches(canonical, shadow, (count - 1) as nat) + (if canonical[count - 1]@
            == shadow[count - 1]@ {
            1nat
        } else {
            0nat
        })
    }
}

/// The metric updates of one compared batch pair.
pub open spec fn batch_pair_events(is_match: bool, l1_block: u64) -> Seq<MetricEvent> {
    if is_match {
        seq![
            MetricEvent::Increment(Counter::Matches, 1),
            MetricEvent::SetGauge(Gauge::LastMatchL1Block, l1_block),
        ]
    } else {
        seq![
            MetricEvent::Increment(Counter::Divergences, 1),
            MetricEvent::SetGauge(Gauge::LastDivergenceL1Block, l1_block),
        ]
    }
}

/// The metric updates of the first `count` compared batch pairs.
pub open spec fn batch_events(
    canonical: Seq<NormalizedBatch>,
    shadow: Seq<NormalizedBatch>,
    count: nat,
    l1_block: u64,
) -> Seq<MetricEvent>
    decreases count,
{
    if count == 0 {
        Seq::empty()
    } else {
        batch_events(canonical, shadow, (count - 1) as nat, l1_block) + batch_pair_events(
            canonical[count - 1]@ == shadow[count - 1]@,
            l1_block,
        )
    }
}

/// The record of two batches that differ.
pub open spec fn batch_divergence(
    canonical: NormalizedBatch,
    shadow: NormalizedBatch,
    l1_block: u64,
) -> Divergence {
    Divergence::Batch(
        BatchDivergence {
            l1_block,
            canonical_start_timestamp: canonical.start_timestamp,
            canonical_end_timestamp: canonical.end_timestamp,
            canonical_start_epoch: canonical.start_epoch_num,
            canonical_end_epoch: canonical.end_epoch_num,
            shadow_start_timestamp: shadow.start_timestamp,
            shadow_end_timestamp: shadow.end_timestamp,
            shadow_start_epoch: shadow.start_epoch_num,
            shadow_end_epoch: shadow.end_epoch_num,
        },
    )
}

/// The records of one compared batch pair: one where the batches differ, else
/// none.
pub open spec fn batch_pair_divergences(
    canonical: NormalizedBatch,
    shadow: NormalizedBatch,
    l1_block: u64,
) -> Seq<Divergence> {
    if canonical@ == shadow@ {
        Seq::empty()
    } else {
        seq![batch_divergence(canonical, shadow, l1_block)]
    }
}

/// The records of the first `count` compared batch pairs: one for each pair that
/// differs, in order.
pub open spec fn batch_divergences(
    canonical: Seq<NormalizedBatch>,
    shadow: Seq<NormalizedBatch>,
    count: nat,
    l1_block: u64,
) -> Seq<Divergence>
    decreases count,
{
    if count == 0 {
        Seq::empty()
    } else {
        batch_divergences(canonical, shadow, (count - 1) as nat, l1_block)
            + batch_pair_divergences(canonical[count - 1], shadow[count - 1], l1_block)
    }
}

impl L2Pair {
    /// The record of the pair: one where the contents differ, else none.
    pub open spec fn divergences(self, l1_block: u64) -> Seq<Divergence> {
        if self.matches() {
            Seq::empty()
        } else {
            seq![
                Divergence::L2Block(
                    L2Divergence {
                        l1_block,
                        l2_timestamp: self.timestamp,
                        canonical_epoch: self.canonical.epoch_num,
                        shadow_epoch: self.shadow.epoch_num,
                        canonical_tx_count: self.canonical.tx_hashes@.len() as usize,
                        shadow_tx_count: self.shadow.tx_hashes@.len() as usize,
                        reason: self.reason(),
                    },
                ),
            ]
        }
    }

    /// Both blocks hold the same content.
    pub open spec fn matches(self) -> bool {
        self.canonical.same_content(self.shadow)
    }

    /// Why the contents differ.
    pub open spec fn reason(self) -> L2MismatchReason {
        if self.canonical.epoch_num != self.shadow.epoch_num {
            L2MismatchReason::Origin
        } else if self.canonical.tx_hashes@.len() != self.shadow.tx_hashes@.len() {
            L2MismatchReason::TxCount
        } else {
            L2MismatchReason::TxHash
        }
    }

    /// The metric updates of the comparison.
    pub open spec fn events(self, l1_block: u64) -> Seq<MetricEvent> {
        if self.matches() {
            seq![MetricEvent::Increment(Counter::L2BlockMatches, 1)] + (
            if self.canonical.tx_hashes@.len() > 0 {
                seq![MetricEvent::Increment(Counter::L2BlockNonEmptyMatches, 1)]
            } else {
                Seq::empty()
            }) + seq![
                MetricEvent::SetGauge(Gauge::LastL2BlockMatchTimestamp, self.timestamp),
                MetricEvent::SetGauge(Gauge::LastL2BlockMatchL1Block, l1_block),
            ]
        } else {
            seq![
                MetricEvent::Increment(Counter::L2BlockMismatches, 1),
                MetricEvent::SetGauge(Gauge::LastL2BlockMismatchTimestamp, self.timestamp),
                MetricEvent::SetGauge(Gauge::LastL2BlockMismatchL1Block, l1_block),
                MetricEvent::Increment(self.reason().counter_of(), 1),
            ]
        }
    }
}

impl L2MismatchReason {
    /// The counter of mismatches with this reason.
    pub open spec fn counter_of(self) -> Counter {
        match self {
            L2MismatchReason::Origin => Counter::L2BlockOriginMismatches,
            L2MismatchReason::TxCount => Counter::L2BlockTxCountMismatches,
            L2MismatchReason::TxHash => Counter::L2BlockTxHashMismatches,
        }
    }

    /// The name of the reason.
    pub open spec fn text(self) -> Seq<char> {
        match self {
            L2MismatchReason::Origin => "origin"@,
            L2MismatchReason::TxCount => "tx_count"@,
            L2MismatchReason::TxHash => "tx_hash"@,
        }
    }

    /// The name of the reason.
    pub fn as_text(&self) -> (text: &'static str)
        ensures
            text@ == self.text(),
    {
        match self {
            L2MismatchReason::Origin => "origin",
            L2MismatchReason::TxCount => "tx_count",
            L2MismatchReason::TxHash => "tx_hash",
        }
    }

    /// The counter of mismatches with this reason.
    pub fn counter(self) -> (counter: Counter)
        ensures
            counter == self.counter_of(),
    {
        match self {
            L2MismatchReason::Origin => Counter::L2BlockOriginMismatches,
            L2MismatchReason::TxCount => Counter::L2BlockTxCountMismatches,
            L2MismatchReason::TxHash => Counter::L2BlockTxHashMismatches,
        }
    }
}

/// The pairs that the blocks waiting at a timestamp form, oldest first.
pub open spec fn l2_pairs_at(canonical: L2Queues, shadow: L2Queues, timestamp: u64) -> Seq<L2Pair> {
    let left = l2_queue::waiting_at(canonical, timestamp);
    let right = l2_queue::waiting_at(shadow, timestamp);
    Seq::new(
        shorter(left.len(), right.len()),
        |i: int| L2Pair { timestamp, canonical: left[i], shadow: right[i] },
    )
}

/// The pairs of timestamps below `end`, in ascending order of timestamp.
pub open spec fn l2_pairs_below(canonical: L2Queues, shadow: L2Queues, end: nat) -> Seq<L2Pair>
    decreases end,
{
    if end == 0 {
        Seq::empty()
    } else {
        l2_pairs_below(canonical, shadow, (end - 1) as nat) + l2_pairs_at(
            canonical,
            shadow,
            (end - 1) as u64,
        )
    }
}

/// All pairs of blocks with one timestamp, in ascending order of timestamp.
pub open spec fn l2_pairs(canonical: L2Queues, shadow: L2Queues) -> Seq<L2Pair> {
    l2_pairs_below(canonical, shadow, l2_queue::timestamp_end())
}

/// The number of matching pairs.
pub open spec fn l2_matches(pairs: Seq<L2Pair>) -> nat
    decreases pairs.len(),
{
    if pairs.len() == 0 {
        0
    } else {
        l2_matches(pairs.drop_last()) + (if pairs.last().matches() {
            1nat
        } else {
            0nat
        })
    }
}

/// The number of diverging pairs.
pub open spec fn l2_mismatches(pairs: Seq<L2Pair>) -> nat
    decreases pairs.len(),
{
    if pairs.len() == 0 {
        0
    } else {
        l2_mismatches(pairs.drop_last()) + (if pairs.last().matches() {
            0nat
        } else {
            1nat
        })
    }
}

/// The metric updates of compared pairs.
pub open spec fn l2_events(pairs: Seq<L2Pair>, l1_block: u64) -> Seq<MetricEvent>
    decreases pairs.len(),
{
    if pairs.len() == 0 {
        Seq::empty()
    } else {
        l2_events(pairs.drop_last(), l1_block) + pairs.last().events(l1_block)
    }
}

/// The records of compared pairs: one for each pair that differs, in order.
pub open spec fn l2_divergences(pairs: Seq<L2Pair>, l1_block: u64) -> Seq<Divergence>
    decreases pairs.len(),
{
    if pairs.len() == 0 {
        Seq::empty()
    } else {
        l2_divergences(pairs.drop_last(), l1_block) + pairs.last().divergences(l1_block)
    }
}

/// The result of the last pair, or an earlier result without pairs.
pub open spec fn l2_result(pairs: Seq<L2Pair>, earlier: Option<bool>) -> Option<bool> {
    if pairs.len() == 0 {
        earlier
    } else {
        Some(pairs.last().matches())
    }
}

/// The queues of one side after the timestamps below `end` were compared: of
/// each queue, the blocks that found no partner stay, and a queue that the
/// comparison emptied is removed.
pub open spec fn unpaired_below(own: L2Queues, other: L2Queues, end: nat) -> L2Queues {
    Map::new(
        |t: u64|
            own.contains_key(t) && !(t < end && 0 < own[t].len() <= l2_queue::waiting_at(
                other,
                t,
            ).len()),
        |t: u64|
            if t < end {
                own[t].skip(shorter(own[t].len(), l2_queue::waiting_at(other, t).len()) as int)
            } else {
                own[t]
            },
    )
}

/// The queues of one side after a comparison.
pub open spec fn unpaired(own: L2Queues, other: L2Queues) -> L2Queues {
    unpaired_below(own, other, l2_queue::timestamp_end())
}

/// One more pair.
pub proof fn lemma_l2_pair_push(pairs: Seq<L2Pair>, pair: L2Pair, l1_block: u64)
    ensures
        l2_matches(pairs.push(pair)) == l2_matches(pairs) + (if pair.matches() {
            1nat
        } else {
            0nat
        }),
        l2_mismatches(pairs.push(pair)) == l2_mismatches(pairs) + (if pair.matches() {
            0nat
        } else {
            1nat
        }),
        l2_events(pairs.push(pair), l1_block) == l2_events(pairs, l1_block) + pair.events(l1_block),
        l2_divergences(pairs.push(pair), l1_block) == l2_divergences(pairs, l1_block)
            + pair.divergences(l1_block),
{
    assert(pairs.push(pair).drop_last() =~= pairs);
}

/// Pairs that follow other pairs.
pub proof fn lemma_l2_pairs_concat(
    left: Seq<L2Pair>,
    right: Seq<L2Pair>,
    earlier: Option<bool>,
    l1_block: u64,
)
    ensures
        l2_matches(left + right) == l2_matches(left) + l2_matches(right),
        l2_mismatches(left + right) == l2_mismatches(left) + l2_mismatches(right),
        l2_events(left + right, l1_block) == l2_events(left, l1_block) + l2_events(
            right,
            l1_block,
        ),
        l2_divergences(left + right, l1_block) == l2_divergences(left, l1_block) + l2_divergences(
            right,
            l1_block,
        ),
        l2_result(left + right, earlier) == l2_result(right, l2_result(left, earlier)),
    decreases right.len(),
{
    if right.len() == 0 {
        assert(left + right =~= left);
        assert(l2_events(left, l1_block) + l2_events(right, l1_block) =~= l2_events(
            left,
            l1_block,
        ));
        assert(l2_divergences(left, l1_block) + l2_divergences(right, l1_block)
            =~= l2_divergences(left, l1_block));
    } else {
        lemma_l2_pairs_concat(left, right.drop_last(), earlier, l1_block);
        assert((left + right).drop_last() =~= left + right.drop_last());
        assert((left + right).last() == right.last());
        assert(l2_events(left + right, l1_block) =~= l2_events(left, l1_block) + l2_events(
            right,
            l1_block,
        ));
        assert(l2_divergences(left + right, l1_block) =~= l2_divergences(left, l1_block)
            + l2_divergences(right, l1_block));
    }
}

/// Every pair either matches or diverges.
pub proof fn lemma_l2_pairs_counted(pairs: Seq<L2Pair>)
    ensures
        l2_matches(pairs) + l2_mismatches(pairs) == pairs.len(),
    decreases pairs.len(),
{
    if pairs.len() > 0 {
        lemma_l2_pairs_counted(pairs.drop_last());
    }
}

/// Timestamps at which a side holds no block form no pairs.
pub proof fn lemma_l2_pairs_gap(canonical: L2Queues, shadow: L2Queues, start: nat, end: nat)
    requires
        start <= end <= l2_queue::timestamp_end(),
        forall|t: u64|
            start <= t < end ==> !(#[trigger] canonical.contains_key(t) && shadow.contains_key(t)),
    ensures
        l2_pairs_below(canonical, shadow, start) == l2_pairs_below(canonical, shadow, end),
    decreases end - start,
{
    if start < end {
        let t = (end - 1) as u64;
        assert(start <= t < end);
        assert(!(canonical.contains_key(t) && shadow.contains_key(t)));
        lemma_l2_pairs_gap(canonical, shadow, start, (end - 1) as nat);
        assert(l2_pairs_at(canonical, shadow, t) =~= Seq::empty());
    }
}

/// Timestamps that the other side lacks keep their queues.
pub proof fn lemma_unpaired_gap(own: L2Queues, other: L2Queues, start: nat, end: nat)
    requires
        start <= end,
        forall|t: u64|
            start <= t < end ==> !(#[trigger] own.contains_key(t) && other.contains_key(t)),
    ensures
        unpaired_below(own, other, start) == unpaired_below(own, other, end),
{
    let left = unpaired_below(own, other, start);
    let right = unpaired_below(own, other, end);
    assert forall|t: u64| left.contains_key(t) implies left[t] == right[t] by {
        if start <= t < end {
            assert(own[t].skip(0) =~= own[t]);
        }
    }
    assert(left =~= right);
}

/// Comparing one more timestamp takes the pairs off its queue.
pub proof fn lemma_unpaired_step(own: L2Queues, other: L2Queues, timestamp: u64)
    requires
        own.contains_key(timestamp),
        other.contains_key(timestamp),
    ensures
        ({
            let before = unpaired_below(own, other, timestamp as nat);
            let after = unpaired_below(own, other, (timestamp + 1) as nat);
            let count = shorter(own[timestamp].len(), other[timestamp].len());
            &&& l2_queue::waiting_at(before, timestamp) == own[timestamp]
            &&& before.contains_key(timestamp)
            &&& count == 0 ==> after == before
            &&& count > 0 ==> after == l2_queue::advanced(before, timestamp, count)
        }),
{
    let before = unpaired_below(own, other, timestamp as nat);
    let after = unpaired_below(own, other, (timestamp + 1) as nat);
    let count = shorter(own[timestamp].len(), other[timestamp].len());
    if count == 0 {
        assert(own[timestamp].skip(0) =~= own[timestamp]);
        assert(after =~= before);
    } else {
        assert(after =~= l2_queue::advanced(before, timestamp, count));
    }
}

/// Taking blocks off a queue one by one.
pub proof fn lemma_advanced_step(queues: L2Queues, timestamp: u64, count: nat)
    requires
        count < l2_queue::waiting_at(queues, timestamp).len(),
    ensures
        l2_queue::waiting_at(l2_queue::advanced(queues, timestamp, count), timestamp)
            == queues[timestamp].skip(count as int),
        l2_queue::advanced(l2_queue::advanced(queues, timestamp, count), timestamp, 1)
            == l2_queue::advanced(queues, timestamp, count + 1),
        l2_queue::advanced(queues, timestamp, 0) == queues,
{
    let queue = queues[timestamp];
    assert(queue.skip(count as int).skip(1) =~= queue.skip((count + 1) as int));
    assert(queue.skip(0) =~= queue);
    assert(l2_queue::advanced(l2_queue::advanced(queues, timestamp, count), timestamp, 1)
        =~= l2_queue::advanced(queues, timestamp, count + 1));
    assert(l2_queue::advanced(queues, timestamp, 0) =~= queues);
}

/// Why the contents of two blocks differ.
pub fn mismatch_reason(canonical: &NormalizedL2Block, shadow: &NormalizedL2Block) -> (reason:
    L2MismatchReason)
    ensures
        reason == (L2Pair { timestamp: 0, canonical: *canonical, shadow: *shadow }).reason(),
{
    if canonical.epoch_num != shadow.epoch_num {
        L2MismatchReason::Origin
    } else if canonical.tx_count() != shadow.tx_count() {
        L2MismatchReason::TxCount
    } else {
        L2MismatchReason::TxHash
    }
}

/// Compares the blocks of a pair and records the result.
pub fn compare_l2_pair(
    timestamp: u64,
    canonical: &NormalizedL2Block,
    shadow: &NormalizedL2Block,
    l1_block: u64,
    metrics: &mut BatcherServiceMetrics,
    log: &mut DivergenceLog,
) -> (is_match: bool)
    ensures
        is_match == canonical.same_content(*shadow),
        final(log)@ == old(log)@ + (L2Pair {
            timestamp,
            canonical: *canonical,
            shadow: *shadow,
        }).divergences(l1_block),
        final(metrics)@ == old(metrics)@ + (L2Pair {
            timestamp,
            canonical: *canonical,
            shadow: *shadow,
        }).events(l1_block),
{
    let ghost recorded = metrics@;
    let ghost logged = log@;
    let ghost pair = L2Pair { timestamp, canonical: *canonical, shadow: *shadow };
    let is_match = canonical.content_matches(shadow);
    if is_match {
        metrics.increment(Counter::L2BlockMatches, 1);
        if canonical.tx_count() > 0 {
            metrics.increment(Counter::L2BlockNonEmptyMatches, 1);
        }
        metrics.set(Gauge::LastL2BlockMatchTimestamp, timestamp);
        metrics.set(Gauge::LastL2BlockMatchL1Block, l1_block);
    } else {
        metrics.increment(Counter::L2BlockMismatches, 1);
        metrics.set(Gauge::LastL2BlockMismatchTimestamp, timestamp);
        metrics.set(Gauge::LastL2BlockMismatchL1Block, l1_block);
        let reason = mismatch_reason(canonical, shadow);
        metrics.increment(reason.counter(), 1);
        log.record(
            Divergence::L2Block(
                L2Divergence {
                    l1_block,
                    l2_timestamp: timestamp,
                    canonical_epoch: canonical.epoch_num,
                    shadow_epoch: shadow.epoch_num,
                    canonical_tx_count: canonical.tx_count(),
                    shadow_tx_count: shadow.tx_count(),
                    reason,
                },
            ),
        );
    }
    assert(metrics@ =~= recorded + pair.events(l1_block));
    assert(log@ =~= logged + pair.divergences(l1_block));
    is_match
}

/// Compares the batches of a pair and records the result.
pub fn compare_batch_pair(
    canonical: &NormalizedBatch,
    shadow: &NormalizedBatch,
    l1_block: u64,
    metrics: &mut BatcherServiceMetrics,
    log: &mut DivergenceLog,
) -> (is_match: bool)
    ensures
        is_match == (canonical@ == shadow@),
        final(log)@ == old(log)@ + batch_pair_divergences(*canonical, *shadow, l1_block),
        final(metrics)@ == old(metrics)@ + batch_pair_events(is_match, l1_block),
{
    let ghost recorded = metrics@;
    let ghost logged = log@;
    let is_match = canonical.matches(shadow);
    if is_match {
        metrics.increment(Counter::Matches, 1);
        metrics.set(Gauge::LastMatchL1Block, l1_block);
    } else {
        metrics.increment(Counter::Divergences, 1);
        metrics.set(Gauge::LastDivergenceL1Block, l1_block);
        log.record(
            Divergence::Batch(
                BatchDivergence {
                    l1_block,
                    canonical_start_timestamp: canonical.start_timestamp,
                    canonical_end_timestamp: canonical.end_timestamp,
                    canonical_start_epoch: canonical.start_epoch_num,
                    canonical_end_epoch: canonical.end_epoch_num,
                    shadow_start_timestamp: shadow.start_timestamp,
                    shadow_end_timestamp: shadow.end_timestamp,
                    shadow_start_epoch: shadow.start_epoch_num,
                    shadow_end_epoch: shadow.end_epoch_num,
                },
            ),
        );
    }
    assert(log@ =~= logged + batch_pair_divergences(*canonical, *shadow, l1_block));
    assert(metrics@ =~= recorded + batch_pair_events(is_match, l1_block));
    is_match
}

} // verus!
